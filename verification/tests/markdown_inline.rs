use stoat_components::markdown::inline::{inline_parser, parse_elements, Inline, InlineParserElement, TextSpan};

fn span(text: &str) -> Inline {
    Inline::Span(TextSpan {
        text: text.to_string(),
        bold: false,
        italic: false,
        strikethrough: false,
        code: false,
        link: false,
        spoiler: false,
    })
}

#[test]
fn plain_text_is_one_span() {
    assert_eq!(parse_elements("hello world", false, false, false), vec![span("hello world")]);
}

#[test]
fn user_mention_between_text() {
    let got = parse_elements("hi <@01ARZ3NDEKTSV4RRFFQ69G5FAV>!", false, false, false);
    assert_eq!(
        got,
        vec![
            span("hi "),
            Inline::UserMention { id: "01ARZ3NDEKTSV4RRFFQ69G5FAV".to_string() },
            span("!"),
        ]
    );
}

#[test]
fn spans_carry_the_emphasis_around_them() {
    let got = parse_elements("a ||b|| https://x.org", true, false, true);
    for inline in &got {
        if let Inline::Span(s) = inline {
            assert!(s.bold && !s.italic && s.strikethrough && !s.code && !s.spoiler);
        }
    }
    assert_eq!(got.len(), 4);
    match &got[3] {
        Inline::Span(s) => {
            assert_eq!(s.text, "https://x.org");
            assert!(s.link);
        }
        other => panic!("expected a link span, got {:?}", other),
    }
}

fn source_of(t: &InlineParserElement) -> String {
    match t {
        InlineParserElement::Text(s) => s.clone(),
        InlineParserElement::UserMention(id) => format!("<@{}>", id),
        InlineParserElement::ChannelMention(id) => format!("<#{}>", id),
        InlineParserElement::RoleMention(id) => format!("<%{}>", id),
        InlineParserElement::Emoji(id) => format!(":{}:", id),
        InlineParserElement::Link { url, text, .. } => format!("[{}]({})", text, url),
        InlineParserElement::Hyperlink(s) => s.clone(),
        InlineParserElement::Spoiler(s) => format!("||{}||", s),
    }
}

#[test]
fn elements_spell_the_input_again() {
    let input = "a <#01ARZ3NDEKTSV4RRFFQ69G5FAV> :01ARZ3NDEKTSV4RRFFQ69G5FAV: [x](https://e.org) ||s|| https://stoat.chat b";
    let chars: Vec<char> = input.chars().collect();
    let tokens = inline_parser(&chars);
    assert!(tokens.iter().any(|t| matches!(t, InlineParserElement::ChannelMention(_))));
    assert!(tokens.iter().any(|t| matches!(t, InlineParserElement::Emoji(_))));
    assert!(tokens.iter().any(|t| matches!(t, InlineParserElement::Link { .. })));
    assert!(tokens.iter().any(|t| matches!(t, InlineParserElement::Spoiler(_))));
    assert!(tokens.iter().any(|t| matches!(t, InlineParserElement::Hyperlink(_))));
    let back: String = tokens.iter().map(source_of).collect();
    assert_eq!(back, input);
}

fn all_styled(xs: &[Inline], bold: bool, italic: bool, strike: bool) -> bool {
    xs.iter().all(|x| match x {
        Inline::Span(s) => s.bold == bold && s.italic == italic && s.strikethrough == strike && !s.code && !s.spoiler,
        Inline::Link { text, .. } => all_styled(text, bold, italic, strike),
        Inline::Spoiler(v) => all_styled(v, bold, italic, strike),
        _ => true,
    })
}

#[test]
fn nested_content_is_merged_and_styled() {
    let got = parse_elements("ab ||c [d](https://e.org) f|| g https://x.org h", true, false, true);
    assert!(all_styled(&got, true, false, true));
    for w in got.windows(2) {
        let plain = |x: &Inline| matches!(x, Inline::Span(s) if !s.link);
        assert!(!(plain(&w[0]) && plain(&w[1])));
    }
    assert!(parse_elements("", true, true, true).is_empty());
    assert!(!parse_elements(" ", false, false, false).is_empty());
}
