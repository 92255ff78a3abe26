use stoat_components::markdown::blocks::{
    elements_from_events, parse_markdown, HeadingLevel, MarkdownElement, MdEvent, MdTag, MdTagEnd,
};
use stoat_components::markdown::inline::{Inline, TextSpan};

fn span(text: &str) -> Inline {
    Inline::Span(TextSpan::new(text.to_string()))
}

fn italic(text: &str) -> Inline {
    let mut s = TextSpan::new(text.to_string());
    s.italic = true;
    Inline::Span(s)
}

#[test]
fn heading_then_paragraph() {
    assert_eq!(
        parse_markdown("# Title\n\nSome *text*"),
        vec![
            MarkdownElement::Heading { level: HeadingLevel::H1, content: vec![span("Title")] },
            MarkdownElement::Paragraph { content: vec![span("Some "), italic("text")] },
        ]
    );
}

#[test]
fn lists() {
    assert_eq!(
        parse_markdown("- a\n- b"),
        vec![MarkdownElement::UnorderedList { items: vec![vec![span("a")], vec![span("b")]] }]
    );
    assert_eq!(
        parse_markdown("3. x\n4. y"),
        vec![MarkdownElement::OrderedList { start: 3, items: vec![vec![span("x")], vec![span("y")]] }]
    );
}

#[test]
fn fenced_code_keeps_its_language() {
    assert_eq!(
        parse_markdown("```rust\nfn a() {}\n```"),
        vec![MarkdownElement::CodeBlock { code: "fn a() {}".to_string(), language: Some("rust".to_string()) }]
    );
}

#[test]
fn rule_and_mentions_in_paragraphs() {
    assert_eq!(
        parse_markdown("hi <#01ARZ3NDEKTSV4RRFFQ69G5FAV>\n\n---"),
        vec![
            MarkdownElement::Paragraph {
                content: vec![span("hi "), Inline::ChannelMention { id: "01ARZ3NDEKTSV4RRFFQ69G5FAV".to_string() }]
            },
            MarkdownElement::HorizontalRule,
        ]
    );
}

#[test]
fn tables_have_headers_and_rows() {
    assert_eq!(
        parse_markdown("|a|b|\n|-|-|\n|1|2|"),
        vec![MarkdownElement::Table {
            headers: vec![vec![span("a")], vec![span("b")]],
            rows: vec![vec![vec![span("1")], vec![span("2")]]],
        }]
    );
}

#[test]
fn paragraph_events_give_one_paragraph() {
    let events = vec![
        MdEvent::Start(MdTag::Paragraph),
        MdEvent::Text("a".to_string()),
        MdEvent::SoftBreak,
        MdEvent::Code("b".to_string()),
        MdEvent::End(MdTagEnd::Paragraph),
    ];
    let got = elements_from_events(&events);
    assert_eq!(got.len(), 1);
    assert!(matches!(got[0], MarkdownElement::Paragraph { .. }));
}

#[test]
fn list_events_give_one_list_with_an_entry_per_item() {
    let mut events = vec![MdEvent::Start(MdTag::List(Some(3)))];
    for t in ["x", "y", "z"] {
        events.push(MdEvent::Start(MdTag::Item));
        events.push(MdEvent::Text(t.to_string()));
        events.push(MdEvent::End(MdTagEnd::Item));
    }
    events.push(MdEvent::End(MdTagEnd::List));
    let got = elements_from_events(&events);
    assert_eq!(got, vec![MarkdownElement::OrderedList { start: 3, items: vec![vec![span("x")], vec![span("y")], vec![span("z")]] }]);
    let got = parse_markdown("- x\n- y\n");
    assert_eq!(got, vec![MarkdownElement::UnorderedList { items: vec![vec![span("x")], vec![span("y")]] }]);
}
