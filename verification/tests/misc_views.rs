use stoat_components::dropdown::{border_tone, dropdown_open, BorderTone, DropdownEvent};
use stoat_components::cards::server_initials;
use stoat_components::markdown::inline::TextSpan;
use stoat_components::markdown::view::{span_style, Decoration, SpanStyle};
use stoat_components::model::{shows_member_list, ChannelIcon, ChannelInfo};
use stoat_components::gif::{
    category_rows, opening_requests, trending_placeholder, GifAction, GifPicker, GifResponse, GifResult, GifSearchRequest,
    GifTrendingRequest,
};
use stoat_components::markdown::blocks::{HeadingLevel, MarkdownElement};
use stoat_components::markdown::view::{code_label, heading_scale_tenths, image_text, ordered_item_label, separator};
use stoat_components::search::MessageSort;

#[test]
fn sort_labels() {
    assert_eq!(MessageSort::Relevance.label(), "Relevance");
    assert_eq!(MessageSort::Oldest.label(), "Oldest");
    assert_eq!(MessageSort::all(), vec![MessageSort::Relevance, MessageSort::Latest, MessageSort::Oldest]);
}

fn search(q: &str) -> GifAction {
    GifAction::Search {
        request: GifSearchRequest { query: q.to_string(), locale: "en_US".to_string(), limit: Some(50) },
        delay_ms: 500,
    }
}

fn gif(id: &str) -> GifResult {
    GifResult { id: id.to_string(), url: format!("https://gif/{}", id) }
}

#[test]
fn gif_picker_state() {
    let mut s = GifPicker::new();
    assert!(!s.showing_results());
    assert_eq!(
        s.press_category(true, "Trending GIFs"),
        GifAction::FetchTrending(GifTrendingRequest { locale: "en_US".to_string(), limit: Some(50) })
    );
    assert!(s.on_trending && s.showing_results());
    assert_eq!(s.set_query("cats".to_string()), search("cats"));
    assert!(!s.on_trending);
    assert_eq!(s.back(), GifAction::ClearResults);
    assert!(!s.showing_results());
    assert_eq!(s.press_category(false, "dogs"), search("dogs"));
    assert_eq!(s.query, "dogs");
}

#[test]
fn gif_replies_replace_the_results() {
    let mut s = GifPicker::new();
    s.set_query("cats".to_string());
    s.receive(Some(GifResponse { results: vec![gif("a"), gif("b")], next: Some("2".to_string()) }));
    assert_eq!(s.results, vec![gif("a"), gif("b")]);
    assert_eq!(s.next, Some("2".to_string()));
    s.receive(None);
    assert_eq!(s.results, vec![gif("a"), gif("b")]);
    s.receive(Some(GifResponse { results: vec![gif("c")], next: None }));
    assert_eq!(s.results, vec![gif("c")]);
    assert_eq!(s.set_query(String::new()), GifAction::ClearResults);
    assert!(s.results.is_empty());
}

#[test]
fn gif_picker_opens_with_categories_and_one_trending_gif() {
    let (cats, trending) = opening_requests();
    assert_eq!(cats.locale, "en_US");
    assert_eq!(trending, GifTrendingRequest { locale: "en_US".to_string(), limit: Some(1) });
    assert_eq!(trending_placeholder(GifResponse { results: vec![gif("x"), gif("y")], next: None }), Some(gif("x")));
    assert_eq!(trending_placeholder(GifResponse { results: vec![], next: None }), None);
}

#[test]
fn category_tiles_two_to_a_row() {
    let (first, rows) = category_rows(vec![1, 2, 3, 4]);
    assert_eq!(first, Some(1));
    assert_eq!(rows, vec![(2, Some(3)), (4, None)]);
    let (first, rows) = category_rows(Vec::<u8>::new());
    assert_eq!(first, None);
    assert!(rows.is_empty());
}

#[test]
fn markdown_layout() {
    assert_eq!(heading_scale_tenths(HeadingLevel::H1), 20);
    assert_eq!(heading_scale_tenths(HeadingLevel::H6), 8);
    let h = MarkdownElement::Heading { level: HeadingLevel::H2, content: vec![] };
    assert_eq!(separator(&h, false), "\n");
    assert_eq!(separator(&h, true), "");
    let p = MarkdownElement::Paragraph { content: vec![] };
    assert_eq!(separator(&p, false), "\n\n");
    assert_eq!(separator(&MarkdownElement::HorizontalRule, false), "");
    assert_eq!(ordered_item_label(3, 2), "5.");
    assert_eq!(image_text("cat"), "[Image: cat]");
    assert_eq!(code_label(&Some("rust".to_string())), "RUST");
    assert_eq!(code_label(&None), "TXT");
}

#[test]
fn span_styles() {
    let mut s = TextSpan::new("x".to_string());
    s.strikethrough = true;
    assert_eq!(
        span_style(&s, true, true, false),
        SpanStyle { code: false, bold: true, italic: false, decoration: Decoration::LineThrough, hyperlink: false, primary: true }
    );
    assert_eq!(span_style(&s, false, false, true).decoration, Decoration::Underline);
    s.code = true;
    assert!(span_style(&s, true, true, true).code);
    assert!(!span_style(&s, true, true, true).bold);
    let mut u = TextSpan::new("https://x.org".to_string());
    u.link = true;
    let st = span_style(&u, false, true, false);
    assert!(st.hyperlink && !st.primary);
}

#[test]
fn channel_header_and_server_initials() {
    let saved = ChannelInfo::SavedMessages { id: "n".to_string(), user: "me".to_string() };
    assert_eq!(saved.header_icon(), ChannelIcon::Notebook);
    let dm = ChannelInfo::DirectMessage { id: "d".to_string(), active: true, recipients: vec![], last_message_id: None };
    assert_eq!(dm.header_icon(), ChannelIcon::AtSign);
    assert!(shows_member_list(true, false));
    assert!(!shows_member_list(true, true));
    assert!(!shows_member_list(false, false));
    assert_eq!(server_initials("Rust Lang Community"), "RL");
    assert_eq!(server_initials(" solo"), "s");
}

#[test]
fn dropdown_state() {
    assert!(dropdown_open(false, DropdownEvent::Press));
    assert!(!dropdown_open(true, DropdownEvent::Press));
    assert!(!dropdown_open(true, DropdownEvent::Escape));
    assert!(!dropdown_open(true, DropdownEvent::GlobalPress));
    assert!(!dropdown_open(true, DropdownEvent::FocusLeft));
    assert!(dropdown_open(false, DropdownEvent::Enter { focused: true }));
    assert!(dropdown_open(true, DropdownEvent::Enter { focused: false }));
    assert_eq!(border_tone(true, true), BorderTone::Primary);
    assert_eq!(border_tone(false, true), BorderTone::OnSurface);
    assert_eq!(border_tone(false, false), BorderTone::Outline);
}
