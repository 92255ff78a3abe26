//! Block structure of a message: headings, paragraphs, code blocks, lists,
//! images, block quotes, tables and rules, built from the event stream of a
//! CommonMark parser.

use vstd::prelude::*;
use crate::markdown::inline::{Inline, InlineV, SpanV, TextSpan, inline_view, inlines_view, spec_inlines, parse_elements};
use crate::text::spec_trim;
use pulldown_cmark::{Event, Tag, TagEnd};
use pulldown_cmark::HeadingLevel as CmarkLevel;

verus! {

/// Level of a heading.
#[derive(Clone, Copy, Debug, PartialEq, Eq)]
pub enum HeadingLevel {
    H1,
    H2,
    H3,
    H4,
    H5,
    H6,
}

/// How a code block was written.
#[derive(Clone, Debug, PartialEq)]
pub enum CodeBlockKind {
    /// Between fences, with the info string after the opening fence.
    Fenced(String),
    Indented,
}

/// The start of a container in the event stream.
#[derive(Clone, Debug, PartialEq)]
pub enum MdTag {
    Paragraph,
    Heading(HeadingLevel),
    BlockQuote,
    CodeBlock(CodeBlockKind),
    List(Option<u64>),
    Item,
    Table,
    TableHead,
    TableRow,
    TableCell,
    Emphasis,
    Strong,
    Strikethrough,
    Link { dest_url: String, title: String },
    Image { dest_url: String, title: String },
    /// A container this client does not render (HTML blocks, footnotes,
    /// definition lists, super- and subscript, metadata).
    Other,
}

/// The end of a container in the event stream.
#[derive(Clone, Copy, Debug, PartialEq, Eq)]
pub enum MdTagEnd {
    Paragraph,
    Heading,
    BlockQuote,
    CodeBlock,
    List,
    Item,
    Table,
    TableHead,
    TableRow,
    TableCell,
    Emphasis,
    Strong,
    Strikethrough,
    Link,
    Other,
}

/// One event of a CommonMark parse.
#[derive(Clone, Debug, PartialEq)]
pub enum MdEvent {
    Start(MdTag),
    End(MdTagEnd),
    Text(String),
    Code(String),
    SoftBreak,
    HardBreak,
    Rule,
    /// An event this client does not render (HTML, math, footnote
    /// references, task-list markers).
    Other,
}

/// A block of a rendered message.
#[derive(Debug, PartialEq)]
pub enum MarkdownElement {
    Heading { level: HeadingLevel, content: Vec<Inline> },
    Paragraph { content: Vec<Inline> },
    CodeBlock { code: String, language: Option<String> },
    UnorderedList { items: Vec<Vec<Inline>> },
    OrderedList { start: u64, items: Vec<Vec<Inline>> },
    Image { url: String, alt: String },
    Blockquote { content: Vec<Inline> },
    Table { headers: Vec<Vec<Inline>>, rows: Vec<Vec<Vec<Inline>>> },
    HorizontalRule,
}

/// Mathematical value of a [`MarkdownElement`].
pub enum ElementV {
    Heading { level: HeadingLevel, content: Seq<InlineV> },
    Paragraph { content: Seq<InlineV> },
    CodeBlock { code: Seq<char>, language: Option<Seq<char>> },
    UnorderedList { items: Seq<Seq<InlineV>> },
    OrderedList { start: u64, items: Seq<Seq<InlineV>> },
    Image { url: Seq<char>, alt: Seq<char> },
    Blockquote { content: Seq<InlineV> },
    Table { headers: Seq<Seq<InlineV>>, rows: Seq<Seq<Seq<InlineV>>> },
    HorizontalRule,
}

/// Values of a list of inline sequences (list items, table cells).
pub open spec fn rows_view(v: Seq<Vec<Inline>>) -> Seq<Seq<InlineV>> {
    v.map_values(|x: Vec<Inline>| inlines_view(x@))
}

/// Values of a list of table rows.
pub open spec fn table_view(v: Seq<Vec<Vec<Inline>>>) -> Seq<Seq<Seq<InlineV>>> {
    v.map_values(|x: Vec<Vec<Inline>>| rows_view(x@))
}

pub open spec fn opt_view(o: Option<String>) -> Option<Seq<char>> {
    match o {
        Some(s) => Some(s@),
        None => None,
    }
}

impl View for MarkdownElement {
    type V = ElementV;

    open spec fn view(&self) -> ElementV {
        match self {
            MarkdownElement::Heading { level, content } => ElementV::Heading {
                level: *level,
                content: inlines_view(content@),
            },
            MarkdownElement::Paragraph { content } => ElementV::Paragraph {
                content: inlines_view(content@),
            },
            MarkdownElement::CodeBlock { code, language } => ElementV::CodeBlock {
                code: code@,
                language: opt_view(*language),
            },
            MarkdownElement::UnorderedList { items } => ElementV::UnorderedList {
                items: rows_view(items@),
            },
            MarkdownElement::OrderedList { start, items } => ElementV::OrderedList {
                start: *start,
                items: rows_view(items@),
            },
            MarkdownElement::Image { url, alt } => ElementV::Image { url: url@, alt: alt@ },
            MarkdownElement::Blockquote { content } => ElementV::Blockquote {
                content: inlines_view(content@),
            },
            MarkdownElement::Table { headers, rows } => ElementV::Table {
                headers: rows_view(headers@),
                rows: table_view(rows@),
            },
            MarkdownElement::HorizontalRule => ElementV::HorizontalRule,
        }
    }
}

pub open spec fn elements_view(v: Seq<MarkdownElement>) -> Seq<ElementV> {
    v.map_values(|e: MarkdownElement| e@)
}

// ---------------------------------------------------------------------------
// The builder, as a state machine over events
// ---------------------------------------------------------------------------

/// What the builder holds between events.
pub struct BuildV {
    pub elements: Seq<ElementV>,
    pub current_content: Seq<InlineV>,
    pub list_items: Seq<Seq<InlineV>>,
    pub current_list_item: Seq<InlineV>,
    pub in_heading: Option<HeadingLevel>,
    pub in_paragraph: bool,
    pub in_code_block: bool,
    pub code_block_content: Seq<char>,
    pub code_block_language: Option<Seq<char>>,
    pub ordered_list_start: Option<u64>,
    pub in_list_item: bool,
    pub in_blockquote: bool,
    pub blockquote_spans: Seq<InlineV>,
    pub in_table_cell: bool,
    pub table_headers: Seq<Seq<InlineV>>,
    pub table_rows: Seq<Seq<Seq<InlineV>>>,
    pub current_table_row: Seq<Seq<InlineV>>,
    pub current_cell_spans: Seq<InlineV>,
    pub in_link: bool,
    pub link_url: Option<Seq<char>>,
    pub link_title: Option<Seq<char>>,
    pub link_spans: Seq<InlineV>,
    pub bold: bool,
    pub italic: bool,
    pub strikethrough: bool,
}

/// The builder before the first event.
pub open spec fn initial_build() -> BuildV {
    BuildV {
        elements: Seq::empty(),
        current_content: Seq::empty(),
        list_items: Seq::empty(),
        current_list_item: Seq::empty(),
        in_heading: None,
        in_paragraph: false,
        in_code_block: false,
        code_block_content: Seq::empty(),
        code_block_language: None,
        ordered_list_start: None,
        in_list_item: false,
        in_blockquote: false,
        blockquote_spans: Seq::empty(),
        in_table_cell: false,
        table_headers: Seq::empty(),
        table_rows: Seq::empty(),
        current_table_row: Seq::empty(),
        current_cell_spans: Seq::empty(),
        in_link: false,
        link_url: None,
        link_title: None,
        link_spans: Seq::empty(),
        bold: false,
        italic: false,
        strikethrough: false,
    }
}

/// Text appended to inline content: where the content ends with plain text
/// of the same emphasis (and not code), that text is taken back and parsed
/// again together with the new text.
pub open spec fn absorb_text(spans: Seq<InlineV>, text: Seq<char>, bold: bool, italic: bool, strikethrough: bool) -> Seq<InlineV> {
    if spans.len() > 0 && spans.last() is Span && !spans.last()->Span_0.code
        && spans.last()->Span_0.italic == italic && spans.last()->Span_0.bold == bold
        && spans.last()->Span_0.strikethrough == strikethrough {
        spans.drop_last() + spec_inlines(
            spans.last()->Span_0.text + text,
            bold,
            italic,
            strikethrough,
        )
    } else {
        spans + spec_inlines(text, bold, italic, strikethrough)
    }
}

/// A code span with the current emphasis.
pub open spec fn code_span(text: Seq<char>, b: BuildV) -> InlineV {
    InlineV::Span(
        SpanV {
            text,
            bold: b.bold,
            italic: b.italic,
            strikethrough: b.strikethrough,
            code: true,
            link: false,
            spoiler: false,
        },
    )
}

/// A line break.
pub open spec fn break_span() -> InlineV {
    InlineV::Span(
        SpanV {
            text: seq!['\n'],
            bold: false,
            italic: false,
            strikethrough: false,
            code: false,
            link: false,
            spoiler: false,
        },
    )
}

/// The builder after the start of a container.
pub open spec fn start_step(b: BuildV, tag: MdTag) -> BuildV {
    match tag {
        MdTag::Heading(level) => BuildV { in_heading: Some(level), current_content: Seq::empty(), ..b },
        MdTag::Paragraph => {
            if b.in_blockquote || b.in_list_item {
                b
            } else {
                BuildV { in_paragraph: true, current_content: Seq::empty(), ..b }
            }
        },
        MdTag::CodeBlock(kind) => BuildV {
            in_code_block: true,
            code_block_content: Seq::empty(),
            code_block_language: match kind {
                CodeBlockKind::Fenced(lang) => if lang@.len() == 0 {
                    None
                } else {
                    Some(lang@)
                },
                CodeBlockKind::Indented => None,
            },
            ..b
        },
        MdTag::List(start) => BuildV { ordered_list_start: start, list_items: Seq::empty(), ..b },
        MdTag::Item => BuildV { in_list_item: true, current_list_item: Seq::empty(), ..b },
        MdTag::Strong => BuildV { bold: true, ..b },
        MdTag::Emphasis => BuildV { italic: true, ..b },
        MdTag::Strikethrough => BuildV { strikethrough: true, ..b },
        MdTag::BlockQuote => BuildV { in_blockquote: true, blockquote_spans: Seq::empty(), ..b },
        MdTag::Image { dest_url, title } => BuildV {
            elements: b.elements.push(ElementV::Image { url: dest_url@, alt: title@ }),
            ..b
        },
        MdTag::Link { dest_url, title } => BuildV {
            in_link: true,
            link_url: Some(dest_url@),
            link_title: Some(title@),
            link_spans: Seq::empty(),
            ..b
        },
        MdTag::Table => BuildV {
            table_headers: Seq::empty(),
            table_rows: Seq::empty(),
            current_table_row: Seq::empty(),
            ..b
        },
        MdTag::TableHead => b,
        MdTag::TableRow => BuildV { current_table_row: Seq::empty(), ..b },
        MdTag::TableCell => BuildV { in_table_cell: true, current_cell_spans: Seq::empty(), ..b },
        MdTag::Other => b,
    }
}

/// The builder after a finished link is placed where inline content goes.
pub open spec fn place_link(b: BuildV, link: InlineV) -> BuildV {
    if b.in_table_cell {
        BuildV { current_cell_spans: b.current_cell_spans.push(link), ..b }
    } else if b.in_blockquote {
        BuildV { blockquote_spans: b.blockquote_spans.push(link), ..b }
    } else if b.in_list_item {
        BuildV { current_list_item: b.current_list_item.push(link), ..b }
    } else if b.in_link {
        BuildV { link_spans: b.link_spans.push(link), ..b }
    } else {
        BuildV { current_content: b.current_content.push(link), ..b }
    }
}

/// The builder after the end of a container.
pub open spec fn end_step(b: BuildV, tag: MdTagEnd) -> BuildV {
    match tag {
        MdTagEnd::Heading => match b.in_heading {
            Some(level) => BuildV {
                elements: b.elements.push(
                    ElementV::Heading { level, content: b.current_content },
                ),
                current_content: Seq::empty(),
                in_heading: None,
                ..b
            },
            None => b,
        },
        MdTagEnd::Paragraph => {
            if b.in_blockquote {
                BuildV {
                    blockquote_spans: b.blockquote_spans + b.current_content,
                    current_content: Seq::empty(),
                    ..b
                }
            } else if b.in_list_item {
                BuildV {
                    current_list_item: b.current_list_item + b.current_content,
                    current_content: Seq::empty(),
                    ..b
                }
            } else if b.in_paragraph {
                BuildV {
                    in_paragraph: false,
                    elements: b.elements.push(ElementV::Paragraph { content: b.current_content }),
                    current_content: Seq::empty(),
                    ..b
                }
            } else {
                b
            }
        },
        MdTagEnd::CodeBlock => BuildV {
            in_code_block: false,
            elements: b.elements.push(
                ElementV::CodeBlock { code: b.code_block_content, language: b.code_block_language },
            ),
            code_block_content: Seq::empty(),
            code_block_language: None,
            ..b
        },
        MdTagEnd::List => BuildV {
            elements: b.elements.push(
                match b.ordered_list_start {
                    Some(start) => ElementV::OrderedList { start, items: b.list_items },
                    None => ElementV::UnorderedList { items: b.list_items },
                },
            ),
            list_items: Seq::empty(),
            ordered_list_start: None,
            ..b
        },
        MdTagEnd::Item => BuildV {
            in_list_item: false,
            list_items: b.list_items.push(b.current_list_item),
            current_list_item: Seq::empty(),
            ..b
        },
        MdTagEnd::Strong => BuildV { bold: false, ..b },
        MdTagEnd::Emphasis => BuildV { italic: false, ..b },
        MdTagEnd::Strikethrough => BuildV { strikethrough: false, ..b },
        MdTagEnd::BlockQuote => BuildV {
            in_blockquote: false,
            elements: b.elements.push(ElementV::Blockquote { content: b.blockquote_spans }),
            blockquote_spans: Seq::empty(),
            ..b
        },
        MdTagEnd::Table => BuildV {
            elements: b.elements.push(
                ElementV::Table { headers: b.table_headers, rows: b.table_rows },
            ),
            table_headers: Seq::empty(),
            table_rows: Seq::empty(),
            ..b
        },
        MdTagEnd::TableHead => BuildV {
            table_headers: b.current_table_row,
            current_table_row: Seq::empty(),
            ..b
        },
        MdTagEnd::TableRow => BuildV {
            table_rows: b.table_rows.push(b.current_table_row),
            current_table_row: Seq::empty(),
            ..b
        },
        MdTagEnd::TableCell => BuildV {
            in_table_cell: false,
            current_table_row: b.current_table_row.push(b.current_cell_spans),
            current_cell_spans: Seq::empty(),
            ..b
        },
        MdTagEnd::Link => {
            let b1 = BuildV { in_link: false, ..b };
            match b1.link_url {
                Some(url) => {
                    let link = InlineV::Link { url, title: b1.link_title, text: b1.link_spans };
                    place_link(
                        BuildV { link_url: None, link_title: None, link_spans: Seq::empty(), ..b1 },
                        link,
                    )
                },
                None => b1,
            }
        },
        MdTagEnd::Other => b,
    }
}

/// The builder after some text.
pub open spec fn text_step(b: BuildV, text: Seq<char>) -> BuildV {
    if b.in_code_block {
        BuildV { code_block_content: b.code_block_content + spec_trim(text), ..b }
    } else if b.in_table_cell {
        BuildV {
            current_cell_spans: absorb_text(b.current_cell_spans, text, b.bold, b.italic, b.strikethrough),
            ..b
        }
    } else if b.in_blockquote && !b.in_paragraph {
        BuildV {
            blockquote_spans: absorb_text(b.blockquote_spans, text, b.bold, b.italic, b.strikethrough),
            ..b
        }
    } else if b.in_list_item && !b.in_paragraph {
        BuildV {
            current_list_item: absorb_text(b.current_list_item, text, b.bold, b.italic, b.strikethrough),
            ..b
        }
    } else if b.in_link {
        BuildV {
            link_spans: absorb_text(b.link_spans, text, b.bold, b.italic, b.strikethrough),
            ..b
        }
    } else {
        BuildV {
            current_content: absorb_text(b.current_content, text, b.bold, b.italic, b.strikethrough),
            ..b
        }
    }
}

/// The builder after an inline code span.
pub open spec fn code_step(b: BuildV, code: Seq<char>) -> BuildV {
    place_link(b, code_span(code, b))
}

/// The builder after a soft or hard line break.
pub open spec fn break_step(b: BuildV) -> BuildV {
    if b.in_blockquote {
        BuildV { blockquote_spans: b.blockquote_spans.push(break_span()), ..b }
    } else if b.in_list_item {
        BuildV { current_list_item: b.current_list_item.push(break_span()), ..b }
    } else if b.in_link {
        BuildV { link_spans: b.link_spans.push(break_span()), ..b }
    } else {
        BuildV { current_content: b.current_content.push(break_span()), ..b }
    }
}

/// The builder after one event.
pub open spec fn build_step(b: BuildV, ev: MdEvent) -> BuildV {
    match ev {
        MdEvent::Start(tag) => start_step(b, tag),
        MdEvent::End(tag) => end_step(b, tag),
        MdEvent::Text(text) => text_step(b, text@),
        MdEvent::Code(code) => code_step(b, code@),
        MdEvent::SoftBreak | MdEvent::HardBreak => break_step(b),
        MdEvent::Rule => BuildV { elements: b.elements.push(ElementV::HorizontalRule), ..b },
        MdEvent::Other => b,
    }
}

/// The builder after a sequence of events.
pub open spec fn build_run(events: Seq<MdEvent>) -> BuildV
    decreases events.len(),
{
    if events.len() == 0 {
        initial_build()
    } else {
        build_step(build_run(events.drop_last()), events.last())
    }
}

/// The blocks a sequence of events describes.
pub open spec fn spec_elements_from_events(events: Seq<MdEvent>) -> Seq<ElementV> {
    build_run(events).elements
}


// ---------------------------------------------------------------------------
// The builder
// ---------------------------------------------------------------------------

proof fn lemma_inlines_view_push(s: Seq<Inline>, x: Inline)
    ensures
        inlines_view(s.push(x)) == inlines_view(s).push(inline_view(x)),
{
    assert(s.push(x).subrange(0, s.len() as int) =~= s);
}

proof fn lemma_inlines_view_concat(a: Seq<Inline>, b: Seq<Inline>)
    ensures
        inlines_view(a + b) == inlines_view(a) + inlines_view(b),
    decreases b.len(),
{
    if b.len() == 0 {
        assert(a + b =~= a);
        assert(inlines_view(b) =~= Seq::<InlineV>::empty());
        assert(inlines_view(a) + inlines_view(b) =~= inlines_view(a));
    } else {
        let b0 = b.drop_last();
        lemma_inlines_view_concat(a, b0);
        assert(a + b =~= (a + b0).push(b.last()));
        lemma_inlines_view_push(a + b0, b.last());
        assert(b =~= b0.push(b.last()));
        lemma_inlines_view_push(b0, b.last());
        assert(inlines_view(a) + inlines_view(b) =~= (inlines_view(a) + inlines_view(b0)).push(
            inline_view(b.last()),
        ));
    }
}

proof fn lemma_inlines_view_last(s: Seq<Inline>)
    requires
        s.len() > 0,
    ensures
        inlines_view(s).len() == s.len(),
        inlines_view(s).last() == inline_view(s.last()),
        inlines_view(s).drop_last() == inlines_view(s.drop_last()),
{
    lemma_inlines_view_len(s);
    assert(s.drop_last() =~= s.subrange(0, s.len() - 1));
}

proof fn lemma_inlines_view_len(s: Seq<Inline>)
    ensures
        inlines_view(s).len() == s.len(),
    decreases s.len(),
{
    if s.len() > 0 {
        lemma_inlines_view_len(s.subrange(0, s.len() - 1));
    }
}

fn take_vec<T>(v: &mut Vec<T>) -> (r: Vec<T>)
    ensures
        r@ == old(v)@,
        final(v)@ == Seq::<T>::empty(),
{
    let mut out: Vec<T> = Vec::new();
    std::mem::swap(&mut out, v);
    out
}

fn take_string(s: &mut String) -> (r: String)
    ensures
        r@ == old(s)@,
        final(s)@ == Seq::<char>::empty(),
{
    let mut out = String::new();
    std::mem::swap(&mut out, s);
    out
}

/// Text appended to inline content, joined with trailing plain text of the
/// same emphasis.
fn absorb(spans: &mut Vec<Inline>, text: &str, bold: bool, italic: bool, strikethrough: bool)
    ensures
        inlines_view(final(spans)@) == absorb_text(
            inlines_view(old(spans)@),
            text@,
            bold,
            italic,
            strikethrough,
        ),
{
    let ghost old_spans = spans@;
    let n = spans.len();
    let merge = if n > 0 {
        match &spans[n - 1] {
            Inline::Span(last) => !last.code && last.italic == italic && last.bold == bold
                && last.strikethrough == strikethrough,
            _ => false,
        }
    } else {
        false
    };
    proof {
        if n > 0 {
            lemma_inlines_view_last(old_spans);
        }
    }
    let full = if merge {
        let last = spans.pop().unwrap();
        proof {
            assert(spans@ =~= old_spans.drop_last());
        }
        match last {
            Inline::Span(l) => l.text.concat(text),
            _ => String::from_str(text),
        }
    } else {
        String::from_str(text)
    };
    let mut parsed = parse_elements(full.as_str(), bold, italic, strikethrough);
    proof {
        lemma_inlines_view_concat(spans@, parsed@);
    }
    spans.append(&mut parsed);
}

/// The builder's state between events.
struct Builder {
    elements: Vec<MarkdownElement>,
    current_content: Vec<Inline>,
    list_items: Vec<Vec<Inline>>,
    current_list_item: Vec<Inline>,
    in_heading: Option<HeadingLevel>,
    in_paragraph: bool,
    in_code_block: bool,
    code_block_content: String,
    code_block_language: Option<String>,
    ordered_list_start: Option<u64>,
    in_list_item: bool,
    in_blockquote: bool,
    blockquote_spans: Vec<Inline>,
    in_table_cell: bool,
    table_headers: Vec<Vec<Inline>>,
    table_rows: Vec<Vec<Vec<Inline>>>,
    current_table_row: Vec<Vec<Inline>>,
    current_cell_spans: Vec<Inline>,
    in_link: bool,
    link_url: Option<String>,
    link_title: Option<String>,
    link_spans: Vec<Inline>,
    bold: bool,
    italic: bool,
    strikethrough: bool,
}

impl View for Builder {
    type V = BuildV;

    closed spec fn view(&self) -> BuildV {
        BuildV {
            elements: elements_view(self.elements@),
            current_content: inlines_view(self.current_content@),
            list_items: rows_view(self.list_items@),
            current_list_item: inlines_view(self.current_list_item@),
            in_heading: self.in_heading,
            in_paragraph: self.in_paragraph,
            in_code_block: self.in_code_block,
            code_block_content: self.code_block_content@,
            code_block_language: opt_view(self.code_block_language),
            ordered_list_start: self.ordered_list_start,
            in_list_item: self.in_list_item,
            in_blockquote: self.in_blockquote,
            blockquote_spans: inlines_view(self.blockquote_spans@),
            in_table_cell: self.in_table_cell,
            table_headers: rows_view(self.table_headers@),
            table_rows: table_view(self.table_rows@),
            current_table_row: rows_view(self.current_table_row@),
            current_cell_spans: inlines_view(self.current_cell_spans@),
            in_link: self.in_link,
            link_url: opt_view(self.link_url),
            link_title: opt_view(self.link_title),
            link_spans: inlines_view(self.link_spans@),
            bold: self.bold,
            italic: self.italic,
            strikethrough: self.strikethrough,
        }
    }
}

impl Builder {
    fn new() -> (r: Builder)
        ensures
            r@ == initial_build(),
    {
        let r = Builder {
            elements: Vec::new(),
            current_content: Vec::new(),
            list_items: Vec::new(),
            current_list_item: Vec::new(),
            in_heading: None,
            in_paragraph: false,
            in_code_block: false,
            code_block_content: String::new(),
            code_block_language: None,
            ordered_list_start: None,
            in_list_item: false,
            in_blockquote: false,
            blockquote_spans: Vec::new(),
            in_table_cell: false,
            table_headers: Vec::new(),
            table_rows: Vec::new(),
            current_table_row: Vec::new(),
            current_cell_spans: Vec::new(),
            in_link: false,
            link_url: None,
            link_title: None,
            link_spans: Vec::new(),
            bold: false,
            italic: false,
            strikethrough: false,
        };
        proof {
            assert(r@.elements =~= Seq::<ElementV>::empty());
            assert(r@.list_items =~= Seq::<Seq<InlineV>>::empty());
            assert(r@.table_headers =~= Seq::<Seq<InlineV>>::empty());
            assert(r@.table_rows =~= Seq::<Seq<Seq<InlineV>>>::empty());
            assert(r@.current_table_row =~= Seq::<Seq<InlineV>>::empty());
        }
        r
    }

    fn push_element(&mut self, e: MarkdownElement)
        ensures
            final(self)@ == (BuildV { elements: old(self)@.elements.push(e@), ..old(self)@ }),
    {
        let ghost before = self.elements@;
        self.elements.push(e);
        proof {
            assert(elements_view(self.elements@) =~= elements_view(before).push(e@));
        }
    }

    fn start(&mut self, tag: &MdTag)
        ensures
            final(self)@ == start_step(old(self)@, *tag),
    {
        match tag {
            MdTag::Heading(level) => {
                self.in_heading = Some(*level);
                self.current_content = Vec::new();
            },
            MdTag::Paragraph => {
                if self.in_blockquote || self.in_list_item {
                } else {
                    self.in_paragraph = true;
                    self.current_content = Vec::new();
                }
            },
            MdTag::CodeBlock(kind) => {
                self.in_code_block = true;
                self.code_block_content = String::new();
                self.code_block_language = match kind {
                    CodeBlockKind::Fenced(lang) => {
                        if lang.as_str().is_empty() {
                            None
                        } else {
                            Some(lang.clone())
                        }
                    },
                    CodeBlockKind::Indented => None,
                };
            },
            MdTag::List(start) => {
                self.ordered_list_start = *start;
                self.list_items = Vec::new();
                proof {
                    assert(rows_view(self.list_items@) =~= Seq::<Seq<InlineV>>::empty());
                }
            },
            MdTag::Item => {
                self.in_list_item = true;
                self.current_list_item = Vec::new();
            },
            MdTag::Strong => {
                self.bold = true;
            },
            MdTag::Emphasis => {
                self.italic = true;
            },
            MdTag::Strikethrough => {
                self.strikethrough = true;
            },
            MdTag::BlockQuote => {
                self.in_blockquote = true;
                self.blockquote_spans = Vec::new();
            },
            MdTag::Image { dest_url, title } => {
                self.push_element(MarkdownElement::Image { url: dest_url.clone(), alt: title.clone() });
            },
            MdTag::Link { dest_url, title } => {
                self.in_link = true;
                self.link_url = Some(dest_url.clone());
                self.link_title = Some(title.clone());
                self.link_spans = Vec::new();
            },
            MdTag::Table => {
                self.table_headers = Vec::new();
                self.table_rows = Vec::new();
                self.current_table_row = Vec::new();
                proof {
                    assert(rows_view(self.table_headers@) =~= Seq::<Seq<InlineV>>::empty());
                    assert(table_view(self.table_rows@) =~= Seq::<Seq<Seq<InlineV>>>::empty());
                    assert(rows_view(self.current_table_row@) =~= Seq::<Seq<InlineV>>::empty());
                }
            },
            MdTag::TableHead => {},
            MdTag::TableRow => {
                self.current_table_row = Vec::new();
                proof {
                    assert(rows_view(self.current_table_row@) =~= Seq::<Seq<InlineV>>::empty());
                }
            },
            MdTag::TableCell => {
                self.in_table_cell = true;
                self.current_cell_spans = Vec::new();
            },
            MdTag::Other => {},
        }
    }

    /// Puts a finished inline element where inline content currently goes.
    fn place(&mut self, x: Inline)
        ensures
            final(self)@ == place_link(old(self)@, inline_view(x)),
    {
        if self.in_table_cell {
            proof { lemma_inlines_view_push(self.current_cell_spans@, x); }
            self.current_cell_spans.push(x);
        } else if self.in_blockquote {
            proof { lemma_inlines_view_push(self.blockquote_spans@, x); }
            self.blockquote_spans.push(x);
        } else if self.in_list_item {
            proof { lemma_inlines_view_push(self.current_list_item@, x); }
            self.current_list_item.push(x);
        } else if self.in_link {
            proof { lemma_inlines_view_push(self.link_spans@, x); }
            self.link_spans.push(x);
        } else {
            proof { lemma_inlines_view_push(self.current_content@, x); }
            self.current_content.push(x);
        }
    }

    fn end_heading(&mut self)
        ensures
            final(self)@ == end_step(old(self)@, MdTagEnd::Heading),
    {
        match self.in_heading {
            Some(level) => {
                let content = take_vec(&mut self.current_content);
                self.in_heading = None;
                self.push_element(MarkdownElement::Heading { level, content });
            },
            None => {},
        }
    }

    fn end_paragraph(&mut self)
        ensures
            final(self)@ == end_step(old(self)@, MdTagEnd::Paragraph),
    {
        if self.in_blockquote {
            let mut c = take_vec(&mut self.current_content);
            proof { lemma_inlines_view_concat(self.blockquote_spans@, c@); }
            self.blockquote_spans.append(&mut c);
        } else if self.in_list_item {
            let mut c = take_vec(&mut self.current_content);
            proof { lemma_inlines_view_concat(self.current_list_item@, c@); }
            self.current_list_item.append(&mut c);
        } else if self.in_paragraph {
            self.in_paragraph = false;
            let content = take_vec(&mut self.current_content);
            self.push_element(MarkdownElement::Paragraph { content });
        }
    }

    fn end_code_block(&mut self)
        ensures
            final(self)@ == end_step(old(self)@, MdTagEnd::CodeBlock),
    {
        self.in_code_block = false;
        let code = take_string(&mut self.code_block_content);
        let mut language: Option<String> = None;
        std::mem::swap(&mut language, &mut self.code_block_language);
        self.push_element(MarkdownElement::CodeBlock { code, language });
    }

    fn end_list(&mut self)
        ensures
            final(self)@ == end_step(old(self)@, MdTagEnd::List),
    {
        let items = take_vec(&mut self.list_items);
        let start = self.ordered_list_start;
        self.ordered_list_start = None;
        proof {
            assert(rows_view(self.list_items@) =~= Seq::<Seq<InlineV>>::empty());
        }
        match start {
            Some(start) => self.push_element(MarkdownElement::OrderedList { start, items }),
            None => self.push_element(MarkdownElement::UnorderedList { items }),
        }
    }

    fn end_item(&mut self)
        ensures
            final(self)@ == end_step(old(self)@, MdTagEnd::Item),
    {
        self.in_list_item = false;
        let item = take_vec(&mut self.current_list_item);
        let ghost before = self.list_items@;
        self.list_items.push(item);
        proof {
            assert(rows_view(self.list_items@) =~= rows_view(before).push(inlines_view(item@)));
        }
    }

    fn end_strong(&mut self)
        ensures
            final(self)@ == end_step(old(self)@, MdTagEnd::Strong),
    {
        self.bold = false;
    }

    fn end_emphasis(&mut self)
        ensures
            final(self)@ == end_step(old(self)@, MdTagEnd::Emphasis),
    {
        self.italic = false;
    }

    fn end_strikethrough(&mut self)
        ensures
            final(self)@ == end_step(old(self)@, MdTagEnd::Strikethrough),
    {
        self.strikethrough = false;
    }

    fn end_block_quote(&mut self)
        ensures
            final(self)@ == end_step(old(self)@, MdTagEnd::BlockQuote),
    {
        self.in_blockquote = false;
        let content = take_vec(&mut self.blockquote_spans);
        self.push_element(MarkdownElement::Blockquote { content });
    }

    fn end_table(&mut self)
        ensures
            final(self)@ == end_step(old(self)@, MdTagEnd::Table),
    {
        let headers = take_vec(&mut self.table_headers);
        let rows = take_vec(&mut self.table_rows);
        proof {
            assert(rows_view(self.table_headers@) =~= Seq::<Seq<InlineV>>::empty());
            assert(table_view(self.table_rows@) =~= Seq::<Seq<Seq<InlineV>>>::empty());
        }
        self.push_element(MarkdownElement::Table { headers, rows });
    }

    fn end_table_head(&mut self)
        ensures
            final(self)@ == end_step(old(self)@, MdTagEnd::TableHead),
    {
        self.table_headers = take_vec(&mut self.current_table_row);
        proof {
            assert(rows_view(self.current_table_row@) =~= Seq::<Seq<InlineV>>::empty());
        }
    }

    fn end_table_row(&mut self)
        ensures
            final(self)@ == end_step(old(self)@, MdTagEnd::TableRow),
    {
        let row = take_vec(&mut self.current_table_row);
        let ghost before = self.table_rows@;
        self.table_rows.push(row);
        proof {
            assert(rows_view(self.current_table_row@) =~= Seq::<Seq<InlineV>>::empty());
            assert(table_view(self.table_rows@) =~= table_view(before).push(rows_view(row@)));
        }
    }

    fn end_table_cell(&mut self)
        ensures
            final(self)@ == end_step(old(self)@, MdTagEnd::TableCell),
    {
        self.in_table_cell = false;
        let cell = take_vec(&mut self.current_cell_spans);
        let ghost before = self.current_table_row@;
        self.current_table_row.push(cell);
        proof {
            assert(rows_view(self.current_table_row@) =~= rows_view(before).push(inlines_view(cell@)));
        }
    }

    fn end_link(&mut self)
        ensures
            final(self)@ == end_step(old(self)@, MdTagEnd::Link),
    {
        self.in_link = false;
        let mut url: Option<String> = None;
        std::mem::swap(&mut url, &mut self.link_url);
        match url {
            Some(url) => {
                let mut title: Option<String> = None;
                std::mem::swap(&mut title, &mut self.link_title);
                let text = take_vec(&mut self.link_spans);
                self.place(Inline::Link { url, title, text });
            },
            None => {},
        }
    }

    fn end(&mut self, tag: MdTagEnd)
        ensures
            final(self)@ == end_step(old(self)@, tag),
    {
        match tag {
            MdTagEnd::Heading => self.end_heading(),
            MdTagEnd::Paragraph => self.end_paragraph(),
            MdTagEnd::CodeBlock => self.end_code_block(),
            MdTagEnd::List => self.end_list(),
            MdTagEnd::Item => self.end_item(),
            MdTagEnd::Strong => self.end_strong(),
            MdTagEnd::Emphasis => self.end_emphasis(),
            MdTagEnd::Strikethrough => self.end_strikethrough(),
            MdTagEnd::BlockQuote => self.end_block_quote(),
            MdTagEnd::Table => self.end_table(),
            MdTagEnd::TableHead => self.end_table_head(),
            MdTagEnd::TableRow => self.end_table_row(),
            MdTagEnd::TableCell => self.end_table_cell(),
            MdTagEnd::Link => self.end_link(),
            MdTagEnd::Other => {},
        }
    }

    fn text(&mut self, text: &String)
        ensures
            final(self)@ == text_step(old(self)@, text@),
    {
        let (b, i, s) = (self.bold, self.italic, self.strikethrough);
        if self.in_code_block {
            let t = crate::text::trim(text.as_str());
            self.code_block_content.append(t.as_str());
        } else if self.in_table_cell {
            absorb(&mut self.current_cell_spans, text.as_str(), b, i, s);
        } else if self.in_blockquote && !self.in_paragraph {
            absorb(&mut self.blockquote_spans, text.as_str(), b, i, s);
        } else if self.in_list_item && !self.in_paragraph {
            absorb(&mut self.current_list_item, text.as_str(), b, i, s);
        } else if self.in_link {
            absorb(&mut self.link_spans, text.as_str(), b, i, s);
        } else {
            absorb(&mut self.current_content, text.as_str(), b, i, s);
        }
    }

    fn line_break(&mut self)
        ensures
            final(self)@ == break_step(old(self)@),
    {
        let mut nl = String::new();
        crate::text::push_char(&mut nl, '\n');
        let x = Inline::Span(TextSpan::new(nl));
        proof {
            assert(nl@ =~= seq!['\n']);
        }
        if self.in_blockquote {
            proof { lemma_inlines_view_push(self.blockquote_spans@, x); }
            self.blockquote_spans.push(x);
        } else if self.in_list_item {
            proof { lemma_inlines_view_push(self.current_list_item@, x); }
            self.current_list_item.push(x);
        } else if self.in_link {
            proof { lemma_inlines_view_push(self.link_spans@, x); }
            self.link_spans.push(x);
        } else {
            proof { lemma_inlines_view_push(self.current_content@, x); }
            self.current_content.push(x);
        }
    }

    fn step(&mut self, ev: &MdEvent)
        ensures
            final(self)@ == build_step(old(self)@, *ev),
    {
        match ev {
            MdEvent::Start(tag) => self.start(tag),
            MdEvent::End(tag) => self.end(*tag),
            MdEvent::Text(text) => self.text(text),
            MdEvent::Code(code) => {
                let x = Inline::Span(
                    TextSpan {
                        text: code.clone(),
                        bold: self.bold,
                        italic: self.italic,
                        strikethrough: self.strikethrough,
                        code: true,
                        link: false,
                        spoiler: false,
                    },
                );
                self.place(x);
            },
            MdEvent::SoftBreak | MdEvent::HardBreak => self.line_break(),
            MdEvent::Rule => self.push_element(MarkdownElement::HorizontalRule),
            MdEvent::Other => {},
        }
    }
}

/// The blocks that a CommonMark event stream describes.
pub fn elements_from_events(events: &Vec<MdEvent>) -> (r: Vec<MarkdownElement>)
    ensures
        elements_view(r@) == spec_elements_from_events(events@),
{
    let mut b = Builder::new();
    let mut i: usize = 0;
    while i < events.len()
        invariant
            i <= events.len(),
            b@ == build_run(events@.take(i as int)),
        decreases events.len() - i,
    {
        proof {
            assert(events@.take(i + 1).drop_last() =~= events@.take(i as int));
        }
        b.step(&events[i]);
        i = i + 1;
    }
    proof {
        assert(events@.take(events.len() as int) =~= events@);
    }
    b.elements
}


// ---------------------------------------------------------------------------
// The CommonMark parser
// ---------------------------------------------------------------------------

#[verifier::external_type_specification]
#[verifier::external_body]
pub struct ExEvent<'a>(Event<'a>);

#[verifier::external_type_specification]
#[verifier::external_body]
pub struct ExTag<'a>(Tag<'a>);

#[verifier::external_type_specification]
#[verifier::external_body]
pub struct ExTagEnd(TagEnd);

#[verifier::external_type_specification]
#[verifier::external_body]
pub struct ExCmarkLevel(CmarkLevel);

/// The events that `pulldown_cmark` emits for `content`, with the
/// strikethrough and table extensions on where the flags say so, each in
/// the library's terms.
pub uninterp spec fn cmark_events(content: Seq<char>, strikethrough: bool, tables: bool) -> Seq<MdEvent>;

/// `pulldown_cmark::Parser::new_ext` on `content`, with
/// `Options::ENABLE_STRIKETHROUGH` set to `strikethrough` and
/// `Options::ENABLE_TABLES` to `tables`, its events converted one for one.
/// The contract claims only that the result is the named value for the
/// arguments; which events the parser emits is left to the crate.
#[verifier::external_body]
fn markdown_events(content: &str, strikethrough: bool, tables: bool) -> (r: Vec<MdEvent>)
    ensures
        r@ == cmark_events(content@, strikethrough, tables),
{
    let mut options = pulldown_cmark::Options::empty();
    options.set(pulldown_cmark::Options::ENABLE_STRIKETHROUGH, strikethrough);
    options.set(pulldown_cmark::Options::ENABLE_TABLES, tables);
    pulldown_cmark::Parser::new_ext(content, options).map(event_of).collect()
}

/// A `pulldown_cmark::Event` in the library's terms.
#[verifier::external_body]
fn event_of(e: Event) -> MdEvent {
    match e {
        Event::Start(t) => MdEvent::Start(tag_of(t)),
        Event::End(t) => MdEvent::End(tag_end_of(t)),
        Event::Text(s) => MdEvent::Text(s.into_string()),
        Event::Code(s) => MdEvent::Code(s.into_string()),
        Event::SoftBreak => MdEvent::SoftBreak,
        Event::HardBreak => MdEvent::HardBreak,
        Event::Rule => MdEvent::Rule,
        _ => MdEvent::Other,
    }
}

/// A `pulldown_cmark::Tag` with fields in the library's terms.
#[verifier::external_body]
fn tag_of(t: Tag) -> MdTag {
    match t {
        Tag::Heading { level, .. } => MdTag::Heading(level_of(level)),
        Tag::CodeBlock(pulldown_cmark::CodeBlockKind::Fenced(l)) => MdTag::CodeBlock(CodeBlockKind::Fenced(l.into_string())),
        Tag::CodeBlock(_) => MdTag::CodeBlock(CodeBlockKind::Indented),
        Tag::List(start) => MdTag::List(start),
        Tag::Link { dest_url, title, .. } => MdTag::Link { dest_url: dest_url.into_string(), title: title.into_string() },
        Tag::Image { dest_url, title, .. } => MdTag::Image { dest_url: dest_url.into_string(), title: title.into_string() },
        t => unit_tag_of(t),
    }
}

/// A `pulldown_cmark::Tag` without fields in the library's terms.
#[verifier::external_body]
fn unit_tag_of(t: Tag) -> MdTag {
    match t {
        Tag::Paragraph => MdTag::Paragraph,
        Tag::BlockQuote(_) => MdTag::BlockQuote,
        Tag::Item => MdTag::Item,
        Tag::Table(_) => MdTag::Table,
        Tag::TableHead => MdTag::TableHead,
        Tag::TableRow => MdTag::TableRow,
        Tag::TableCell => MdTag::TableCell,
        Tag::Emphasis => MdTag::Emphasis,
        Tag::Strong => MdTag::Strong,
        Tag::Strikethrough => MdTag::Strikethrough,
        _ => MdTag::Other,
    }
}

/// A `pulldown_cmark::HeadingLevel` in the library's terms.
#[verifier::external_body]
fn level_of(l: CmarkLevel) -> HeadingLevel {
    match l {
        CmarkLevel::H1 => HeadingLevel::H1,
        CmarkLevel::H2 => HeadingLevel::H2,
        CmarkLevel::H3 => HeadingLevel::H3,
        CmarkLevel::H4 => HeadingLevel::H4,
        CmarkLevel::H5 => HeadingLevel::H5,
        CmarkLevel::H6 => HeadingLevel::H6,
    }
}

/// The end of a block container in the library's terms.
#[verifier::external_body]
fn tag_end_of(t: TagEnd) -> MdTagEnd {
    match t {
        TagEnd::Paragraph => MdTagEnd::Paragraph,
        TagEnd::Heading(_) => MdTagEnd::Heading,
        TagEnd::BlockQuote(_) => MdTagEnd::BlockQuote,
        TagEnd::CodeBlock => MdTagEnd::CodeBlock,
        TagEnd::List(_) => MdTagEnd::List,
        TagEnd::Item => MdTagEnd::Item,
        TagEnd::Table => MdTagEnd::Table,
        TagEnd::TableHead => MdTagEnd::TableHead,
        TagEnd::TableRow => MdTagEnd::TableRow,
        TagEnd::TableCell => MdTagEnd::TableCell,
        t => span_tag_end_of(t),
    }
}

/// The end of a span container in the library's terms.
#[verifier::external_body]
fn span_tag_end_of(t: TagEnd) -> MdTagEnd {
    match t {
        TagEnd::Emphasis => MdTagEnd::Emphasis,
        TagEnd::Strong => MdTagEnd::Strong,
        TagEnd::Strikethrough => MdTagEnd::Strikethrough,
        TagEnd::Link => MdTagEnd::Link,
        _ => MdTagEnd::Other,
    }
}

/// Parse markdown content into a list of blocks: the CommonMark structure
/// (with strikethrough and tables), and inside it the inline grammar of
/// mentions, emoji, links and spoilers.
pub fn parse_markdown(content: &str) -> (r: Vec<MarkdownElement>)
    ensures
        elements_view(r@) == spec_elements_from_events(cmark_events(content@, true, true)),
{
    let events = markdown_events(content, true, true);
    elements_from_events(&events)
}

} // verus!

verus! {

// ---------------------------------------------------------------------------
// The block structure the builder gives
// ---------------------------------------------------------------------------

/// The builder after `events`, starting from `b`.
pub open spec fn run_from(b: BuildV, events: Seq<MdEvent>) -> BuildV
    decreases events.len(),
{
    if events.len() == 0 {
        b
    } else {
        build_step(run_from(b, events.drop_last()), events.last())
    }
}

/// An event inside a block's text: text, inline code, or a line break.
pub open spec fn is_inline_event(e: MdEvent) -> bool {
    e is Text || e is Code || e is SoftBreak || e is HardBreak
}

/// Every event of `s` is an inline event.
pub open spec fn all_inline(s: Seq<MdEvent>) -> bool {
    forall|k: int| 0 <= k < s.len() ==> is_inline_event(#[trigger] s[k])
}

/// The builder stands between blocks: in no paragraph, heading, code
/// block, quote, list item, table cell or link.
pub open spec fn between_blocks(b: BuildV) -> bool {
    &&& !b.in_paragraph
    &&& b.in_heading is None
    &&& !b.in_code_block
    &&& !b.in_blockquote
    &&& !b.in_list_item
    &&& !b.in_table_cell
    &&& !b.in_link
}

/// `x` and `y` hold the same finished blocks and the same open containers.
pub open spec fn same_frame(x: BuildV, y: BuildV) -> bool {
    &&& x.elements == y.elements
    &&& x.list_items == y.list_items
    &&& x.ordered_list_start == y.ordered_list_start
    &&& x.in_paragraph == y.in_paragraph
    &&& x.in_heading == y.in_heading
    &&& x.in_code_block == y.in_code_block
    &&& x.in_blockquote == y.in_blockquote
    &&& x.in_list_item == y.in_list_item
    &&& x.in_table_cell == y.in_table_cell
    &&& x.in_link == y.in_link
}

/// The events of one list item around its inline content.
pub open spec fn item_events(content: Seq<MdEvent>) -> Seq<MdEvent> {
    seq![MdEvent::Start(MdTag::Item)] + content + seq![MdEvent::End(MdTagEnd::Item)]
}

/// The events of several list items, one after the other.
pub open spec fn items_events(items: Seq<Seq<MdEvent>>) -> Seq<MdEvent>
    decreases items.len(),
{
    if items.len() == 0 {
        Seq::empty()
    } else {
        items_events(items.drop_last()) + item_events(items.last())
    }
}

proof fn lemma_run_concat(b: BuildV, a: Seq<MdEvent>, c: Seq<MdEvent>)
    ensures
        run_from(b, a + c) == run_from(run_from(b, a), c),
    decreases c.len(),
{
    if c.len() == 0 {
        assert(a + c =~= a);
    } else {
        lemma_run_concat(b, a, c.drop_last());
        assert((a + c).drop_last() =~= a + c.drop_last());
        assert((a + c).last() == c.last());
    }
}

proof fn lemma_build_run_is_run_from(events: Seq<MdEvent>)
    ensures
        build_run(events) == run_from(initial_build(), events),
    decreases events.len(),
{
    if events.len() > 0 {
        lemma_build_run_is_run_from(events.drop_last());
    }
}

proof fn lemma_one(b: BuildV, e: MdEvent)
    ensures
        run_from(b, seq![e]) == build_step(b, e),
{
    assert(seq![e].drop_last() =~= Seq::<MdEvent>::empty());
    assert(run_from(b, Seq::<MdEvent>::empty()) == b);
    assert(seq![e].last() == e);
    assert(run_from(b, seq![e]) == build_step(run_from(b, seq![e].drop_last()), seq![e].last()));
}

/// Inline events outside code blocks, cells, quotes and links change no
/// block and no open container.
proof fn lemma_inline_run(b: BuildV, xs: Seq<MdEvent>)
    requires
        all_inline(xs),
        !b.in_code_block,
        !b.in_table_cell,
        !b.in_blockquote,
        !b.in_link,
    ensures
        same_frame(run_from(b, xs), b),
    decreases xs.len(),
{
    if xs.len() > 0 {
        let d = xs.drop_last();
        assert forall|k: int| 0 <= k < d.len() implies is_inline_event(#[trigger] d[k]) by {
            assert(d[k] == xs[k]);
        }
        lemma_inline_run(b, d);
        assert(is_inline_event(xs[xs.len() - 1]));
    }
}

/// Between blocks, a paragraph's events around inline content add exactly
/// one paragraph, holding the content, and leave the builder between
/// blocks.
pub proof fn law_paragraph_gives_one_paragraph(b: BuildV, xs: Seq<MdEvent>)
    requires
        between_blocks(b),
        all_inline(xs),
    ensures
        ({
            let evs = seq![MdEvent::Start(MdTag::Paragraph)] + xs + seq![MdEvent::End(MdTagEnd::Paragraph)];
            let inside = run_from(start_step(b, MdTag::Paragraph), xs);
            &&& run_from(b, evs).elements == b.elements.push(ElementV::Paragraph { content: inside.current_content })
            &&& between_blocks(run_from(b, evs))
        }),
{
    let p = seq![MdEvent::Start(MdTag::Paragraph)];
    let q = seq![MdEvent::End(MdTagEnd::Paragraph)];
    let b1 = start_step(b, MdTag::Paragraph);
    lemma_one(b, MdEvent::Start(MdTag::Paragraph));
    lemma_run_concat(b, p, xs);
    lemma_run_concat(b, p + xs, q);
    lemma_inline_run(b1, xs);
    lemma_one(run_from(b1, xs), MdEvent::End(MdTagEnd::Paragraph));
}

/// The events of a message holding one paragraph of inline content give
/// exactly that one paragraph.
pub proof fn law_lone_paragraph(xs: Seq<MdEvent>)
    requires
        all_inline(xs),
    ensures
        spec_elements_from_events(
            seq![MdEvent::Start(MdTag::Paragraph)] + xs + seq![MdEvent::End(MdTagEnd::Paragraph)],
        ) == seq![ElementV::Paragraph {
            content: run_from(start_step(initial_build(), MdTag::Paragraph), xs).current_content,
        }],
{
    let evs = seq![MdEvent::Start(MdTag::Paragraph)] + xs + seq![MdEvent::End(MdTagEnd::Paragraph)];
    lemma_build_run_is_run_from(evs);
    law_paragraph_gives_one_paragraph(initial_build(), xs);
    assert(Seq::<ElementV>::empty().push(ElementV::Paragraph {
        content: run_from(start_step(initial_build(), MdTag::Paragraph), xs).current_content,
    }) =~= seq![ElementV::Paragraph {
        content: run_from(start_step(initial_build(), MdTag::Paragraph), xs).current_content,
    }]);
}

proof fn lemma_items_run(b: BuildV, items: Seq<Seq<MdEvent>>)
    requires
        between_blocks(b),
        forall|k: int| 0 <= k < items.len() ==> all_inline(#[trigger] items[k]),
    ensures
        between_blocks(run_from(b, items_events(items))),
        run_from(b, items_events(items)).elements == b.elements,
        run_from(b, items_events(items)).ordered_list_start == b.ordered_list_start,
        run_from(b, items_events(items)).list_items.len() == b.list_items.len() + items.len(),
        run_from(b, items_events(items)).list_items.take(b.list_items.len() as int) == b.list_items,
    decreases items.len(),
{
    if items.len() == 0 {
        assert(items_events(items) =~= Seq::<MdEvent>::empty());
        assert(b.list_items.take(b.list_items.len() as int) =~= b.list_items);
    } else {
        let d = items.drop_last();
        assert forall|k: int| 0 <= k < d.len() implies all_inline(#[trigger] d[k]) by {
            assert(d[k] == items[k]);
        }
        lemma_items_run(b, d);
        let m = run_from(b, items_events(d));
        let x = items.last();
        assert(all_inline(items[items.len() - 1]));
        lemma_run_concat(b, items_events(d), item_events(x));
        let s = seq![MdEvent::Start(MdTag::Item)];
        let e = seq![MdEvent::End(MdTagEnd::Item)];
        lemma_one(m, MdEvent::Start(MdTag::Item));
        lemma_run_concat(m, s, x);
        lemma_run_concat(m, s + x, e);
        let m1 = start_step(m, MdTag::Item);
        lemma_inline_run(m1, x);
        lemma_one(run_from(m1, x), MdEvent::End(MdTagEnd::Item));
        let r = run_from(b, items_events(items));
        assert(r.list_items == m.list_items.push(run_from(m1, x).current_list_item));
        assert(r.list_items.take(b.list_items.len() as int) =~= m.list_items.take(b.list_items.len() as int));
    }
}

/// Between blocks, a list whose items hold inline content adds exactly one
/// list, ordered where it has a start number, with one entry per item, and
/// leaves the builder between blocks.
pub proof fn law_list_gives_one_list(b: BuildV, start: Option<u64>, items: Seq<Seq<MdEvent>>)
    requires
        between_blocks(b),
        forall|k: int| 0 <= k < items.len() ==> all_inline(#[trigger] items[k]),
    ensures
        ({
            let evs = seq![MdEvent::Start(MdTag::List(start))] + items_events(items) + seq![
                MdEvent::End(MdTagEnd::List),
            ];
            let r = run_from(b, evs);
            &&& r.elements.len() == b.elements.len() + 1
            &&& r.elements.take(b.elements.len() as int) == b.elements
            &&& match r.elements.last() {
                ElementV::OrderedList { start: s, items: v } => start == Some(s) && v.len() == items.len(),
                ElementV::UnorderedList { items: v } => start is None && v.len() == items.len(),
                _ => false,
            }
            &&& between_blocks(r)
        }),
{
    let s = seq![MdEvent::Start(MdTag::List(start))];
    let e = seq![MdEvent::End(MdTagEnd::List)];
    let b1 = start_step(b, MdTag::List(start));
    lemma_one(b, MdEvent::Start(MdTag::List(start)));
    lemma_run_concat(b, s, items_events(items));
    lemma_run_concat(b, s + items_events(items), e);
    lemma_items_run(b1, items);
    let m = run_from(b1, items_events(items));
    lemma_one(m, MdEvent::End(MdTagEnd::List));
    assert(b1.list_items.len() == 0);
    let r = run_from(b, s + items_events(items) + e);
    assert(r.elements.take(b.elements.len() as int) =~= b.elements);
}

} // verus!

verus! {

// ---------------------------------------------------------------------------
// Quotes
// ---------------------------------------------------------------------------

/// An event inside a quote: inline content, or the start or end of one of
/// its paragraphs.
pub open spec fn is_quote_event(e: MdEvent) -> bool {
    is_inline_event(e) || e matches MdEvent::Start(MdTag::Paragraph) || e matches MdEvent::End(MdTagEnd::Paragraph)
}

/// Every event of `s` can stand inside a quote.
pub open spec fn all_quote(s: Seq<MdEvent>) -> bool {
    forall|k: int| 0 <= k < s.len() ==> is_quote_event(#[trigger] s[k])
}

proof fn lemma_quote_run(b: BuildV, xs: Seq<MdEvent>)
    requires
        all_quote(xs),
        b.in_blockquote,
        !b.in_paragraph,
        !b.in_code_block,
        !b.in_table_cell,
        !b.in_link,
    ensures
        same_frame(run_from(b, xs), b),
    decreases xs.len(),
{
    if xs.len() > 0 {
        let d = xs.drop_last();
        assert forall|k: int| 0 <= k < d.len() implies is_quote_event(#[trigger] d[k]) by {
            assert(d[k] == xs[k]);
        }
        lemma_quote_run(b, d);
        assert(is_quote_event(xs[xs.len() - 1]));
    }
}

/// Between blocks, a quote's events around its paragraphs and inline
/// content add exactly one block, a quote holding what was gathered inside
/// it, and leave the builder between blocks.
pub proof fn law_quote_gives_one_quote(b: BuildV, xs: Seq<MdEvent>)
    requires
        between_blocks(b),
        all_quote(xs),
    ensures
        ({
            let evs = seq![MdEvent::Start(MdTag::BlockQuote)] + xs + seq![MdEvent::End(MdTagEnd::BlockQuote)];
            let inside = run_from(start_step(b, MdTag::BlockQuote), xs);
            &&& run_from(b, evs).elements == b.elements.push(ElementV::Blockquote { content: inside.blockquote_spans })
            &&& run_from(b, evs).elements.last() is Blockquote
            &&& between_blocks(run_from(b, evs))
        }),
{
    let p = seq![MdEvent::Start(MdTag::BlockQuote)];
    let q = seq![MdEvent::End(MdTagEnd::BlockQuote)];
    let b1 = start_step(b, MdTag::BlockQuote);
    lemma_one(b, MdEvent::Start(MdTag::BlockQuote));
    lemma_run_concat(b, p, xs);
    lemma_run_concat(b, p + xs, q);
    lemma_quote_run(b1, xs);
    lemma_one(run_from(b1, xs), MdEvent::End(MdTagEnd::BlockQuote));
}

/// A quoted paragraph of text `t`, between blocks, becomes one quote whose
/// content is `t` parsed inline with the emphasis in force; it is no
/// paragraph.
pub proof fn law_quoted_paragraph(b: BuildV, t: String)
    requires
        between_blocks(b),
        b.current_content.len() == 0,
    ensures
        ({
            let evs = seq![
                MdEvent::Start(MdTag::BlockQuote),
                MdEvent::Start(MdTag::Paragraph),
                MdEvent::Text(t),
                MdEvent::End(MdTagEnd::Paragraph),
                MdEvent::End(MdTagEnd::BlockQuote),
            ];
            run_from(b, evs).elements == b.elements.push(
                ElementV::Blockquote { content: spec_inlines(t@, b.bold, b.italic, b.strikethrough) },
            )
        }),
{
    let xs = seq![MdEvent::Start(MdTag::Paragraph), MdEvent::Text(t), MdEvent::End(MdTagEnd::Paragraph)];
    assert forall|k: int| 0 <= k < xs.len() implies is_quote_event(#[trigger] xs[k]) by {}
    law_quote_gives_one_quote(b, xs);
    let evs = seq![MdEvent::Start(MdTag::BlockQuote)] + xs + seq![MdEvent::End(MdTagEnd::BlockQuote)];
    assert(evs =~= seq![
        MdEvent::Start(MdTag::BlockQuote),
        MdEvent::Start(MdTag::Paragraph),
        MdEvent::Text(t),
        MdEvent::End(MdTagEnd::Paragraph),
        MdEvent::End(MdTagEnd::BlockQuote),
    ]);
    let b1 = start_step(b, MdTag::BlockQuote);
    let x1 = seq![MdEvent::Start(MdTag::Paragraph)];
    let x2 = seq![MdEvent::Text(t)];
    let x3 = seq![MdEvent::End(MdTagEnd::Paragraph)];
    assert(xs =~= x1 + x2 + x3);
    lemma_one(b1, MdEvent::Start(MdTag::Paragraph));
    let c1 = run_from(b1, x1);
    lemma_run_concat(b1, x1, x2);
    lemma_one(c1, MdEvent::Text(t));
    let c2 = run_from(b1, x1 + x2);
    lemma_run_concat(b1, x1 + x2, x3);
    lemma_one(c2, MdEvent::End(MdTagEnd::Paragraph));
    assert(c1 == b1);
    assert(Seq::<InlineV>::empty() + spec_inlines(t@, b.bold, b.italic, b.strikethrough) =~= spec_inlines(
        t@,
        b.bold,
        b.italic,
        b.strikethrough,
    ));
    assert(c2.blockquote_spans == spec_inlines(t@, b.bold, b.italic, b.strikethrough));
    assert(c2.current_content.len() == 0);
    assert(run_from(b1, xs).blockquote_spans =~= spec_inlines(t@, b.bold, b.italic, b.strikethrough));
}

} // verus!
