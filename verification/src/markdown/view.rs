//! How the markdown viewer lays out parsed blocks: the breaks between
//! them, heading sizes, list numbers, and the texts that stand for images
//! and code languages.

use vstd::prelude::*;
use crate::markdown::blocks::{HeadingLevel, MarkdownElement};
use crate::text::{concat, decimal, spec_decimal, push_char, chars_of, string_of, to_uppercase, uppercase};

verus! {

/// A heading's font size relative to the text's, in tenths: 2.0, 1.6,
/// 1.4, 1.2, 1.0 and 0.8 from the first level down.
pub open spec fn spec_heading_scale_tenths(level: HeadingLevel) -> u32 {
    match level {
        HeadingLevel::H1 => 20,
        HeadingLevel::H2 => 16,
        HeadingLevel::H3 => 14,
        HeadingLevel::H4 => 12,
        HeadingLevel::H5 => 10,
        HeadingLevel::H6 => 8,
    }
}

/// A heading's font size relative to the text's, in tenths.
pub fn heading_scale_tenths(level: HeadingLevel) -> (r: u32)
    ensures
        r == spec_heading_scale_tenths(level),
{
    match level {
        HeadingLevel::H1 => 20,
        HeadingLevel::H2 => 16,
        HeadingLevel::H3 => 14,
        HeadingLevel::H4 => 12,
        HeadingLevel::H5 => 10,
        HeadingLevel::H6 => 8,
    }
}

/// The text put after a block unless it is the last: a line break after a
/// heading, an empty line after a paragraph or a list, nothing after the
/// other blocks.
pub open spec fn spec_separator(e: &MarkdownElement, is_last: bool) -> Seq<char> {
    if is_last {
        seq![]
    } else {
        match e {
            MarkdownElement::Heading { .. } => seq!['\n'],
            MarkdownElement::Paragraph { .. } => seq!['\n', '\n'],
            MarkdownElement::UnorderedList { .. } => seq!['\n', '\n'],
            MarkdownElement::OrderedList { .. } => seq!['\n', '\n'],
            _ => seq![],
        }
    }
}

/// The text put after block `e`, given whether it is the last.
pub fn separator(e: &MarkdownElement, is_last: bool) -> (r: String)
    ensures
        r@ == spec_separator(e, is_last),
{
    let mut s = String::new();
    if !is_last {
        match e {
            MarkdownElement::Heading { .. } => {
                push_char(&mut s, '\n');
            },
            MarkdownElement::Paragraph { .. } | MarkdownElement::UnorderedList { .. } | MarkdownElement::OrderedList {
                ..
            } => {
                push_char(&mut s, '\n');
                push_char(&mut s, '\n');
            },
            _ => {},
        }
    }
    proof {
        assert(s@ =~= spec_separator(e, is_last));
    }
    s
}

/// The number in front of item `idx` of a list starting at `start`: the
/// item's number and a dot.
pub fn ordered_item_label(start: u64, idx: usize) -> (r: String)
    requires
        start + idx <= u64::MAX,
    ensures
        r@ == spec_decimal((start + idx) as nat) + seq!['.'],
{
    let mut s = decimal(start + idx as u64);
    push_char(&mut s, '.');
    s
}

/// What stands for an image: `[Image: alt]`.
pub fn image_text(alt: &str) -> (r: String)
    ensures
        r@ == "[Image: "@ + alt@ + seq![']'],
{
    let p = "[Image: ";
    proof {
        reveal_strlit("[Image: ");
    }
    let mut s = concat(p, alt);
    push_char(&mut s, ']');
    s
}

/// The label of a code block: its language in capitals, or `TXT`.
pub open spec fn spec_code_label(language: Option<Seq<char>>) -> Seq<char> {
    match language {
        Some(l) => uppercase(l),
        None => "TXT"@,
    }
}

/// The label of a code block.
pub fn code_label(language: &Option<String>) -> (r: String)
    ensures
        r@ == spec_code_label(match *language {
            Some(l) => Some(l@),
            None => None,
        }),
{
    match language {
        Some(l) => to_uppercase(l.as_str()),
        None => {
            proof {
                reveal_strlit("TXT");
            }
            string_of(chars_of("TXT").as_slice())
        },
    }
}

} // verus!

verus! {

/// The line drawn through or under a span.
#[derive(Debug, PartialEq, Eq, Clone, Copy, Structural)]
pub enum Decoration {
    Plain,
    LineThrough,
    Underline,
}

/// How a span of text is drawn.
#[derive(Debug, PartialEq, Eq, Clone, Copy, Structural)]
pub struct SpanStyle {
    /// Drawn as a code chip, without the other styles.
    pub code: bool,
    pub bold: bool,
    pub italic: bool,
    pub decoration: Decoration,
    /// Drawn as a clickable link.
    pub hyperlink: bool,
    /// Drawn in the theme's primary colour.
    pub primary: bool,
}

/// How span `s` is drawn inside content drawn bold (`bold`), as a link's
/// text (`link`) and underlined (`underline`): code as a chip; otherwise
/// bold if either asks for it, an underline over a strike-through, a bare
/// URL as a link, and a link's plain text in the primary colour.
pub open spec fn spec_span_style(s: crate::markdown::inline::SpanV, bold: bool, link: bool, underline: bool) -> SpanStyle {
    if s.code {
        SpanStyle { code: true, bold: false, italic: false, decoration: Decoration::Plain, hyperlink: false, primary: false }
    } else {
        SpanStyle {
            code: false,
            bold: s.bold || bold,
            italic: s.italic,
            decoration: if underline {
                Decoration::Underline
            } else if s.strikethrough {
                Decoration::LineThrough
            } else {
                Decoration::Plain
            },
            hyperlink: s.link,
            primary: !s.link && link,
        }
    }
}

/// How span `s` is drawn.
pub fn span_style(s: &crate::markdown::inline::TextSpan, bold: bool, link: bool, underline: bool) -> (r: SpanStyle)
    ensures
        r == spec_span_style(s@, bold, link, underline),
{
    if s.code {
        SpanStyle { code: true, bold: false, italic: false, decoration: Decoration::Plain, hyperlink: false, primary: false }
    } else {
        let decoration = if underline {
            Decoration::Underline
        } else if s.strikethrough {
            Decoration::LineThrough
        } else {
            Decoration::Plain
        };
        SpanStyle {
            code: false,
            bold: s.bold || bold,
            italic: s.italic,
            decoration,
            hyperlink: s.link,
            primary: !s.link && link,
        }
    }
}

} // verus!
