//! Inline elements of a message: styled text, mentions, custom emoji, links,
//! bare hyperlinks and spoilers, and the grammar that finds them in text.

use vstd::prelude::*;
use crate::text::{is_ws, is_whitespace, string_of};
use crate::links::{parsed_url, parse_url};

verus! {

// ---------------------------------------------------------------------------
// Types and their views
// ---------------------------------------------------------------------------

/// Styled text.
#[derive(Clone, Debug, PartialEq)]
pub struct TextSpan {
    pub text: String,
    pub bold: bool,
    pub italic: bool,
    pub strikethrough: bool,
    pub code: bool,
    pub link: bool,
    pub spoiler: bool,
}

impl TextSpan {
    /// Unstyled text.
    pub fn new(text: String) -> (r: TextSpan)
        ensures
            r@ == (SpanV {
                text: text@,
                bold: false,
                italic: false,
                strikethrough: false,
                code: false,
                link: false,
                spoiler: false,
            }),
    {
        TextSpan {
            text,
            bold: false,
            italic: false,
            strikethrough: false,
            code: false,
            link: false,
            spoiler: false,
        }
    }
}

/// A piece of a paragraph's content: styled text or an inline element.
#[derive(Debug, PartialEq)]
pub enum Inline {
    Span(TextSpan),
    UserMention { id: String },
    ChannelMention { id: String },
    RoleMention { id: String },
    Emoji { id: String },
    Link { url: String, title: Option<String>, text: Vec<Inline> },
    Spoiler(Vec<Inline>),
}

/// One element found by the inline grammar, before styling.
#[derive(Clone, Debug, PartialEq)]
pub enum InlineParserElement {
    Text(String),
    UserMention(String),
    ChannelMention(String),
    RoleMention(String),
    Emoji(String),
    Link { url: String, title: Option<String>, text: String },
    Hyperlink(String),
    Spoiler(String),
}

/// Mathematical value of a [`TextSpan`].
pub struct SpanV {
    pub text: Seq<char>,
    pub bold: bool,
    pub italic: bool,
    pub strikethrough: bool,
    pub code: bool,
    pub link: bool,
    pub spoiler: bool,
}

/// Mathematical value of an [`Inline`].
pub enum InlineV {
    Span(SpanV),
    UserMention(Seq<char>),
    ChannelMention(Seq<char>),
    RoleMention(Seq<char>),
    Emoji(Seq<char>),
    Link { url: Seq<char>, title: Option<Seq<char>>, text: Seq<InlineV> },
    Spoiler(Seq<InlineV>),
}

/// Mathematical value of an [`InlineParserElement`].
pub enum TokenV {
    Text(Seq<char>),
    UserMention(Seq<char>),
    ChannelMention(Seq<char>),
    RoleMention(Seq<char>),
    Emoji(Seq<char>),
    Link { url: Seq<char>, title: Option<Seq<char>>, text: Seq<char> },
    Hyperlink(Seq<char>),
    Spoiler(Seq<char>),
}

pub open spec fn opt_str_view(o: Option<String>) -> Option<Seq<char>> {
    match o {
        Some(s) => Some(s@),
        None => None,
    }
}

impl View for TextSpan {
    type V = SpanV;

    open spec fn view(&self) -> SpanV {
        SpanV {
            text: self.text@,
            bold: self.bold,
            italic: self.italic,
            strikethrough: self.strikethrough,
            code: self.code,
            link: self.link,
            spoiler: self.spoiler,
        }
    }
}

impl View for InlineParserElement {
    type V = TokenV;

    open spec fn view(&self) -> TokenV {
        match self {
            InlineParserElement::Text(s) => TokenV::Text(s@),
            InlineParserElement::UserMention(s) => TokenV::UserMention(s@),
            InlineParserElement::ChannelMention(s) => TokenV::ChannelMention(s@),
            InlineParserElement::RoleMention(s) => TokenV::RoleMention(s@),
            InlineParserElement::Emoji(s) => TokenV::Emoji(s@),
            InlineParserElement::Link { url, title, text } => TokenV::Link {
                url: url@,
                title: opt_str_view(*title),
                text: text@,
            },
            InlineParserElement::Hyperlink(s) => TokenV::Hyperlink(s@),
            InlineParserElement::Spoiler(s) => TokenV::Spoiler(s@),
        }
    }
}

/// The value of an inline element.
pub open spec fn inline_view(x: Inline) -> InlineV
    decreases x,
{
    match x {
        Inline::Span(s) => InlineV::Span(s@),
        Inline::UserMention { id } => InlineV::UserMention(id@),
        Inline::ChannelMention { id } => InlineV::ChannelMention(id@),
        Inline::RoleMention { id } => InlineV::RoleMention(id@),
        Inline::Emoji { id } => InlineV::Emoji(id@),
        Inline::Link { url, title, text } => {
            proof {
                broadcast use vstd::std_specs::vec::axiom_vec_decreases_to_view;
            }
            InlineV::Link { url: url@, title: opt_str_view(title), text: inlines_view(text@) }
        },
        Inline::Spoiler(v) => {
            proof {
                broadcast use vstd::std_specs::vec::axiom_vec_decreases_to_view;
            }
            InlineV::Spoiler(inlines_view(v@))
        },
    }
}

/// The values of a sequence of inline elements.
pub open spec fn inlines_view(s: Seq<Inline>) -> Seq<InlineV>
    decreases s,
{
    if s.len() == 0 {
        Seq::empty()
    } else {
        inlines_view(s.subrange(0, s.len() - 1)).push(inline_view(s[s.len() - 1]))
    }
}


// ---------------------------------------------------------------------------
// The grammar, as functions on character sequences
// ---------------------------------------------------------------------------

/// Characters of an object id: Crockford base-32 digits, upper case.
pub open spec fn is_id_char(c: char) -> bool {
    ('0' <= c && c <= '9') || ('A' <= c && c <= 'Z' && c != 'I' && c != 'L' && c != 'O' && c
        != 'U')
}

/// Twenty-six id characters start at `p`.
pub open spec fn ids_at(s: Seq<char>, p: int) -> bool {
    &&& 0 <= p
    &&& p + 26 <= s.len()
    &&& forall|k: int| p <= k < p + 26 ==> is_id_char(#[trigger] s[k])
}

/// An object id at `p`: its end and its text.
pub open spec fn spec_id_at(s: Seq<char>, p: int) -> Option<(int, Seq<char>)> {
    if ids_at(s, p) {
        Some((p + 26, s.subrange(p, p + 26)))
    } else {
        None
    }
}

/// `<` `sigil` id `>` at `p`: its end and the id.
pub open spec fn spec_mention_at(s: Seq<char>, p: int, sigil: char) -> Option<(int, Seq<char>)> {
    if 0 <= p && p + 29 <= s.len() && s[p] == '<' && s[p + 1] == sigil && ids_at(s, p + 2) && s[p
        + 28] == '>' {
        Some((p + 29, s.subrange(p + 2, p + 28)))
    } else {
        None
    }
}

pub open spec fn spec_user_mention_at(s: Seq<char>, p: int) -> Option<(int, TokenV)> {
    match spec_mention_at(s, p, '@') {
        Some((e, id)) => Some((e, TokenV::UserMention(id))),
        None => None,
    }
}

pub open spec fn spec_channel_mention_at(s: Seq<char>, p: int) -> Option<(int, TokenV)> {
    match spec_mention_at(s, p, '#') {
        Some((e, id)) => Some((e, TokenV::ChannelMention(id))),
        None => None,
    }
}

pub open spec fn spec_role_mention_at(s: Seq<char>, p: int) -> Option<(int, TokenV)> {
    match spec_mention_at(s, p, '%') {
        Some((e, id)) => Some((e, TokenV::RoleMention(id))),
        None => None,
    }
}

/// `:` id `:` at `p`.
pub open spec fn spec_emoji_at(s: Seq<char>, p: int) -> Option<(int, TokenV)> {
    if 0 <= p && p + 28 <= s.len() && s[p] == ':' && ids_at(s, p + 1) && s[p + 27] == ':' {
        Some((p + 28, TokenV::Emoji(s.subrange(p + 1, p + 27))))
    } else {
        None
    }
}

/// First index at or after `j` holding `c`, or the length.
pub open spec fn find_char(s: Seq<char>, j: int, c: char) -> int
    decreases s.len() - j,
{
    if j >= s.len() {
        s.len() as int
    } else if s[j] == c {
        j
    } else {
        find_char(s, j + 1, c)
    }
}

/// First index at or after `j` holding a space or `)`, or the length.
pub open spec fn find_url_end(s: Seq<char>, j: int) -> int
    decreases s.len() - j,
{
    if j >= s.len() {
        s.len() as int
    } else if s[j] == ' ' || s[j] == ')' {
        j
    } else {
        find_url_end(s, j + 1)
    }
}

/// First index at or after `j` holding white space, or the length.
pub open spec fn find_ws(s: Seq<char>, j: int) -> int
    decreases s.len() - j,
{
    if j >= s.len() {
        s.len() as int
    } else if is_ws(s[j]) {
        j
    } else {
        find_ws(s, j + 1)
    }
}

/// `||` starts at `i`.
pub open spec fn bars_at(s: Seq<char>, i: int) -> bool {
    0 <= i && i + 1 < s.len() && s[i] == '|' && s[i + 1] == '|'
}

/// First index at or after `j` where `||` starts, or the length.
pub open spec fn find_bars(s: Seq<char>, j: int) -> int
    decreases s.len() - j,
{
    if j >= s.len() {
        s.len() as int
    } else if bars_at(s, j) {
        j
    } else {
        find_bars(s, j + 1)
    }
}

/// `[text](url)` at `p`: the text runs to the first `]`, the url to the
/// first space or `)`, which must be `)`.
pub open spec fn spec_link_at(s: Seq<char>, p: int) -> Option<(int, TokenV)> {
    if 0 <= p && p < s.len() && s[p] == '[' {
        let j = find_char(s, p + 1, ']');
        if j + 1 < s.len() && s[j + 1] == '(' {
            let k = find_url_end(s, j + 2);
            if k < s.len() && s[k] == ')' {
                Some(
                    (
                        k + 1,
                        TokenV::Link {
                            url: s.subrange(j + 2, k),
                            title: None,
                            text: s.subrange(p + 1, j),
                        },
                    ),
                )
            } else {
                None
            }
        } else {
            None
        }
    } else {
        None
    }
}

/// `text` parses as a URL whose scheme is `http` or `https`.
pub open spec fn http_url(text: Seq<char>) -> bool {
    match parsed_url(text) {
        Some(p) => p.0 == "https"@ || p.0 == "http"@,
        None => false,
    }
}

/// The run of non-white-space characters at `p`, where it is an http(s) URL.
pub open spec fn spec_hyperlink_at(s: Seq<char>, p: int) -> Option<(int, TokenV)> {
    let e = find_ws(s, p);
    if 0 <= p && p < e && http_url(s.subrange(p, e)) {
        Some((e, TokenV::Hyperlink(s.subrange(p, e))))
    } else {
        None
    }
}

/// `||text||` at `p`, the text running to the next `||`.
pub open spec fn spec_spoiler_at(s: Seq<char>, p: int) -> Option<(int, TokenV)> {
    if bars_at(s, p) {
        let i = find_bars(s, p + 2);
        if i < s.len() {
            Some((i + 2, TokenV::Spoiler(s.subrange(p + 2, i))))
        } else {
            None
        }
    } else {
        None
    }
}

/// The first of the custom elements, in order of priority, found at `p`.
pub open spec fn spec_custom_at(s: Seq<char>, p: int) -> Option<(int, TokenV)> {
    if spec_user_mention_at(s, p) is Some {
        spec_user_mention_at(s, p)
    } else if spec_channel_mention_at(s, p) is Some {
        spec_channel_mention_at(s, p)
    } else if spec_role_mention_at(s, p) is Some {
        spec_role_mention_at(s, p)
    } else if spec_emoji_at(s, p) is Some {
        spec_emoji_at(s, p)
    } else if spec_link_at(s, p) is Some {
        spec_link_at(s, p)
    } else if spec_hyperlink_at(s, p) is Some {
        spec_hyperlink_at(s, p)
    } else {
        spec_spoiler_at(s, p)
    }
}

/// The element at `p`: a custom element, or else the single character there.
pub open spec fn spec_element_at(s: Seq<char>, p: int) -> (int, TokenV) {
    match spec_custom_at(s, p) {
        Some(r) => r,
        None => (p + 1, TokenV::Text(seq![s[p]])),
    }
}

pub proof fn lemma_find_char_bounds(s: Seq<char>, j: int, c: char)
    requires
        0 <= j <= s.len(),
    ensures
        j <= find_char(s, j, c) <= s.len(),
        find_char(s, j, c) < s.len() ==> s[find_char(s, j, c)] == c,
        forall|k: int| j <= k < find_char(s, j, c) ==> s[k] != c,
    decreases s.len() - j,
{
    if j < s.len() && s[j] != c {
        lemma_find_char_bounds(s, j + 1, c);
    }
}

pub proof fn lemma_find_url_end_bounds(s: Seq<char>, j: int)
    requires
        0 <= j <= s.len(),
    ensures
        j <= find_url_end(s, j) <= s.len(),
    decreases s.len() - j,
{
    if j < s.len() && !(s[j] == ' ' || s[j] == ')') {
        lemma_find_url_end_bounds(s, j + 1);
    }
}

pub proof fn lemma_find_ws_bounds(s: Seq<char>, j: int)
    requires
        0 <= j <= s.len(),
    ensures
        j <= find_ws(s, j) <= s.len(),
    decreases s.len() - j,
{
    if j < s.len() && !is_ws(s[j]) {
        lemma_find_ws_bounds(s, j + 1);
    }
}

pub proof fn lemma_find_bars_bounds(s: Seq<char>, j: int)
    requires
        0 <= j <= s.len(),
    ensures
        j <= find_bars(s, j) <= s.len(),
        find_bars(s, j) < s.len() ==> bars_at(s, find_bars(s, j)),
    decreases s.len() - j,
{
    if j < s.len() && !bars_at(s, j) {
        lemma_find_bars_bounds(s, j + 1);
    }
}

/// Size of the text an element is parsed again from: the text of a link or
/// a spoiler; nothing for the others.
pub open spec fn token_size(t: TokenV) -> nat {
    match t {
        TokenV::Link { text, .. } => text.len(),
        TokenV::Spoiler(text) => text.len(),
        _ => 0,
    }
}

/// An element found at `p` ends after `p`, within the input, and what is
/// parsed again from it is shorter than the input.
pub proof fn lemma_element_at(s: Seq<char>, p: int)
    requires
        0 <= p < s.len(),
    ensures
        p < spec_element_at(s, p).0 <= s.len(),
        token_size(spec_element_at(s, p).1) < s.len(),
{
    if s[p] == '[' {
        lemma_find_char_bounds(s, p + 1, ']');
        let j = find_char(s, p + 1, ']');
        if j + 1 < s.len() {
            lemma_find_url_end_bounds(s, j + 2);
        }
    }
    lemma_find_ws_bounds(s, p);
    if bars_at(s, p) {
        lemma_find_bars_bounds(s, p + 2);
    }
}

/// The elements of `s` from `p` on, as the grammar finds them left to right.
pub open spec fn spec_tokens_from(s: Seq<char>, p: int) -> Seq<TokenV>
    decreases s.len() - p,
{
    if p < 0 || p >= s.len() {
        Seq::empty()
    } else {
        proof {
            lemma_element_at(s, p);
        }
        let (e, t) = spec_element_at(s, p);
        seq![t] + spec_tokens_from(s, e)
    }
}

/// Adjacent plain-text elements joined into one, left to right.
pub open spec fn spec_merge(ts: Seq<TokenV>) -> Seq<TokenV>
    decreases ts.len(),
{
    if ts.len() == 0 {
        Seq::empty()
    } else {
        let m = spec_merge(ts.drop_last());
        match ts.last() {
            TokenV::Text(cur) => {
                if m.len() > 0 && m.last() is Text {
                    m.drop_last().push(TokenV::Text(m.last()->Text_0 + cur))
                } else {
                    m.push(ts.last())
                }
            },
            _ => m.push(ts.last()),
        }
    }
}

/// Text with the given emphasis and no other style.
pub open spec fn plain_span(text: Seq<char>, bold: bool, italic: bool, strikethrough: bool, link: bool) -> InlineV {
    InlineV::Span(
        SpanV { text, bold, italic, strikethrough, code: false, link, spoiler: false },
    )
}

/// One element styled: text and bare hyperlinks become spans, links and
/// spoilers have their text parsed again.
pub open spec fn spec_map_token(t: TokenV, bold: bool, italic: bool, strikethrough: bool) -> InlineV
    decreases token_size(t), 3int, 0int,
{
    match t {
        TokenV::Text(text) => plain_span(text, bold, italic, strikethrough, false),
        TokenV::UserMention(id) => InlineV::UserMention(id),
        TokenV::ChannelMention(id) => InlineV::ChannelMention(id),
        TokenV::RoleMention(id) => InlineV::RoleMention(id),
        TokenV::Emoji(id) => InlineV::Emoji(id),
        TokenV::Link { url, title, text } => InlineV::Link {
            url,
            title,
            text: spec_inlines(text, bold, italic, strikethrough),
        },
        TokenV::Hyperlink(text) => plain_span(text, bold, italic, strikethrough, true),
        TokenV::Spoiler(text) => InlineV::Spoiler(spec_inlines(text, bold, italic, strikethrough)),
    }
}

/// Each element styled, for elements smaller than `bound`.
pub open spec fn spec_map_tokens(ts: Seq<TokenV>, bound: nat, bold: bool, italic: bool, strikethrough: bool) -> Seq<InlineV>
    decreases bound, 1int, ts.len(),
{
    if ts.len() == 0 {
        Seq::empty()
    } else {
        let rest = spec_map_tokens(ts.drop_last(), bound, bold, italic, strikethrough);
        if token_size(ts.last()) < bound {
            rest.push(spec_map_token(ts.last(), bold, italic, strikethrough))
        } else {
            rest
        }
    }
}

/// The inline content of `s` with the given emphasis.
pub open spec fn spec_inlines(s: Seq<char>, bold: bool, italic: bool, strikethrough: bool) -> Seq<InlineV>
    decreases s.len(), 2int, 0int,
{
    spec_map_tokens(spec_merge(spec_tokens_from(s, 0)), s.len(), bold, italic, strikethrough)
}


// ---------------------------------------------------------------------------
// Lemmas on the grammar's output
// ---------------------------------------------------------------------------

/// A span carries exactly the emphasis it was parsed with, and is neither
/// code nor a spoiler.
pub open spec fn span_styled(x: InlineV, bold: bool, italic: bool, strikethrough: bool) -> bool {
    x matches InlineV::Span(sp) ==> sp.bold == bold && sp.italic == italic && sp.strikethrough == strikethrough
        && !sp.code && !sp.spoiler
}

proof fn lemma_map_tokens_styled(ts: Seq<TokenV>, bound: nat, bold: bool, italic: bool, strikethrough: bool)
    ensures
        forall|k: int| 0 <= k < spec_map_tokens(ts, bound, bold, italic, strikethrough).len() ==> span_styled(
            #[trigger] spec_map_tokens(ts, bound, bold, italic, strikethrough)[k],
            bold,
            italic,
            strikethrough,
        ),
    decreases ts.len(),
{
    if ts.len() > 0 {
        lemma_map_tokens_styled(ts.drop_last(), bound, bold, italic, strikethrough);
        let r = spec_map_tokens(ts, bound, bold, italic, strikethrough);
        let rest = spec_map_tokens(ts.drop_last(), bound, bold, italic, strikethrough);
        let x = spec_map_token(ts.last(), bold, italic, strikethrough);
        assert(span_styled(x, bold, italic, strikethrough));
        assert forall|k: int| 0 <= k < r.len() implies span_styled(#[trigger] r[k], bold, italic, strikethrough) by {
            if k < rest.len() {
                assert(r[k] == rest[k]);
            } else {
                assert(r[k] == x);
            }
        }
    }
}

/// Every span at the top level of parsed inline content carries the
/// emphasis it was parsed with (the bold, italic and strikethrough in force
/// around the text), and no span there is code or a spoiler.
pub proof fn law_spans_carry_emphasis(s: Seq<char>, bold: bool, italic: bool, strikethrough: bool)
    ensures
        forall|k: int| 0 <= k < spec_inlines(s, bold, italic, strikethrough).len() ==> span_styled(
            #[trigger] spec_inlines(s, bold, italic, strikethrough)[k],
            bold,
            italic,
            strikethrough,
        ),
{
    lemma_map_tokens_styled(spec_merge(spec_tokens_from(s, 0)), s.len(), bold, italic, strikethrough);
    assert(spec_inlines(s, bold, italic, strikethrough) == spec_map_tokens(
        spec_merge(spec_tokens_from(s, 0)),
        s.len(),
        bold,
        italic,
        strikethrough,
    ));
}

/// Every element found from `p` on is smaller than the input.
pub proof fn lemma_tokens_small(s: Seq<char>, p: int)
    ensures
        forall|k: int|
            0 <= k < spec_tokens_from(s, p).len() ==> token_size(
                #[trigger] spec_tokens_from(s, p)[k],
            ) < s.len(),
    decreases s.len() - p,
{
    if 0 <= p < s.len() {
        lemma_element_at(s, p);
        let (e, t) = spec_element_at(s, p);
        lemma_tokens_small(s, e);
        let rest = spec_tokens_from(s, e);
        assert forall|k: int|
            0 <= k < spec_tokens_from(s, p).len() implies token_size(
                #[trigger] spec_tokens_from(s, p)[k],
            ) < s.len() by {
            if k > 0 {
                assert(spec_tokens_from(s, p)[k] == rest[k - 1]);
            }
        }
    }
}

/// Joining plain text keeps every element below a positive bound.
pub proof fn lemma_merge_small(ts: Seq<TokenV>, bound: nat)
    requires
        bound > 0,
        forall|k: int| 0 <= k < ts.len() ==> token_size(#[trigger] ts[k]) < bound,
    ensures
        forall|k: int|
            0 <= k < spec_merge(ts).len() ==> token_size(#[trigger] spec_merge(ts)[k]) < bound,
    decreases ts.len(),
{
    if ts.len() > 0 {
        let init = ts.drop_last();
        assert forall|k: int| 0 <= k < init.len() implies token_size(#[trigger] init[k])
            < bound by {
            assert(init[k] == ts[k]);
        }
        lemma_merge_small(init, bound);
        assert(token_size(ts[ts.len() - 1]) < bound);
        let m = spec_merge(init);
        let r = spec_merge(ts);
        assert forall|k: int| 0 <= k < r.len() implies token_size(#[trigger] r[k]) < bound by {
            if k < r.len() - 1 {
                assert(r[k] == m[k]);
            }
        }
    }
}

/// The elements that the inline content of `s` is made of are all smaller
/// than `s`.
pub proof fn lemma_merged_small(s: Seq<char>)
    ensures
        forall|k: int|
            0 <= k < spec_merge(spec_tokens_from(s, 0)).len() ==> token_size(
                #[trigger] spec_merge(spec_tokens_from(s, 0))[k],
            ) < s.len(),
{
    lemma_tokens_small(s, 0);
    if s.len() > 0 {
        lemma_merge_small(spec_tokens_from(s, 0), s.len());
    } else {
        assert(spec_tokens_from(s, 0).len() == 0);
    }
}

/// The characters an element was read from.
pub open spec fn token_source(t: TokenV) -> Seq<char> {
    match t {
        TokenV::Text(text) => text,
        TokenV::UserMention(id) => seq!['<', '@'] + id + seq!['>'],
        TokenV::ChannelMention(id) => seq!['<', '#'] + id + seq!['>'],
        TokenV::RoleMention(id) => seq!['<', '%'] + id + seq!['>'],
        TokenV::Emoji(id) => seq![':'] + id + seq![':'],
        TokenV::Link { url, text, .. } => seq!['['] + text + seq![']', '('] + url + seq![')'],
        TokenV::Hyperlink(text) => text,
        TokenV::Spoiler(text) => seq!['|', '|'] + text + seq!['|', '|'],
    }
}

/// The characters a sequence of elements was read from, in order.
pub open spec fn token_sources(ts: Seq<TokenV>) -> Seq<char>
    decreases ts.len(),
{
    if ts.len() == 0 {
        Seq::empty()
    } else {
        token_sources(ts.drop_last()) + token_source(ts.last())
    }
}

proof fn lemma_sources_prepend(t: TokenV, ts: Seq<TokenV>)
    ensures
        token_sources(seq![t] + ts) == token_source(t) + token_sources(ts),
    decreases ts.len(),
{
    let all = seq![t] + ts;
    if ts.len() == 0 {
        assert(all =~= seq![t]);
        assert(all.drop_last() =~= Seq::<TokenV>::empty());
        assert(token_sources(Seq::<TokenV>::empty()) == Seq::<char>::empty());
        assert(token_sources(ts) == Seq::<char>::empty());
        assert(token_sources(all) == token_sources(all.drop_last()) + token_source(all.last()));
        assert(token_source(t) + Seq::<char>::empty() =~= token_source(t));
        assert(Seq::<char>::empty() + token_source(t) =~= token_source(t));
    } else {
        lemma_sources_prepend(t, ts.drop_last());
        assert(all.drop_last() =~= seq![t] + ts.drop_last());
        assert(all.last() == ts.last());
        assert(token_sources(all) == token_sources(all.drop_last()) + token_source(all.last()));
        assert(token_sources(ts) == token_sources(ts.drop_last()) + token_source(ts.last()));
        assert(token_source(t) + token_sources(ts.drop_last()) + token_source(ts.last())
            =~= token_source(t) + (token_sources(ts.drop_last()) + token_source(ts.last())));
    }
}

/// The element found at `p` was read from exactly the characters between
/// `p` and its end.
proof fn lemma_element_source(s: Seq<char>, p: int)
    requires
        0 <= p < s.len(),
    ensures
        token_source(spec_element_at(s, p).1) == s.subrange(p, spec_element_at(s, p).0),
{
    lemma_element_at(s, p);
    let (e, t) = spec_element_at(s, p);
    if spec_user_mention_at(s, p) is Some {
        assert(s.subrange(p, e) =~= seq!['<', '@'] + s.subrange(p + 2, p + 28) + seq!['>']);
    } else if spec_channel_mention_at(s, p) is Some {
        assert(s.subrange(p, e) =~= seq!['<', '#'] + s.subrange(p + 2, p + 28) + seq!['>']);
    } else if spec_role_mention_at(s, p) is Some {
        assert(s.subrange(p, e) =~= seq!['<', '%'] + s.subrange(p + 2, p + 28) + seq!['>']);
    } else if spec_emoji_at(s, p) is Some {
        assert(s.subrange(p, e) =~= seq![':'] + s.subrange(p + 1, p + 27) + seq![':']);
    } else if spec_link_at(s, p) is Some {
        lemma_find_char_bounds(s, p + 1, ']');
        let j = find_char(s, p + 1, ']');
        lemma_find_url_end_bounds(s, j + 2);
        let k = find_url_end(s, j + 2);
        assert(s.subrange(p, e) =~= seq!['['] + s.subrange(p + 1, j) + seq![']', '('] + s.subrange(j + 2, k)
            + seq![')']);
    } else if spec_hyperlink_at(s, p) is Some {
    } else if spec_spoiler_at(s, p) is Some {
        lemma_find_bars_bounds(s, p + 2);
        let i = find_bars(s, p + 2);
        assert(s.subrange(p, e) =~= seq!['|', '|'] + s.subrange(p + 2, i) + seq!['|', '|']);
    } else {
        assert(s.subrange(p, e) =~= seq![s[p]]);
    }
}

proof fn lemma_tokens_source(s: Seq<char>, p: int)
    requires
        0 <= p <= s.len(),
    ensures
        token_sources(spec_tokens_from(s, p)) == s.subrange(p, s.len() as int),
    decreases s.len() - p,
{
    if p == s.len() {
        assert(s.subrange(p, s.len() as int) =~= Seq::<char>::empty());
    } else {
        lemma_element_at(s, p);
        lemma_element_source(s, p);
        let (e, t) = spec_element_at(s, p);
        lemma_tokens_source(s, e);
        lemma_sources_prepend(t, spec_tokens_from(s, e));
        assert(s.subrange(p, e) + s.subrange(e, s.len() as int) =~= s.subrange(p, s.len() as int));
    }
}

proof fn lemma_merge_source(ts: Seq<TokenV>)
    ensures
        token_sources(spec_merge(ts)) == token_sources(ts),
    decreases ts.len(),
{
    if ts.len() > 0 {
        lemma_merge_source(ts.drop_last());
        let m = spec_merge(ts.drop_last());
        if ts.last() is Text && m.len() > 0 && m.last() is Text {
            let a = m.last()->Text_0;
            let cur = ts.last()->Text_0;
            let r = m.drop_last().push(TokenV::Text(a + cur));
            assert(r.drop_last() =~= m.drop_last());
            assert(token_sources(m.drop_last()) + (a + cur) =~= token_sources(m.drop_last()) + a + cur);
        } else {
            assert(m.push(ts.last()).drop_last() =~= m);
        }
    }
}

/// The inline grammar loses and adds nothing: the elements it finds in `s`,
/// each written back as the characters it was read from, spell `s` again,
/// before and after adjacent plain text is joined.
pub proof fn law_elements_spell_the_input(s: Seq<char>)
    ensures
        token_sources(spec_tokens_from(s, 0)) == s,
        token_sources(spec_merge(spec_tokens_from(s, 0))) == s,
{
    lemma_tokens_source(s, 0);
    assert(s.subrange(0, s.len() as int) =~= s);
    lemma_merge_source(spec_tokens_from(s, 0));
}

/// Plain text: a span that is not a bare link.
pub open spec fn is_plain_span(x: InlineV) -> bool {
    x matches InlineV::Span(sp) && !sp.link
}

/// `x` and everything nested in it (the text of links and spoilers) carry
/// the given emphasis, wherever they are spans.
pub open spec fn deep_styled(x: InlineV, bold: bool, italic: bool, strikethrough: bool) -> bool
    decreases x, 0int,
{
    &&& span_styled(x, bold, italic, strikethrough)
    &&& match x {
        InlineV::Link { text, .. } => all_deep_styled(text, bold, italic, strikethrough),
        InlineV::Spoiler(v) => all_deep_styled(v, bold, italic, strikethrough),
        _ => true,
    }
}

/// Every element of `s` is [`deep_styled`].
pub open spec fn all_deep_styled(s: Seq<InlineV>, bold: bool, italic: bool, strikethrough: bool) -> bool
    decreases s, 1int,
{
    if s.len() == 0 {
        true
    } else {
        deep_styled(s[s.len() - 1], bold, italic, strikethrough) && all_deep_styled(
            s.subrange(0, s.len() - 1),
            bold,
            italic,
            strikethrough,
        )
    }
}

proof fn lemma_all_deep_styled(s: Seq<InlineV>, bold: bool, italic: bool, strikethrough: bool)
    ensures
        all_deep_styled(s, bold, italic, strikethrough) <==> forall|k: int| 0 <= k < s.len() ==> deep_styled(
            #[trigger] s[k],
            bold,
            italic,
            strikethrough,
        ),
    decreases s.len(),
{
    if s.len() > 0 {
        let d = s.subrange(0, s.len() - 1);
        lemma_all_deep_styled(d, bold, italic, strikethrough);
        if all_deep_styled(s, bold, italic, strikethrough) {
            assert forall|k: int| 0 <= k < s.len() implies deep_styled(#[trigger] s[k], bold, italic, strikethrough) by {
                if k < s.len() - 1 {
                    assert(s[k] == d[k]);
                }
            }
        }
        if forall|k: int| 0 <= k < s.len() ==> deep_styled(#[trigger] s[k], bold, italic, strikethrough) {
            assert forall|k: int| 0 <= k < d.len() implies deep_styled(#[trigger] d[k], bold, italic, strikethrough) by {
                assert(s[k] == d[k]);
            }
        }
    }
}

/// Where every element is below the bound, styling maps the elements one
/// for one.
proof fn lemma_map_tokens_each(ts: Seq<TokenV>, bound: nat, bold: bool, italic: bool, strikethrough: bool)
    requires
        forall|k: int| 0 <= k < ts.len() ==> token_size(#[trigger] ts[k]) < bound,
    ensures
        spec_map_tokens(ts, bound, bold, italic, strikethrough).len() == ts.len(),
        forall|k: int| 0 <= k < ts.len() ==> #[trigger] spec_map_tokens(ts, bound, bold, italic, strikethrough)[k]
            == spec_map_token(ts[k], bold, italic, strikethrough),
    decreases ts.len(),
{
    if ts.len() > 0 {
        let d = ts.drop_last();
        assert forall|k: int| 0 <= k < d.len() implies token_size(#[trigger] d[k]) < bound by {
            assert(d[k] == ts[k]);
        }
        lemma_map_tokens_each(d, bound, bold, italic, strikethrough);
        assert(token_size(ts[ts.len() - 1]) < bound);
        let r = spec_map_tokens(ts, bound, bold, italic, strikethrough);
        assert forall|k: int| 0 <= k < ts.len() implies #[trigger] r[k] == spec_map_token(ts[k], bold, italic, strikethrough) by {
            if k < ts.len() - 1 {
                assert(d[k] == ts[k]);
            }
        }
    }
}

/// No two adjacent elements are both plain text.
pub open spec fn no_adjacent_text(ts: Seq<TokenV>) -> bool {
    forall|k: int| 0 <= k < ts.len() - 1 ==> !(#[trigger] ts[k] is Text && ts[k + 1] is Text)
}

proof fn lemma_merge_shape(ts: Seq<TokenV>)
    ensures
        no_adjacent_text(spec_merge(ts)),
        spec_merge(ts).len() == 0 <==> ts.len() == 0,
        spec_merge(ts).len() > 0 ==> (spec_merge(ts).last() is Text <==> ts.last() is Text),
    decreases ts.len(),
{
    if ts.len() > 0 {
        lemma_merge_shape(ts.drop_last());
        let m = spec_merge(ts.drop_last());
        let r = spec_merge(ts);
        if ts.last() is Text && m.len() > 0 && m.last() is Text {
            assert forall|k: int| 0 <= k < r.len() - 1 implies !(#[trigger] r[k] is Text && r[k + 1] is Text) by {
                assert(r[k] == m[k]);
                if k + 1 < r.len() - 1 {
                    assert(r[k + 1] == m[k + 1]);
                } else {
                    assert(m[k + 1] is Text);
                }
            }
        } else {
            assert forall|k: int| 0 <= k < r.len() - 1 implies !(#[trigger] r[k] is Text && r[k + 1] is Text) by {
                assert(r[k] == m[k]);
                if k + 1 < r.len() - 1 {
                    assert(r[k + 1] == m[k + 1]);
                }
            }
        }
    }
}

proof fn lemma_inlines_deep(s: Seq<char>, bold: bool, italic: bool, strikethrough: bool)
    ensures
        all_deep_styled(spec_inlines(s, bold, italic, strikethrough), bold, italic, strikethrough),
    decreases s.len(),
{
    let ts = spec_merge(spec_tokens_from(s, 0));
    lemma_merged_small(s);
    lemma_map_tokens_each(ts, s.len(), bold, italic, strikethrough);
    let r = spec_inlines(s, bold, italic, strikethrough);
    assert forall|k: int| 0 <= k < r.len() implies deep_styled(#[trigger] r[k], bold, italic, strikethrough) by {
        let t = ts[k];
        assert(token_size(t) < s.len());
        match t {
            TokenV::Link { url, title, text } => {
                lemma_inlines_deep(text, bold, italic, strikethrough);
            },
            TokenV::Spoiler(text) => {
                lemma_inlines_deep(text, bold, italic, strikethrough);
            },
            _ => {},
        }
    }
    lemma_all_deep_styled(r, bold, italic, strikethrough);
}

/// Parsed inline content is merged and styled throughout: no two adjacent
/// elements are both plain text; every span, also inside the text of links
/// and spoilers, carries the given bold, italic and strikethrough and is
/// neither code nor a spoiler; and the content is empty exactly when the
/// text is.
pub proof fn law_inline_content_merged_and_styled(s: Seq<char>, bold: bool, italic: bool, strikethrough: bool)
    ensures
        forall|k: int| 0 <= k < spec_inlines(s, bold, italic, strikethrough).len() - 1 ==> !(is_plain_span(
            #[trigger] spec_inlines(s, bold, italic, strikethrough)[k],
        ) && is_plain_span(spec_inlines(s, bold, italic, strikethrough)[k + 1])),
        forall|k: int| 0 <= k < spec_inlines(s, bold, italic, strikethrough).len() ==> deep_styled(
            #[trigger] spec_inlines(s, bold, italic, strikethrough)[k],
            bold,
            italic,
            strikethrough,
        ),
        spec_inlines(s, bold, italic, strikethrough).len() == 0 <==> s.len() == 0,
{
    let raw = spec_tokens_from(s, 0);
    let ts = spec_merge(raw);
    lemma_merged_small(s);
    lemma_map_tokens_each(ts, s.len(), bold, italic, strikethrough);
    lemma_merge_shape(raw);
    let r = spec_inlines(s, bold, italic, strikethrough);
    assert forall|k: int| 0 <= k < r.len() - 1 implies !(is_plain_span(#[trigger] r[k]) && is_plain_span(r[k + 1])) by {
        assert(r[k] == spec_map_token(ts[k], bold, italic, strikethrough));
        assert(r[k + 1] == spec_map_token(ts[k + 1], bold, italic, strikethrough));
        assert(!(ts[k] is Text && ts[k + 1] is Text));
    }
    lemma_inlines_deep(s, bold, italic, strikethrough);
    lemma_all_deep_styled(r, bold, italic, strikethrough);
    if s.len() > 0 {
        lemma_element_at(s, 0);
        assert(raw.len() > 0);
    }
}

// ---------------------------------------------------------------------------
// The parsers
// ---------------------------------------------------------------------------

pub open spec fn opt_token_view(r: Option<(usize, InlineParserElement)>) -> Option<(int, TokenV)> {
    match r {
        Some((e, t)) => Some((e as int, t@)),
        None => None,
    }
}

pub open spec fn tokens_view(ts: Seq<InlineParserElement>) -> Seq<TokenV> {
    ts.map_values(|t: InlineParserElement| t@)
}

/// An object id (26 upper-case Crockford base-32 characters) at `pos`.
pub fn id_parser(input: &[char], pos: usize) -> (r: Option<(usize, String)>)
    ensures
        match r {
            Some((e, id)) => spec_id_at(input@, pos as int) == Some((e as int, id@)),
            None => spec_id_at(input@, pos as int) is None,
        },
{
    if pos > input.len() || input.len() - pos < 26 {
        return None;
    }
    let mut k = pos;
    while k < pos + 26
        invariant
            pos <= k <= pos + 26 <= input.len(),
            forall|m: int| pos <= m < k ==> is_id_char(#[trigger] input@[m]),
        decreases pos + 26 - k,
    {
        let c = input[k];
        if !(('0' <= c && c <= '9') || ('A' <= c && c <= 'Z' && c != 'I' && c != 'L' && c != 'O'
            && c != 'U')) {
            assert(!is_id_char(input@[k as int]));
            return None;
        }
        k = k + 1;
    }
    let id = string_of(&input[pos..pos + 26]);
    Some((pos + 26, id))
}

fn mention_parser(input: &[char], pos: usize, sigil: char) -> (r: Option<(usize, String)>)
    ensures
        match r {
            Some((e, id)) => spec_mention_at(input@, pos as int, sigil) == Some((e as int, id@)),
            None => spec_mention_at(input@, pos as int, sigil) is None,
        },
{
    if pos > input.len() || input.len() - pos < 29 {
        return None;
    }
    if input[pos] != '<' || input[pos + 1] != sigil || input[pos + 28] != '>' {
        return None;
    }
    match id_parser(input, pos + 2) {
        Some((_, id)) => Some((pos + 29, id)),
        None => None,
    }
}

/// `<@id>` at `pos`.
pub fn user_mention_parser(input: &[char], pos: usize) -> (r: Option<(usize, InlineParserElement)>)
    ensures
        opt_token_view(r) == spec_user_mention_at(input@, pos as int),
{
    match mention_parser(input, pos, '@') {
        Some((e, id)) => Some((e, InlineParserElement::UserMention(id))),
        None => None,
    }
}

/// `<#id>` at `pos`.
pub fn channel_mention_parser(input: &[char], pos: usize) -> (r: Option<(usize, InlineParserElement)>)
    ensures
        opt_token_view(r) == spec_channel_mention_at(input@, pos as int),
{
    match mention_parser(input, pos, '#') {
        Some((e, id)) => Some((e, InlineParserElement::ChannelMention(id))),
        None => None,
    }
}

/// `<%id>` at `pos`.
pub fn role_mention_parser(input: &[char], pos: usize) -> (r: Option<(usize, InlineParserElement)>)
    ensures
        opt_token_view(r) == spec_role_mention_at(input@, pos as int),
{
    match mention_parser(input, pos, '%') {
        Some((e, id)) => Some((e, InlineParserElement::RoleMention(id))),
        None => None,
    }
}

/// `:id:` at `pos`.
pub fn emoji_mention_parser(input: &[char], pos: usize) -> (r: Option<(usize, InlineParserElement)>)
    ensures
        opt_token_view(r) == spec_emoji_at(input@, pos as int),
{
    if pos > input.len() || input.len() - pos < 28 {
        return None;
    }
    if input[pos] != ':' || input[pos + 27] != ':' {
        return None;
    }
    match id_parser(input, pos + 1) {
        Some((_, id)) => Some((pos + 28, InlineParserElement::Emoji(id))),
        None => None,
    }
}

pub(crate) fn scan_char(input: &[char], start: usize, c: char) -> (r: usize)
    requires
        start <= input.len(),
    ensures
        r == find_char(input@, start as int, c),
{
    let mut j = start;
    while j < input.len()
        invariant
            start <= j <= input.len(),
            find_char(input@, start as int, c) == find_char(input@, j as int, c),
        decreases input.len() - j,
    {
        if input[j] == c {
            return j;
        }
        j = j + 1;
    }
    j
}

fn scan_url_end(input: &[char], start: usize) -> (r: usize)
    requires
        start <= input.len(),
    ensures
        r == find_url_end(input@, start as int),
{
    let mut j = start;
    while j < input.len()
        invariant
            start <= j <= input.len(),
            find_url_end(input@, start as int) == find_url_end(input@, j as int),
        decreases input.len() - j,
    {
        if input[j] == ' ' || input[j] == ')' {
            return j;
        }
        j = j + 1;
    }
    j
}

fn scan_ws(input: &[char], start: usize) -> (r: usize)
    requires
        start <= input.len(),
    ensures
        r == find_ws(input@, start as int),
{
    let mut j = start;
    while j < input.len()
        invariant
            start <= j <= input.len(),
            find_ws(input@, start as int) == find_ws(input@, j as int),
        decreases input.len() - j,
    {
        if is_whitespace(input[j]) {
            return j;
        }
        j = j + 1;
    }
    j
}

fn scan_bars(input: &[char], start: usize) -> (r: usize)
    requires
        start <= input.len(),
    ensures
        r == find_bars(input@, start as int),
{
    let mut j = start;
    while j < input.len()
        invariant
            start <= j <= input.len(),
            find_bars(input@, start as int) == find_bars(input@, j as int),
        decreases input.len() - j,
    {
        if j + 1 < input.len() && input[j] == '|' && input[j + 1] == '|' {
            return j;
        }
        j = j + 1;
    }
    j
}

/// `[text](url)` at `pos`.
pub fn link_parser(input: &[char], pos: usize) -> (r: Option<(usize, InlineParserElement)>)
    ensures
        opt_token_view(r) == spec_link_at(input@, pos as int),
{
    if pos >= input.len() || input[pos] != '[' {
        return None;
    }
    let j = scan_char(input, pos + 1, ']');
    proof {
        lemma_find_char_bounds(input@, pos + 1, ']');
    }
    if j >= input.len() || input.len() - j < 2 || input[j + 1] != '(' {
        return None;
    }
    let k = scan_url_end(input, j + 2);
    proof {
        lemma_find_url_end_bounds(input@, j + 2);
    }
    if k >= input.len() || input[k] != ')' {
        return None;
    }
    let url = string_of(&input[j + 2..k]);
    let text = string_of(&input[pos + 1..j]);
    Some((k + 1, InlineParserElement::Link { url, title: None, text }))
}

/// Whether `text` is an `http` or `https` URL.
pub fn is_http_url(text: &str) -> (r: bool)
    ensures
        r == http_url(text@),
{
    match parse_url(text) {
        Some(p) => {
            let https = String::from_str("https");
            let http = String::from_str("http");
            p.scheme == https || p.scheme == http
        },
        None => false,
    }
}

/// A bare `http`/`https` URL: the run of non-white-space characters at
/// `pos`.
pub fn hyperlink_parser(input: &[char], pos: usize) -> (r: Option<(usize, InlineParserElement)>)
    ensures
        opt_token_view(r) == spec_hyperlink_at(input@, pos as int),
{
    if pos >= input.len() {
        return None;
    }
    let e = scan_ws(input, pos);
    proof {
        lemma_find_ws_bounds(input@, pos as int);
    }
    if e == pos {
        return None;
    }
    let text = string_of(&input[pos..e]);
    if is_http_url(text.as_str()) {
        Some((e, InlineParserElement::Hyperlink(text)))
    } else {
        None
    }
}

/// `||text||` at `pos`.
pub fn spoiler_parser(input: &[char], pos: usize) -> (r: Option<(usize, InlineParserElement)>)
    ensures
        opt_token_view(r) == spec_spoiler_at(input@, pos as int),
{
    if pos >= input.len() || input.len() - pos < 2 || input[pos] != '|' || input[pos + 1] != '|' {
        return None;
    }
    let i = scan_bars(input, pos + 2);
    proof {
        lemma_find_bars_bounds(input@, pos + 2);
    }
    if i >= input.len() {
        return None;
    }
    let text = string_of(&input[pos + 2..i]);
    Some((i + 2, InlineParserElement::Spoiler(text)))
}

/// The first custom element found at `pos`, trying mentions of users,
/// channels and roles, emoji, links, bare URLs and spoilers in that order.
pub fn custom_element_parser(input: &[char], pos: usize) -> (r: Option<(usize, InlineParserElement)>)
    ensures
        opt_token_view(r) == spec_custom_at(input@, pos as int),
{
    let r = user_mention_parser(input, pos);
    if r.is_some() {
        return r;
    }
    let r = channel_mention_parser(input, pos);
    if r.is_some() {
        return r;
    }
    let r = role_mention_parser(input, pos);
    if r.is_some() {
        return r;
    }
    let r = emoji_mention_parser(input, pos);
    if r.is_some() {
        return r;
    }
    let r = link_parser(input, pos);
    if r.is_some() {
        return r;
    }
    let r = hyperlink_parser(input, pos);
    if r.is_some() {
        return r;
    }
    spoiler_parser(input, pos)
}

/// The element at `pos`: a custom element, or the single character there.
pub fn element_parser(input: &[char], pos: usize) -> (r: (usize, InlineParserElement))
    requires
        pos < input.len(),
    ensures
        (r.0 as int, r.1@) == spec_element_at(input@, pos as int),
{
    match custom_element_parser(input, pos) {
        Some(r) => r,
        None => {
            let text = string_of(&input[pos..pos + 1]);
            proof {
                assert(input@.subrange(pos as int, pos + 1) =~= seq![input@[pos as int]]);
            }
            (pos + 1, InlineParserElement::Text(text))
        },
    }
}

/// All elements of `input`, left to right.
pub fn inline_parser(input: &[char]) -> (r: Vec<InlineParserElement>)
    ensures
        tokens_view(r@) == spec_tokens_from(input@, 0),
{
    let mut out: Vec<InlineParserElement> = Vec::new();
    let mut pos: usize = 0;
    while pos < input.len()
        invariant
            pos <= input.len(),
            tokens_view(out@) + spec_tokens_from(input@, pos as int) == spec_tokens_from(input@, 0),
        decreases input.len() - pos,
    {
        proof {
            lemma_element_at(input@, pos as int);
        }
        let ghost before = tokens_view(out@);
        let (e, t) = element_parser(input, pos);
        out.push(t);
        proof {
            assert(tokens_view(out@) =~= before.push(t@));
            assert(spec_tokens_from(input@, pos as int) =~= seq![t@] + spec_tokens_from(input@, e as int));
            assert(before + spec_tokens_from(input@, pos as int) =~= before.push(t@) + spec_tokens_from(input@, e as int));
        }
        pos = e;
    }
    proof {
        assert(spec_tokens_from(input@, pos as int) =~= Seq::<TokenV>::empty());
        assert(tokens_view(out@) + Seq::<TokenV>::empty() =~= tokens_view(out@));
    }
    out
}


fn clone_opt_string(o: &Option<String>) -> (r: Option<String>)
    ensures
        opt_str_view(r) == opt_str_view(*o),
{
    match o {
        Some(s) => Some(s.clone()),
        None => None,
    }
}

/// A copy of an element.
fn clone_token(t: &InlineParserElement) -> (r: InlineParserElement)
    ensures
        r@ == t@,
{
    match t {
        InlineParserElement::Text(s) => InlineParserElement::Text(s.clone()),
        InlineParserElement::UserMention(s) => InlineParserElement::UserMention(s.clone()),
        InlineParserElement::ChannelMention(s) => InlineParserElement::ChannelMention(s.clone()),
        InlineParserElement::RoleMention(s) => InlineParserElement::RoleMention(s.clone()),
        InlineParserElement::Emoji(s) => InlineParserElement::Emoji(s.clone()),
        InlineParserElement::Link { url, title, text } => InlineParserElement::Link {
            url: url.clone(),
            title: clone_opt_string(title),
            text: text.clone(),
        },
        InlineParserElement::Hyperlink(s) => InlineParserElement::Hyperlink(s.clone()),
        InlineParserElement::Spoiler(s) => InlineParserElement::Spoiler(s.clone()),
    }
}

/// Adjacent plain-text elements joined into one.
fn join_text_elements(tokens: &Vec<InlineParserElement>) -> (r: Vec<InlineParserElement>)
    ensures
        tokens_view(r@) == spec_merge(tokens_view(tokens@)),
{
    let ghost tv = tokens_view(tokens@);
    let mut out: Vec<InlineParserElement> = Vec::new();
    let mut i: usize = 0;
    while i < tokens.len()
        invariant
            i <= tokens.len(),
            tv == tokens_view(tokens@),
            tokens_view(out@) == spec_merge(tv.take(i as int)),
        decreases tokens.len() - i,
    {
        let ghost m = tokens_view(out@);
        proof {
            assert(tv.take(i + 1).drop_last() =~= tv.take(i as int));
            assert(tv.take(i + 1).last() == tv[i as int]);
        }
        let t = clone_token(&tokens[i]);
        match t {
            InlineParserElement::Text(cur) => {
                let last_is_text = out.len() > 0 && matches!(out[out.len() - 1], InlineParserElement::Text(_));
                if last_is_text {
                    let last = out.pop().unwrap();
                    proof {
                        assert(tokens_view(out@) =~= m.drop_last());
                    }
                    if let InlineParserElement::Text(l) = last {
                        let joined = l.concat(cur.as_str());
                        out.push(InlineParserElement::Text(joined));
                        proof {
                            assert(tokens_view(out@) =~= m.drop_last().push(TokenV::Text(m.last()->Text_0 + cur@)));
                        }
                    }
                } else {
                    out.push(InlineParserElement::Text(cur));
                    proof {
                        assert(tokens_view(out@) =~= m.push(tv[i as int]));
                    }
                }
            },
            other => {
                out.push(other);
                proof {
                    assert(tokens_view(out@) =~= m.push(tv[i as int]));
                }
            },
        }
        i = i + 1;
    }
    proof {
        assert(tv.take(tokens.len() as int) =~= tv);
    }
    out
}

proof fn lemma_inlines_view_push(s: Seq<Inline>, x: Inline)
    ensures
        inlines_view(s.push(x)) == inlines_view(s).push(inline_view(x)),
{
    assert(s.push(x).subrange(0, s.len() as int) =~= s);
}

/// One element styled with the given emphasis; the text of links and
/// spoilers is parsed again.
pub fn map_element(element: InlineParserElement, bold: bool, italic: bool, strikethrough: bool) -> (r: Inline)
    ensures
        inline_view(r) == spec_map_token(element@, bold, italic, strikethrough),
    decreases token_size(element@), 3int,
{
    match element {
        InlineParserElement::Text(text) => Inline::Span(
            TextSpan { text, bold, italic, strikethrough, code: false, link: false, spoiler: false },
        ),
        InlineParserElement::UserMention(id) => Inline::UserMention { id },
        InlineParserElement::ChannelMention(id) => Inline::ChannelMention { id },
        InlineParserElement::RoleMention(id) => Inline::RoleMention { id },
        InlineParserElement::Emoji(id) => Inline::Emoji { id },
        InlineParserElement::Link { url, title, text } => {
            let inner = parse_elements(text.as_str(), bold, italic, strikethrough);
            Inline::Link { url, title, text: inner }
        },
        InlineParserElement::Hyperlink(text) => Inline::Span(
            TextSpan { text, bold, italic, strikethrough, code: false, link: true, spoiler: false },
        ),
        InlineParserElement::Spoiler(text) => {
            let inner = parse_elements(text.as_str(), bold, italic, strikethrough);
            Inline::Spoiler(inner)
        },
    }
}

/// The inline content of `content`: mentions, emoji, links, bare URLs and
/// spoilers found by the grammar, the rest as text with the given emphasis.
pub fn parse_elements(content: &str, bold: bool, italic: bool, strikethrough: bool) -> (r: Vec<Inline>)
    ensures
        inlines_view(r@) == spec_inlines(content@, bold, italic, strikethrough),
    decreases content@.len(), 2int,
{
    let chars = crate::text::chars_of(content);
    let tokens = inline_parser(&chars);
    let merged = join_text_elements(&tokens);
    let ghost mv = tokens_view(merged@);
    proof {
        lemma_merged_small(content@);
    }
    let mut out: Vec<Inline> = Vec::new();
    let mut i: usize = 0;
    while i < merged.len()
        invariant
            i <= merged.len(),
            mv == tokens_view(merged@),
            mv == spec_merge(spec_tokens_from(content@, 0)),
            forall|k: int| 0 <= k < mv.len() ==> token_size(#[trigger] mv[k]) < content@.len(),
            inlines_view(out@) == spec_map_tokens(
                mv.take(i as int),
                content@.len(),
                bold,
                italic,
                strikethrough,
            ),
        decreases merged.len() - i,
    {
        let t = clone_token(&merged[i]);
        proof {
            assert(t@ == mv[i as int]);
            assert(mv.take(i + 1).drop_last() =~= mv.take(i as int));
            assert(mv.take(i + 1).last() == mv[i as int]);
            lemma_inlines_view_push(out@, arbitrary());
        }
        let ghost before = out@;
        let x = map_element(t, bold, italic, strikethrough);
        out.push(x);
        proof {
            assert(out@ == before.push(x));
            lemma_inlines_view_push(before, x);
        }
        i = i + 1;
    }
    proof {
        assert(mv.take(merged.len() as int) =~= mv);
    }
    out
}

} // verus!

verus! {

proof fn lemma_no_bars_before(s: Seq<char>, j: int)
    requires
        0 <= j <= s.len(),
    ensures
        forall|k: int| j <= k < find_bars(s, j) ==> !bars_at(s, k),
        find_bars(s, j) < s.len() ==> bars_at(s, find_bars(s, j)),
        j <= find_bars(s, j) <= s.len(),
    decreases s.len() - j,
{
    if j < s.len() && !bars_at(s, j) {
        lemma_no_bars_before(s, j + 1);
    }
}

/// A spoiler runs from its opening `||` to the first `||` after it: the
/// text between holds no `||`, and the spoiler ends just after that
/// closing pair.
pub proof fn law_spoiler_closes_at_the_next_bars(s: Seq<char>, p: int)
    requires
        spec_spoiler_at(s, p) is Some,
    ensures
        ({
            let (e, tok) = spec_spoiler_at(s, p)->0;
            &&& tok matches TokenV::Spoiler(t) && (forall|k: int| 0 <= k < t.len() - 1 ==> !(#[trigger] t[k] == '|'
                && t[k + 1] == '|'))
            &&& tok matches TokenV::Spoiler(t) && t == s.subrange(p + 2, e - 2)
            &&& bars_at(s, p) && bars_at(s, e - 2)
        }),
{
    lemma_no_bars_before(s, p + 2);
    let i = find_bars(s, p + 2);
    let t = s.subrange(p + 2, i);
    assert forall|k: int| 0 <= k < t.len() - 1 implies !(#[trigger] t[k] == '|' && t[k + 1] == '|') by {
        assert(t[k] == s[p + 2 + k] && t[k + 1] == s[p + 2 + k + 1]);
        assert(!bars_at(s, p + 2 + k));
    }
}

} // verus!
