//! The GIF picker: what the search box and the category tiles do, and how
//! the category tiles are laid out.

use vstd::prelude::*;

verus! {

/// One GIF of a search or trending reply.
#[derive(Debug, Clone, PartialEq)]
pub struct GifResult {
    pub id: String,
    pub url: String,
}

/// The ids and urls of a list of GIFs.
pub open spec fn results_view(s: Seq<GifResult>) -> Seq<(Seq<char>, Seq<char>)> {
    s.map_values(|g: GifResult| (g.id@, g.url@))
}

/// A reply of the GIF service: the GIFs, and where the next page starts.
#[derive(Debug, PartialEq)]
pub struct GifResponse {
    pub results: Vec<GifResult>,
    pub next: Option<String>,
}

/// The locale every GIF request is made in.
pub open spec fn gif_locale() -> Seq<char> {
    "en_US"@
}

fn locale_string() -> (r: String)
    ensures
        r@ == gif_locale(),
{
    String::from_str("en_US")
}

/// A GIF search: the text, the locale and the most results wanted. It is
/// no category search and starts at the first page.
#[derive(Debug, PartialEq)]
pub struct GifSearchRequest {
    pub query: String,
    pub locale: String,
    pub limit: Option<u32>,
}

/// A request for the trending GIFs.
#[derive(Debug, PartialEq)]
pub struct GifTrendingRequest {
    pub locale: String,
    pub limit: Option<u32>,
}

/// A request for the GIF categories.
#[derive(Debug, PartialEq)]
pub struct GifCategoriesRequest {
    pub locale: String,
}

/// What the picker asks of the outside after a change.
#[derive(Debug, PartialEq)]
pub enum GifAction {
    /// The results were cleared; search nothing.
    ClearResults,
    /// Drop any search under way, and make this one after `delay_ms`
    /// milliseconds.
    Search { request: GifSearchRequest, delay_ms: u32 },
    /// Fetch the trending GIFs.
    FetchTrending(GifTrendingRequest),
}

/// [`GifAction`] as plain values: the text searched for, the locale and the
/// limit of a request.
pub enum GifActionV {
    ClearResults,
    Search { query: Seq<char>, locale: Seq<char>, limit: Option<u32>, delay_ms: u32 },
    FetchTrending { locale: Seq<char>, limit: Option<u32> },
}

impl View for GifAction {
    type V = GifActionV;

    open spec fn view(&self) -> GifActionV {
        match self {
            GifAction::ClearResults => GifActionV::ClearResults,
            GifAction::Search { request, delay_ms } => GifActionV::Search {
                query: request.query@,
                locale: request.locale@,
                limit: request.limit,
                delay_ms: *delay_ms,
            },
            GifAction::FetchTrending(r) => GifActionV::FetchTrending { locale: r.locale@, limit: r.limit },
        }
    }
}

/// The search made for `query`: fifty results in the GIF locale, half a
/// second after the last change.
pub open spec fn spec_search(query: Seq<char>) -> GifActionV {
    GifActionV::Search { query, locale: gif_locale(), limit: Some(50u32), delay_ms: 500 }
}

/// The trending GIFs fetched when the trending tile is pressed: fifty of
/// them.
pub open spec fn spec_fetch_trending() -> GifActionV {
    GifActionV::FetchTrending { locale: gif_locale(), limit: Some(50u32) }
}

/// The requests made when the picker first opens: the categories, and one
/// trending GIF for the trending tile's picture.
pub fn opening_requests() -> (r: (GifCategoriesRequest, GifTrendingRequest))
    ensures
        r.0.locale@ == gif_locale(),
        r.1.locale@ == gif_locale(),
        r.1.limit == Some(1u32),
{
    (GifCategoriesRequest { locale: locale_string() }, GifTrendingRequest { locale: locale_string(), limit: Some(1) })
}

/// The trending tile's picture: the first trending GIF, if any.
pub fn trending_placeholder(resp: GifResponse) -> (r: Option<GifResult>)
    ensures
        resp.results@.len() == 0 ==> r is None,
        resp.results@.len() > 0 ==> r == Some(resp.results@[0]),
{
    let mut results = resp.results;
    if results.len() == 0 {
        None
    } else {
        Some(results.remove(0))
    }
}

/// The picker's state: the search text, whether trending GIFs are shown,
/// and the GIFs listed with where their next page starts.
#[derive(Debug, PartialEq)]
pub struct GifPicker {
    pub query: String,
    pub on_trending: bool,
    pub results: Vec<GifResult>,
    pub next: Option<String>,
}

pub open spec fn opt_string_view(o: Option<String>) -> Option<Seq<char>> {
    match o {
        Some(s) => Some(s@),
        None => None,
    }
}

impl GifPicker {
    /// A fresh picker.
    pub fn new() -> (r: GifPicker)
        ensures
            r.query@ == Seq::<char>::empty(),
            !r.on_trending,
            r.results@.len() == 0,
            r.next is None,
    {
        GifPicker { query: String::new(), on_trending: false, results: Vec::new(), next: None }
    }

    /// Whether the results are shown rather than the categories (and with
    /// them the back button): while trending or with a query.
    pub open spec fn spec_showing_results(&self) -> bool {
        self.on_trending || self.query@.len() > 0
    }

    /// Whether the results are shown rather than the categories.
    pub fn showing_results(&self) -> (r: bool)
        ensures
            r == self.spec_showing_results(),
    {
        self.on_trending || !self.query.as_str().is_empty()
    }

    /// The search text changed to `query`: an empty text clears the
    /// results; any other leaves trending and searches for it.
    pub fn set_query(&mut self, query: String) -> (r: GifAction)
        ensures
            final(self).query@ == query@,
            final(self).next == old(self).next,
            query@.len() == 0 ==> final(self).on_trending == old(self).on_trending
                && final(self).results@.len() == 0 && r@ == GifActionV::ClearResults,
            query@.len() > 0 ==> !final(self).on_trending && final(self).results@ == old(self).results@
                && r@ == spec_search(query@),
    {
        let empty = query.as_str().is_empty();
        if empty {
            self.query = query;
            self.results = Vec::new();
            GifAction::ClearResults
        } else {
            let request = GifSearchRequest { query: query.clone(), locale: locale_string(), limit: Some(50) };
            self.query = query;
            self.on_trending = false;
            GifAction::Search { request, delay_ms: 500 }
        }
    }

    /// A search or trending reply came: its GIFs replace the listed ones.
    /// A failed request (`None`) changes nothing.
    pub fn receive(&mut self, reply: Option<GifResponse>)
        ensures
            reply is None ==> *final(self) == *old(self),
            reply is Some ==> final(self).results@ == reply->0.results@
                && final(self).next == reply->0.next
                && final(self).query == old(self).query
                && final(self).on_trending == old(self).on_trending,
    {
        if let Some(resp) = reply {
            self.results = resp.results;
            self.next = resp.next;
        }
    }

    /// The back button: clears the results and the text and leaves
    /// trending.
    pub fn back(&mut self) -> (r: GifAction)
        ensures
            final(self).query@ == Seq::<char>::empty(),
            !final(self).on_trending,
            final(self).results@.len() == 0,
            final(self).next == old(self).next,
            r@ == GifActionV::ClearResults,
    {
        self.results = Vec::new();
        self.query = String::new();
        self.on_trending = false;
        GifAction::ClearResults
    }

    /// A category tile is pressed: the trending tile clears the text and
    /// the results and fetches the trending GIFs; another searches for its
    /// title.
    pub fn press_category(&mut self, is_trending: bool, title: &str) -> (r: GifAction)
        ensures
            final(self).next == old(self).next,
            is_trending ==> final(self).query@ == Seq::<char>::empty() && final(self).on_trending
                && final(self).results@.len() == 0 && r@ == spec_fetch_trending(),
            !is_trending ==> final(self).query@ == title@ && !final(self).on_trending && (if title@.len() > 0 {
                r@ == spec_search(title@) && final(self).results@ == old(self).results@
            } else {
                r@ == GifActionV::ClearResults && final(self).results@.len() == 0
            }),
    {
        if is_trending {
            self.query = String::new();
            self.results = Vec::new();
            self.on_trending = true;
            GifAction::FetchTrending(GifTrendingRequest { locale: locale_string(), limit: Some(50) })
        } else {
            let t = crate::text::string_of(crate::text::chars_of(title).as_slice());
            let a = self.set_query(t);
            self.on_trending = false;
            a
        }
    }
}

/// The tiles after the first category, two to a row; an odd last one
/// stands alone.
pub open spec fn spec_pair_rows<T>(s: Seq<T>) -> Seq<(T, Option<T>)>
    decreases s.len(),
{
    if s.len() == 0 {
        seq![]
    } else if s.len() == 1 {
        seq![(s[0], None)]
    } else {
        seq![(s[0], Some(s[1]))] + spec_pair_rows(s.skip(2))
    }
}

/// The category tiles as laid out: the first category beside the trending
/// tile, then the rest two to a row.
pub fn category_rows<T>(categories: Vec<T>) -> (r: (Option<T>, Vec<(T, Option<T>)>))
    ensures
        categories@.len() == 0 ==> r.0 is None && r.1@.len() == 0,
        categories@.len() > 0 ==> r.0 == Some(categories@[0]) && r.1@ == spec_pair_rows(categories@.skip(1)),
{
    let ghost all = categories@;
    let mut rest = categories;
    if rest.len() == 0 {
        return (None, Vec::new());
    }
    let first = rest.remove(0);
    proof {
        assert(rest@ =~= all.skip(1));
    }
    let ghost tail = rest@;
    let mut rows: Vec<(T, Option<T>)> = Vec::new();
    proof {
        assert(rows@ + spec_pair_rows(rest@) =~= spec_pair_rows(tail));
    }
    while rest.len() > 0
        invariant
            rows@ + spec_pair_rows(rest@) == spec_pair_rows(tail),
        decreases rest.len(),
    {
        let ghost before_rows = rows@;
        let ghost r0 = rest@;
        let a = rest.remove(0);
        if rest.len() > 0 {
            let b = rest.remove(0);
            rows.push((a, Some(b)));
            proof {
                assert(r0.skip(2) =~= rest@);
                assert(spec_pair_rows(r0) == seq![(r0[0], Some(r0[1]))] + spec_pair_rows(r0.skip(2)));
                assert(rows@ + spec_pair_rows(rest@) =~= before_rows + spec_pair_rows(r0));
            }
        } else {
            rows.push((a, None));
            proof {
                assert(rows@ + spec_pair_rows(rest@) =~= before_rows + spec_pair_rows(r0));
            }
        }
    }
    proof {
        assert(rows@ + Seq::<(T, Option<T>)>::empty() =~= rows@);
    }
    (Some(first), rows)
}

} // verus!
