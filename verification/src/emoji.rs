//! Emojis: where an emoji's image is fetched from, and the grid of the
//! emoji picker, ten to a row.

use vstd::prelude::*;
use crate::text::{concat, hex, spec_hex, push_str, push_char, chars_of, string_of, str_eq, occurs_at, matches_at, to_lowercase, lowercase};

verus! {

// ---------------------------------------------------------------------------
// Image addresses
// ---------------------------------------------------------------------------

/// The code points of `s` in lower-case hex, joined by `-`.
pub open spec fn spec_fluent_codes(s: Seq<char>) -> Seq<char>
    decreases s.len(),
{
    if s.len() == 0 {
        seq![]
    } else if s.len() == 1 {
        spec_hex((s[0] as u32) as nat)
    } else {
        spec_fluent_codes(s.drop_last()) + seq!['-'] + spec_hex((s.last() as u32) as nat)
    }
}

/// The code points of `value` in lower-case hex, joined by `-`.
pub fn fluent_codes(value: &str) -> (r: String)
    ensures
        r@ == spec_fluent_codes(value@),
{
    let v = chars_of(value);
    let mut out = String::new();
    let mut i: usize = 0;
    proof {
        assert(v@.take(0) =~= Seq::<char>::empty());
    }
    while i < v.len()
        invariant
            i <= v.len(),
            v@ == value@,
            out@ == spec_fluent_codes(v@.take(i as int)),
        decreases v.len() - i,
    {
        let ghost t = v@.take(i + 1);
        proof {
            assert(t.drop_last() =~= v@.take(i as int));
            assert(t.last() == v@[i as int]);
        }
        let h = hex((v[i] as u32) as u64);
        if i == 0 {
            out = h;
            proof {
                assert(t =~= seq![v@[0]]);
            }
        } else {
            push_char(&mut out, '-');
            push_str(&mut out, h.as_str());
        }
        i = i + 1;
    }
    proof {
        assert(v@.take(i as int) =~= v@);
    }
    out
}

pub open spec fn fluent_prefix() -> Seq<char> {
    seq![
        'h', 't', 't', 'p', 's', ':', '/', '/', 's', 't', 'a', 't', 'i', 'c', '.', 's', 't', 'o', 'a', 't', '.', 'c', 'h', 'a', 't',
        '/', 'e', 'm', 'o', 'j', 'i', '/', 'f', 'l', 'u', 'e', 'n', 't', '-', '3', 'd', '/',
    ]
}

pub open spec fn fluent_suffix() -> Seq<char> {
    seq!['.', 's', 'v', 'g', '?', 'v', '=', '1']
}

/// Where an emoji's image comes from: a custom emoji (an id of 26 bytes)
/// from the file server, `autumn/tag/id`; a Unicode emoji from the Fluent
/// set, by its code points.
pub open spec fn spec_emoji_url(value: Seq<char>, autumn: Seq<char>, tag: Seq<char>) -> Seq<char> {
    if vstd::utf8::encode_utf8(value).len() == 26 {
        autumn + seq!['/'] + tag + seq!['/'] + value
    } else {
        fluent_prefix() + spec_fluent_codes(value) + fluent_suffix()
    }
}

/// Where the image of emoji `value` comes from, given the file server's
/// address and its tag for emojis.
pub fn emoji_url(value: &str, autumn: &str, tag: &str) -> (r: String)
    ensures
        r@ == spec_emoji_url(value@, autumn@, tag@),
{
    if value.as_bytes().len() == 26 {
        let mut s = concat(autumn, "/");
        proof {
            reveal_strlit("/");
        }
        push_str(&mut s, tag);
        push_char(&mut s, '/');
        push_str(&mut s, value);
        s
    } else {
        let p = "https://static.stoat.chat/emoji/fluent-3d/";
        let q = ".svg?v=1";
        proof {
            reveal_strlit("https://static.stoat.chat/emoji/fluent-3d/");
            reveal_strlit(".svg?v=1");
        }
        let codes = fluent_codes(value);
        let mut s = concat(p, codes.as_str());
        push_str(&mut s, q);
        s
    }
}

// ---------------------------------------------------------------------------
// The picker grid
// ---------------------------------------------------------------------------

/// A custom emoji: its id, its name, and the server it belongs to, if any.
#[derive(Debug, PartialEq)]
pub struct CustomEmoji {
    pub id: String,
    pub name: String,
    pub server: Option<String>,
}

/// A built-in emoji: its name and the emoji itself.
#[derive(Debug, PartialEq)]
pub struct UnicodeEmoji {
    pub name: String,
    pub value: String,
}

/// A cell of the picker grid.
#[derive(Debug, PartialEq)]
pub enum PickerItem {
    /// The heading of a server's emojis.
    Server(String),
    Spacer,
    /// A custom emoji, by id.
    Emoji(String),
    Title(String),
    Unicode { name: String, value: String },
}

/// A cell as plain values.
pub enum PickerItemV {
    Server(Seq<char>),
    Spacer,
    Emoji(Seq<char>),
    Title(Seq<char>),
    Unicode { name: Seq<char>, value: Seq<char> },
}

impl View for PickerItem {
    type V = PickerItemV;

    open spec fn view(&self) -> PickerItemV {
        match self {
            PickerItem::Server(id) => PickerItemV::Server(id@),
            PickerItem::Spacer => PickerItemV::Spacer,
            PickerItem::Emoji(id) => PickerItemV::Emoji(id@),
            PickerItem::Title(t) => PickerItemV::Title(t@),
            PickerItem::Unicode { name, value } => PickerItemV::Unicode { name: name@, value: value@ },
        }
    }
}

pub open spec fn items_view(s: Seq<PickerItem>) -> Seq<PickerItemV> {
    s.map_values(|i: PickerItem| i@)
}

/// `s` filled up with spacers to a whole number of rows of ten.
pub open spec fn pad_row(s: Seq<PickerItemV>) -> Seq<PickerItemV> {
    s + Seq::new(((10 - s.len() % 10) % 10) as nat, |k: int| PickerItemV::Spacer)
}

fn pad(items: &mut Vec<PickerItem>)
    ensures
        items_view(final(items)@) == pad_row(items_view(old(items)@)),
{
    let ghost start = items_view(items@);
    let n = (10 - items.len() % 10) % 10;
    let mut j: usize = 0;
    while j < n
        invariant
            j <= n,
            n == (10 - start.len() % 10) % 10,
            items_view(items@) == start + Seq::new(j as nat, |k: int| PickerItemV::Spacer),
        decreases n - j,
    {
        let ghost before = items@;
        items.push(PickerItem::Spacer);
        j = j + 1;
        proof {
            assert(items_view(items@) =~= items_view(before).push(PickerItemV::Spacer));
            assert(items_view(items@) =~= start + Seq::new(j as nat, |k: int| PickerItemV::Spacer));
        }
    }
}

/// `f` occurs in `s`.
pub open spec fn contains_seq(s: Seq<char>, f: Seq<char>) -> bool {
    exists|i: int| 0 <= i <= s.len() && occurs_at(s, i, f)
}

/// Whether `f` occurs in `s` (`str::contains`).
pub fn name_contains(s: &str, f: &str) -> (r: bool)
    ensures
        r == contains_seq(s@, f@),
{
    let x = chars_of(s);
    let y = chars_of(f);
    let mut i: usize = 0;
    while i < x.len()
        invariant
            i <= x.len(),
            x@ == s@,
            y@ == f@,
            forall|k: int| 0 <= k < i ==> !occurs_at(s@, k, f@),
        decreases x.len() - i,
    {
        if matches_at(&x, i, &y) {
            return true;
        }
        i = i + 1;
    }
    matches_at(&x, i, &y)
}

/// The custom emojis, then the built-in ones, whose names (lower-cased for
/// custom emojis, and lower-cased for built-in ones too) contain the
/// lower-cased filter `f`.
pub open spec fn spec_custom_matches(c: Seq<CustomEmoji>, f: Seq<char>) -> Seq<PickerItemV>
    decreases c.len(),
{
    if c.len() == 0 {
        seq![]
    } else if contains_seq(lowercase(c.last().name@), f) {
        spec_custom_matches(c.drop_last(), f).push(PickerItemV::Emoji(c.last().id@))
    } else {
        spec_custom_matches(c.drop_last(), f)
    }
}

pub open spec fn spec_unicode_matches(u: Seq<UnicodeEmoji>, f: Seq<char>) -> Seq<PickerItemV>
    decreases u.len(),
{
    if u.len() == 0 {
        seq![]
    } else if contains_seq(lowercase(u.last().name@), f) {
        spec_unicode_matches(u.drop_last(), f).push(PickerItemV::Unicode { name: u.last().name@, value: u.last().value@ })
    } else {
        spec_unicode_matches(u.drop_last(), f)
    }
}

pub open spec fn spec_server_emojis(c: Seq<CustomEmoji>, server: Seq<char>) -> Seq<PickerItemV>
    decreases c.len(),
{
    if c.len() == 0 {
        seq![]
    } else if c.last().server is Some && c.last().server->0@ == server {
        spec_server_emojis(c.drop_last(), server).push(PickerItemV::Emoji(c.last().id@))
    } else {
        spec_server_emojis(c.drop_last(), server)
    }
}

pub open spec fn spec_all_unicode(u: Seq<UnicodeEmoji>) -> Seq<PickerItemV> {
    u.map_values(|e: UnicodeEmoji| PickerItemV::Unicode { name: e.name@, value: e.value@ })
}

/// The grid without a filter, over the first `n` servers: each server that
/// has emojis gets a heading row, then its emojis, each part filled up to
/// whole rows.
pub open spec fn spec_server_sections(servers: Seq<String>, c: Seq<CustomEmoji>) -> Seq<PickerItemV>
    decreases servers.len(),
{
    if servers.len() == 0 {
        seq![]
    } else {
        let rest = spec_server_sections(servers.drop_last(), c);
        let es = spec_server_emojis(c, servers.last()@);
        if es.len() == 0 {
            rest
        } else {
            pad_row(pad_row(rest.push(PickerItemV::Server(servers.last()@))) + es)
        }
    }
}

pub open spec fn default_title() -> Seq<char> {
    seq!['D', 'e', 'f', 'a', 'u', 'l', 't']
}

/// The picker grid for the lower-cased filter `f`: with a filter, the
/// matching custom then built-in emojis; without, the servers' sections
/// and then the `Default` section of built-in emojis; every part filled up
/// to whole rows of ten.
pub open spec fn spec_picker_items(f: Seq<char>, servers: Seq<String>, c: Seq<CustomEmoji>, u: Seq<UnicodeEmoji>) -> Seq<PickerItemV> {
    if f.len() > 0 {
        pad_row(spec_custom_matches(c, f) + spec_unicode_matches(u, f))
    } else {
        pad_row(pad_row(spec_server_sections(servers, c).push(PickerItemV::Title(default_title()))) + spec_all_unicode(u))
    }
}


fn push_custom_matches(items: &mut Vec<PickerItem>, c: &Vec<CustomEmoji>, f: &str)
    ensures
        items_view(final(items)@) == items_view(old(items)@) + spec_custom_matches(c@, f@),
{
    let ghost start = items_view(items@);
    let mut i: usize = 0;
    proof {
        assert(c@.take(0) =~= Seq::<CustomEmoji>::empty());
        assert(start + Seq::<PickerItemV>::empty() =~= start);
    }
    while i < c.len()
        invariant
            i <= c.len(),
            items_view(items@) == start + spec_custom_matches(c@.take(i as int), f@),
        decreases c.len() - i,
    {
        let ghost t = c@.take(i + 1);
        proof {
            assert(t.drop_last() =~= c@.take(i as int));
            assert(t.last() == c@[i as int]);
        }
        let lower = to_lowercase(c[i].name.as_str());
        if name_contains(lower.as_str(), f) {
            let ghost before = items_view(items@);
            items.push(PickerItem::Emoji(c[i].id.clone()));
            proof {
                assert(items_view(items@) =~= before.push(PickerItemV::Emoji(c@[i as int].id@)));
            }
        }
        i = i + 1;
    }
    proof {
        assert(c@.take(i as int) =~= c@);
    }
}

fn push_unicode_matches(items: &mut Vec<PickerItem>, u: &Vec<UnicodeEmoji>, f: &str)
    ensures
        items_view(final(items)@) == items_view(old(items)@) + spec_unicode_matches(u@, f@),
{
    let ghost start = items_view(items@);
    let mut i: usize = 0;
    proof {
        assert(u@.take(0) =~= Seq::<UnicodeEmoji>::empty());
        assert(start + Seq::<PickerItemV>::empty() =~= start);
    }
    while i < u.len()
        invariant
            i <= u.len(),
            items_view(items@) == start + spec_unicode_matches(u@.take(i as int), f@),
        decreases u.len() - i,
    {
        let ghost t = u@.take(i + 1);
        proof {
            assert(t.drop_last() =~= u@.take(i as int));
            assert(t.last() == u@[i as int]);
        }
        let lower = to_lowercase(u[i].name.as_str());
        if name_contains(lower.as_str(), f) {
            let ghost before = items_view(items@);
            items.push(PickerItem::Unicode { name: u[i].name.clone(), value: u[i].value.clone() });
            proof {
                assert(items_view(items@) =~= before.push(PickerItemV::Unicode { name: u@[i as int].name@, value: u@[i as int].value@ }));
            }
        }
        i = i + 1;
    }
    proof {
        assert(u@.take(i as int) =~= u@);
    }
}

fn push_all_unicode(items: &mut Vec<PickerItem>, u: &Vec<UnicodeEmoji>)
    ensures
        items_view(final(items)@) == items_view(old(items)@) + spec_all_unicode(u@),
{
    let ghost start = items_view(items@);
    let mut i: usize = 0;
    proof {
        assert(start + spec_all_unicode(u@.take(0)) =~= start);
    }
    while i < u.len()
        invariant
            i <= u.len(),
            items_view(items@) == start + spec_all_unicode(u@.take(i as int)),
        decreases u.len() - i,
    {
        let ghost before = items_view(items@);
        items.push(PickerItem::Unicode { name: u[i].name.clone(), value: u[i].value.clone() });
        proof {
            assert(items_view(items@) =~= before.push(PickerItemV::Unicode { name: u@[i as int].name@, value: u@[i as int].value@ }));
            assert(spec_all_unicode(u@.take(i + 1)) =~= spec_all_unicode(u@.take(i as int)).push(
                PickerItemV::Unicode { name: u@[i as int].name@, value: u@[i as int].value@ },
            ));
        }
        i = i + 1;
    }
    proof {
        assert(u@.take(i as int) =~= u@);
    }
}

fn server_emojis(c: &Vec<CustomEmoji>, server: &str) -> (r: Vec<PickerItem>)
    ensures
        items_view(r@) == spec_server_emojis(c@, server@),
{
    let mut out: Vec<PickerItem> = Vec::new();
    let mut i: usize = 0;
    proof {
        assert(c@.take(0) =~= Seq::<CustomEmoji>::empty());
        assert(items_view(out@) =~= Seq::<PickerItemV>::empty());
    }
    while i < c.len()
        invariant
            i <= c.len(),
            items_view(out@) == spec_server_emojis(c@.take(i as int), server@),
        decreases c.len() - i,
    {
        let ghost t = c@.take(i + 1);
        proof {
            assert(t.drop_last() =~= c@.take(i as int));
            assert(t.last() == c@[i as int]);
        }
        let belongs = match &c[i].server {
            Some(s) => str_eq(s.as_str(), server),
            None => false,
        };
        if belongs {
            let ghost before = items_view(out@);
            out.push(PickerItem::Emoji(c[i].id.clone()));
            proof {
                assert(items_view(out@) =~= before.push(PickerItemV::Emoji(c@[i as int].id@)));
            }
        }
        i = i + 1;
    }
    proof {
        assert(c@.take(i as int) =~= c@);
    }
    out
}

fn append_items(items: &mut Vec<PickerItem>, more: Vec<PickerItem>)
    ensures
        items_view(final(items)@) == items_view(old(items)@) + items_view(more@),
{
    let ghost start = items_view(items@);
    let ghost m = items_view(more@);
    let mut rest = more;
    let n = rest.len();
    let mut i: usize = 0;
    proof {
        assert(start + m.take(0) =~= start);
        assert(items_view(rest@) =~= m.skip(0));
    }
    while rest.len() > 0
        invariant
            i + rest@.len() == m.len(),
            n == m.len(),
            items_view(rest@) == m.skip(i as int),
            items_view(items@) == start + m.take(i as int),
        decreases rest.len(),
    {
        let ghost old_rest = rest@;
        let x = rest.remove(0);
        let ghost before = items_view(items@);
        items.push(x);
        proof {
            assert(x == old_rest[0]);
            assert(rest@ =~= old_rest.skip(1));
            assert(items_view(old_rest)[0] == x@);
            assert(x@ == m[i as int]);
            assert(items_view(rest@) =~= items_view(old_rest).skip(1));
            assert(m.skip(i as int).skip(1) =~= m.skip(i + 1));
            assert(items_view(items@) =~= before.push(x@));
            assert(m.take(i + 1) =~= m.take(i as int).push(m[i as int]));
        }
        i = i + 1;
    }
    proof {
        assert(m.take(i as int) =~= m);
    }
}

fn server_sections(servers: &Vec<String>, c: &Vec<CustomEmoji>) -> (r: Vec<PickerItem>)
    ensures
        items_view(r@) == spec_server_sections(servers@, c@),
{
    let mut out: Vec<PickerItem> = Vec::new();
    let mut i: usize = 0;
    proof {
        assert(servers@.take(0) =~= Seq::<String>::empty());
        assert(items_view(out@) =~= Seq::<PickerItemV>::empty());
    }
    while i < servers.len()
        invariant
            i <= servers.len(),
            items_view(out@) == spec_server_sections(servers@.take(i as int), c@),
        decreases servers.len() - i,
    {
        let ghost t = servers@.take(i + 1);
        proof {
            assert(t.drop_last() =~= servers@.take(i as int));
            assert(t.last() == servers@[i as int]);
        }
        let es = server_emojis(c, servers[i].as_str());
        if es.len() > 0 {
            let ghost before = items_view(out@);
            out.push(PickerItem::Server(servers[i].clone()));
            proof {
                assert(items_view(out@) =~= before.push(PickerItemV::Server(servers@[i as int]@)));
            }
            pad(&mut out);
            append_items(&mut out, es);
            pad(&mut out);
        }
        i = i + 1;
    }
    proof {
        assert(servers@.take(i as int) =~= servers@);
    }
    out
}

/// The picker grid for `filter` (compared lower-cased), given the servers
/// in the order shown, the custom emojis and the built-in ones.
pub fn picker_items(filter: &str, servers: &Vec<String>, custom: &Vec<CustomEmoji>, unicode: &Vec<UnicodeEmoji>) -> (r: Vec<PickerItem>)
    ensures
        items_view(r@) == spec_picker_items(lowercase(filter@), servers@, custom@, unicode@),
{
    let f = to_lowercase(filter);
    if !f.as_str().is_empty() {
        let mut items: Vec<PickerItem> = Vec::new();
        proof {
            assert(items_view(items@) =~= Seq::<PickerItemV>::empty());
        }
        push_custom_matches(&mut items, custom, f.as_str());
        push_unicode_matches(&mut items, unicode, f.as_str());
        proof {
            assert(items_view(items@) =~= spec_custom_matches(custom@, f@) + spec_unicode_matches(unicode@, f@));
        }
        pad(&mut items);
        items
    } else {
        let mut items = server_sections(servers, custom);
        let title = "Default";
        proof {
            reveal_strlit("Default");
            assert(title@ =~= default_title());
        }
        let ghost before = items_view(items@);
        items.push(PickerItem::Title(string_of(chars_of(title).as_slice())));
        proof {
            assert(items_view(items@) =~= before.push(PickerItemV::Title(default_title())));
        }
        pad(&mut items);
        push_all_unicode(&mut items, unicode);
        pad(&mut items);
        items
    }
}

/// The picker grid always fills whole rows of ten.
pub proof fn law_picker_rows_full(f: Seq<char>, servers: Seq<String>, c: Seq<CustomEmoji>, u: Seq<UnicodeEmoji>)
    ensures
        spec_picker_items(f, servers, c, u).len() % 10 == 0,
{
}

} // verus!
