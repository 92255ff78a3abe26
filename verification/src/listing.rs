//! Lists and short labels around a channel: who is typing, the slowmode
//! notice, the order of direct messages, the friends pages, and moving an
//! item while it is dragged.

use vstd::prelude::*;
use crate::model::{ChannelInfo, MemberInfo, Relationship, UserInfo, display_name, spec_display_name, spec_find_user, find_user};
use crate::text::{concat, decimal, spec_decimal, push_str, str_eq, chars_of, string_of};

verus! {

// ---------------------------------------------------------------------------
// Who is typing
// ---------------------------------------------------------------------------

/// `names` joined with `, `.
pub open spec fn spec_join_commas(names: Seq<Seq<char>>) -> Seq<char>
    decreases names.len(),
{
    if names.len() == 0 {
        seq![]
    } else if names.len() == 1 {
        names[0]
    } else {
        spec_join_commas(names.drop_last()) + seq![',', ' '] + names.last()
    }
}

pub open spec fn is_typing_suffix() -> Seq<char> {
    seq![' ', 'i', 's', ' ', 't', 'y', 'p', 'i', 'n', 'g', '.', '.', '.']
}

pub open spec fn are_typing_suffix() -> Seq<char> {
    seq![' ', 'a', 'r', 'e', ' ', 't', 'y', 'p', 'i', 'n', 'g', '.', '.', '.']
}

/// The line under the message list: nothing, `A is typing...`, or
/// `A, B and C are typing...`.
pub open spec fn spec_typing_label(names: Seq<Seq<char>>) -> Seq<char> {
    if names.len() == 0 {
        seq![]
    } else if names.len() == 1 {
        names[0] + is_typing_suffix()
    } else {
        spec_join_commas(names.drop_last()) + seq![' ', 'a', 'n', 'd', ' '] + names.last() + are_typing_suffix()
    }
}

pub open spec fn names_view(s: Seq<String>) -> Seq<Seq<char>> {
    s.map_values(|x: String| x@)
}

fn join_commas(names: &Vec<String>, n: usize) -> (r: String)
    requires
        n <= names.len(),
    ensures
        r@ == spec_join_commas(names_view(names@).take(n as int)),
{
    let mut out = String::new();
    let mut i: usize = 0;
    proof {
        assert(names_view(names@).take(0) =~= Seq::<Seq<char>>::empty());
    }
    while i < n
        invariant
            i <= n <= names.len(),
            out@ == spec_join_commas(names_view(names@).take(i as int)),
        decreases n - i,
    {
        let ghost t = names_view(names@).take(i + 1);
        proof {
            assert(t.drop_last() =~= names_view(names@).take(i as int));
            assert(t.last() == names@[i as int]@);
        }
        if i == 0 {
            out = names[0].clone();
            proof {
                assert(t =~= seq![names@[0]@]);
            }
        } else {
            let sep = ", ";
            proof {
                reveal_strlit(", ");
            }
            push_str(&mut out, sep);
            push_str(&mut out, names[i].as_str());
        }
        i = i + 1;
    }
    out
}

/// The line saying who is typing, from their names.
pub fn typing_label(names: &Vec<String>) -> (r: String)
    ensures
        r@ == spec_typing_label(names_view(names@)),
{
    let n = names.len();
    if n == 0 {
        String::new()
    } else if n == 1 {
        let s = " is typing...";
        proof {
            reveal_strlit(" is typing...");
        }
        concat(names[0].as_str(), s)
    } else {
        let mut out = join_commas(names, n - 1);
        let and = " and ";
        let s = " are typing...";
        proof {
            reveal_strlit(" and ");
            reveal_strlit(" are typing...");
            assert(names_view(names@).take(n - 1) =~= names_view(names@).drop_last());
        }
        push_str(&mut out, and);
        push_str(&mut out, names[n - 1].as_str());
        push_str(&mut out, s);
        out
    }
}

/// The position of the member record of user `id`, if any.
pub open spec fn spec_find_member(members: Seq<MemberInfo>, id: Seq<char>) -> Option<int> {
    if exists|k: int| 0 <= k < members.len() && members[k].user@ == id {
        Some(choose|k: int| 0 <= k < members.len() && members[k].user@ == id && forall|j: int| 0 <= j < k ==> members[j].user@ != id)
    } else {
        None
    }
}

/// The position of the member record of user `id`, if any.
pub fn find_member(members: &Vec<MemberInfo>, id: &str) -> (r: Option<usize>)
    ensures
        r is Some <==> spec_find_member(members@, id@) is Some,
        r is Some ==> spec_find_member(members@, id@) == Some(r->0 as int) && r->0 < members@.len(),
{
    let mut i: usize = 0;
    while i < members.len()
        invariant
            i <= members.len(),
            forall|j: int| 0 <= j < i ==> members@[j].user@ != id@,
        decreases members.len() - i,
    {
        if str_eq(members[i].user.as_str(), id) {
            proof {
                let s = members@;
                let k = i as int;
                let c = choose|c: int| 0 <= c < s.len() && s[c].user@ == id@ && forall|j: int| 0 <= j < c ==> s[j].user@ != id@;
                assert(0 <= k < s.len() && s[k].user@ == id@ && forall|j: int| 0 <= j < k ==> s[j].user@ != id@);
                if c < k {
                    assert(s[c].user@ != id@);
                } else if c > k {
                    assert(s[k].user@ != id@);
                }
            }
            return Some(i);
        }
        i = i + 1;
    }
    None
}

/// The name shown for typing user `id`.
pub open spec fn spec_typist_name(id: Seq<char>, users: Seq<UserInfo>, members: Seq<MemberInfo>) -> Seq<char> {
    let u = users[spec_find_user(users, id)->0];
    match spec_find_member(members, id) {
        Some(k) => spec_display_name(&u, Some(&members[k])),
        None => spec_display_name(&u, None),
    }
}

/// The names of those typing: every known user in `typing` but `me`, in
/// the order given, each by nickname, display name or username.
#[verifier::opaque]
pub open spec fn spec_typing_names(typing: Seq<String>, me: Seq<char>, users: Seq<UserInfo>, members: Seq<MemberInfo>) -> Seq<Seq<char>>
    decreases typing.len(),
{
    if typing.len() == 0 {
        seq![]
    } else {
        let rest = spec_typing_names(typing.drop_last(), me, users, members);
        let id = typing.last()@;
        if id != me && spec_find_user(users, id) is Some {
            rest.push(spec_typist_name(id, users, members))
        } else {
            rest
        }
    }
}

fn known_user(users: &Vec<UserInfo>, id: &str) -> (r: bool)
    ensures
        r == spec_find_user(users@, id@) is Some,
{
    find_user(users.as_slice(), id).is_some()
}

/// The name shown for typing user `id`, who is known.
fn typist_name(id: &str, users: &Vec<UserInfo>, members: &Vec<MemberInfo>) -> (r: String)
    requires
        spec_find_user(users@, id@) is Some,
    ensures
        r@ == spec_typist_name(id@, users@, members@),
{
    let k = find_user(users.as_slice(), id).unwrap();
    match find_member(members, id) {
        Some(m) => display_name(&users[k], Some(&members[m])),
        None => display_name(&users[k], None),
    }
}

proof fn lemma_typing_names_step(typing: Seq<String>, i: int, me: Seq<char>, users: Seq<UserInfo>, members: Seq<MemberInfo>)
    requires
        0 <= i < typing.len(),
    ensures
        spec_typing_names(typing.take(i + 1), me, users, members) == (if typing[i]@ != me && spec_find_user(users, typing[i]@) is Some {
            spec_typing_names(typing.take(i), me, users, members).push(spec_typist_name(typing[i]@, users, members))
        } else {
            spec_typing_names(typing.take(i), me, users, members)
        }),
{
    reveal(spec_typing_names);
    let t = typing.take(i + 1);
    assert(t.drop_last() =~= typing.take(i));
    assert(t.last() == typing[i]);
}

/// The names of those typing in a channel, given the ids of the users
/// typing, the signed-in user `me`, the known users, and the members of the
/// channel's server (empty outside servers).
pub fn typing_names(typing: &Vec<String>, me: &str, users: &Vec<UserInfo>, members: &Vec<MemberInfo>) -> (r: Vec<String>)
    ensures
        names_view(r@) == spec_typing_names(typing@, me@, users@, members@),
{
    let mut out: Vec<String> = Vec::new();
    let mut i: usize = 0;
    proof {
        reveal(spec_typing_names);
        assert(typing@.take(0) =~= Seq::<String>::empty());
        assert(names_view(out@) =~= Seq::<Seq<char>>::empty());
    }
    while i < typing.len()
        invariant
            i <= typing.len(),
            names_view(out@) == spec_typing_names(typing@.take(i as int), me@, users@, members@),
        decreases typing.len() - i,
    {
        proof {
            lemma_typing_names_step(typing@, i as int, me@, users@, members@);
        }
        let id = typing[i].as_str();
        if !str_eq(id, me) && known_user(users, id) {
            let name = typist_name(id, users, members);
            let ghost before = out@;
            out.push(name);
            proof {
                assert(names_view(out@) =~= names_view(before).push(name@));
            }
        }
        i = i + 1;
    }
    proof {
        assert(typing@.take(i as int) =~= typing@);
    }
    out
}

// ---------------------------------------------------------------------------
// Slowmode notice
// ---------------------------------------------------------------------------

/// The slowmode notice: `Slowmode Immune` for one who may bypass it, the
/// seconds left (`Ns`) while the user's own wait runs, otherwise
/// `Slowmode is enabled, Ns` with the channel's slowmode.
pub open spec fn spec_slowmode_label(immune: bool, secs_left: Option<u64>, slowmode: u64) -> Seq<char> {
    if immune {
        seq!['S', 'l', 'o', 'w', 'm', 'o', 'd', 'e', ' ', 'I', 'm', 'm', 'u', 'n', 'e']
    } else if secs_left is Some && secs_left->0 > 0 {
        spec_decimal(secs_left->0 as nat) + seq!['s']
    } else {
        seq!['S', 'l', 'o', 'w', 'm', 'o', 'd', 'e', ' ', 'i', 's', ' ', 'e', 'n', 'a', 'b', 'l', 'e', 'd', ',', ' ']
            + spec_decimal(slowmode as nat) + seq!['s']
    }
}

/// The slowmode notice of a channel with slowmode `slowmode` seconds,
/// given whether the user may bypass it and the whole seconds left of
/// their own wait, if one runs.
pub fn slowmode_label(immune: bool, secs_left: Option<u64>, slowmode: u64) -> (r: String)
    ensures
        r@ == spec_slowmode_label(immune, secs_left, slowmode),
{
    let s = "s";
    proof {
        reveal_strlit("s");
    }
    if immune {
        let t = "Slowmode Immune";
        proof {
            reveal_strlit("Slowmode Immune");
        }
        string_of(chars_of(t).as_slice())
    } else {
        match secs_left {
            Some(n) if n > 0 => {
                let d = decimal(n);
                concat(d.as_str(), s)
            },
            _ => {
                let p = "Slowmode is enabled, ";
                proof {
                    reveal_strlit("Slowmode is enabled, ");
                }
                let d = decimal(slowmode);
                let mut out = concat(p, d.as_str());
                push_str(&mut out, s);
                out
            },
        }
    }
}

// ---------------------------------------------------------------------------
// Friends pages
// ---------------------------------------------------------------------------

/// A page of the friends screen.
#[derive(Debug, PartialEq, Eq, Clone, Copy, Structural)]
pub enum FriendPage {
    Online,
    All,
    Pending,
    Blocked,
}

/// Whether a user belongs on `page`: friends online, all friends, requests
/// either way, or blocked either way.
pub open spec fn spec_on_page(page: FriendPage, online: bool, rel: Relationship) -> bool {
    match page {
        FriendPage::Online => online && rel == Relationship::Friend,
        FriendPage::All => rel == Relationship::Friend,
        FriendPage::Pending => rel == Relationship::Incoming || rel == Relationship::Outgoing,
        FriendPage::Blocked => rel == Relationship::Blocked || rel == Relationship::BlockedOther,
    }
}

/// Whether a user belongs on `page`.
pub fn on_page(page: FriendPage, online: bool, rel: Relationship) -> (r: bool)
    ensures
        r == spec_on_page(page, online, rel),
{
    match page {
        FriendPage::Online => online && rel == Relationship::Friend,
        FriendPage::All => rel == Relationship::Friend,
        FriendPage::Pending => rel == Relationship::Incoming || rel == Relationship::Outgoing,
        FriendPage::Blocked => rel == Relationship::Blocked || rel == Relationship::BlockedOther,
    }
}

/// The users listed on `page`: of the related users `related`, in order,
/// those that belong there.
#[verifier::opaque]
pub open spec fn spec_page_users(page: FriendPage, related: Seq<String>, users: Seq<UserInfo>) -> Seq<Seq<char>>
    decreases related.len(),
{
    if related.len() == 0 {
        seq![]
    } else {
        let rest = spec_page_users(page, related.drop_last(), users);
        let u = users[spec_find_user(users, related.last()@)->0];
        if spec_on_page(page, u.online, u.relationship) {
            rest.push(related.last()@)
        } else {
            rest
        }
    }
}

fn listed_on(page: FriendPage, id: &str, users: &Vec<UserInfo>) -> (r: bool)
    requires
        spec_find_user(users@, id@) is Some,
    ensures
        r == spec_on_page(page, users@[spec_find_user(users@, id@)->0].online, users@[spec_find_user(users@, id@)->0].relationship),
{
    let k = find_user(users.as_slice(), id).unwrap();
    on_page(page, users[k].online, users[k].relationship)
}

proof fn lemma_page_users_step(page: FriendPage, related: Seq<String>, i: int, users: Seq<UserInfo>)
    requires
        0 <= i < related.len(),
    ensures
        spec_page_users(page, related.take(i + 1), users) == (if spec_on_page(
            page,
            users[spec_find_user(users, related[i]@)->0].online,
            users[spec_find_user(users, related[i]@)->0].relationship,
        ) {
            spec_page_users(page, related.take(i), users).push(related[i]@)
        } else {
            spec_page_users(page, related.take(i), users)
        }),
{
    reveal(spec_page_users);
    let t = related.take(i + 1);
    assert(t.drop_last() =~= related.take(i));
    assert(t.last() == related[i]);
}

/// The ids of the users listed on `page`, given the ids of the users the
/// signed-in user has a relationship with; each must be known.
pub fn page_users(page: FriendPage, related: &Vec<String>, users: &Vec<UserInfo>) -> (r: Vec<String>)
    requires
        forall|k: int| 0 <= k < related@.len() ==> spec_find_user(users@, #[trigger] related@[k]@) is Some,
    ensures
        names_view(r@) == spec_page_users(page, related@, users@),
        forall|k: int| 0 <= k < r@.len() ==> spec_find_user(users@, #[trigger] r@[k]@) is Some,
{
    let mut out: Vec<String> = Vec::new();
    let mut i: usize = 0;
    proof {
        reveal(spec_page_users);
        assert(related@.take(0) =~= Seq::<String>::empty());
        assert(names_view(out@) =~= Seq::<Seq<char>>::empty());
    }
    while i < related.len()
        invariant
            i <= related.len(),
            forall|k: int| 0 <= k < related@.len() ==> spec_find_user(users@, #[trigger] related@[k]@) is Some,
            names_view(out@) == spec_page_users(page, related@.take(i as int), users@),
            forall|k: int| 0 <= k < out@.len() ==> spec_find_user(users@, #[trigger] out@[k]@) is Some,
        decreases related.len() - i,
    {
        proof {
            lemma_page_users_step(page, related@, i as int, users@);
        }
        if listed_on(page, related[i].as_str(), users) {
            let ghost before = out@;
            let id = related[i].clone();
            out.push(id);
            proof {
                assert(names_view(out@) =~= names_view(before).push(id@));
            }
        }
        i = i + 1;
    }
    proof {
        assert(related@.take(i as int) =~= related@);
    }
    out
}

// ---------------------------------------------------------------------------
// Moving a dragged item
// ---------------------------------------------------------------------------

/// The list after the hovered item is taken from `from` and `item` is put
/// at `to`.
pub open spec fn spec_drag_over<T>(s: Seq<T>, from: int, to: int, item: T) -> Seq<T> {
    s.remove(from).insert(to, item)
}

/// A dragged item passes over position `to`: the item hovered at
/// `hovered.0` is taken out and `hovered.1` put in at `to`; the new
/// hovered position is `to`, with `selected`.
pub fn drag_over<T>(order: &mut Vec<T>, hovered: (usize, T), selected: T, to: usize) -> (r: (usize, T))
    requires
        hovered.0 < old(order)@.len(),
        to < old(order)@.len(),
    ensures
        final(order)@ == spec_drag_over(old(order)@, hovered.0 as int, to as int, hovered.1),
        r.0 == to,
        r.1 == selected,
{
    let (from, item) = hovered;
    order.remove(from);
    order.insert(to, item);
    (to, selected)
}

/// Dragging an item from one place to another and back restores the
/// list.
pub proof fn law_drag_back_restores<T>(s: Seq<T>, from: int, to: int)
    requires
        0 <= from < s.len(),
        0 <= to < s.len(),
    ensures
        spec_drag_over(spec_drag_over(s, from, to, s[from]), to, from, s[from]) == s,
{
    let t = spec_drag_over(s, from, to, s[from]);
    assert(t[to] == s[from]);
    assert(t.remove(to) =~= s.remove(from));
    assert(s.remove(from).insert(from, s[from]) =~= s);
}

/// Dragging an item over the list keeps every item: the list is the same
/// items, moved.
pub proof fn law_drag_keeps_items<T>(s: Seq<T>, from: int, to: int)
    requires
        0 <= from < s.len(),
        0 <= to < s.len(),
    ensures
        spec_drag_over(s, from, to, s[from]).to_multiset() == s.to_multiset(),
{
    broadcast use vstd::seq_lib::group_to_multiset_ensures;
    let r = s.remove(from);
    assert(s =~= r.insert(from, s[from]));
    vstd::seq_lib::to_multiset_insert(r, from, s[from]);
    vstd::seq_lib::to_multiset_insert(r, to, s[from]);
}

} // verus!

verus! {

// ---------------------------------------------------------------------------
// Order of direct messages
// ---------------------------------------------------------------------------

/// A direct message or group as listed: its sort key and its id.
pub type DmKeyV = (Seq<char>, Seq<char>);

/// The direct messages and groups among `channels`, in order, each keyed
/// by its last message's id, or its own id where it has no message.
pub open spec fn spec_dm_keys(channels: Seq<ChannelInfo>) -> Seq<DmKeyV>
    decreases channels.len(),
{
    if channels.len() == 0 {
        seq![]
    } else {
        let rest = spec_dm_keys(channels.drop_last());
        match channels.last() {
            ChannelInfo::DirectMessage { id, last_message_id, .. } => rest.push(
                (match last_message_id { Some(m) => m@, None => id@ }, id@),
            ),
            ChannelInfo::Group { id, last_message_id, .. } => rest.push(
                (match last_message_id { Some(m) => m@, None => id@ }, id@),
            ),
            _ => rest,
        }
    }
}

/// `x` put into `s` after every entry whose key is not below its own.
pub open spec fn insert_desc(s: Seq<DmKeyV>, x: DmKeyV) -> Seq<DmKeyV>
    decreases s.len(),
{
    if s.len() == 0 {
        seq![x]
    } else if crate::autocomplete::lex_lt(s.last().0, x.0) {
        insert_desc(s.drop_last(), x).push(s.last())
    } else {
        s.push(x)
    }
}

/// `s` ordered by key, highest first, equal keys kept in their order (a
/// stable sort comparing `b` to `a`).
pub open spec fn spec_sort_desc(s: Seq<DmKeyV>) -> Seq<DmKeyV>
    decreases s.len(),
{
    if s.len() == 0 {
        s
    } else {
        insert_desc(spec_sort_desc(s.drop_last()), s.last())
    }
}

/// The ids of the direct messages and groups, most recently active first:
/// ULIDs grow with time, so a later last message sorts first.
pub open spec fn spec_dm_order(channels: Seq<ChannelInfo>) -> Seq<Seq<char>> {
    spec_sort_desc(spec_dm_keys(channels)).map_values(|p: DmKeyV| p.1)
}

proof fn lemma_insert_desc_at(s: Seq<DmKeyV>, x: DmKeyV, j: int)
    requires
        0 <= j <= s.len(),
        forall|k: int| j <= k < s.len() ==> crate::autocomplete::lex_lt(#[trigger] s[k].0, x.0),
        j == 0 || !crate::autocomplete::lex_lt(s[j - 1].0, x.0),
    ensures
        insert_desc(s, x) == s.take(j).push(x) + s.skip(j),
    decreases s.len() - j,
{
    if j == s.len() {
        assert(s.take(j) =~= s);
        assert(s.skip(j) =~= Seq::<DmKeyV>::empty());
        assert(s.take(j).push(x) + s.skip(j) =~= s.push(x));
    } else {
        let d = s.drop_last();
        assert(crate::autocomplete::lex_lt(s[s.len() - 1].0, x.0));
        assert forall|k: int| j <= k < d.len() implies crate::autocomplete::lex_lt(#[trigger] d[k].0, x.0) by {
            assert(d[k] == s[k]);
        }
        if j > 0 {
            assert(d[j - 1] == s[j - 1]);
        }
        lemma_insert_desc_at(d, x, j);
        assert(d.take(j) =~= s.take(j));
        assert((d.take(j).push(x) + d.skip(j)).push(s.last()) =~= s.take(j).push(x) + s.skip(j));
    }
}

pub open spec fn keys_view(s: Seq<(String, String)>) -> Seq<DmKeyV> {
    s.map_values(|p: (String, String)| (p.0@, p.1@))
}

fn dm_keys(channels: &Vec<ChannelInfo>) -> (r: Vec<(String, String)>)
    ensures
        keys_view(r@) == spec_dm_keys(channels@),
{
    let mut out: Vec<(String, String)> = Vec::new();
    let mut i: usize = 0;
    proof {
        assert(channels@.take(0) =~= Seq::<ChannelInfo>::empty());
        assert(keys_view(out@) =~= Seq::<DmKeyV>::empty());
    }
    while i < channels.len()
        invariant
            i <= channels.len(),
            keys_view(out@) == spec_dm_keys(channels@.take(i as int)),
        decreases channels.len() - i,
    {
        let ghost t = channels@.take(i + 1);
        proof {
            assert(t.drop_last() =~= channels@.take(i as int));
            assert(t.last() == channels@[i as int]);
        }
        let ghost before = out@;
        match &channels[i] {
            ChannelInfo::DirectMessage { id, last_message_id, .. } => {
                let key = match last_message_id {
                    Some(m) => m.clone(),
                    None => id.clone(),
                };
                let p = (key, id.clone());
                out.push(p);
                proof {
                    assert(keys_view(out@) =~= keys_view(before).push((p.0@, p.1@)));
                }
            },
            ChannelInfo::Group { id, last_message_id, .. } => {
                let key = match last_message_id {
                    Some(m) => m.clone(),
                    None => id.clone(),
                };
                let p = (key, id.clone());
                out.push(p);
                proof {
                    assert(keys_view(out@) =~= keys_view(before).push((p.0@, p.1@)));
                }
            },
            _ => {},
        }
        i = i + 1;
    }
    proof {
        assert(channels@.take(i as int) =~= channels@);
    }
    out
}

fn sort_desc(v: Vec<(String, String)>) -> (r: Vec<(String, String)>)
    ensures
        keys_view(r@) == spec_sort_desc(keys_view(v@)),
{
    let ghost input = keys_view(v@);
    let mut rest = v;
    let n = rest.len();
    let mut out: Vec<(String, String)> = Vec::new();
    let mut i: usize = 0;
    proof {
        assert(input.take(0) =~= Seq::<DmKeyV>::empty());
        assert(keys_view(out@) =~= Seq::<DmKeyV>::empty());
        assert(keys_view(rest@) =~= input.skip(0));
    }
    while rest.len() > 0
        invariant
            i + rest@.len() == input.len(),
            n == input.len(),
            keys_view(rest@) == input.skip(i as int),
            keys_view(out@) == spec_sort_desc(input.take(i as int)),
        decreases rest.len(),
    {
        let ghost old_rest = rest@;
        let x = rest.remove(0);
        let ghost xv = (x.0@, x.1@);
        proof {
            assert(x == old_rest[0]);
            assert(rest@ =~= old_rest.skip(1));
            assert(keys_view(old_rest)[0] == xv);
            assert(xv == input[i as int]);
            assert(keys_view(rest@) =~= keys_view(old_rest).skip(1));
            assert(input.skip(i as int).skip(1) =~= input.skip(i + 1));
        }
        let mut j: usize = out.len();
        while j > 0 && crate::autocomplete::lex_less(out[j - 1].0.as_str(), x.0.as_str())
            invariant
                j <= out.len(),
                xv.0 == x.0@,
                forall|k: int| j <= k < out@.len() ==> crate::autocomplete::lex_lt(#[trigger] keys_view(out@)[k].0, xv.0),
            decreases j,
        {
            proof {
                assert(keys_view(out@)[j - 1].0 == out@[j - 1].0@);
            }
            j = j - 1;
        }
        let ghost sorted = keys_view(out@);
        proof {
            if j > 0 {
                assert(sorted[j - 1].0 == out@[j - 1].0@);
            }
            lemma_insert_desc_at(sorted, xv, j as int);
            assert(input.take(i + 1).drop_last() =~= input.take(i as int));
            assert(input.take(i + 1).last() == xv);
        }
        out.insert(j, x);
        proof {
            assert(keys_view(out@) =~= sorted.take(j as int).push(xv) + sorted.skip(j as int));
        }
        i = i + 1;
    }
    proof {
        assert(input.take(i as int) =~= input);
    }
    out
}

/// The ids of the direct messages and groups among `channels`, most
/// recently active first.
pub fn dm_order(channels: &Vec<ChannelInfo>) -> (r: Vec<String>)
    ensures
        names_view(r@) == spec_dm_order(channels@),
{
    let keyed = sort_desc(dm_keys(channels));
    let ghost k = keys_view(keyed@);
    let mut out: Vec<String> = Vec::new();
    let mut i: usize = 0;
    while i < keyed.len()
        invariant
            i <= keyed.len(),
            k == keys_view(keyed@),
            names_view(out@) == k.take(i as int).map_values(|p: DmKeyV| p.1),
        decreases keyed.len() - i,
    {
        let ghost before = out@;
        let id = keyed[i].1.clone();
        out.push(id);
        proof {
            assert(out@ == before.push(id));
            assert(k[i as int].1 == keyed@[i as int].1@);
            assert(names_view(out@) =~= names_view(before).push(id@));
            assert(k.take(i + 1) =~= k.take(i as int).push(k[i as int]));
            assert(k.take(i + 1).map_values(|p: DmKeyV| p.1) =~= k.take(i as int).map_values(|p: DmKeyV| p.1).push(k[i as int].1));
        }
        i = i + 1;
    }
    proof {
        assert(k.take(i as int) =~= k);
    }
    out
}

/// The position of the user's own notes channel among `channels`, if any.
pub fn find_saved_messages(channels: &Vec<ChannelInfo>) -> (r: Option<usize>)
    ensures
        r is Some ==> r->0 < channels@.len() && channels@[r->0 as int] is SavedMessages
            && forall|k: int| 0 <= k < r->0 ==> !(channels@[k] is SavedMessages),
        r is None ==> forall|k: int| 0 <= k < channels@.len() ==> !(channels@[k] is SavedMessages),
{
    let mut i: usize = 0;
    while i < channels.len()
        invariant
            i <= channels.len(),
            forall|k: int| 0 <= k < i ==> !(channels@[k] is SavedMessages),
        decreases channels.len() - i,
    {
        if let ChannelInfo::SavedMessages { .. } = &channels[i] {
            return Some(i);
        }
        i = i + 1;
    }
    None
}

} // verus!

verus! {

use crate::autocomplete::{lex_lt, lemma_lex_irrefl, lemma_lex_trans, lemma_lex_total};

/// No key in `s` is above the key of an entry listed earlier.
pub open spec fn sorted_desc(s: Seq<DmKeyV>) -> bool {
    forall|i: int, j: int| 0 <= i < j < s.len() ==> !crate::autocomplete::lex_lt(#[trigger] s[i].0, #[trigger] s[j].0)
}

proof fn lemma_insert_desc(s: Seq<DmKeyV>, x: DmKeyV)
    requires
        sorted_desc(s),
    ensures
        sorted_desc(insert_desc(s, x)),
        insert_desc(s, x).to_multiset() == s.to_multiset().insert(x),
    decreases s.len(),
{
    broadcast use vstd::seq_lib::group_to_multiset_ensures;
    if s.len() == 0 {
        assert(seq![x] =~= Seq::<DmKeyV>::empty().push(x));
    } else {
        let d = s.drop_last();
        let last = s.last();
        assert(s =~= d.push(last));
        if lex_lt(last.0, x.0) {
            assert(sorted_desc(d)) by {
                assert forall|i: int, j: int| 0 <= i < j < d.len() implies !lex_lt(#[trigger] d[i].0, #[trigger] d[j].0) by {
                    assert(d[i] == s[i] && d[j] == s[j]);
                }
            }
            lemma_insert_desc(d, x);
            let m = insert_desc(d, x);
            let r = m.push(last);
            assert forall|k: int| 0 <= k < m.len() implies !lex_lt(#[trigger] m[k].0, last.0) by {
                assert(m.to_multiset().count(m[k]) > 0);
                if m[k] != x {
                    assert(d.to_multiset().count(m[k]) > 0);
                    assert(d.contains(m[k]));
                    let i = choose|i: int| 0 <= i < d.len() && d[i] == m[k];
                    assert(s[i] == d[i]);
                    assert(!lex_lt(s[i].0, s[s.len() - 1].0));
                } else {
                    if lex_lt(x.0, last.0) {
                        lemma_lex_trans(x.0, last.0, x.0);
                        lemma_lex_irrefl(x.0);
                    }
                }
            }
            assert forall|i: int, j: int| 0 <= i < j < r.len() implies !lex_lt(#[trigger] r[i].0, #[trigger] r[j].0) by {
                if j == r.len() - 1 {
                    assert(r[j] == last);
                    assert(r[i] == m[i]);
                } else {
                    assert(r[i] == m[i] && r[j] == m[j]);
                }
            }
        } else {
            let r = s.push(x);
            assert forall|i: int, j: int| 0 <= i < j < r.len() implies !lex_lt(#[trigger] r[i].0, #[trigger] r[j].0) by {
                if j == r.len() - 1 {
                    assert(r[j] == x);
                    assert(r[i] == s[i]);
                    if lex_lt(s[i].0, x.0) {
                        lemma_lex_total(x.0, last.0);
                        if i < s.len() - 1 {
                            assert(!lex_lt(s[i].0, s[s.len() - 1].0));
                            if lex_lt(x.0, last.0) {
                                lemma_lex_trans(s[i].0, x.0, last.0);
                            }
                        } else {
                            lemma_lex_irrefl(x.0);
                        }
                    }
                } else {
                    assert(r[i] == s[i] && r[j] == s[j]);
                }
            }
        }
    }
}

/// The direct messages are listed most recently active first, and every
/// direct message and group is listed once.
pub proof fn law_dm_order_recent_first(channels: Seq<ChannelInfo>)
    ensures
        sorted_desc(spec_sort_desc(spec_dm_keys(channels))),
        spec_sort_desc(spec_dm_keys(channels)).to_multiset() == spec_dm_keys(channels).to_multiset(),
{
    lemma_sort_desc(spec_dm_keys(channels));
}

proof fn lemma_sort_desc(s: Seq<DmKeyV>)
    ensures
        sorted_desc(spec_sort_desc(s)),
        spec_sort_desc(s).to_multiset() == s.to_multiset(),
    decreases s.len(),
{
    broadcast use vstd::seq_lib::group_to_multiset_ensures;
    if s.len() > 0 {
        lemma_sort_desc(s.drop_last());
        lemma_insert_desc(spec_sort_desc(s.drop_last()), s.last());
        assert(s =~= s.drop_last().push(s.last()));
    }
}

} // verus!

verus! {

impl Default for FriendPage {
    /// The friends screen opens on the friends who are online.
    fn default() -> (r: FriendPage)
        ensures
            r == FriendPage::Online,
    {
        FriendPage::Online
    }
}

impl FriendPage {
    /// The pages, in the order of their tabs.
    pub fn all() -> (r: Vec<FriendPage>)
        ensures
            r@ == seq![FriendPage::Online, FriendPage::All, FriendPage::Pending, FriendPage::Blocked],
    {
        let v = vec![FriendPage::Online, FriendPage::All, FriendPage::Pending, FriendPage::Blocked];
        proof {
            assert(v@ =~= seq![FriendPage::Online, FriendPage::All, FriendPage::Pending, FriendPage::Blocked]);
        }
        v
    }

    /// The title of the page's tab.
    pub fn label(self) -> (r: String)
        ensures
            r@ == (match self {
                FriendPage::Online => "Online"@,
                FriendPage::All => "All"@,
                FriendPage::Pending => "Pending"@,
                FriendPage::Blocked => "Blocked"@,
            }),
    {
        proof {
            reveal_strlit("Online");
            reveal_strlit("All");
            reveal_strlit("Pending");
            reveal_strlit("Blocked");
        }
        let s = match self {
            FriendPage::Online => "Online",
            FriendPage::All => "All",
            FriendPage::Pending => "Pending",
            FriendPage::Blocked => "Blocked",
        };
        string_of(chars_of(s).as_slice())
    }
}

} // verus!
