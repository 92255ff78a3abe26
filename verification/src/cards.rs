//! The texts of the small cards: a direct message's status line, a group's
//! initials and member count, an invite's card, and the friends list with
//! its headers.

use vstd::prelude::*;
use crate::listing::{FriendPage, spec_page_users, page_users, names_view};
use crate::model::{Relationship, UserInfo, spec_find_user, find_user, opt_view};
use crate::text::{concat, decimal, spec_decimal, push_str, is_ws, is_whitespace, chars_of, string_of, str_eq};

verus! {

// ---------------------------------------------------------------------------
// Direct message buttons
// ---------------------------------------------------------------------------

/// A user's presence.
#[derive(Debug, PartialEq, Eq, Clone, Copy, Structural)]
pub enum Presence {
    Online,
    Idle,
    Focus,
    Busy,
    Invisible,
}

pub open spec fn presence_name(p: Presence) -> Seq<char> {
    match p {
        Presence::Online => "Online"@,
        Presence::Idle => "Idle"@,
        Presence::Focus => "Focus"@,
        Presence::Busy => "Busy"@,
        Presence::Invisible => "Invisible"@,
    }
}

/// The status line under a user's name: their custom status text, else
/// the name of their presence, else none.
pub open spec fn spec_status_line(text: Option<Seq<char>>, presence: Option<Presence>) -> Option<Seq<char>> {
    match text {
        Some(t) => Some(t),
        None => match presence {
            Some(p) => Some(presence_name(p)),
            None => None,
        },
    }
}

fn literal(s: &str) -> (r: String)
    ensures
        r@ == s@,
{
    string_of(chars_of(s).as_slice())
}

/// The status line under a user's name.
pub fn status_line(text: &Option<String>, presence: Option<Presence>) -> (r: Option<String>)
    ensures
        opt_view(r) == spec_status_line(opt_view(*text), presence),
{
    match text {
        Some(t) => Some(t.clone()),
        None => match presence {
            Some(p) => Some(
                match p {
                    Presence::Online => literal("Online"),
                    Presence::Idle => literal("Idle"),
                    Presence::Focus => literal("Focus"),
                    Presence::Busy => literal("Busy"),
                    Presence::Invisible => literal("Invisible"),
                },
            ),
            None => None,
        },
    }
}

/// The first characters of the white-space separated words of `s`, from
/// position `i` on, given whether a word is under way at `i`.
pub open spec fn word_initials(s: Seq<char>, i: int, in_word: bool) -> Seq<char>
    decreases s.len() - i,
{
    if i >= s.len() || i < 0 {
        seq![]
    } else if is_ws(s[i]) {
        word_initials(s, i + 1, false)
    } else if in_word {
        word_initials(s, i + 1, true)
    } else {
        seq![s[i]] + word_initials(s, i + 1, true)
    }
}

/// What stands for a group without an icon: the first characters of the
/// first two words of its name.
pub open spec fn spec_group_initials(name: Seq<char>) -> Seq<char> {
    let w = word_initials(name, 0, false);
    if w.len() <= 2 { w } else { w.take(2) }
}

/// What stands for a group without an icon.
pub fn group_initials(name: &str) -> (r: String)
    ensures
        r@ == spec_group_initials(name@),
{
    let v = chars_of(name);
    let mut out: Vec<char> = Vec::new();
    let mut i: usize = 0;
    let mut in_word = false;
    proof {
        assert(Seq::<char>::empty() + word_initials(v@, 0, false) =~= word_initials(v@, 0, false));
    }
    while i < v.len()
        invariant
            i <= v.len(),
            v@ == name@,
            out@ + word_initials(v@, i as int, in_word) == word_initials(v@, 0, false),
        decreases v.len() - i,
    {
        let c = v[i];
        if is_whitespace(c) {
            in_word = false;
        } else if !in_word {
            let ghost before = out@;
            out.push(c);
            in_word = true;
            proof {
                assert(out@ + word_initials(v@, i + 1, true) =~= before + (seq![c] + word_initials(v@, i + 1, true)));
            }
        }
        i = i + 1;
    }
    proof {
        assert(out@ + Seq::<char>::empty() =~= out@);
    }
    if out.len() <= 2 {
        string_of(out.as_slice())
    } else {
        let r = string_of(&out.as_slice()[0..2]);
        proof {
            assert(r@ =~= out@.take(2));
        }
        r
    }
}

/// `n Members`, under a group's name.
pub fn members_label(n: u64) -> (r: String)
    ensures
        r@ == spec_decimal(n as nat) + " Members"@,
{
    let d = decimal(n);
    let s = " Members";
    proof {
        reveal_strlit(" Members");
    }
    concat(d.as_str(), s)
}

// ---------------------------------------------------------------------------
// Invite cards
// ---------------------------------------------------------------------------

/// What an invite leads to.
#[derive(Debug, PartialEq)]
pub enum InviteInfo {
    Server { server_id: String, server_name: String, member_count: u64 },
    Group { channel_id: String, channel_name: String },
}

/// The card shown for an invite.
#[derive(Debug, PartialEq)]
pub struct InviteCard {
    pub title: String,
    pub subtitle: Option<String>,
    pub joined: bool,
    pub button: String,
}

/// Some id in `ids` is `id`.
pub open spec fn has_id(ids: Seq<String>, id: Seq<char>) -> bool {
    exists|k: int| 0 <= k < ids.len() && ids[k]@ == id
}

fn contains_id(ids: &Vec<String>, id: &str) -> (r: bool)
    ensures
        r == has_id(ids@, id@),
{
    let mut i: usize = 0;
    while i < ids.len()
        invariant
            i <= ids.len(),
            forall|k: int| 0 <= k < i ==> ids@[k]@ != id@,
        decreases ids.len() - i,
    {
        if str_eq(ids[i].as_str(), id) {
            proof {
                assert(ids@[i as int]@ == id@);
            }
            return true;
        }
        i = i + 1;
    }
    false
}

/// The card of an invite: the server's name over `N members`, or the
/// group's name; joined where the user is already in that server or group;
/// the button reads `Joined` or `Join`.
pub open spec fn spec_invite_card(info: &InviteInfo, servers: Seq<String>, channels: Seq<String>) -> (Seq<char>, Option<Seq<char>>, bool, Seq<char>) {
    let joined = match info {
        InviteInfo::Server { server_id, .. } => has_id(servers, server_id@),
        InviteInfo::Group { channel_id, .. } => has_id(channels, channel_id@),
    };
    let button = if joined { "Joined"@ } else { "Join"@ };
    match info {
        InviteInfo::Server { server_name, member_count, .. } => (
            server_name@,
            Some(spec_decimal(*member_count as nat) + " members"@),
            joined,
            button,
        ),
        InviteInfo::Group { channel_name, .. } => (channel_name@, None, joined, button),
    }
}

/// The card of an invite, given the servers and channels the user is in.
pub fn invite_card(info: &InviteInfo, servers: &Vec<String>, channels: &Vec<String>) -> (r: InviteCard)
    ensures
        (r.title@, opt_view(r.subtitle), r.joined, r.button@) == spec_invite_card(info, servers@, channels@),
{
    let joined = match info {
        InviteInfo::Server { server_id, .. } => contains_id(servers, server_id.as_str()),
        InviteInfo::Group { channel_id, .. } => contains_id(channels, channel_id.as_str()),
    };
    let button = if joined {
        literal("Joined")
    } else {
        literal("Join")
    };
    match info {
        InviteInfo::Server { server_name, member_count, .. } => {
            let d = decimal(*member_count);
            let s = " members";
            proof {
                reveal_strlit(" members");
            }
            InviteCard { title: server_name.clone(), subtitle: Some(concat(d.as_str(), s)), joined, button }
        },
        InviteInfo::Group { channel_name, .. } => InviteCard { title: channel_name.clone(), subtitle: None, joined, button },
    }
}

/// What an invite shows while and after it is looked up.
#[derive(Debug, PartialEq)]
pub enum InviteView {
    /// The lookup is under way.
    Loading,
    /// The lookup failed: the text shown instead of a card.
    Unknown(String),
    Card(InviteCard),
}

/// What an invite shows, given its lookup: `None` while it runs, then the
/// invite or `None` where the lookup failed; the card says whether the
/// user is already in the server or group.
pub fn invite_view(lookup: Option<Option<InviteInfo>>, servers: &Vec<String>, channels: &Vec<String>) -> (r: InviteView)
    ensures
        lookup is None ==> r is Loading,
        lookup matches Some(None) ==> (r matches InviteView::Unknown(t) && t@ == "Unknown Invite"@),
        lookup matches Some(Some(info)) ==> (r matches InviteView::Card(c) && (c.title@, opt_view(c.subtitle), c.joined, c.button@)
            == spec_invite_card(&info, servers@, channels@)),
{
    match lookup {
        None => InviteView::Loading,
        Some(None) => InviteView::Unknown(literal("Unknown Invite")),
        Some(Some(info)) => InviteView::Card(invite_card(&info, servers, channels)),
    }
}

/// What the client does after asking to join through an invite.
#[derive(Debug, PartialEq)]
pub enum JoinOutcome {
    /// Open this channel, if any, and make this the selection.
    Navigate { channel: Option<String>, selection: crate::model::Selection },
    /// Show the error in a dialog.
    ShowError(String),
}

/// What the client does with the reply to a join: go where [`after_join`]
/// says, or show the error.
pub fn join_outcome(reply: Result<Joined, String>) -> (r: JoinOutcome)
    ensures
        reply matches Err(e) ==> (r matches JoinOutcome::ShowError(m) && m@ == e@),
        reply matches Ok(j) ==> (r matches JoinOutcome::Navigate { channel, selection } && match j {
            Joined::Server { server_id, channel_ids } => opt_view(channel) == (if channel_ids@.len() > 0 {
                Some(channel_ids@[0]@)
            } else {
                None::<Seq<char>>
            }) && (selection matches crate::model::Selection::Server(s) && s@ == server_id@),
            Joined::Group { channel_id } => opt_view(channel) == Some(channel_id@) && selection
                == crate::model::Selection::Home,
        }),
{
    match reply {
        Ok(j) => {
            let (channel, selection) = after_join(&j);
            JoinOutcome::Navigate { channel, selection }
        },
        Err(e) => JoinOutcome::ShowError(e),
    }
}

// ---------------------------------------------------------------------------
// The friends list
// ---------------------------------------------------------------------------

/// A row of the friends list.
#[derive(Debug, PartialEq)]
pub enum FriendListItem {
    Header { title: String, count: usize },
    Placeholder,
    User(String),
}

/// A row as plain values.
pub enum FriendListItemV {
    Header { title: Seq<char>, count: nat },
    Placeholder,
    User(Seq<char>),
}

impl View for FriendListItem {
    type V = FriendListItemV;

    open spec fn view(&self) -> FriendListItemV {
        match self {
            FriendListItem::Header { title, count } => FriendListItemV::Header { title: title@, count: *count as nat },
            FriendListItem::Placeholder => FriendListItemV::Placeholder,
            FriendListItem::User(id) => FriendListItemV::User(id@),
        }
    }
}

pub open spec fn rows_view(s: Seq<FriendListItem>) -> Seq<FriendListItemV> {
    s.map_values(|r: FriendListItem| r@)
}

/// A group of the list: its header with the count, a placeholder when it
/// is empty, then its users.
pub open spec fn spec_group(title: Seq<char>, ids: Seq<Seq<char>>) -> Seq<FriendListItemV> {
    seq![FriendListItemV::Header { title, count: ids.len() }]
        + (if ids.len() == 0 { seq![FriendListItemV::Placeholder] } else { seq![] })
        + ids.map_values(|id: Seq<char>| FriendListItemV::User(id))
}

/// The users of `ids` whose request is incoming (`want`), or the others.
#[verifier::opaque]
pub open spec fn spec_split_incoming(ids: Seq<Seq<char>>, users: Seq<UserInfo>, want: bool) -> Seq<Seq<char>>
    decreases ids.len(),
{
    if ids.len() == 0 {
        seq![]
    } else {
        let rest = spec_split_incoming(ids.drop_last(), users, want);
        let u = users[spec_find_user(users, ids.last())->0];
        if (u.relationship == Relationship::Incoming) == want {
            rest.push(ids.last())
        } else {
            rest
        }
    }
}

pub open spec fn page_title(page: FriendPage) -> Seq<char> {
    match page {
        FriendPage::Online => "Online"@,
        FriendPage::All => "All"@,
        FriendPage::Pending => "Incoming"@,
        FriendPage::Blocked => "Blocked"@,
    }
}

/// The rows of the friends list on `page`: one group of the users listed
/// there, or on the pending page a group of incoming requests and one of
/// outgoing ones.
pub open spec fn spec_friend_rows(page: FriendPage, related: Seq<String>, users: Seq<UserInfo>) -> Seq<FriendListItemV> {
    let listed = spec_page_users(page, related, users);
    if page == FriendPage::Pending {
        spec_group("Incoming"@, spec_split_incoming(listed, users, true)) + spec_group(
            "Outgoing"@,
            spec_split_incoming(listed, users, false),
        )
    } else {
        spec_group(page_title(page), listed)
    }
}

fn push_group(rows: &mut Vec<FriendListItem>, title: &str, ids: &Vec<String>)
    ensures
        rows_view(final(rows)@) == rows_view(old(rows)@) + spec_group(title@, names_view(ids@)),
{
    let ghost start = rows_view(rows@);
    let ghost n = names_view(ids@);
    rows.push(FriendListItem::Header { title: literal(title), count: ids.len() });
    if ids.len() == 0 {
        rows.push(FriendListItem::Placeholder);
    }
    let ghost mid = rows_view(rows@);
    proof {
        assert(mid =~= start + seq![FriendListItemV::Header { title: title@, count: n.len() }]
            + (if n.len() == 0 { seq![FriendListItemV::Placeholder] } else { seq![] }));
    }
    let mut i: usize = 0;
    while i < ids.len()
        invariant
            i <= ids.len(),
            n == names_view(ids@),
            rows_view(rows@) == mid + n.take(i as int).map_values(|id: Seq<char>| FriendListItemV::User(id)),
        decreases ids.len() - i,
    {
        let ghost before = rows_view(rows@);
        rows.push(FriendListItem::User(ids[i].clone()));
        proof {
            assert(rows_view(rows@) =~= before.push(FriendListItemV::User(ids@[i as int]@)));
            assert(n.take(i + 1).map_values(|id: Seq<char>| FriendListItemV::User(id)) =~= n.take(i as int).map_values(
                |id: Seq<char>| FriendListItemV::User(id),
            ).push(FriendListItemV::User(ids@[i as int]@)));
        }
        i = i + 1;
    }
    proof {
        assert(n.take(i as int) =~= n);
        assert(rows_view(rows@) =~= start + spec_group(title@, n));
    }
}

fn is_incoming(users: &Vec<UserInfo>, id: &str) -> (r: bool)
    requires
        spec_find_user(users@, id@) is Some,
    ensures
        r == (users@[spec_find_user(users@, id@)->0].relationship == Relationship::Incoming),
{
    let k = find_user(users.as_slice(), id).unwrap();
    users[k].relationship == Relationship::Incoming
}

proof fn lemma_split_step(ids: Seq<Seq<char>>, i: int, users: Seq<UserInfo>, want: bool)
    requires
        0 <= i < ids.len(),
    ensures
        spec_split_incoming(ids.take(i + 1), users, want) == (if (users[spec_find_user(users, ids[i])->0].relationship
            == Relationship::Incoming) == want {
            spec_split_incoming(ids.take(i), users, want).push(ids[i])
        } else {
            spec_split_incoming(ids.take(i), users, want)
        }),
{
    reveal(spec_split_incoming);
    let t = ids.take(i + 1);
    assert(t.drop_last() =~= ids.take(i));
    assert(t.last() == ids[i]);
}

fn split_incoming(ids: &Vec<String>, users: &Vec<UserInfo>, want: bool) -> (r: Vec<String>)
    requires
        forall|k: int| 0 <= k < ids@.len() ==> spec_find_user(users@, #[trigger] ids@[k]@) is Some,
    ensures
        names_view(r@) == spec_split_incoming(names_view(ids@), users@, want),
{
    let mut out: Vec<String> = Vec::new();
    let mut i: usize = 0;
    proof {
        reveal(spec_split_incoming);
        assert(names_view(ids@).take(0) =~= Seq::<Seq<char>>::empty());
        assert(names_view(out@) =~= Seq::<Seq<char>>::empty());
    }
    while i < ids.len()
        invariant
            i <= ids.len(),
            forall|k: int| 0 <= k < ids@.len() ==> spec_find_user(users@, #[trigger] ids@[k]@) is Some,
            names_view(out@) == spec_split_incoming(names_view(ids@).take(i as int), users@, want),
        decreases ids.len() - i,
    {
        proof {
            lemma_split_step(names_view(ids@), i as int, users@, want);
            assert(names_view(ids@)[i as int] == ids@[i as int]@);
        }
        let incoming = is_incoming(users, ids[i].as_str());
        if incoming == want {
            let ghost before = out@;
            out.push(ids[i].clone());
            proof {
                assert(names_view(out@) =~= names_view(before).push(ids@[i as int]@));
            }
        }
        i = i + 1;
    }
    proof {
        assert(names_view(ids@).take(i as int) =~= names_view(ids@));
    }
    out
}

/// The rows of the friends list on `page`, given the ids of the users the
/// signed-in user has a relationship with; each must be known.
pub fn friend_rows(page: FriendPage, related: &Vec<String>, users: &Vec<UserInfo>) -> (r: Vec<FriendListItem>)
    requires
        forall|k: int| 0 <= k < related@.len() ==> spec_find_user(users@, #[trigger] related@[k]@) is Some,
    ensures
        rows_view(r@) == spec_friend_rows(page, related@, users@),
{
    let listed = page_users(page, related, users);
    let mut rows: Vec<FriendListItem> = Vec::new();
    proof {
        assert(rows_view(rows@) =~= Seq::<FriendListItemV>::empty());
    }
    if page == FriendPage::Pending {
        let incoming = split_incoming(&listed, users, true);
        let outgoing = split_incoming(&listed, users, false);
        proof {
            reveal_strlit("Incoming");
            reveal_strlit("Outgoing");
        }
        push_group(&mut rows, "Incoming", &incoming);
        push_group(&mut rows, "Outgoing", &outgoing);
        proof {
            assert(rows_view(rows@) =~= spec_friend_rows(page, related@, users@));
        }
    } else {
        let title = match page {
            FriendPage::Online => "Online",
            FriendPage::All => "All",
            _ => "Blocked",
        };
        proof {
            reveal_strlit("Online");
            reveal_strlit("All");
            reveal_strlit("Blocked");
        }
        push_group(&mut rows, title, &listed);
        proof {
            assert(rows_view(rows@) =~= spec_friend_rows(page, related@, users@));
        }
    }
    rows
}

/// The header of a group of the friends list: `title – count`.
pub fn header_label(title: &str, count: usize) -> (r: String)
    ensures
        r@ == title@ + seq![' ', '\u{2013}', ' '] + spec_decimal(count as nat),
{
    let mut s = concat(title, " \u{2013} ");
    proof {
        reveal_strlit(" \u{2013} ");
    }
    let d = decimal(count as u64);
    push_str(&mut s, d.as_str());
    s
}

} // verus!

verus! {

/// A server icon's stand-in can be cut out: the words it takes its first
/// characters from start with a one-byte character.
pub open spec fn initials_cuttable(name: Seq<char>) -> bool {
    let w = word_initials(name, 0, false);
    forall|k: int| 0 <= k < w.len() && k < 2 ==> (#[trigger] w[k] as u32) < 0x80
}

/// What stands for a server without an icon: the first characters of the
/// first two words of its name. Each of those must take one byte.
pub fn server_initials(name: &str) -> (r: String)
    requires
        initials_cuttable(name@),
    ensures
        r@ == spec_group_initials(name@),
{
    group_initials(name)
}

} // verus!

verus! {

/// What joining through an invite gave: a server with its channels, or a
/// group.
#[derive(Debug, PartialEq)]
pub enum Joined {
    Server { server_id: String, channel_ids: Vec<String> },
    Group { channel_id: String },
}

/// Where the client goes after joining: a server's first channel, if it
/// has any, with the server selected; a group's channel, from home.
pub fn after_join(j: &Joined) -> (r: (Option<String>, crate::model::Selection))
    ensures
        match j {
            Joined::Server { server_id, channel_ids } => opt_view(r.0) == (if channel_ids@.len() > 0 {
                Some(channel_ids@[0]@)
            } else {
                None::<Seq<char>>
            }) && (r.1 matches crate::model::Selection::Server(s) && s@ == server_id@),
            Joined::Group { channel_id } => opt_view(r.0) == Some(channel_id@) && r.1 == crate::model::Selection::Home,
        },
{
    match j {
        Joined::Server { server_id, channel_ids } => {
            let first = if channel_ids.len() > 0 {
                Some(channel_ids[0].clone())
            } else {
                None
            };
            (first, crate::model::Selection::Server(server_id.clone()))
        },
        Joined::Group { channel_id } => (Some(channel_id.clone()), crate::model::Selection::Home),
    }
}

} // verus!
