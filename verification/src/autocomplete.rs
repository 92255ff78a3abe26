//! The autocomplete popup of the message box: what it offers for a query,
//! in what order, how the selection moves, and what picking an entry
//! writes into the text.

use vstd::prelude::*;
use crate::compose::AutocompleteType;
use crate::model::{ChannelInfo, UserInfo, opt_view};
use crate::text::{has_prefix, starts_with, to_lowercase, lowercase, concat, chars_of, string_of, push_char};

verus! {

/// A role that can be mentioned: one of the server's, or everyone, or
/// everyone online.
#[derive(Debug, PartialEq)]
pub enum AutocompleteRoleEntry {
    Custom(String),
    Everyone,
    Online,
}

/// Something the popup offers.
#[derive(Debug, PartialEq)]
pub enum AutocompleteEntry {
    User(String),
    Channel(String),
    Emoji { value: String, name: String },
    Role(AutocompleteRoleEntry),
}

/// An entry as plain values.
pub enum EntryV {
    User(Seq<char>),
    Channel(Seq<char>),
    Emoji { value: Seq<char>, name: Seq<char> },
    Role(Seq<char>),
    Everyone,
    Online,
}

impl View for AutocompleteEntry {
    type V = EntryV;

    open spec fn view(&self) -> EntryV {
        match self {
            AutocompleteEntry::User(id) => EntryV::User(id@),
            AutocompleteEntry::Channel(id) => EntryV::Channel(id@),
            AutocompleteEntry::Emoji { value, name } => EntryV::Emoji { value: value@, name: name@ },
            AutocompleteEntry::Role(AutocompleteRoleEntry::Custom(id)) => EntryV::Role(id@),
            AutocompleteEntry::Role(AutocompleteRoleEntry::Everyone) => EntryV::Everyone,
            AutocompleteEntry::Role(AutocompleteRoleEntry::Online) => EntryV::Online,
        }
    }
}

/// The views of a list of entries.
pub open spec fn entries_view(s: Seq<AutocompleteEntry>) -> Seq<EntryV> {
    s.map_values(|e: AutocompleteEntry| e@)
}

/// A copy of an entry.
pub fn copy_entry(e: &AutocompleteEntry) -> (r: AutocompleteEntry)
    ensures
        r@ == e@,
{
    match e {
        AutocompleteEntry::User(id) => AutocompleteEntry::User(id.clone()),
        AutocompleteEntry::Channel(id) => AutocompleteEntry::Channel(id.clone()),
        AutocompleteEntry::Emoji { value, name } => AutocompleteEntry::Emoji { value: value.clone(), name: name.clone() },
        AutocompleteEntry::Role(AutocompleteRoleEntry::Custom(id)) => AutocompleteEntry::Role(
            AutocompleteRoleEntry::Custom(id.clone()),
        ),
        AutocompleteEntry::Role(AutocompleteRoleEntry::Everyone) => AutocompleteEntry::Role(AutocompleteRoleEntry::Everyone),
        AutocompleteEntry::Role(AutocompleteRoleEntry::Online) => AutocompleteEntry::Role(AutocompleteRoleEntry::Online),
    }
}

/// A server role: its id and name.
#[derive(Debug, PartialEq)]
pub struct RoleInfo {
    pub id: String,
    pub name: String,
}

/// An emoji that can be picked: its name and what it inserts (the emoji
/// itself, or a custom emoji's id).
#[derive(Debug, PartialEq)]
pub struct EmojiInfo {
    pub name: String,
    pub value: String,
}

/// What the popup can draw on for the current channel.
pub struct AutocompleteSources {
    /// User ids of the members of the channel's server.
    pub members: Vec<String>,
    /// Channel ids of the channel's server.
    pub server_channels: Vec<String>,
    /// The channel's server's roles.
    pub roles: Vec<RoleInfo>,
    /// The built-in Unicode emojis.
    pub unicode_emojis: Vec<EmojiInfo>,
    /// The custom emojis the user can use.
    pub custom_emojis: Vec<EmojiInfo>,
    /// The user may mention everyone in the channel.
    pub can_mention_everyone: bool,
}

pub open spec fn ids_to_users(s: Seq<String>) -> Seq<EntryV> {
    s.map_values(|id: String| EntryV::User(id@))
}

pub open spec fn ids_to_channels(s: Seq<String>) -> Seq<EntryV> {
    s.map_values(|id: String| EntryV::Channel(id@))
}

pub open spec fn roles_to_entries(s: Seq<RoleInfo>) -> Seq<EntryV> {
    s.map_values(|r: RoleInfo| EntryV::Role(r.id@))
}

pub open spec fn emojis_to_entries(s: Seq<EmojiInfo>) -> Seq<EntryV> {
    s.map_values(|e: EmojiInfo| EntryV::Emoji { value: e.value@, name: e.name@ })
}

/// The entries the popup starts from, before any filtering: the users of
/// the channel (its owner, its recipients, or its server's members), the
/// server's channels, every emoji (Unicode first), or the server's roles
/// followed, where the user may, by everyone and online.
pub open spec fn spec_candidates(ty: AutocompleteType, channel: &ChannelInfo, src: &AutocompleteSources) -> Seq<EntryV> {
    match ty {
        AutocompleteType::User => match channel {
            ChannelInfo::SavedMessages { user, .. } => seq![EntryV::User(user@)],
            ChannelInfo::DirectMessage { recipients, .. } => ids_to_users(recipients@),
            ChannelInfo::Group { recipients, .. } => ids_to_users(recipients@),
            ChannelInfo::TextChannel { .. } => ids_to_users(src.members@),
        },
        AutocompleteType::Channel => ids_to_channels(src.server_channels@),
        AutocompleteType::Emoji => emojis_to_entries(src.unicode_emojis@) + emojis_to_entries(src.custom_emojis@),
        AutocompleteType::Role => if src.can_mention_everyone {
            roles_to_entries(src.roles@) + seq![EntryV::Everyone, EntryV::Online]
        } else {
            roles_to_entries(src.roles@)
        },
    }
}

fn push_user_entries(out: &mut Vec<AutocompleteEntry>, ids: &Vec<String>)
    ensures
        entries_view(final(out)@) == entries_view(old(out)@) + ids_to_users(ids@),
{
    let ghost start = entries_view(out@);
    let mut i: usize = 0;
    while i < ids.len()
        invariant
            i <= ids.len(),
            entries_view(out@) == start + ids_to_users(ids@.take(i as int)),
        decreases ids.len() - i,
    {
        let ghost before = out@;
        let e = AutocompleteEntry::User(ids[i].clone());
        out.push(e);
        proof {
            assert(out@ == before.push(e));
            assert(ids@.take(i + 1) =~= ids@.take(i as int).push(ids@[i as int]));
            assert(entries_view(out@) =~= entries_view(before).push(e@));
            assert(ids_to_users(ids@.take(i + 1)) =~= ids_to_users(ids@.take(i as int)).push(EntryV::User(ids@[i as int]@)));
        }
        i = i + 1;
    }
    proof {
        assert(ids@.take(i as int) =~= ids@);
    }
}

fn push_channel_entries(out: &mut Vec<AutocompleteEntry>, ids: &Vec<String>)
    ensures
        entries_view(final(out)@) == entries_view(old(out)@) + ids_to_channels(ids@),
{
    let ghost start = entries_view(out@);
    let mut i: usize = 0;
    while i < ids.len()
        invariant
            i <= ids.len(),
            entries_view(out@) == start + ids_to_channels(ids@.take(i as int)),
        decreases ids.len() - i,
    {
        let ghost before = out@;
        let e = AutocompleteEntry::Channel(ids[i].clone());
        out.push(e);
        proof {
            assert(out@ == before.push(e));
            assert(ids@.take(i + 1) =~= ids@.take(i as int).push(ids@[i as int]));
            assert(entries_view(out@) =~= entries_view(before).push(e@));
            assert(ids_to_channels(ids@.take(i + 1)) =~= ids_to_channels(ids@.take(i as int)).push(EntryV::Channel(ids@[i as int]@)));
        }
        i = i + 1;
    }
    proof {
        assert(ids@.take(i as int) =~= ids@);
    }
}

fn push_role_entries(out: &mut Vec<AutocompleteEntry>, roles: &Vec<RoleInfo>)
    ensures
        entries_view(final(out)@) == entries_view(old(out)@) + roles_to_entries(roles@),
{
    let ghost start = entries_view(out@);
    let mut i: usize = 0;
    while i < roles.len()
        invariant
            i <= roles.len(),
            entries_view(out@) == start + roles_to_entries(roles@.take(i as int)),
        decreases roles.len() - i,
    {
        let ghost before = out@;
        let e = AutocompleteEntry::Role(AutocompleteRoleEntry::Custom(roles[i].id.clone()));
        out.push(e);
        proof {
            assert(out@ == before.push(e));
            assert(roles@.take(i + 1) =~= roles@.take(i as int).push(roles@[i as int]));
            assert(entries_view(out@) =~= entries_view(before).push(e@));
            assert(roles_to_entries(roles@.take(i + 1)) =~= roles_to_entries(roles@.take(i as int)).push(EntryV::Role(roles@[i as int].id@)));
        }
        i = i + 1;
    }
    proof {
        assert(roles@.take(i as int) =~= roles@);
    }
}

fn push_emoji_entries(out: &mut Vec<AutocompleteEntry>, emojis: &Vec<EmojiInfo>)
    ensures
        entries_view(final(out)@) == entries_view(old(out)@) + emojis_to_entries(emojis@),
{
    let ghost start = entries_view(out@);
    let mut i: usize = 0;
    while i < emojis.len()
        invariant
            i <= emojis.len(),
            entries_view(out@) == start + emojis_to_entries(emojis@.take(i as int)),
        decreases emojis.len() - i,
    {
        let ghost before = out@;
        let e = AutocompleteEntry::Emoji { value: emojis[i].value.clone(), name: emojis[i].name.clone() };
        out.push(e);
        proof {
            assert(out@ == before.push(e));
            assert(emojis@.take(i + 1) =~= emojis@.take(i as int).push(emojis@[i as int]));
            assert(entries_view(out@) =~= entries_view(before).push(e@));
            assert(emojis_to_entries(emojis@.take(i + 1)) =~= emojis_to_entries(emojis@.take(i as int)).push(
                EntryV::Emoji { value: emojis@[i as int].value@, name: emojis@[i as int].name@ },
            ));
        }
        i = i + 1;
    }
    proof {
        assert(emojis@.take(i as int) =~= emojis@);
    }
}

/// The entries the popup starts from for `ty` in `channel`.
pub fn candidates(ty: AutocompleteType, channel: &ChannelInfo, src: &AutocompleteSources) -> (r: Vec<AutocompleteEntry>)
    ensures
        entries_view(r@) == spec_candidates(ty, channel, src),
{
    let mut out: Vec<AutocompleteEntry> = Vec::new();
    proof {
        assert(entries_view(out@) =~= Seq::<EntryV>::empty());
    }
    match ty {
        AutocompleteType::User => match channel {
            ChannelInfo::SavedMessages { user, .. } => {
                out.push(AutocompleteEntry::User(user.clone()));
                proof {
                    assert(entries_view(out@) =~= seq![EntryV::User(user@)]);
                }
            },
            ChannelInfo::DirectMessage { recipients, .. } => push_user_entries(&mut out, recipients),
            ChannelInfo::Group { recipients, .. } => push_user_entries(&mut out, recipients),
            ChannelInfo::TextChannel { .. } => push_user_entries(&mut out, &src.members),
        },
        AutocompleteType::Channel => push_channel_entries(&mut out, &src.server_channels),
        AutocompleteType::Emoji => {
            push_emoji_entries(&mut out, &src.unicode_emojis);
            push_emoji_entries(&mut out, &src.custom_emojis);
        },
        AutocompleteType::Role => {
            push_role_entries(&mut out, &src.roles);
            if src.can_mention_everyone {
                let ghost before = entries_view(out@);
                out.push(AutocompleteEntry::Role(AutocompleteRoleEntry::Everyone));
                out.push(AutocompleteEntry::Role(AutocompleteRoleEntry::Online));
                proof {
                    assert(entries_view(out@) =~= before + seq![EntryV::Everyone, EntryV::Online]);
                }
            }
        },
    }
    proof {
        assert(Seq::<EntryV>::empty() + ids_to_users(src.members@) =~= ids_to_users(src.members@));
        assert(Seq::<EntryV>::empty() + ids_to_channels(src.server_channels@) =~= ids_to_channels(src.server_channels@));
        assert(Seq::<EntryV>::empty() + roles_to_entries(src.roles@) =~= roles_to_entries(src.roles@));
        assert(Seq::<EntryV>::empty() + emojis_to_entries(src.unicode_emojis@) =~= emojis_to_entries(src.unicode_emojis@));
        match channel {
            ChannelInfo::DirectMessage { recipients, .. } => {
                assert(Seq::<EntryV>::empty() + ids_to_users(recipients@) =~= ids_to_users(recipients@));
            },
            ChannelInfo::Group { recipients, .. } => {
                assert(Seq::<EntryV>::empty() + ids_to_users(recipients@) =~= ids_to_users(recipients@));
            },
            _ => {},
        }
    }
    out
}

} // verus!

verus! {

// ---------------------------------------------------------------------------
// Matching entries against the query
// ---------------------------------------------------------------------------

/// The label of the first of `labels` whose key starts with `query`.
pub open spec fn spec_pick_label(labels: Seq<Seq<char>>, keys: Seq<Seq<char>>, query: Seq<char>) -> Option<Seq<char>>
    decreases labels.len(),
{
    if labels.len() == 0 || keys.len() == 0 {
        None
    } else if has_prefix(keys[0], query) {
        Some(labels[0])
    } else {
        spec_pick_label(labels.drop_first(), keys.drop_first(), query)
    }
}

pub open spec fn strings_view(s: Seq<String>) -> Seq<Seq<char>> {
    s.map_values(|x: String| x@)
}

/// The first of `labels` whose key (the string at the same place in
/// `keys`) starts with `query`.
pub fn pick_label(labels: &Vec<String>, keys: &Vec<String>, query: &str) -> (r: Option<String>)
    ensures
        opt_view(r) == spec_pick_label(strings_view(labels@), strings_view(keys@), query@),
{
    let mut i: usize = 0;
    proof {
        assert(strings_view(labels@).skip(0) =~= strings_view(labels@));
        assert(strings_view(keys@).skip(0) =~= strings_view(keys@));
    }
    while i < labels.len() && i < keys.len()
        invariant
            i <= labels.len(),
            i <= keys.len(),
            spec_pick_label(strings_view(labels@), strings_view(keys@), query@) == spec_pick_label(
                strings_view(labels@).skip(i as int),
                strings_view(keys@).skip(i as int),
                query@,
            ),
        decreases labels.len() - i,
    {
        let ghost l = strings_view(labels@).skip(i as int);
        let ghost k = strings_view(keys@).skip(i as int);
        proof {
            assert(l[0] == labels@[i as int]@);
            assert(k[0] == keys@[i as int]@);
            assert(l.drop_first() =~= strings_view(labels@).skip(i + 1));
            assert(k.drop_first() =~= strings_view(keys@).skip(i + 1));
        }
        if starts_with(keys[i].as_str(), query) {
            return Some(labels[i].clone());
        }
        i = i + 1;
    }
    proof {
        let l = strings_view(labels@).skip(i as int);
        let k = strings_view(keys@).skip(i as int);
        assert(l.len() == 0 || k.len() == 0);
    }
    None
}

/// The position of the first channel with id `id`.
pub open spec fn spec_find_channel(channels: Seq<ChannelInfo>, id: Seq<char>) -> Option<int> {
    if exists|k: int| 0 <= k < channels.len() && channels[k].spec_id() == id {
        Some(choose|k: int| 0 <= k < channels.len() && channels[k].spec_id() == id && forall|j: int| 0 <= j < k ==> channels[j].spec_id() != id)
    } else {
        None
    }
}

/// The position of the first role with id `id`.
pub open spec fn spec_find_role(roles: Seq<RoleInfo>, id: Seq<char>) -> Option<int> {
    if exists|k: int| 0 <= k < roles.len() && roles[k].id@ == id {
        Some(choose|k: int| 0 <= k < roles.len() && roles[k].id@ == id && forall|j: int| 0 <= j < k ==> roles[j].id@ != id)
    } else {
        None
    }
}

/// The position of the first channel with id `id`, if any.
pub fn find_channel(channels: &[ChannelInfo], id: &str) -> (r: Option<usize>)
    ensures
        r is Some <==> spec_find_channel(channels@, id@) is Some,
        r is Some ==> spec_find_channel(channels@, id@) == Some(r->0 as int),
        r is Some ==> r->0 < channels@.len(),
{
    let mut i: usize = 0;
    while i < channels.len()
        invariant
            i <= channels.len(),
            forall|j: int| 0 <= j < i ==> channels@[j].spec_id() != id@,
        decreases channels.len() - i,
    {
        let cid = channels[i].id();
        if crate::text::str_eq(cid.as_str(), id) {
            proof {
                let s = channels@;
                let k = i as int;
                let c = choose|c: int| 0 <= c < s.len() && s[c].spec_id() == id@ && forall|j: int| 0 <= j < c ==> s[j].spec_id() != id@;
                assert(0 <= k < s.len() && s[k].spec_id() == id@ && forall|j: int| 0 <= j < k ==> s[j].spec_id() != id@);
                if c < k {
                    assert(s[c].spec_id() != id@);
                } else if c > k {
                    assert(s[k].spec_id() != id@);
                }
            }
            return Some(i);
        }
        i = i + 1;
    }
    None
}

/// The position of the first role with id `id`, if any.
pub fn find_role(roles: &[RoleInfo], id: &str) -> (r: Option<usize>)
    ensures
        r is Some <==> spec_find_role(roles@, id@) is Some,
        r is Some ==> spec_find_role(roles@, id@) == Some(r->0 as int),
        r is Some ==> r->0 < roles@.len(),
{
    let mut i: usize = 0;
    while i < roles.len()
        invariant
            i <= roles.len(),
            forall|j: int| 0 <= j < i ==> roles@[j].id@ != id@,
        decreases roles.len() - i,
    {
        if crate::text::str_eq(roles[i].id.as_str(), id) {
            proof {
                let s = roles@;
                let k = i as int;
                let c = choose|c: int| 0 <= c < s.len() && s[c].id@ == id@ && forall|j: int| 0 <= j < c ==> s[j].id@ != id@;
                assert(0 <= k < s.len() && s[k].id@ == id@ && forall|j: int| 0 <= j < k ==> s[j].id@ != id@);
                if c < k {
                    assert(s[c].id@ != id@);
                } else if c > k {
                    assert(s[k].id@ != id@);
                }
            }
            return Some(i);
        }
        i = i + 1;
    }
    None
}

/// What the popup knows of the users, channels and roles its entries name.
pub struct Directory {
    pub users: Vec<UserInfo>,
    pub channels: Vec<ChannelInfo>,
    pub roles: Vec<RoleInfo>,
}

/// Every user, channel and role that `e` names is in `dir`.
pub open spec fn entry_known(e: EntryV, dir: &Directory) -> bool {
    match e {
        EntryV::User(id) => crate::model::spec_find_user(dir.users@, id) is Some,
        EntryV::Channel(id) => spec_find_channel(dir.channels@, id) is Some,
        EntryV::Role(id) => spec_find_role(dir.roles@, id) is Some,
        _ => true,
    }
}

pub open spec fn everyone_word() -> Seq<char> {
    seq!['e', 'v', 'e', 'r', 'y', 'o', 'n', 'e']
}

pub open spec fn online_word() -> Seq<char> {
    seq!['o', 'n', 'l', 'i', 'n', 'e']
}

/// The name an entry is listed under for lower-cased query `q`, if it
/// matches: a user by display name, else by username, compared lower-cased;
/// a channel by its name, lower-cased; an emoji by its name as it is; a
/// role by its name, lower-cased; everyone and online by those words.
pub open spec fn spec_entry_label(e: EntryV, dir: &Directory, q: Seq<char>) -> Option<Seq<char>> {
    match e {
        EntryV::User(id) => {
            let u = dir.users@[crate::model::spec_find_user(dir.users@, id)->0];
            if u.display_name is Some && has_prefix(lowercase(u.display_name->0@), q) {
                Some(u.display_name->0@)
            } else if has_prefix(lowercase(u.username@), q) {
                Some(u.username@)
            } else {
                None
            }
        },
        EntryV::Channel(id) => {
            let c = dir.channels@[spec_find_channel(dir.channels@, id)->0];
            if c.spec_name() is Some && has_prefix(lowercase(c.spec_name()->0), q) {
                Some(c.spec_name()->0)
            } else {
                None
            }
        },
        EntryV::Emoji { name, .. } => if has_prefix(name, q) {
            Some(name)
        } else {
            None
        },
        EntryV::Role(id) => {
            let r = dir.roles@[spec_find_role(dir.roles@, id)->0];
            if has_prefix(lowercase(r.name@), q) {
                Some(r.name@)
            } else {
                None
            }
        },
        EntryV::Everyone => if has_prefix(everyone_word(), q) {
            Some(everyone_word())
        } else {
            None
        },
        EntryV::Online => if has_prefix(online_word(), q) {
            Some(online_word())
        } else {
            None
        },
    }
}

proof fn lemma_pick_two(a: Seq<char>, b: Seq<char>, ka: Seq<char>, kb: Seq<char>, q: Seq<char>)
    ensures
        spec_pick_label(seq![a, b], seq![ka, kb], q) == (if has_prefix(ka, q) {
            Some(a)
        } else if has_prefix(kb, q) {
            Some(b)
        } else {
            None::<Seq<char>>
        }),
{
    reveal_with_fuel(spec_pick_label, 3);
    assert(seq![a, b].drop_first() =~= seq![b]);
    assert(seq![ka, kb].drop_first() =~= seq![kb]);
    assert(seq![b].drop_first() =~= Seq::<Seq<char>>::empty());
    assert(seq![kb].drop_first() =~= Seq::<Seq<char>>::empty());
}

proof fn lemma_pick_one(a: Seq<char>, ka: Seq<char>, q: Seq<char>)
    ensures
        spec_pick_label(seq![a], seq![ka], q) == (if has_prefix(ka, q) {
            Some(a)
        } else {
            None::<Seq<char>>
        }),
{
    reveal_with_fuel(spec_pick_label, 2);
    assert(seq![a].drop_first() =~= Seq::<Seq<char>>::empty());
    assert(seq![ka].drop_first() =~= Seq::<Seq<char>>::empty());
}

/// `label` if `key` starts with `q`.
fn single_label(label: String, key: String, q: &str) -> (r: Option<String>)
    ensures
        opt_view(r) == (if has_prefix(key@, q@) {
            Some(label@)
        } else {
            None::<Seq<char>>
        }),
{
    let ghost (l, k) = (label@, key@);
    let labels = vec![label];
    let keys = vec![key];
    proof {
        assert(strings_view(labels@) =~= seq![l]);
        assert(strings_view(keys@) =~= seq![k]);
        lemma_pick_one(l, k, q@);
    }
    pick_label(&labels, &keys, q)
}

/// The name `user` is listed under for the lower-cased query `q`: the
/// display name, else the username, each compared lower-cased.
fn user_label(u: &UserInfo, q: &str) -> (r: Option<String>)
    ensures
        opt_view(r) == (if u.display_name is Some && has_prefix(lowercase(u.display_name->0@), q@) {
            Some(u.display_name->0@)
        } else if has_prefix(lowercase(u.username@), q@) {
            Some(u.username@)
        } else {
            None::<Seq<char>>
        }),
{
    match &u.display_name {
        Some(d) => {
            let labels = vec![d.clone(), u.username.clone()];
            let keys = vec![to_lowercase(d.as_str()), to_lowercase(u.username.as_str())];
            proof {
                assert(strings_view(labels@) =~= seq![d@, u.username@]);
                assert(strings_view(keys@) =~= seq![lowercase(d@), lowercase(u.username@)]);
                lemma_pick_two(d@, u.username@, lowercase(d@), lowercase(u.username@), q@);
            }
            pick_label(&labels, &keys, q)
        },
        None => single_label(u.username.clone(), to_lowercase(u.username.as_str()), q),
    }
}

/// The name `e` is listed under for the lower-cased query `q`, if it
/// matches.
pub fn entry_label(e: &AutocompleteEntry, dir: &Directory, q: &str) -> (r: Option<String>)
    requires
        entry_known(e@, dir),
    ensures
        opt_view(r) == spec_entry_label(e@, dir, q@),
{
    match e {
        AutocompleteEntry::User(id) => {
            let k = crate::model::find_user(dir.users.as_slice(), id.as_str()).unwrap();
            user_label(&dir.users[k], q)
        },
        AutocompleteEntry::Channel(id) => {
            let k = find_channel(dir.channels.as_slice(), id.as_str()).unwrap();
            match dir.channels[k].name() {
                Some(n) => {
                    let key = to_lowercase(n.as_str());
                    single_label(n, key, q)
                },
                None => None,
            }
        },
        AutocompleteEntry::Emoji { name, .. } => single_label(name.clone(), name.clone(), q),
        AutocompleteEntry::Role(AutocompleteRoleEntry::Custom(id)) => {
            let k = find_role(dir.roles.as_slice(), id.as_str()).unwrap();
            single_label(dir.roles[k].name.clone(), to_lowercase(dir.roles[k].name.as_str()), q)
        },
        AutocompleteEntry::Role(AutocompleteRoleEntry::Everyone) => {
            let w = "everyone";
            proof {
                reveal_strlit("everyone");
                assert(w@ =~= everyone_word());
            }
            single_label(string_of(chars_of(w).as_slice()), string_of(chars_of(w).as_slice()), q)
        },
        AutocompleteEntry::Role(AutocompleteRoleEntry::Online) => {
            let w = "online";
            proof {
                reveal_strlit("online");
                assert(w@ =~= online_word());
            }
            single_label(string_of(chars_of(w).as_slice()), string_of(chars_of(w).as_slice()), q)
        },
    }
}

} // verus!

verus! {

/// A listed entry: the name it is listed under and the entry.
pub type ListedV = (Seq<char>, EntryV);

pub open spec fn listed_view(s: Seq<(String, AutocompleteEntry)>) -> Seq<ListedV> {
    s.map_values(|p: (String, AutocompleteEntry)| (p.0@, p.1@))
}

/// The entries that match lower-cased query `q`, each with the name it is
/// listed under, in the order given.
pub open spec fn spec_filter(s: Seq<EntryV>, dir: &Directory, q: Seq<char>) -> Seq<ListedV>
    decreases s.len(),
{
    if s.len() == 0 {
        seq![]
    } else {
        let rest = spec_filter(s.drop_last(), dir, q);
        match spec_entry_label(s.last(), dir, q) {
            Some(l) => rest.push((l, s.last())),
            None => rest,
        }
    }
}

/// The entries of `entries` that match lower-cased query `q`, each with
/// the name it is listed under.
pub fn filter_entries(entries: &Vec<AutocompleteEntry>, dir: &Directory, q: &str) -> (r: Vec<(String, AutocompleteEntry)>)
    requires
        forall|k: int| 0 <= k < entries@.len() ==> entry_known(#[trigger] entries@[k]@, dir),
    ensures
        listed_view(r@) == spec_filter(entries_view(entries@), dir, q@),
{
    let mut out: Vec<(String, AutocompleteEntry)> = Vec::new();
    let mut i: usize = 0;
    proof {
        assert(entries_view(entries@).take(0) =~= Seq::<EntryV>::empty());
        assert(listed_view(out@) =~= Seq::<ListedV>::empty());
    }
    while i < entries.len()
        invariant
            i <= entries.len(),
            forall|k: int| 0 <= k < entries@.len() ==> entry_known(#[trigger] entries@[k]@, dir),
            listed_view(out@) == spec_filter(entries_view(entries@).take(i as int), dir, q@),
        decreases entries.len() - i,
    {
        let ghost s = entries_view(entries@).take(i + 1);
        proof {
            assert(s.drop_last() =~= entries_view(entries@).take(i as int));
            assert(s.last() == entries@[i as int]@);
        }
        let ghost before = out@;
        match entry_label(&entries[i], dir, q) {
            Some(l) => {
                let p = (l, copy_entry(&entries[i]));
                out.push(p);
                proof {
                    assert(listed_view(out@) =~= listed_view(before).push((p.0@, p.1@)));
                }
            },
            None => {},
        }
        i = i + 1;
    }
    proof {
        assert(entries_view(entries@).take(i as int) =~= entries_view(entries@));
    }
    out
}

// ---------------------------------------------------------------------------
// Ordering by name
// ---------------------------------------------------------------------------

/// `a` comes before `b` in the order of `String`: character by character,
/// a proper prefix first.
pub open spec fn lex_lt(a: Seq<char>, b: Seq<char>) -> bool
    decreases a.len(),
{
    if a.len() == 0 {
        b.len() > 0
    } else if b.len() == 0 {
        false
    } else if a[0] != b[0] {
        (a[0] as u32) < (b[0] as u32)
    } else {
        lex_lt(a.drop_first(), b.drop_first())
    }
}

/// Whether `a` comes before `b` in the order of `String`.
pub fn lex_less(a: &str, b: &str) -> (r: bool)
    ensures
        r == lex_lt(a@, b@),
{
    let x = chars_of(a);
    let y = chars_of(b);
    let mut i: usize = 0;
    proof {
        assert(x@.skip(0) =~= x@);
        assert(y@.skip(0) =~= y@);
    }
    while i < x.len() && i < y.len() && x[i] == y[i]
        invariant
            i <= x.len(),
            i <= y.len(),
            lex_lt(x@, y@) == lex_lt(x@.skip(i as int), y@.skip(i as int)),
        decreases x.len() - i,
    {
        proof {
            assert(x@.skip(i as int).drop_first() =~= x@.skip(i + 1));
            assert(y@.skip(i as int).drop_first() =~= y@.skip(i + 1));
        }
        i = i + 1;
    }
    if i == x.len() {
        proof {
            assert(x@.skip(i as int).len() == 0);
        }
        i < y.len()
    } else if i == y.len() {
        false
    } else {
        proof {
            assert(x@.skip(i as int)[0] == x@[i as int]);
            assert(y@.skip(i as int)[0] == y@[i as int]);
        }
        (x[i] as u32) < (y[i] as u32)
    }
}

/// `x` put into `s` after every entry whose name does not come after its
/// own.
pub open spec fn insert_sorted(s: Seq<ListedV>, x: ListedV) -> Seq<ListedV>
    decreases s.len(),
{
    if s.len() == 0 {
        seq![x]
    } else if lex_lt(x.0, s.last().0) {
        insert_sorted(s.drop_last(), x).push(s.last())
    } else {
        s.push(x)
    }
}

/// `s` ordered by name, entries with equal names kept in their order.
pub open spec fn spec_sort(s: Seq<ListedV>) -> Seq<ListedV>
    decreases s.len(),
{
    if s.len() == 0 {
        s
    } else {
        insert_sorted(spec_sort(s.drop_last()), s.last())
    }
}

proof fn lemma_insert_at(s: Seq<ListedV>, x: ListedV, j: int)
    requires
        0 <= j <= s.len(),
        forall|k: int| j <= k < s.len() ==> lex_lt(x.0, #[trigger] s[k].0),
        j == 0 || !lex_lt(x.0, s[j - 1].0),
    ensures
        insert_sorted(s, x) == s.take(j).push(x) + s.skip(j),
    decreases s.len() - j,
{
    if j == s.len() {
        assert(s.take(j) =~= s);
        assert(s.skip(j) =~= Seq::<ListedV>::empty());
        assert(s.take(j).push(x) + s.skip(j) =~= s.push(x));
    } else {
        let d = s.drop_last();
        assert(lex_lt(x.0, s[s.len() - 1].0));
        assert forall|k: int| j <= k < d.len() implies lex_lt(x.0, #[trigger] d[k].0) by {
            assert(d[k] == s[k]);
        }
        if j > 0 {
            assert(d[j - 1] == s[j - 1]);
        }
        lemma_insert_at(d, x, j);
        assert(d.take(j) =~= s.take(j));
        assert((d.take(j).push(x) + d.skip(j)).push(s.last()) =~= s.take(j).push(x) + s.skip(j));
    }
}

/// `v` ordered by name, entries with equal names kept in their order (the
/// order of a stable sort by `String::cmp` on the names).
pub fn sort_by_name(v: Vec<(String, AutocompleteEntry)>) -> (r: Vec<(String, AutocompleteEntry)>)
    ensures
        listed_view(r@) == spec_sort(listed_view(v@)),
{
    let ghost input = listed_view(v@);
    let mut rest = v;
    let n = rest.len();
    let mut out: Vec<(String, AutocompleteEntry)> = Vec::new();
    let mut i: usize = 0;
    proof {
        assert(input.take(0) =~= Seq::<ListedV>::empty());
        assert(listed_view(out@) =~= Seq::<ListedV>::empty());
        assert(listed_view(rest@) =~= input.skip(0));
    }
    while rest.len() > 0
        invariant
            i + rest@.len() == input.len(),
            n == input.len(),
            listed_view(rest@) == input.skip(i as int),
            listed_view(out@) == spec_sort(input.take(i as int)),
        decreases rest.len(),
    {
        let ghost old_rest = rest@;
        let x = rest.remove(0);
        let ghost xv = (x.0@, x.1@);
        proof {
            assert(x == old_rest[0]);
            assert(rest@ =~= old_rest.skip(1));
            assert(listed_view(old_rest)[0] == xv);
            assert(xv == input[i as int]);
            assert(listed_view(rest@) =~= listed_view(old_rest).skip(1));
            assert(input.skip(i as int).skip(1) =~= input.skip(i + 1));
        }
        let mut j: usize = out.len();
        while j > 0 && lex_less(x.0.as_str(), out[j - 1].0.as_str())
            invariant
                j <= out.len(),
                xv.0 == x.0@,
                forall|k: int| j <= k < out@.len() ==> lex_lt(xv.0, #[trigger] listed_view(out@)[k].0),
            decreases j,
        {
            proof {
                assert(listed_view(out@)[j - 1].0 == out@[j - 1].0@);
            }
            j = j - 1;
        }
        let ghost sorted = listed_view(out@);
        proof {
            if j > 0 {
                assert(sorted[j - 1].0 == out@[j - 1].0@);
            }
            lemma_insert_at(sorted, xv, j as int);
            assert(input.take(i + 1).drop_last() =~= input.take(i as int));
            assert(input.take(i + 1).last() == xv);
        }
        out.insert(j, x);
        proof {
            assert(listed_view(out@) =~= sorted.take(j as int).push(xv) + sorted.skip(j as int));
        }
        i = i + 1;
    }
    proof {
        assert(input.take(i as int) =~= input);
    }
    out
}

// ---------------------------------------------------------------------------
// The list the popup shows
// ---------------------------------------------------------------------------

/// What the popup lists for `query`: the candidates that match it, compared
/// lower-cased, ordered by the names they are listed under.
pub open spec fn spec_matches(ty: AutocompleteType, channel: &ChannelInfo, src: &AutocompleteSources, dir: &Directory, query: Seq<char>) -> Seq<ListedV> {
    spec_sort(spec_filter(spec_candidates(ty, channel, src), dir, lowercase(query)))
}

/// What the popup lists for `query`. Every user, channel and role a
/// candidate names must be in `dir`.
pub fn autocomplete_matches(
    ty: AutocompleteType,
    channel: &ChannelInfo,
    src: &AutocompleteSources,
    dir: &Directory,
    query: &str,
) -> (r: Vec<(String, AutocompleteEntry)>)
    requires
        forall|k: int| 0 <= k < spec_candidates(ty, channel, src).len() ==> entry_known(#[trigger] spec_candidates(ty, channel, src)[k], dir),
    ensures
        listed_view(r@) == spec_matches(ty, channel, src, dir, query@),
{
    let q = to_lowercase(query);
    let entries = candidates(ty, channel, src);
    proof {
        assert forall|k: int| 0 <= k < entries@.len() implies entry_known(#[trigger] entries@[k]@, dir) by {
            assert(entries@[k]@ == entries_view(entries@)[k]);
        }
    }
    let listed = filter_entries(&entries, dir, q.as_str());
    sort_by_name(listed)
}

} // verus!

verus! {

// ---------------------------------------------------------------------------
// Picking an entry
// ---------------------------------------------------------------------------

/// What picking `e` writes in place of the query: a mention, a custom
/// emoji's id in colons or a Unicode emoji, then a space.
pub open spec fn spec_insertion(e: EntryV) -> Seq<char> {
    let body = match e {
        EntryV::User(id) => seq!['<', '@'] + id + seq!['>'],
        EntryV::Channel(id) => seq!['<', '#'] + id + seq!['>'],
        EntryV::Emoji { value, .. } => crate::compose::spec_emoji_text(value),
        EntryV::Role(id) => seq!['<', '%'] + id + seq!['>'],
        EntryV::Everyone => seq!['@'] + everyone_word(),
        EntryV::Online => seq!['@'] + online_word(),
    };
    body.push(' ')
}

/// `open`, then `id`, then `>`.
fn wrap_id(open: &str, id: &str) -> (r: String)
    ensures
        r@ == open@ + id@ + seq!['>'],
{
    let close = ">";
    proof {
        reveal_strlit(">");
    }
    let a = concat(open, id);
    concat(a.as_str(), close)
}

/// What picking `e` writes into the message text.
pub fn insertion_text(e: &AutocompleteEntry) -> (r: String)
    ensures
        r@ == spec_insertion(e@),
{
    let mut body = match e {
        AutocompleteEntry::User(id) => {
            proof {
                reveal_strlit("<@");
            }
            wrap_id("<@", id.as_str())
        },
        AutocompleteEntry::Channel(id) => {
            proof {
                reveal_strlit("<#");
            }
            wrap_id("<#", id.as_str())
        },
        AutocompleteEntry::Emoji { value, .. } => crate::compose::emoji_insert_text(value.as_str()),
        AutocompleteEntry::Role(AutocompleteRoleEntry::Custom(id)) => {
            proof {
                reveal_strlit("<%");
            }
            wrap_id("<%", id.as_str())
        },
        AutocompleteEntry::Role(AutocompleteRoleEntry::Everyone) => {
            let w = "@everyone";
            proof {
                reveal_strlit("@everyone");
                assert(w@ =~= seq!['@'] + everyone_word());
            }
            string_of(chars_of(w).as_slice())
        },
        AutocompleteEntry::Role(AutocompleteRoleEntry::Online) => {
            let w = "@online";
            proof {
                reveal_strlit("@online");
                assert(w@ =~= seq!['@'] + online_word());
            }
            string_of(chars_of(w).as_slice())
        },
    };
    push_char(&mut body, ' ');
    body
}

/// Where the replaced text starts: the query and the character before it
/// end at `end`; positions count bytes, as `str::len` does for the query.
pub fn replace_start(end: usize, query: &str) -> (r: usize)
    requires
        end >= vstd::utf8::encode_utf8(query@).len() + 1,
    ensures
        r == end - vstd::utf8::encode_utf8(query@).len() - 1,
{
    end - query.as_bytes().len() - 1
}

/// The popup's height in pixels for `n` listed entries: 32 per entry and
/// 16 more, at most 176.
pub open spec fn spec_popup_height(n: int) -> int {
    if n * 32 + 16 <= 176 {
        n * 32 + 16
    } else {
        176
    }
}

/// The popup's height in pixels for `n` listed entries.
pub fn popup_height(n: usize) -> (r: usize)
    requires
        n * 32 + 16 <= usize::MAX,
    ensures
        r == spec_popup_height(n as int),
{
    let h = n * 32 + 16;
    if h <= 176 {
        h
    } else {
        176
    }
}

// ---------------------------------------------------------------------------
// Moving the selection
// ---------------------------------------------------------------------------

/// The entry selected after ArrowUp: the one before, from the first back
/// round to the last.
pub open spec fn spec_select_up(idx: int, len: int) -> int {
    if idx == 0 {
        len - 1
    } else if idx - 1 <= len - 1 {
        idx - 1
    } else {
        len - 1
    }
}

/// The entry selected after ArrowDown: the one after, from the last round
/// to the first.
pub open spec fn spec_select_down(idx: int, len: int) -> int {
    if idx + 1 >= len {
        0
    } else {
        idx + 1
    }
}

/// The entry selected after ArrowUp among `len` listed entries.
pub fn select_up(idx: usize, len: usize) -> (r: usize)
    requires
        len > 0,
    ensures
        r == spec_select_up(idx as int, len as int),
{
    let prev = idx.wrapping_sub(1);
    let last = len - 1;
    if prev < last {
        prev
    } else {
        last
    }
}

/// The entry selected after ArrowDown among `len` listed entries.
pub fn select_down(idx: usize, len: usize) -> (r: usize)
    ensures
        r == spec_select_down(idx as int, len as int),
{
    let next = idx.wrapping_add(1);
    if next >= len {
        0
    } else {
        next
    }
}

/// ArrowUp and ArrowDown undo each other on a listed entry.
pub proof fn law_up_down_undo(idx: int, len: int)
    requires
        0 <= idx < len,
    ensures
        spec_select_down(spec_select_up(idx, len), len) == idx,
        spec_select_up(spec_select_down(idx, len), len) == idx,
{
}

/// Both moves keep the selection on a listed entry.
pub proof fn law_selection_stays_listed(idx: int, len: int)
    requires
        0 <= idx,
        len > 0,
    ensures
        0 <= spec_select_up(idx, len) < len,
        0 <= spec_select_down(idx, len) < len,
{
}

/// A key the popup reacts to.
#[derive(Debug, PartialEq, Eq, Clone, Copy, Structural)]
pub enum PopupKey {
    ArrowUp,
    ArrowDown,
    Enter,
    Escape,
    Other,
}

/// What a key does to the popup.
#[derive(Debug, PartialEq, Eq, Clone, Copy, Structural)]
pub struct PopupOutcome {
    /// The entry selected afterwards.
    pub selected: usize,
    /// The entry to write into the text, if one is picked.
    pub pick: Option<usize>,
    /// The popup stays open.
    pub visible: bool,
    /// The key is kept from the text box.
    pub consumed: bool,
}

/// What `key` does to an open or closed popup listing `len` entries with
/// entry `selected` selected: the arrows move the selection, Enter picks
/// the selected entry if there is one, Escape closes the popup; a closed
/// popup ignores keys.
pub open spec fn spec_popup_key(key: PopupKey, visible: bool, selected: usize, len: usize) -> PopupOutcome {
    if !visible {
        PopupOutcome { selected, pick: None, visible, consumed: false }
    } else {
        match key {
            PopupKey::ArrowUp => PopupOutcome {
                selected: spec_select_up(selected as int, len as int) as usize,
                pick: None,
                visible,
                consumed: true,
            },
            PopupKey::ArrowDown => PopupOutcome {
                selected: spec_select_down(selected as int, len as int) as usize,
                pick: None,
                visible,
                consumed: true,
            },
            PopupKey::Enter => if selected < len {
                PopupOutcome { selected, pick: Some(selected), visible, consumed: true }
            } else {
                PopupOutcome { selected, pick: None, visible, consumed: false }
            },
            PopupKey::Escape => PopupOutcome { selected, pick: None, visible: false, consumed: false },
            PopupKey::Other => PopupOutcome { selected, pick: None, visible, consumed: false },
        }
    }
}

/// What `key` does to the popup.
pub fn popup_key(key: PopupKey, visible: bool, selected: usize, len: usize) -> (r: PopupOutcome)
    requires
        visible && key == PopupKey::ArrowUp ==> len > 0,
    ensures
        r == spec_popup_key(key, visible, selected, len),
{
    if !visible {
        return PopupOutcome { selected, pick: None, visible, consumed: false };
    }
    match key {
        PopupKey::ArrowUp => PopupOutcome { selected: select_up(selected, len), pick: None, visible, consumed: true },
        PopupKey::ArrowDown => PopupOutcome { selected: select_down(selected, len), pick: None, visible, consumed: true },
        PopupKey::Enter => if selected < len {
            PopupOutcome { selected, pick: Some(selected), visible, consumed: true }
        } else {
            PopupOutcome { selected, pick: None, visible, consumed: false }
        },
        PopupKey::Escape => PopupOutcome { selected, pick: None, visible: false, consumed: false },
        PopupKey::Other => PopupOutcome { selected, pick: None, visible, consumed: false },
    }
}

/// The popup after the query changed, now listing `len` matches: the
/// first entry is selected, and the popup shows where there is a match.
pub open spec fn spec_popup_after_query(len: usize) -> PopupOutcome {
    PopupOutcome { selected: 0, pick: None, visible: len > 0, consumed: false }
}

/// The popup after the query changed to one with `len` matches.
pub fn popup_after_query(len: usize) -> (r: PopupOutcome)
    ensures
        r == spec_popup_after_query(len),
{
    PopupOutcome { selected: 0, pick: None, visible: len > 0, consumed: false }
}

/// After a new query, an open popup has a listed entry selected, and every
/// key keeps it so while the popup stays open.
pub proof fn law_new_query_selects_a_listed_entry(len: usize, key: PopupKey)
    ensures
        spec_popup_after_query(len).visible ==> spec_popup_after_query(len).selected < len,
        spec_popup_after_query(len).visible ==> ({
            let o = spec_popup_key(key, true, spec_popup_after_query(len).selected, len);
            o.visible ==> o.selected < len
        }),
{
    if len > 0 {
        law_selection_stays_listed(0, len as int);
    }
}

} // verus!

verus! {

// ---------------------------------------------------------------------------
// What the ordering keeps
// ---------------------------------------------------------------------------

/// No name comes before itself.
pub proof fn lemma_lex_irrefl(a: Seq<char>)
    ensures
        !lex_lt(a, a),
    decreases a.len(),
{
    if a.len() > 0 {
        lemma_lex_irrefl(a.drop_first());
    }
}

/// The order of names is transitive.
pub proof fn lemma_lex_trans(a: Seq<char>, b: Seq<char>, c: Seq<char>)
    requires
        lex_lt(a, b),
        lex_lt(b, c),
    ensures
        lex_lt(a, c),
    decreases a.len(),
{
    if a.len() > 0 && b.len() > 0 && c.len() > 0 && a[0] == b[0] && b[0] == c[0] {
        lemma_lex_trans(a.drop_first(), b.drop_first(), c.drop_first());
    }
}

/// Of two different names, one comes first.
pub proof fn lemma_lex_total(a: Seq<char>, b: Seq<char>)
    ensures
        lex_lt(a, b) || lex_lt(b, a) || a == b,
    decreases a.len(),
{
    if a.len() > 0 && b.len() > 0 {
        if a[0] == b[0] {
            lemma_lex_total(a.drop_first(), b.drop_first());
            if a.drop_first() == b.drop_first() {
                assert(a =~= seq![a[0]] + a.drop_first());
                assert(b =~= seq![b[0]] + b.drop_first());
            }
        } else {
            let (ua, ub) = (a[0] as u32, b[0] as u32);
            vstd::utf8::char_u32_cast(a[0], ua);
            vstd::utf8::char_u32_cast(b[0], ub);
            assert(ua != ub);
        }
    } else if a.len() == 0 && b.len() == 0 {
        assert(a =~= b);
    }
}

/// No name in `s` comes before the name of an entry listed earlier.
pub open spec fn sorted_by_name(s: Seq<ListedV>) -> bool {
    forall|i: int, j: int| 0 <= i < j < s.len() ==> !lex_lt(#[trigger] s[j].0, #[trigger] s[i].0)
}

proof fn lemma_insert_sorted(s: Seq<ListedV>, x: ListedV)
    requires
        sorted_by_name(s),
    ensures
        sorted_by_name(insert_sorted(s, x)),
        insert_sorted(s, x).to_multiset() == s.to_multiset().insert(x),
    decreases s.len(),
{
    broadcast use vstd::seq_lib::group_to_multiset_ensures;
    if s.len() == 0 {
        assert(seq![x] =~= Seq::<ListedV>::empty().push(x));
    } else {
        let d = s.drop_last();
        let last = s.last();
        assert(s =~= d.push(last));
        if lex_lt(x.0, last.0) {
            assert(sorted_by_name(d)) by {
                assert forall|i: int, j: int| 0 <= i < j < d.len() implies !lex_lt(#[trigger] d[j].0, #[trigger] d[i].0) by {
                    assert(d[i] == s[i] && d[j] == s[j]);
                }
            }
            lemma_insert_sorted(d, x);
            let m = insert_sorted(d, x);
            let r = m.push(last);
            assert forall|k: int| 0 <= k < m.len() implies !lex_lt(last.0, #[trigger] m[k].0) by {
                assert(m.to_multiset().count(m[k]) > 0);
                if m[k] != x {
                    assert(d.to_multiset().count(m[k]) > 0);
                    assert(d.contains(m[k]));
                    let i = choose|i: int| 0 <= i < d.len() && d[i] == m[k];
                    assert(s[i] == d[i]);
                    assert(!lex_lt(s[s.len() - 1].0, s[i].0));
                } else {
                    if lex_lt(last.0, x.0) {
                        lemma_lex_trans(x.0, last.0, x.0);
                        lemma_lex_irrefl(x.0);
                    }
                }
            }
            assert forall|i: int, j: int| 0 <= i < j < r.len() implies !lex_lt(#[trigger] r[j].0, #[trigger] r[i].0) by {
                if j == r.len() - 1 {
                    assert(r[j] == last);
                    assert(r[i] == m[i]);
                } else {
                    assert(r[i] == m[i] && r[j] == m[j]);
                }
            }
        } else {
            let r = s.push(x);
            assert forall|i: int, j: int| 0 <= i < j < r.len() implies !lex_lt(#[trigger] r[j].0, #[trigger] r[i].0) by {
                if j == r.len() - 1 {
                    assert(r[j] == x);
                    assert(r[i] == s[i]);
                    if lex_lt(x.0, s[i].0) {
                        lemma_lex_total(x.0, last.0);
                        if i < s.len() - 1 {
                            assert(!lex_lt(s[s.len() - 1].0, s[i].0));
                            if lex_lt(last.0, x.0) {
                                lemma_lex_trans(last.0, x.0, s[i].0);
                            }
                        } else {
                            lemma_lex_irrefl(x.0);
                        }
                    }
                } else {
                    assert(r[i] == s[i] && r[j] == s[j]);
                }
            }
        }
    }
}

/// Ordering by name gives a list ordered by name, holding exactly the
/// entries it was given.
pub proof fn law_sort_orders_and_keeps(s: Seq<ListedV>)
    ensures
        sorted_by_name(spec_sort(s)),
        spec_sort(s).to_multiset() == s.to_multiset(),
    decreases s.len(),
{
    broadcast use vstd::seq_lib::group_to_multiset_ensures;
    if s.len() > 0 {
        law_sort_orders_and_keeps(s.drop_last());
        lemma_insert_sorted(spec_sort(s.drop_last()), s.last());
        assert(s =~= s.drop_last().push(s.last()));
    }
}

/// Whether an entry is listed under the name `k`.
pub open spec fn named(k: Seq<char>) -> spec_fn(ListedV) -> bool {
    |e: ListedV| e.0 == k
}

proof fn lemma_insert_keeps_namesakes(s: Seq<ListedV>, x: ListedV, k: Seq<char>)
    ensures
        insert_sorted(s, x).filter(named(k)) == (if x.0 == k {
            s.filter(named(k)).push(x)
        } else {
            s.filter(named(k))
        }),
    decreases s.len(),
{
    broadcast use Seq::lemma_filter_push;
    if s.len() == 0 {
        assert(Seq::<ListedV>::empty().filter(named(k)) =~= Seq::<ListedV>::empty()) by {
            reveal(Seq::filter);
        }
        assert(seq![x] =~= Seq::<ListedV>::empty().push(x));
        assert(s =~= Seq::<ListedV>::empty());
    } else {
        let d = s.drop_last();
        let last = s.last();
        assert(s =~= d.push(last));
        if lex_lt(x.0, last.0) {
            lemma_insert_keeps_namesakes(d, x, k);
            if x.0 == k && last.0 == k {
                lemma_lex_irrefl(k);
            }
        }
    }
}

/// Ordering by name keeps entries listed under the same name in the order
/// they came in.
pub proof fn law_sort_is_stable(s: Seq<ListedV>, k: Seq<char>)
    ensures
        spec_sort(s).filter(named(k)) == s.filter(named(k)),
    decreases s.len(),
{
    broadcast use Seq::lemma_filter_push;
    if s.len() > 0 {
        let d = s.drop_last();
        law_sort_is_stable(d, k);
        lemma_insert_keeps_namesakes(spec_sort(d), s.last(), k);
        assert(s =~= d.push(s.last()));
    }
}

/// The popup lists its entries ordered by name, and lists exactly the
/// candidates that match the query.
pub proof fn law_matches_ordered_and_complete(
    ty: AutocompleteType,
    channel: &ChannelInfo,
    src: &AutocompleteSources,
    dir: &Directory,
    query: Seq<char>,
)
    ensures
        sorted_by_name(spec_matches(ty, channel, src, dir, query)),
        spec_matches(ty, channel, src, dir, query).to_multiset()
            == spec_filter(spec_candidates(ty, channel, src), dir, lowercase(query)).to_multiset(),
{
    law_sort_orders_and_keeps(spec_filter(spec_candidates(ty, channel, src), dir, lowercase(query)));
}

} // verus!

verus! {

// ---------------------------------------------------------------------------
// Which roles the popup offers
// ---------------------------------------------------------------------------

proof fn lemma_filter_contains(s: Seq<EntryV>, dir: &Directory, q: Seq<char>, x: ListedV)
    ensures
        spec_filter(s, dir, q).contains(x) <==> (s.contains(x.1) && spec_entry_label(x.1, dir, q) == Some(x.0)),
    decreases s.len(),
{
    if s.len() > 0 {
        let d = s.drop_last();
        lemma_filter_contains(d, dir, q, x);
        let rest = spec_filter(d, dir, q);
        assert(s =~= d.push(s.last()));
        if d.contains(x.1) {
            let i = choose|i: int| 0 <= i < d.len() && d[i] == x.1;
            assert(s[i] == x.1);
        }
        if s.contains(x.1) {
            let i = choose|i: int| 0 <= i < s.len() && s[i] == x.1;
            if i < s.len() - 1 {
                assert(d[i] == x.1);
            }
        }
        match spec_entry_label(s.last(), dir, q) {
            Some(l) => {
                let r = rest.push((l, s.last()));
                if r.contains(x) {
                    let j = choose|j: int| 0 <= j < r.len() && r[j] == x;
                    if j < rest.len() {
                        assert(rest[j] == x);
                    }
                }
                if rest.contains(x) {
                    let j = choose|j: int| 0 <= j < rest.len() && rest[j] == x;
                    assert(r[j] == x);
                }
                if s.contains(x.1) && spec_entry_label(x.1, dir, q) == Some(x.0) && !d.contains(x.1) {
                    assert(r[r.len() - 1] == x);
                }
            },
            None => {},
        }
    }
}

proof fn lemma_roles_contain(roles: Seq<RoleInfo>, k: int)
    requires
        0 <= k < roles.len(),
    ensures
        roles_to_entries(roles).contains(EntryV::Role(roles[k].id@)),
{
    assert(roles_to_entries(roles)[k] == EntryV::Role(roles[k].id@));
}

/// A role of the server is offered for a role query exactly when its name,
/// lower-cased, starts with the query lower-cased; it is listed under its
/// name as the server spells it.
pub proof fn law_role_offered_by_lowercase_prefix(
    channel: &ChannelInfo,
    src: &AutocompleteSources,
    dir: &Directory,
    query: Seq<char>,
    k: int,
)
    requires
        0 <= k < src.roles@.len(),
        spec_find_role(dir.roles@, src.roles@[k].id@) is Some,
    ensures
        ({
            let id = src.roles@[k].id@;
            let name = dir.roles@[spec_find_role(dir.roles@, id)->0].name@;
            let listed = spec_matches(AutocompleteType::Role, channel, src, dir, query);
            &&& has_prefix(lowercase(name), lowercase(query)) ==> listed.contains((name, EntryV::Role(id)))
            &&& forall|l: Seq<char>| #[trigger] listed.contains((l, EntryV::Role(id)))
                ==> l == name && has_prefix(lowercase(name), lowercase(query))
        }),
{
    broadcast use vstd::seq_lib::group_to_multiset_ensures;
    let id = src.roles@[k].id@;
    let name = dir.roles@[spec_find_role(dir.roles@, id)->0].name@;
    let cands = spec_candidates(AutocompleteType::Role, channel, src);
    let q = lowercase(query);
    let filtered = spec_filter(cands, dir, q);
    let listed = spec_matches(AutocompleteType::Role, channel, src, dir, query);
    law_sort_orders_and_keeps(filtered);
    assert(listed == spec_sort(filtered));
    lemma_roles_contain(src.roles@, k);
    let re = roles_to_entries(src.roles@);
    assert(cands.contains(EntryV::Role(id))) by {
        if src.can_mention_everyone {
            let j = choose|j: int| 0 <= j < re.len() && re[j] == EntryV::Role(id);
            assert(cands[j] == re[j]);
        }
    }
    if has_prefix(lowercase(name), q) {
        lemma_filter_contains(cands, dir, q, (name, EntryV::Role(id)));
        assert(filtered.to_multiset().count((name, EntryV::Role(id))) > 0);
        assert(listed.to_multiset().count((name, EntryV::Role(id))) > 0);
    }
    assert forall|l: Seq<char>| #[trigger] listed.contains((l, EntryV::Role(id))) implies l == name && has_prefix(
        lowercase(name),
        q,
    ) by {
        assert(listed.to_multiset().count((l, EntryV::Role(id))) > 0);
        assert(filtered.to_multiset().count((l, EntryV::Role(id))) > 0);
        lemma_filter_contains(cands, dir, q, (l, EntryV::Role(id)));
    }
}

} // verus!
