//! The chat data the views read, as plain values: users, server members
//! and channels, with the names shown for them.

use vstd::prelude::*;
use crate::text::{str_eq, concat, string_of, chars_of};

verus! {

/// How the signed-in user stands with another user.
#[derive(Debug, PartialEq, Eq, Clone, Copy, Structural)]
pub enum Relationship {
    Unrelated,
    User,
    Friend,
    Outgoing,
    Incoming,
    Blocked,
    BlockedOther,
}

/// A user as the views know it.
#[derive(Debug, PartialEq)]
pub struct UserInfo {
    pub id: String,
    pub username: String,
    pub display_name: Option<String>,
    pub relationship: Relationship,
    pub online: bool,
    pub bot: bool,
}

/// A user's membership of a server.
#[derive(Debug, PartialEq)]
pub struct MemberInfo {
    pub server: String,
    pub user: String,
    pub nickname: Option<String>,
}

/// A channel: the user's own notes, a direct message, a group, or a
/// server's text channel.
#[derive(Debug, PartialEq)]
pub enum ChannelInfo {
    SavedMessages { id: String, user: String },
    DirectMessage { id: String, active: bool, recipients: Vec<String>, last_message_id: Option<String> },
    Group {
        id: String,
        name: String,
        owner: String,
        description: Option<String>,
        recipients: Vec<String>,
        last_message_id: Option<String>,
    },
    TextChannel {
        id: String,
        server: String,
        name: String,
        description: Option<String>,
        last_message_id: Option<String>,
    },
}

/// The view of an optional string.
pub open spec fn opt_view(s: Option<String>) -> Option<Seq<char>> {
    match s {
        Some(v) => Some(v@),
        None => None,
    }
}

/// The name shown for a user: the server nickname, else the display name,
/// else the username.
pub open spec fn spec_display_name(user: &UserInfo, member: Option<&MemberInfo>) -> Seq<char> {
    if member is Some && member->0.nickname is Some {
        member->0.nickname->0@
    } else if user.display_name is Some {
        user.display_name->0@
    } else {
        user.username@
    }
}

/// The name shown for `user`, who may be a member of the current server.
pub fn display_name(user: &UserInfo, member: Option<&MemberInfo>) -> (r: String)
    ensures
        r@ == spec_display_name(user, member),
{
    if let Some(m) = member {
        if let Some(n) = &m.nickname {
            return n.clone();
        }
    }
    match &user.display_name {
        Some(d) => d.clone(),
        None => user.username.clone(),
    }
}

/// The position of the first user with id `id`, if any.
pub open spec fn spec_find_user(users: Seq<UserInfo>, id: Seq<char>) -> Option<int> {
    if exists|k: int| 0 <= k < users.len() && users[k].id@ == id {
        Some(choose|k: int| 0 <= k < users.len() && users[k].id@ == id && forall|j: int| 0 <= j < k ==> users[j].id@ != id)
    } else {
        None
    }
}

proof fn lemma_find_user(users: Seq<UserInfo>, id: Seq<char>, k: int)
    requires
        0 <= k < users.len(),
        users[k].id@ == id,
        forall|j: int| 0 <= j < k ==> users[j].id@ != id,
    ensures
        spec_find_user(users, id) == Some(k),
{
    assert(exists|k: int| 0 <= k < users.len() && users[k].id@ == id);
    let c = choose|c: int| 0 <= c < users.len() && users[c].id@ == id && forall|j: int| 0 <= j < c ==> users[j].id@ != id;
    assert(0 <= k < users.len() && users[k].id@ == id && forall|j: int| 0 <= j < k ==> users[j].id@ != id);
    if c < k {
        assert(users[c].id@ != id);
    } else if c > k {
        assert(users[k].id@ != id);
    }
}

/// The position of the first user with id `id` in `users`, if any.
pub fn find_user(users: &[UserInfo], id: &str) -> (r: Option<usize>)
    ensures
        r is Some <==> spec_find_user(users@, id@) is Some,
        r is Some ==> spec_find_user(users@, id@) == Some(r->0 as int),
        r is Some ==> r->0 < users@.len() && users@[r->0 as int].id@ == id@,
{
    let mut i: usize = 0;
    while i < users.len()
        invariant
            i <= users.len(),
            forall|j: int| 0 <= j < i ==> users@[j].id@ != id@,
        decreases users.len() - i,
    {
        if str_eq(users[i].id.as_str(), id) {
            proof {
                lemma_find_user(users@, id@, i as int);
            }
            return Some(i);
        }
        i = i + 1;
    }
    None
}

/// The first recipient other than `me`, if any.
pub open spec fn spec_other_recipient(recipients: Seq<String>, me: Seq<char>) -> Option<int> {
    if exists|k: int| 0 <= k < recipients.len() && recipients[k]@ != me {
        Some(choose|k: int| 0 <= k < recipients.len() && recipients[k]@ != me && forall|j: int| 0 <= j < k ==> recipients[j]@ == me)
    } else {
        None
    }
}

/// The position of the first recipient other than `me`, if any.
pub fn other_recipient(recipients: &Vec<String>, me: &str) -> (r: Option<usize>)
    ensures
        r is Some <==> spec_other_recipient(recipients@, me@) is Some,
        r is Some ==> spec_other_recipient(recipients@, me@) == Some(r->0 as int),
        r is Some ==> r->0 < recipients@.len() && recipients@[r->0 as int]@ != me@,
{
    let mut i: usize = 0;
    while i < recipients.len()
        invariant
            i <= recipients.len(),
            forall|j: int| 0 <= j < i ==> recipients@[j]@ == me@,
        decreases recipients.len() - i,
    {
        if !str_eq(recipients[i].as_str(), me) {
            proof {
                let s = recipients@;
                let k = i as int;
                assert(exists|k: int| 0 <= k < s.len() && s[k]@ != me@);
                let c = choose|c: int| 0 <= c < s.len() && s[c]@ != me@ && forall|j: int| 0 <= j < c ==> s[j]@ == me@;
                assert(0 <= k < s.len() && s[k]@ != me@ && forall|j: int| 0 <= j < k ==> s[j]@ == me@);
                if c < k {
                    assert(s[c]@ == me@);
                } else if c > k {
                    assert(s[k]@ == me@);
                }
            }
            return Some(i);
        }
        i = i + 1;
    }
    None
}

impl ChannelInfo {
    /// The channel's id.
    pub open spec fn spec_id(&self) -> Seq<char> {
        match self {
            ChannelInfo::SavedMessages { id, .. } => id@,
            ChannelInfo::DirectMessage { id, .. } => id@,
            ChannelInfo::Group { id, .. } => id@,
            ChannelInfo::TextChannel { id, .. } => id@,
        }
    }

    /// The channel's id.
    pub fn id(&self) -> (r: String)
        ensures
            r@ == self.spec_id(),
    {
        match self {
            ChannelInfo::SavedMessages { id, .. } => id.clone(),
            ChannelInfo::DirectMessage { id, .. } => id.clone(),
            ChannelInfo::Group { id, .. } => id.clone(),
            ChannelInfo::TextChannel { id, .. } => id.clone(),
        }
    }

    /// Whether the channel belongs to a server.
    pub fn is_server(&self) -> (r: bool)
        ensures
            r == (self is TextChannel),
    {
        match self {
            ChannelInfo::TextChannel { .. } => true,
            _ => false,
        }
    }

    /// The channel's own name: groups and text channels have one.
    pub open spec fn spec_name(&self) -> Option<Seq<char>> {
        match self {
            ChannelInfo::Group { name, .. } => Some(name@),
            ChannelInfo::TextChannel { name, .. } => Some(name@),
            _ => None,
        }
    }

    /// The channel's own name: groups and text channels have one.
    pub fn name(&self) -> (r: Option<String>)
        ensures
            opt_view(r) == self.spec_name(),
    {
        match self {
            ChannelInfo::Group { name, .. } => Some(name.clone()),
            ChannelInfo::TextChannel { name, .. } => Some(name.clone()),
            _ => None,
        }
    }

    /// The description shown under the title: that of a group or text
    /// channel, when it is not empty.
    pub open spec fn spec_description(&self) -> Option<Seq<char>> {
        match self {
            ChannelInfo::Group { description, .. } => match description {
                Some(d) => if d@.len() > 0 { Some(d@) } else { None },
                None => None,
            },
            ChannelInfo::TextChannel { description, .. } => match description {
                Some(d) => if d@.len() > 0 { Some(d@) } else { None },
                None => None,
            },
            _ => None,
        }
    }

    /// The description shown under the channel's title, if any.
    pub fn description(&self) -> (r: Option<String>)
        ensures
            opt_view(r) == self.spec_description(),
    {
        let d = match self {
            ChannelInfo::Group { description, .. } => description,
            ChannelInfo::TextChannel { description, .. } => description,
            _ => {
                return None;
            },
        };
        match d {
            Some(s) => if s.as_str().is_empty() {
                None
            } else {
                Some(s.clone())
            },
            None => None,
        }
    }

    /// The channel can be given a title: a direct message has a recipient
    /// other than `me`, and that user is known.
    pub open spec fn titled(&self, me: Seq<char>, users: Seq<UserInfo>) -> bool {
        match self {
            ChannelInfo::DirectMessage { recipients, .. } => {
                &&& spec_other_recipient(recipients@, me) is Some
                &&& spec_find_user(users, recipients@[spec_other_recipient(recipients@, me)->0]@) is Some
            },
            _ => true,
        }
    }

    /// The title of the channel: the other user's username in a direct
    /// message, the name of a group or text channel, `Saved Messages` for
    /// the user's own notes.
    pub open spec fn spec_title(&self, me: Seq<char>, users: Seq<UserInfo>) -> Seq<char> {
        match self {
            ChannelInfo::DirectMessage { recipients, .. } => {
                let other = recipients@[spec_other_recipient(recipients@, me)->0]@;
                users[spec_find_user(users, other)->0].username@
            },
            ChannelInfo::Group { name, .. } => name@,
            ChannelInfo::TextChannel { name, .. } => name@,
            ChannelInfo::SavedMessages { .. } => seq!['S', 'a', 'v', 'e', 'd', ' ', 'M', 'e', 's', 's', 'a', 'g', 'e', 's'],
        }
    }

    /// The title of the channel, for the signed-in user `me`.
    pub fn title(&self, me: &str, users: &[UserInfo]) -> (r: String)
        requires
            self.titled(me@, users@),
        ensures
            r@ == self.spec_title(me@, users@),
    {
        match self {
            ChannelInfo::DirectMessage { recipients, .. } => {
                let k = other_recipient(recipients, me).unwrap();
                let u = find_user(users, recipients[k].as_str()).unwrap();
                users[u].username.clone()
            },
            ChannelInfo::Group { name, .. } => name.clone(),
            ChannelInfo::TextChannel { name, .. } => name.clone(),
            ChannelInfo::SavedMessages { .. } => {
                let s = "Saved Messages";
                proof {
                    reveal_strlit("Saved Messages");
                }
                string_of(chars_of(s).as_slice())
            },
        }
    }

    /// The placeholder of the empty message box: `Message` and the title.
    pub fn placeholder(&self, me: &str, users: &[UserInfo]) -> (r: String)
        requires
            self.titled(me@, users@),
        ensures
            r@ == seq!['M', 'e', 's', 's', 'a', 'g', 'e', ' '] + self.spec_title(me@, users@),
    {
        let t = self.title(me, users);
        let p = "Message ";
        proof {
            reveal_strlit("Message ");
        }
        concat(p, t.as_str())
    }
}

} // verus!

verus! {

/// The icon in front of a channel's title.
#[derive(Debug, PartialEq, Eq, Clone, Copy, Structural)]
pub enum ChannelIcon {
    AtSign,
    Notebook,
    Hash,
}

impl ChannelInfo {
    /// The icon in front of the channel's title: an at sign for a direct
    /// message, a notebook for the user's own notes, a hash otherwise.
    pub fn header_icon(&self) -> (r: ChannelIcon)
        ensures
            r == (match self {
                ChannelInfo::DirectMessage { .. } => ChannelIcon::AtSign,
                ChannelInfo::SavedMessages { .. } => ChannelIcon::Notebook,
                _ => ChannelIcon::Hash,
            }),
    {
        match self {
            ChannelInfo::DirectMessage { .. } => ChannelIcon::AtSign,
            ChannelInfo::SavedMessages { .. } => ChannelIcon::Notebook,
            _ => ChannelIcon::Hash,
        }
    }
}

/// Whether the member list is shown beside a channel: in a server, unless
/// the user hid it.
pub fn shows_member_list(in_server: bool, hide_members_list: bool) -> (r: bool)
    ensures
        r == (in_server && !hide_members_list),
{
    in_server && !hide_members_list
}

} // verus!

verus! {

/// What the sidebar shows: home, or a server.
#[derive(Debug, PartialEq)]
pub enum Selection {
    Home,
    Server(String),
}

/// Where following a mention leads: the channel to open, the message to
/// jump to, and what the sidebar shows.
#[derive(Debug, PartialEq)]
pub struct Navigation {
    pub channel: String,
    pub jump_to: Option<String>,
    pub selection: Selection,
}

/// Where following a mention of `channel` (and of message `jump_to` in it)
/// leads: nowhere for an unknown channel; otherwise that channel, with its
/// server selected, or home outside servers.
pub open spec fn spec_navigate(channel: Option<&ChannelInfo>, jump_to: Option<Seq<char>>) -> Option<(Seq<char>, Option<Seq<char>>, Option<Seq<char>>)> {
    match channel {
        Some(c) => Some((
            c.spec_id(),
            jump_to,
            match c {
                ChannelInfo::TextChannel { server, .. } => Some(server@),
                _ => None,
            },
        )),
        None => None,
    }
}

/// Where following a mention leads.
pub fn navigate(channel: Option<&ChannelInfo>, jump_to: Option<String>) -> (r: Option<Navigation>)
    ensures
        match r {
            Some(n) => spec_navigate(channel, opt_view(jump_to)) == Some((
                n.channel@,
                opt_view(n.jump_to),
                match n.selection {
                    Selection::Server(s) => Some(s@),
                    Selection::Home => None,
                },
            )),
            None => spec_navigate(channel, opt_view(jump_to)) is None,
        },
{
    match channel {
        Some(c) => {
            let selection = match c {
                ChannelInfo::TextChannel { server, .. } => Selection::Server(server.clone()),
                _ => Selection::Home,
            };
            Some(Navigation { channel: c.id(), jump_to, selection })
        },
        None => None,
    }
}

} // verus!
