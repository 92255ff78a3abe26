//! What a message shows besides its content: the line of a system
//! message, the names of mentions, the mention switch of a reply, and the
//! tabs of the emoji and GIF picker.

use vstd::prelude::*;
use crate::model::{ChannelInfo, MemberInfo, UserInfo};
use crate::text::{chars_of, string_of};

verus! {

/// An event the server reports as a message.
#[derive(Debug, PartialEq)]
pub enum SystemMessage {
    Text { content: String },
    UserAdded { id: String, by: String },
    UserRemove { id: String, by: String },
    UserJoined { id: String },
    UserLeft { id: String },
    UserKicked { id: String },
    UserBanned { id: String },
    ChannelRenamed { name: String, by: String },
    ChannelDescriptionChanged { by: String },
    ChannelIconChanged { by: String },
    ChannelOwnershipChanged { from: String, to: String },
    MessagePinned { id: String, by: String },
    MessageUnpinned { id: String, by: String },
    CallStarted { by: String, finished: bool },
}

/// The icon beside a system message.
#[derive(Debug, PartialEq, Eq, Clone, Copy, Structural)]
pub enum SystemIcon {
    Info,
    Add,
    Clear,
    ArrowForward,
    ArrowBack,
    Cancel,
    LocalPolice,
    LocalOffer,
    FormatAlignLeft,
    Image,
    Key,
    PushPin,
    VolumeUp,
}

/// Whether a system message's icon is drawn in the primary or the error
/// colour.
#[derive(Debug, PartialEq, Eq, Clone, Copy, Structural)]
pub enum Tone {
    Primary,
    Error,
}

/// The icon and colour of a system message: users removed, leaving,
/// kicked or banned are shown in the error colour.
pub open spec fn spec_system_icon(m: &SystemMessage) -> (SystemIcon, Tone) {
    match m {
        SystemMessage::Text { .. } => (SystemIcon::Info, Tone::Primary),
        SystemMessage::UserAdded { .. } => (SystemIcon::Add, Tone::Primary),
        SystemMessage::UserRemove { .. } => (SystemIcon::Clear, Tone::Error),
        SystemMessage::UserJoined { .. } => (SystemIcon::ArrowForward, Tone::Primary),
        SystemMessage::UserLeft { .. } => (SystemIcon::ArrowBack, Tone::Error),
        SystemMessage::UserKicked { .. } => (SystemIcon::Cancel, Tone::Error),
        SystemMessage::UserBanned { .. } => (SystemIcon::LocalPolice, Tone::Error),
        SystemMessage::ChannelRenamed { .. } => (SystemIcon::LocalOffer, Tone::Primary),
        SystemMessage::ChannelDescriptionChanged { .. } => (SystemIcon::FormatAlignLeft, Tone::Primary),
        SystemMessage::ChannelIconChanged { .. } => (SystemIcon::Image, Tone::Primary),
        SystemMessage::ChannelOwnershipChanged { .. } => (SystemIcon::Key, Tone::Primary),
        SystemMessage::MessagePinned { .. } => (SystemIcon::PushPin, Tone::Primary),
        SystemMessage::MessageUnpinned { .. } => (SystemIcon::PushPin, Tone::Primary),
        SystemMessage::CallStarted { .. } => (SystemIcon::VolumeUp, Tone::Primary),
    }
}

/// The icon and colour of a system message.
pub fn system_icon(m: &SystemMessage) -> (r: (SystemIcon, Tone))
    ensures
        r == spec_system_icon(m),
{
    match m {
        SystemMessage::Text { .. } => (SystemIcon::Info, Tone::Primary),
        SystemMessage::UserAdded { .. } => (SystemIcon::Add, Tone::Primary),
        SystemMessage::UserRemove { .. } => (SystemIcon::Clear, Tone::Error),
        SystemMessage::UserJoined { .. } => (SystemIcon::ArrowForward, Tone::Primary),
        SystemMessage::UserLeft { .. } => (SystemIcon::ArrowBack, Tone::Error),
        SystemMessage::UserKicked { .. } => (SystemIcon::Cancel, Tone::Error),
        SystemMessage::UserBanned { .. } => (SystemIcon::LocalPolice, Tone::Error),
        SystemMessage::ChannelRenamed { .. } => (SystemIcon::LocalOffer, Tone::Primary),
        SystemMessage::ChannelDescriptionChanged { .. } => (SystemIcon::FormatAlignLeft, Tone::Primary),
        SystemMessage::ChannelIconChanged { .. } => (SystemIcon::Image, Tone::Primary),
        SystemMessage::ChannelOwnershipChanged { .. } => (SystemIcon::Key, Tone::Primary),
        SystemMessage::MessagePinned { .. } => (SystemIcon::PushPin, Tone::Primary),
        SystemMessage::MessageUnpinned { .. } => (SystemIcon::PushPin, Tone::Primary),
        SystemMessage::CallStarted { .. } => (SystemIcon::VolumeUp, Tone::Primary),
    }
}

/// A piece of a system message's line.
#[derive(Debug, PartialEq)]
pub enum SystemPart {
    /// A mention of the user with this id.
    User(String),
    Text(String),
    /// Text in bold.
    Bold(String),
}

/// A piece as plain values.
pub enum SystemPartV {
    User(Seq<char>),
    Text(Seq<char>),
    Bold(Seq<char>),
}

impl View for SystemPart {
    type V = SystemPartV;

    open spec fn view(&self) -> SystemPartV {
        match self {
            SystemPart::User(id) => SystemPartV::User(id@),
            SystemPart::Text(t) => SystemPartV::Text(t@),
            SystemPart::Bold(t) => SystemPartV::Bold(t@),
        }
    }
}

pub open spec fn parts_view(s: Seq<SystemPart>) -> Seq<SystemPartV> {
    s.map_values(|p: SystemPart| p@)
}

/// The line of a system message: the users involved as mentions, joined by
/// the words that say what happened.
pub open spec fn spec_system_parts(m: &SystemMessage) -> Seq<SystemPartV> {
    match m {
        SystemMessage::Text { content } => seq![SystemPartV::Text(content@)],
        SystemMessage::UserAdded { id, by } => seq![
            SystemPartV::User(id@),
            SystemPartV::Text(" has been added by "@),
            SystemPartV::User(by@),
        ],
        SystemMessage::UserRemove { id, by } => seq![
            SystemPartV::User(id@),
            SystemPartV::Text(" has been removed by "@),
            SystemPartV::User(by@),
        ],
        SystemMessage::UserJoined { id } => seq![SystemPartV::User(id@), SystemPartV::Text(" joined the server"@)],
        SystemMessage::UserLeft { id } => seq![SystemPartV::User(id@), SystemPartV::Text(" left the server"@)],
        SystemMessage::UserKicked { id } => seq![SystemPartV::User(id@), SystemPartV::Text(" has been kicked from the server"@)],
        SystemMessage::UserBanned { id } => seq![SystemPartV::User(id@), SystemPartV::Text(" has been banned from the server"@)],
        SystemMessage::ChannelRenamed { name, by } => seq![
            SystemPartV::User(by@),
            SystemPartV::Text(" updated the group name to "@),
            SystemPartV::Bold(name@),
        ],
        SystemMessage::ChannelDescriptionChanged { by } => seq![SystemPartV::User(by@), SystemPartV::Text(" updated the group description"@)],
        SystemMessage::ChannelIconChanged { by } => seq![SystemPartV::User(by@), SystemPartV::Text(" updated the group icon"@)],
        SystemMessage::ChannelOwnershipChanged { from, to } => seq![
            SystemPartV::User(from@),
            SystemPartV::Text(" transferred group ownership to "@),
            SystemPartV::User(to@),
        ],
        SystemMessage::MessagePinned { by, .. } => seq![SystemPartV::User(by@), SystemPartV::Text(" pinned <TODO>"@)],
        SystemMessage::MessageUnpinned { by, .. } => seq![SystemPartV::User(by@), SystemPartV::Text(" unpinned <TODO>"@)],
        SystemMessage::CallStarted { by, finished } => if *finished {
            seq![SystemPartV::User(by@), SystemPartV::Text(" started a call that lasted "@), SystemPartV::Text("<TODO>"@)]
        } else {
            seq![SystemPartV::User(by@), SystemPartV::Text(" started a call"@)]
        },
    }
}

fn text_part(s: &str) -> (r: SystemPart)
    ensures
        r@ == SystemPartV::Text(s@),
{
    SystemPart::Text(string_of(chars_of(s).as_slice()))
}

fn user_part(id: &String) -> (r: SystemPart)
    ensures
        r@ == SystemPartV::User(id@),
{
    SystemPart::User(id.clone())
}

/// The line of a system message, piece by piece.
pub fn system_parts(m: &SystemMessage) -> (r: Vec<SystemPart>)
    ensures
        parts_view(r@) == spec_system_parts(m),
{
    proof {
        reveal_strlit(" has been added by ");
        reveal_strlit(" has been removed by ");
        reveal_strlit(" joined the server");
        reveal_strlit(" left the server");
        reveal_strlit(" has been kicked from the server");
        reveal_strlit(" has been banned from the server");
        reveal_strlit(" updated the group name to ");
        reveal_strlit(" updated the group description");
        reveal_strlit(" updated the group icon");
        reveal_strlit(" transferred group ownership to ");
        reveal_strlit(" pinned <TODO>");
        reveal_strlit(" unpinned <TODO>");
        reveal_strlit(" started a call that lasted ");
        reveal_strlit("<TODO>");
        reveal_strlit(" started a call");
    }
    let v = match m {
        SystemMessage::Text { content } => vec![SystemPart::Text(content.clone())],
        SystemMessage::UserAdded { id, by } => vec![user_part(id), text_part(" has been added by "), user_part(by)],
        SystemMessage::UserRemove { id, by } => vec![user_part(id), text_part(" has been removed by "), user_part(by)],
        SystemMessage::UserJoined { id } => vec![user_part(id), text_part(" joined the server")],
        SystemMessage::UserLeft { id } => vec![user_part(id), text_part(" left the server")],
        SystemMessage::UserKicked { id } => vec![user_part(id), text_part(" has been kicked from the server")],
        SystemMessage::UserBanned { id } => vec![user_part(id), text_part(" has been banned from the server")],
        SystemMessage::ChannelRenamed { name, by } => vec![
            user_part(by),
            text_part(" updated the group name to "),
            SystemPart::Bold(name.clone()),
        ],
        SystemMessage::ChannelDescriptionChanged { by } => vec![user_part(by), text_part(" updated the group description")],
        SystemMessage::ChannelIconChanged { by } => vec![user_part(by), text_part(" updated the group icon")],
        SystemMessage::ChannelOwnershipChanged { from, to } => vec![
            user_part(from),
            text_part(" transferred group ownership to "),
            user_part(to),
        ],
        SystemMessage::MessagePinned { by, .. } => vec![user_part(by), text_part(" pinned <TODO>")],
        SystemMessage::MessageUnpinned { by, .. } => vec![user_part(by), text_part(" unpinned <TODO>")],
        SystemMessage::CallStarted { by, finished } => if *finished {
            vec![user_part(by), text_part(" started a call that lasted "), text_part("<TODO>")]
        } else {
            vec![user_part(by), text_part(" started a call")]
        },
    };
    proof {
        assert(parts_view(v@) =~= spec_system_parts(m));
    }
    v
}

/// The name shown in a user mention: the member's nickname, else the
/// user's display name or username, else `Unknown User`.
pub open spec fn spec_mention_name(user: Option<&UserInfo>, member: Option<&MemberInfo>) -> Seq<char> {
    if member is Some && member->0.nickname is Some {
        member->0.nickname->0@
    } else {
        match user {
            Some(u) => match u.display_name {
                Some(d) => d@,
                None => u.username@,
            },
            None => "Unknown User"@,
        }
    }
}

/// The name shown in a mention of a user who may be unknown.
pub fn mention_name(user: Option<&UserInfo>, member: Option<&MemberInfo>) -> (r: String)
    ensures
        r@ == spec_mention_name(user, member),
{
    if let Some(m) = member {
        if let Some(n) = &m.nickname {
            return n.clone();
        }
    }
    match user {
        Some(u) => match &u.display_name {
            Some(d) => d.clone(),
            None => u.username.clone(),
        },
        None => {
            proof {
                reveal_strlit("Unknown User");
            }
            string_of(chars_of("Unknown User").as_slice())
        },
    }
}

/// The name shown in a channel mention: the channel's name, `<TODO>` for
/// a channel without one, `Unknown Channel` for an unknown channel.
pub open spec fn spec_channel_mention_name(channel: Option<&ChannelInfo>) -> Seq<char> {
    match channel {
        Some(c) => match c.spec_name() {
            Some(n) => n,
            None => "<TODO>"@,
        },
        None => "Unknown Channel"@,
    }
}

/// The name shown in a mention of a channel that may be unknown.
pub fn channel_mention_name(channel: Option<&ChannelInfo>) -> (r: String)
    ensures
        r@ == spec_channel_mention_name(channel),
{
    match channel {
        Some(c) => match c.name() {
            Some(n) => n,
            None => {
                proof {
                    reveal_strlit("<TODO>");
                }
                string_of(chars_of("<TODO>").as_slice())
            },
        },
        None => {
            proof {
                reveal_strlit("Unknown Channel");
            }
            string_of(chars_of("Unknown Channel").as_slice())
        },
    }
}

/// The label of a reply's mention switch.
pub fn mention_switch_label(mention: bool) -> (r: String)
    ensures
        r@ == (if mention { "ON"@ } else { "OFF"@ }),
{
    proof {
        reveal_strlit("ON");
        reveal_strlit("OFF");
    }
    if mention {
        string_of(chars_of("ON").as_slice())
    } else {
        string_of(chars_of("OFF").as_slice())
    }
}

/// Whether a message carries attachments: a list of them that is not
/// empty (`attachments` is the length of the list, where there is one).
pub open spec fn spec_has_attachments(attachments: Option<usize>) -> bool {
    attachments matches Some(n) && n > 0
}

/// The text of a reply preview: `Sent an attachment` where the message
/// carries attachments, then the message's text, or nothing where it has
/// none.
pub fn reply_preview_text(attachments: Option<usize>, content: &Option<String>) -> (r: (Option<String>, String))
    ensures
        spec_has_attachments(attachments) ==> (r.0 matches Some(t) && t@ == "Sent an attachment"@),
        !spec_has_attachments(attachments) ==> r.0 is None,
        r.1@ == (match content {
            Some(c) => c@,
            None => Seq::<char>::empty(),
        }),
{
    let note = match attachments {
        Some(n) => if n > 0 {
            Some(String::from_str("Sent an attachment"))
        } else {
            None
        },
        None => None,
    };
    let text = match content {
        Some(c) => c.clone(),
        None => String::new(),
    };
    (note, text)
}

/// The tabs of the picker under the emoji button.
#[derive(Debug, PartialEq, Eq, Clone, Copy, Structural)]
pub enum PickerSelection {
    GIF,
    Emoji,
}

impl PickerSelection {
    /// The label of the tab.
    pub fn label(self) -> (r: String)
        ensures
            r@ == (match self {
                PickerSelection::GIF => "GIFs"@,
                PickerSelection::Emoji => "Emoji"@,
            }),
    {
        proof {
            reveal_strlit("GIFs");
            reveal_strlit("Emoji");
        }
        match self {
            PickerSelection::GIF => string_of(chars_of("GIFs").as_slice()),
            PickerSelection::Emoji => string_of(chars_of("Emoji").as_slice()),
        }
    }
}

} // verus!

verus! {

/// Where the author of a found message is read from.
#[derive(Debug, PartialEq, Eq, Clone, Copy, Structural)]
pub enum AuthorSource {
    /// The user at this position of the users the search returned.
    Listed(usize),
    /// The system user the client knows, id `00000000000000000000000000`.
    System,
}

/// The author of a message found by a search: the first user the search
/// returned with the author's id, else the system user; and the first
/// member record the search returned for the author, if any.
pub fn resolve_author(author: &str, users: &Vec<UserInfo>, members: &Option<Vec<MemberInfo>>) -> (r: (AuthorSource, Option<usize>))
    ensures
        match crate::model::spec_find_user(users@, author@) {
            Some(k) => r.0 == AuthorSource::Listed(k as usize),
            None => r.0 == AuthorSource::System,
        },
        match members {
            Some(m) => match crate::listing::spec_find_member(m@, author@) {
                Some(k) => r.1 == Some(k as usize),
                None => r.1 is None,
            },
            None => r.1 is None,
        },
{
    let source = match crate::model::find_user(users.as_slice(), author) {
        Some(k) => AuthorSource::Listed(k),
        None => AuthorSource::System,
    };
    let member = match members {
        Some(m) => crate::listing::find_member(m, author),
        None => None,
    };
    (source, member)
}

} // verus!
