//! Which entries the context menus and the message hover bar offer, and
//! the links and texts their entries copy or insert.

use vstd::prelude::*;
use crate::model::ChannelInfo;
use crate::text::{concat, push_str, str_eq};

verus! {

/// The channel permissions the menus consult.
#[derive(Debug, PartialEq, Eq, Clone, Copy, Structural)]
pub struct MenuPermissions {
    pub send_message: bool,
    pub react: bool,
    pub manage_messages: bool,
    pub invite_others: bool,
    pub manage_channel: bool,
}

/// An entry of a message's context menu.
#[derive(Debug, PartialEq, Eq, Clone, Copy, Structural)]
pub enum MessageMenuItem {
    Reply,
    Mention,
    CopyText,
    React,
    Edit,
    Pin,
    Unpin,
    Delete,
    CopyLink,
    CopyId,
}

/// A message's context menu: Reply; Mention where there is a message box;
/// Copy text; React with that permission; Edit for the author; Pin or
/// Unpin with the permission to manage messages, by whether it is pinned;
/// Delete for the author or with that permission; Copy Message Link and
/// Copy Message ID.
pub open spec fn spec_message_menu(p: MenuPermissions, is_author: bool, pinned: Option<bool>, has_editor: bool) -> Seq<MessageMenuItem> {
    seq![MessageMenuItem::Reply]
        + (if has_editor { seq![MessageMenuItem::Mention] } else { seq![] })
        + seq![MessageMenuItem::CopyText]
        + (if p.react { seq![MessageMenuItem::React] } else { seq![] })
        + (if is_author { seq![MessageMenuItem::Edit] } else { seq![] })
        + (if p.manage_messages && pinned != Some(true) { seq![MessageMenuItem::Pin] } else { seq![] })
        + (if p.manage_messages && pinned == Some(true) { seq![MessageMenuItem::Unpin] } else { seq![] })
        + (if p.manage_messages || is_author { seq![MessageMenuItem::Delete] } else { seq![] })
        + seq![MessageMenuItem::CopyLink, MessageMenuItem::CopyId]
}

/// The entries of a message's context menu, in order.
pub fn message_menu(p: MenuPermissions, is_author: bool, pinned: Option<bool>, has_editor: bool) -> (r: Vec<MessageMenuItem>)
    ensures
        r@ == spec_message_menu(p, is_author, pinned, has_editor),
{
    let mut v: Vec<MessageMenuItem> = Vec::new();
    v.push(MessageMenuItem::Reply);
    if has_editor {
        v.push(MessageMenuItem::Mention);
    }
    v.push(MessageMenuItem::CopyText);
    if p.react {
        v.push(MessageMenuItem::React);
    }
    if is_author {
        v.push(MessageMenuItem::Edit);
    }
    let is_pinned = match pinned {
        Some(b) => b,
        None => false,
    };
    if p.manage_messages && !is_pinned {
        v.push(MessageMenuItem::Pin);
    }
    if p.manage_messages && is_pinned {
        v.push(MessageMenuItem::Unpin);
    }
    if p.manage_messages || is_author {
        v.push(MessageMenuItem::Delete);
    }
    v.push(MessageMenuItem::CopyLink);
    v.push(MessageMenuItem::CopyId);
    proof {
        assert(v@ =~= spec_message_menu(p, is_author, pinned, has_editor));
    }
    v
}

/// A button of the bar shown over a hovered message.
#[derive(Debug, PartialEq, Eq, Clone, Copy, Structural)]
pub enum MessageAction {
    Reply,
    React,
    Edit,
    Delete,
}

/// The hover bar: Reply with the permission to send, React with the
/// permission to react, Edit for the author, Delete for the author or with
/// the permission to manage messages.
pub open spec fn spec_message_actions(p: MenuPermissions, is_author: bool) -> Seq<MessageAction> {
    (if p.send_message { seq![MessageAction::Reply] } else { seq![] })
        + (if p.react { seq![MessageAction::React] } else { seq![] })
        + (if is_author { seq![MessageAction::Edit] } else { seq![] })
        + (if is_author || p.manage_messages { seq![MessageAction::Delete] } else { seq![] })
}

/// The buttons of the hover bar, in order.
pub fn message_actions(p: MenuPermissions, is_author: bool) -> (r: Vec<MessageAction>)
    ensures
        r@ == spec_message_actions(p, is_author),
{
    let mut v: Vec<MessageAction> = Vec::new();
    if p.send_message {
        v.push(MessageAction::Reply);
    }
    if p.react {
        v.push(MessageAction::React);
    }
    if is_author {
        v.push(MessageAction::Edit);
    }
    if is_author || p.manage_messages {
        v.push(MessageAction::Delete);
    }
    proof {
        assert(v@ =~= spec_message_actions(p, is_author));
    }
    v
}

/// How a delete goes: at once with Shift held, otherwise after a
/// confirmation.
#[derive(Debug, PartialEq, Eq, Clone, Copy, Structural)]
pub enum DeleteMode {
    Immediate,
    Confirm,
}

/// How a delete goes, by whether Shift is held.
pub fn delete_mode(shift: bool) -> (r: DeleteMode)
    ensures
        r == (if shift { DeleteMode::Immediate } else { DeleteMode::Confirm }),
{
    if shift {
        DeleteMode::Immediate
    } else {
        DeleteMode::Confirm
    }
}

/// Whether the signed-in user `me` is among a message's mentions.
pub fn mentions_user(mentions: &Option<Vec<String>>, me: &str) -> (r: bool)
    ensures
        r == (mentions is Some && exists|k: int| 0 <= k < mentions->0@.len() && mentions->0@[k]@ == me@),
{
    match mentions {
        None => false,
        Some(v) => {
            let mut i: usize = 0;
            while i < v.len()
                invariant
                    i <= v.len(),
                    mentions is Some && mentions->0@ == v@,
                    forall|k: int| 0 <= k < i ==> v@[k]@ != me@,
                decreases v.len() - i,
            {
                if str_eq(v[i].as_str(), me) {
                    proof {
                        assert(mentions->0@[i as int]@ == me@);
                    }
                    return true;
                }
                i = i + 1;
            }
            false
        },
    }
}

pub open spec fn channel_url_prefix() -> Seq<char> {
    seq!['h', 't', 't', 'p', 's', ':', '/', '/', 's', 't', 'o', 'a', 't', '.', 'c', 'h', 'a', 't', '/', 'c', 'h', 'a', 'n', 'n', 'e', 'l', '/']
}

/// The link to channel `id`.
pub fn channel_link(id: &str) -> (r: String)
    ensures
        r@ == channel_url_prefix() + id@,
{
    let p = "https://stoat.chat/channel/";
    proof {
        reveal_strlit("https://stoat.chat/channel/");
    }
    concat(p, id)
}

/// The link to message `message` of channel `channel`.
pub fn message_link(channel: &str, message: &str) -> (r: String)
    ensures
        r@ == channel_url_prefix() + channel@ + seq!['/'] + message@,
{
    let mut s = channel_link(channel);
    let slash = "/";
    proof {
        reveal_strlit("/");
    }
    push_str(&mut s, slash);
    push_str(&mut s, message);
    s
}

/// The mention of user `id` that Mention inserts.
pub fn user_mention_text(id: &str) -> (r: String)
    ensures
        r@ == seq!['<', '@'] + id@ + seq!['>'],
{
    let open = "<@";
    let close = ">";
    proof {
        reveal_strlit("<@");
        reveal_strlit(">");
    }
    let mut s = concat(open, id);
    push_str(&mut s, close);
    s
}

/// An entry of a channel's context menu.
#[derive(Debug, PartialEq, Eq, Clone, Copy, Structural)]
pub enum ChannelMenuItem {
    CreateInvite,
    CopyUserId,
    CopyLink,
    CopyChannelId,
    OpenSettings,
    LeaveGroup,
    DeleteChannel,
}

/// A channel's context menu: Create Invite with that permission; for a
/// direct message Copy User ID; for a group or text channel Copy Link,
/// Copy Channel ID and, with the permission to manage it, Open Channel
/// Settings; then Leave Group for a group, or Delete Channel for a text
/// channel one may manage.
pub open spec fn spec_channel_menu(p: MenuPermissions, channel: &ChannelInfo) -> Seq<ChannelMenuItem> {
    let invite = if p.invite_others { seq![ChannelMenuItem::CreateInvite] } else { seq![] };
    let middle = match channel {
        ChannelInfo::DirectMessage { .. } => seq![ChannelMenuItem::CopyUserId],
        _ => seq![ChannelMenuItem::CopyLink, ChannelMenuItem::CopyChannelId]
            + (if p.manage_channel { seq![ChannelMenuItem::OpenSettings] } else { seq![] }),
    };
    let end = match channel {
        ChannelInfo::Group { .. } => seq![ChannelMenuItem::LeaveGroup],
        ChannelInfo::TextChannel { .. } => if p.manage_channel { seq![ChannelMenuItem::DeleteChannel] } else { seq![] },
        _ => seq![],
    };
    invite + middle + end
}

/// The entries of a channel's context menu, in order. The menu is only
/// opened on direct messages, groups and text channels.
pub fn channel_menu(p: MenuPermissions, channel: &ChannelInfo) -> (r: Vec<ChannelMenuItem>)
    requires
        !(channel is SavedMessages),
    ensures
        r@ == spec_channel_menu(p, channel),
{
    let mut v: Vec<ChannelMenuItem> = Vec::new();
    if p.invite_others {
        v.push(ChannelMenuItem::CreateInvite);
    }
    match channel {
        ChannelInfo::DirectMessage { .. } => {
            v.push(ChannelMenuItem::CopyUserId);
        },
        _ => {
            v.push(ChannelMenuItem::CopyLink);
            v.push(ChannelMenuItem::CopyChannelId);
            if p.manage_channel {
                v.push(ChannelMenuItem::OpenSettings);
            }
        },
    }
    match channel {
        ChannelInfo::Group { .. } => {
            v.push(ChannelMenuItem::LeaveGroup);
        },
        ChannelInfo::TextChannel { .. } => {
            if p.manage_channel {
                v.push(ChannelMenuItem::DeleteChannel);
            }
        },
        _ => {},
    }
    proof {
        assert(v@ =~= spec_channel_menu(p, channel));
    }
    v
}

/// An entry of a user's context menu.
#[derive(Debug, PartialEq, Eq, Clone, Copy, Structural)]
pub enum UserMenuItem {
    Message,
    Profile,
    Mention,
    EditRoles,
    CopyUserId,
}

/// A user's context menu: Message for a friend or a bot, Profile, Mention
/// where there is a message box, Edit Roles in a server, Copy User ID.
pub open spec fn spec_user_menu(friend_or_bot: bool, has_editor: bool, in_server: bool) -> Seq<UserMenuItem> {
    (if friend_or_bot { seq![UserMenuItem::Message] } else { seq![] })
        + seq![UserMenuItem::Profile]
        + (if has_editor { seq![UserMenuItem::Mention] } else { seq![] })
        + (if in_server { seq![UserMenuItem::EditRoles] } else { seq![] })
        + seq![UserMenuItem::CopyUserId]
}

/// The entries of a user's context menu, in order.
pub fn user_menu(friend_or_bot: bool, has_editor: bool, in_server: bool) -> (r: Vec<UserMenuItem>)
    ensures
        r@ == spec_user_menu(friend_or_bot, has_editor, in_server),
{
    let mut v: Vec<UserMenuItem> = Vec::new();
    if friend_or_bot {
        v.push(UserMenuItem::Message);
    }
    v.push(UserMenuItem::Profile);
    if has_editor {
        v.push(UserMenuItem::Mention);
    }
    if in_server {
        v.push(UserMenuItem::EditRoles);
    }
    v.push(UserMenuItem::CopyUserId);
    proof {
        assert(v@ =~= spec_user_menu(friend_or_bot, has_editor, in_server));
    }
    v
}

/// An entry of a server's context menu.
#[derive(Debug, PartialEq, Eq, Clone, Copy, Structural)]
pub enum ServerMenuItem {
    OpenSettings,
    Leave,
    CopyServerId,
}

/// A server's context menu: Open Server Settings, Leave Server unless the
/// user owns it, Copy Server ID.
pub open spec fn spec_server_menu(owner: Seq<char>, me: Seq<char>) -> Seq<ServerMenuItem> {
    seq![ServerMenuItem::OpenSettings] + (if owner != me { seq![ServerMenuItem::Leave] } else { seq![] }) + seq![ServerMenuItem::CopyServerId]
}

/// The entries of a server's context menu, in order.
pub fn server_menu(owner: &str, me: &str) -> (r: Vec<ServerMenuItem>)
    ensures
        r@ == spec_server_menu(owner@, me@),
{
    let mut v: Vec<ServerMenuItem> = Vec::new();
    v.push(ServerMenuItem::OpenSettings);
    if !str_eq(owner, me) {
        v.push(ServerMenuItem::Leave);
    }
    v.push(ServerMenuItem::CopyServerId);
    proof {
        assert(v@ =~= spec_server_menu(owner@, me@));
    }
    v
}

/// An entry of a category's context menu.
#[derive(Debug, PartialEq, Eq, Clone, Copy, Structural)]
pub enum CategoryMenuItem {
    Rename,
    Delete,
    CopyCategoryId,
}

/// A category's context menu: Rename and Delete with the permission to
/// manage channels, then Copy Category ID.
pub open spec fn spec_category_menu(manage_channel: bool) -> Seq<CategoryMenuItem> {
    (if manage_channel { seq![CategoryMenuItem::Rename, CategoryMenuItem::Delete] } else { seq![] }) + seq![CategoryMenuItem::CopyCategoryId]
}

/// The entries of a category's context menu, in order.
pub fn category_menu(manage_channel: bool) -> (r: Vec<CategoryMenuItem>)
    ensures
        r@ == spec_category_menu(manage_channel),
{
    let mut v: Vec<CategoryMenuItem> = Vec::new();
    if manage_channel {
        v.push(CategoryMenuItem::Rename);
        v.push(CategoryMenuItem::Delete);
    }
    v.push(CategoryMenuItem::CopyCategoryId);
    proof {
        assert(v@ =~= spec_category_menu(manage_channel));
    }
    v
}

} // verus!

verus! {

proof fn lemma_menu_contains(p: MenuPermissions, is_author: bool, pinned: Option<bool>, has_editor: bool, x: MessageMenuItem)
    ensures
        spec_message_menu(p, is_author, pinned, has_editor).contains(x) <==> match x {
            MessageMenuItem::Mention => has_editor,
            MessageMenuItem::React => p.react,
            MessageMenuItem::Edit => is_author,
            MessageMenuItem::Pin => p.manage_messages && pinned != Some(true),
            MessageMenuItem::Unpin => p.manage_messages && pinned == Some(true),
            MessageMenuItem::Delete => p.manage_messages || is_author,
            _ => true,
        },
{
    let m = spec_message_menu(p, is_author, pinned, has_editor);
    let want = match x {
        MessageMenuItem::Mention => has_editor,
        MessageMenuItem::React => p.react,
        MessageMenuItem::Edit => is_author,
        MessageMenuItem::Pin => p.manage_messages && pinned != Some(true),
        MessageMenuItem::Unpin => p.manage_messages && pinned == Some(true),
        MessageMenuItem::Delete => p.manage_messages || is_author,
        _ => true,
    };
    if m.contains(x) {
        let i = choose|i: int| 0 <= i < m.len() && m[i] == x;
        assert(want);
    }
    if want {
        match x {
            MessageMenuItem::Reply => assert(m[0] == x),
            MessageMenuItem::CopyLink => assert(m[m.len() - 2] == x),
            MessageMenuItem::CopyId => assert(m[m.len() - 1] == x),
            _ => {
                let he = if has_editor { 1int } else { 0int };
                let re = if p.react { 1int } else { 0int };
                let au = if is_author { 1int } else { 0int };
                let pi = if p.manage_messages && pinned != Some(true) { 1int } else { 0int };
                let un = if p.manage_messages && pinned == Some(true) { 1int } else { 0int };
                let i = match x {
                    MessageMenuItem::Mention => 1,
                    MessageMenuItem::CopyText => 1 + he,
                    MessageMenuItem::React => 2 + he,
                    MessageMenuItem::Edit => 2 + he + re,
                    MessageMenuItem::Pin => 2 + he + re + au,
                    MessageMenuItem::Unpin => 2 + he + re + au + pi,
                    _ => 2 + he + re + au + pi + un,
                };
                assert(m[i] == x);
            },
        }
    }
}

/// Delete is offered on a message, in its menu and on its hover bar,
/// exactly to its author and to those who may manage messages; Edit only
/// to its author; Pin and Unpin only to those who may manage messages.
pub proof fn law_delete_needs_author_or_manager(p: MenuPermissions, is_author: bool, pinned: Option<bool>, has_editor: bool)
    ensures
        spec_message_menu(p, is_author, pinned, has_editor).contains(MessageMenuItem::Delete) <==> (p.manage_messages
            || is_author),
        spec_message_actions(p, is_author).contains(MessageAction::Delete) <==> (p.manage_messages || is_author),
        spec_message_menu(p, is_author, pinned, has_editor).contains(MessageMenuItem::Edit) <==> is_author,
        spec_message_actions(p, is_author).contains(MessageAction::Edit) <==> is_author,
        spec_message_menu(p, is_author, pinned, has_editor).contains(MessageMenuItem::Pin) ==> p.manage_messages,
        spec_message_menu(p, is_author, pinned, has_editor).contains(MessageMenuItem::Unpin) ==> p.manage_messages,
{
    lemma_menu_contains(p, is_author, pinned, has_editor, MessageMenuItem::Delete);
    lemma_menu_contains(p, is_author, pinned, has_editor, MessageMenuItem::Edit);
    lemma_menu_contains(p, is_author, pinned, has_editor, MessageMenuItem::Pin);
    lemma_menu_contains(p, is_author, pinned, has_editor, MessageMenuItem::Unpin);
    let a = spec_message_actions(p, is_author);
    if a.contains(MessageAction::Delete) {
        let i = choose|i: int| 0 <= i < a.len() && a[i] == MessageAction::Delete;
    }
    if p.manage_messages || is_author {
        assert(a[a.len() - 1] == MessageAction::Delete);
    }
    if a.contains(MessageAction::Edit) {
        let i = choose|i: int| 0 <= i < a.len() && a[i] == MessageAction::Edit;
    }
    if is_author {
        let k = (if p.send_message { 1int } else { 0int }) + (if p.react { 1int } else { 0int });
        assert(a[k] == MessageAction::Edit);
    }
}

} // verus!
