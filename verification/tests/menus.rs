use stoat_components::menus::{
    category_menu, channel_link, channel_menu, delete_mode, mentions_user, message_actions, message_link,
    message_menu, server_menu, user_mention_text, user_menu, CategoryMenuItem, ChannelMenuItem, DeleteMode,
    MenuPermissions, MessageAction, MessageMenuItem, ServerMenuItem, UserMenuItem,
};
use stoat_components::model::ChannelInfo;

fn perms(all: bool) -> MenuPermissions {
    MenuPermissions { send_message: all, react: all, manage_messages: all, invite_others: all, manage_channel: all }
}

#[test]
fn message_menu_for_a_moderator_on_a_pinned_message() {
    assert_eq!(
        message_menu(perms(true), false, Some(true), true),
        vec![
            MessageMenuItem::Reply,
            MessageMenuItem::Mention,
            MessageMenuItem::CopyText,
            MessageMenuItem::React,
            MessageMenuItem::Unpin,
            MessageMenuItem::Delete,
            MessageMenuItem::CopyLink,
            MessageMenuItem::CopyId,
        ]
    );
}

#[test]
fn message_menu_for_the_author_without_permissions() {
    assert_eq!(
        message_menu(perms(false), true, None, false),
        vec![
            MessageMenuItem::Reply,
            MessageMenuItem::CopyText,
            MessageMenuItem::Edit,
            MessageMenuItem::Delete,
            MessageMenuItem::CopyLink,
            MessageMenuItem::CopyId,
        ]
    );
    assert!(message_menu(perms(true), false, Some(false), false).contains(&MessageMenuItem::Pin));
}

#[test]
fn hover_bar() {
    assert_eq!(message_actions(perms(false), false), vec![]);
    assert_eq!(
        message_actions(perms(true), true),
        vec![MessageAction::Reply, MessageAction::React, MessageAction::Edit, MessageAction::Delete]
    );
    assert_eq!(delete_mode(true), DeleteMode::Immediate);
    assert_eq!(delete_mode(false), DeleteMode::Confirm);
}

#[test]
fn links_and_mentions() {
    assert_eq!(channel_link("abc"), "https://stoat.chat/channel/abc");
    assert_eq!(message_link("abc", "m1"), "https://stoat.chat/channel/abc/m1");
    assert_eq!(user_mention_text("u1"), "<@u1>");
    assert!(mentions_user(&Some(vec!["a".to_string(), "me".to_string()]), "me"));
    assert!(!mentions_user(&Some(vec!["a".to_string()]), "me"));
    assert!(!mentions_user(&None, "me"));
}

#[test]
fn channel_menus() {
    let dm = ChannelInfo::DirectMessage { id: "d".to_string(), active: true, recipients: vec![], last_message_id: None };
    assert_eq!(channel_menu(perms(false), &dm), vec![ChannelMenuItem::CopyUserId]);
    let text = ChannelInfo::TextChannel {
        id: "t".to_string(),
        server: "s".to_string(),
        name: "n".to_string(),
        description: None,
        last_message_id: None,
    };
    assert_eq!(
        channel_menu(perms(true), &text),
        vec![
            ChannelMenuItem::CreateInvite,
            ChannelMenuItem::CopyLink,
            ChannelMenuItem::CopyChannelId,
            ChannelMenuItem::OpenSettings,
            ChannelMenuItem::DeleteChannel,
        ]
    );
    let group = ChannelInfo::Group {
        id: "g".to_string(),
        name: "n".to_string(),
        owner: "o".to_string(),
        description: None,
        recipients: vec![],
        last_message_id: None,
    };
    assert_eq!(
        channel_menu(perms(false), &group),
        vec![ChannelMenuItem::CopyLink, ChannelMenuItem::CopyChannelId, ChannelMenuItem::LeaveGroup]
    );
}

#[test]
fn other_menus() {
    assert_eq!(
        user_menu(true, true, true),
        vec![UserMenuItem::Message, UserMenuItem::Profile, UserMenuItem::Mention, UserMenuItem::EditRoles, UserMenuItem::CopyUserId]
    );
    assert_eq!(user_menu(false, false, false), vec![UserMenuItem::Profile, UserMenuItem::CopyUserId]);
    assert_eq!(server_menu("me", "me"), vec![ServerMenuItem::OpenSettings, ServerMenuItem::CopyServerId]);
    assert_eq!(
        server_menu("them", "me"),
        vec![ServerMenuItem::OpenSettings, ServerMenuItem::Leave, ServerMenuItem::CopyServerId]
    );
    assert_eq!(category_menu(false), vec![CategoryMenuItem::CopyCategoryId]);
    assert_eq!(
        category_menu(true),
        vec![CategoryMenuItem::Rename, CategoryMenuItem::Delete, CategoryMenuItem::CopyCategoryId]
    );
}
