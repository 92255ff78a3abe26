use stoat_components::model::{display_name, navigate, ChannelInfo, MemberInfo, Navigation, Relationship, Selection, UserInfo};

fn user(id: &str, username: &str, display: Option<&str>) -> UserInfo {
    UserInfo {
        id: id.to_string(),
        username: username.to_string(),
        display_name: display.map(|d| d.to_string()),
        relationship: Relationship::Friend,
        online: true,
        bot: false,
    }
}

#[test]
fn names_prefer_nickname_then_display_name() {
    let u = user("a", "anna", Some("Anna B"));
    let m = MemberInfo { server: "s".to_string(), user: "a".to_string(), nickname: Some("Nan".to_string()) };
    assert_eq!(display_name(&u, Some(&m)), "Nan");
    assert_eq!(display_name(&u, None), "Anna B");
    let plain = user("b", "bob", None);
    let m2 = MemberInfo { server: "s".to_string(), user: "b".to_string(), nickname: None };
    assert_eq!(display_name(&plain, Some(&m2)), "bob");
}

#[test]
fn channel_titles_and_placeholders() {
    let users = vec![user("me", "myself", None), user("them", "other", Some("Other"))];
    let dm = ChannelInfo::DirectMessage {
        id: "d".to_string(),
        active: true,
        recipients: vec!["me".to_string(), "them".to_string()],
        last_message_id: None,
    };
    assert_eq!(dm.title("me", &users), "other");
    assert_eq!(dm.placeholder("me", &users), "Message other");
    let saved = ChannelInfo::SavedMessages { id: "n".to_string(), user: "me".to_string() };
    assert_eq!(saved.placeholder("me", &users), "Message Saved Messages");
    assert_eq!(saved.name(), None);
    let text = ChannelInfo::TextChannel {
        id: "t".to_string(),
        server: "s".to_string(),
        name: "general".to_string(),
        description: Some(String::new()),
        last_message_id: None,
    };
    assert_eq!(text.title("me", &users), "general");
    assert_eq!(text.description(), None);
    assert!(text.is_server());
    assert_eq!(text.id(), "t");
}

#[test]
fn following_mentions() {
    let text = ChannelInfo::TextChannel {
        id: "t".to_string(),
        server: "s".to_string(),
        name: "general".to_string(),
        description: None,
        last_message_id: None,
    };
    assert_eq!(
        navigate(Some(&text), Some("m".to_string())),
        Some(Navigation { channel: "t".to_string(), jump_to: Some("m".to_string()), selection: Selection::Server("s".to_string()) })
    );
    let dm = ChannelInfo::DirectMessage { id: "d".to_string(), active: true, recipients: vec![], last_message_id: None };
    assert_eq!(
        navigate(Some(&dm), None),
        Some(Navigation { channel: "d".to_string(), jump_to: None, selection: Selection::Home })
    );
    assert_eq!(navigate(None, None), None);
}
