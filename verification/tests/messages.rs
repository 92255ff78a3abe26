use stoat_components::messages::reply_preview_text;
use stoat_components::messages::{
    channel_mention_name, mention_name, resolve_author, AuthorSource, mention_switch_label, system_icon, system_parts, PickerSelection,
    SystemIcon, SystemMessage, SystemPart, Tone,
};
use stoat_components::model::{ChannelInfo, MemberInfo, Relationship, UserInfo};
use stoat_components::voice::{is_muted, mic_action, MicAction, TrackInfo, TrackKind, TrackSource};

#[test]
fn system_message_lines() {
    let m = SystemMessage::UserAdded { id: "a".to_string(), by: "b".to_string() };
    assert_eq!(
        system_parts(&m),
        vec![
            SystemPart::User("a".to_string()),
            SystemPart::Text(" has been added by ".to_string()),
            SystemPart::User("b".to_string()),
        ]
    );
    assert_eq!(system_icon(&m), (SystemIcon::Add, Tone::Primary));
    let m = SystemMessage::ChannelRenamed { name: "New".to_string(), by: "b".to_string() };
    assert_eq!(
        system_parts(&m),
        vec![
            SystemPart::User("b".to_string()),
            SystemPart::Text(" updated the group name to ".to_string()),
            SystemPart::Bold("New".to_string()),
        ]
    );
    let m = SystemMessage::UserBanned { id: "x".to_string() };
    assert_eq!(system_icon(&m), (SystemIcon::LocalPolice, Tone::Error));
    let m = SystemMessage::CallStarted { by: "c".to_string(), finished: false };
    assert_eq!(
        system_parts(&m),
        vec![SystemPart::User("c".to_string()), SystemPart::Text(" started a call".to_string())]
    );
}

#[test]
fn mention_names_fall_back() {
    let u = UserInfo {
        id: "a".to_string(),
        username: "anna".to_string(),
        display_name: None,
        relationship: Relationship::Unrelated,
        online: false,
        bot: false,
    };
    let m = MemberInfo { server: "s".to_string(), user: "a".to_string(), nickname: Some("Nan".to_string()) };
    assert_eq!(mention_name(Some(&u), Some(&m)), "Nan");
    assert_eq!(mention_name(Some(&u), None), "anna");
    assert_eq!(mention_name(None, None), "Unknown User");
    let dm = ChannelInfo::DirectMessage { id: "d".to_string(), active: true, recipients: vec![], last_message_id: None };
    assert_eq!(channel_mention_name(Some(&dm)), "<TODO>");
    assert_eq!(channel_mention_name(None), "Unknown Channel");
    assert_eq!(mention_switch_label(true), "ON");
    assert_eq!(mention_switch_label(false), "OFF");
    assert_eq!(PickerSelection::GIF.label(), "GIFs");
    assert_eq!(PickerSelection::Emoji.label(), "Emoji");
}

fn track(kind: TrackKind, muted: bool, source: TrackSource) -> TrackInfo {
    TrackInfo { kind, muted, source }
}

#[test]
fn microphone_button() {
    assert!(is_muted(&vec![]));
    assert_eq!(mic_action(&vec![]), MicAction::Publish);
    let tracks = vec![
        track(TrackKind::Video, false, TrackSource::Camera),
        track(TrackKind::Audio, false, TrackSource::ScreenshareAudio),
        track(TrackKind::Audio, false, TrackSource::Microphone),
    ];
    assert!(!is_muted(&tracks));
    assert_eq!(mic_action(&tracks), MicAction::Unpublish(2));
    let only_camera = vec![track(TrackKind::Video, false, TrackSource::Camera)];
    assert_eq!(mic_action(&only_camera), MicAction::Nothing);
}

#[test]
fn authors_of_found_messages() {
    let users = vec![
        UserInfo {
            id: "a".to_string(),
            username: "anna".to_string(),
            display_name: None,
            relationship: Relationship::Unrelated,
            online: false,
            bot: false,
        },
    ];
    let members = Some(vec![MemberInfo { server: "s".to_string(), user: "a".to_string(), nickname: None }]);
    assert_eq!(resolve_author("a", &users, &members), (AuthorSource::Listed(0), Some(0)));
    assert_eq!(resolve_author("b", &users, &members), (AuthorSource::System, None));
    assert_eq!(resolve_author("a", &users, &None), (AuthorSource::Listed(0), None));
}

#[test]
fn reply_preview_notes_attachments() {
    assert_eq!(reply_preview_text(Some(2), &None), (Some("Sent an attachment".to_string()), String::new()));
    assert_eq!(reply_preview_text(Some(0), &Some("hi".to_string())), (None, "hi".to_string()));
    assert_eq!(reply_preview_text(None, &Some("hi".to_string())), (None, "hi".to_string()));
    assert_eq!(reply_preview_text(Some(1), &Some("look".to_string())), (Some("Sent an attachment".to_string()), "look".to_string()));
}
