use stoat_components::listing::{
    dm_order, drag_over, find_saved_messages, on_page, page_users, slowmode_label, typing_label, typing_names,
    FriendPage,
};
use stoat_components::model::{ChannelInfo, MemberInfo, Relationship, UserInfo};

fn user(id: &str, username: &str, display: Option<&str>, rel: Relationship, online: bool) -> UserInfo {
    UserInfo {
        id: id.to_string(),
        username: username.to_string(),
        display_name: display.map(|d| d.to_string()),
        relationship: rel,
        online,
        bot: false,
    }
}

fn strings(v: &[&str]) -> Vec<String> {
    v.iter().map(|s| s.to_string()).collect()
}

#[test]
fn typing_lines() {
    assert_eq!(typing_label(&vec![]), "");
    assert_eq!(typing_label(&strings(&["Ann"])), "Ann is typing...");
    assert_eq!(typing_label(&strings(&["Ann", "Bo"])), "Ann and Bo are typing...");
    assert_eq!(typing_label(&strings(&["Ann", "Bo", "Cy"])), "Ann, Bo and Cy are typing...");
}

#[test]
fn typing_names_skip_me_and_strangers() {
    let users = vec![
        user("me", "me", None, Relationship::User, true),
        user("a", "anna", Some("Anna"), Relationship::Friend, true),
        user("b", "bob", None, Relationship::Friend, true),
    ];
    let members = vec![MemberInfo { server: "s".to_string(), user: "b".to_string(), nickname: Some("Bobby".to_string()) }];
    let names = typing_names(&strings(&["me", "a", "x", "b"]), "me", &users, &members);
    assert_eq!(names, strings(&["Anna", "Bobby"]));
}

#[test]
fn slowmode_notices() {
    assert_eq!(slowmode_label(true, Some(3), 10), "Slowmode Immune");
    assert_eq!(slowmode_label(false, Some(3), 10), "3s");
    assert_eq!(slowmode_label(false, Some(0), 10), "Slowmode is enabled, 10s");
    assert_eq!(slowmode_label(false, None, 10), "Slowmode is enabled, 10s");
}

#[test]
fn friends_pages() {
    assert!(on_page(FriendPage::Online, true, Relationship::Friend));
    assert!(!on_page(FriendPage::Online, false, Relationship::Friend));
    assert!(on_page(FriendPage::All, false, Relationship::Friend));
    assert!(on_page(FriendPage::Pending, false, Relationship::Outgoing));
    assert!(on_page(FriendPage::Blocked, false, Relationship::BlockedOther));
    assert!(!on_page(FriendPage::Blocked, false, Relationship::Friend));
    let users = vec![
        user("a", "a", None, Relationship::Friend, true),
        user("b", "b", None, Relationship::Friend, false),
        user("c", "c", None, Relationship::Incoming, true),
    ];
    let related = strings(&["a", "b", "c"]);
    assert_eq!(page_users(FriendPage::Online, &related, &users), strings(&["a"]));
    assert_eq!(page_users(FriendPage::All, &related, &users), strings(&["a", "b"]));
    assert_eq!(page_users(FriendPage::Pending, &related, &users), strings(&["c"]));
}

fn dm(id: &str, last: Option<&str>) -> ChannelInfo {
    ChannelInfo::DirectMessage {
        id: id.to_string(),
        active: true,
        recipients: vec![],
        last_message_id: last.map(|s| s.to_string()),
    }
}

#[test]
fn direct_messages_most_recent_first() {
    let channels = vec![
        dm("01A", Some("01C")),
        ChannelInfo::SavedMessages { id: "01Z".to_string(), user: "me".to_string() },
        dm("01B", None),
        ChannelInfo::Group {
            id: "01D".to_string(),
            name: "g".to_string(),
            owner: "me".to_string(),
            description: None,
            recipients: vec![],
            last_message_id: Some("01E".to_string()),
        },
        dm("01C", None),
    ];
    assert_eq!(dm_order(&channels), strings(&["01D", "01A", "01C", "01B"]));
    assert_eq!(find_saved_messages(&channels), Some(1));
}

#[test]
fn dragging_moves_an_item_and_back() {
    let mut v = vec!['a', 'b', 'c', 'd'];
    let h = drag_over(&mut v, (0, 'a'), 'a', 2);
    assert_eq!(v, vec!['b', 'c', 'a', 'd']);
    assert_eq!(h, (2, 'a'));
    drag_over(&mut v, (2, 'a'), 'a', 0);
    assert_eq!(v, vec!['a', 'b', 'c', 'd']);
}

#[test]
fn friend_page_tabs() {
    assert_eq!(FriendPage::default(), FriendPage::Online);
    let labels: Vec<String> = FriendPage::all().into_iter().map(|p| p.label()).collect();
    assert_eq!(labels, strings(&["Online", "All", "Pending", "Blocked"]));
}
