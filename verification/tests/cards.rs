use stoat_components::cards::{
    after_join, friend_rows, group_initials, header_label, invite_card, members_label, status_line, FriendListItem, InviteInfo,
    Joined, Presence, invite_view, join_outcome, InviteCard, InviteView, JoinOutcome,
};
use stoat_components::listing::FriendPage;
use stoat_components::model::{Relationship, Selection, UserInfo};

#[test]
fn status_lines() {
    assert_eq!(status_line(&Some("Busy coding".to_string()), Some(Presence::Online)), Some("Busy coding".to_string()));
    assert_eq!(status_line(&None, Some(Presence::Idle)), Some("Idle".to_string()));
    assert_eq!(status_line(&None, None), None);
}

#[test]
fn initials_of_group_names() {
    assert_eq!(group_initials("  Weekend  Plans crew "), "WP");
    assert_eq!(group_initials("solo"), "s");
    assert_eq!(group_initials("   "), "");
    assert_eq!(members_label(3), "3 Members");
}

#[test]
fn invite_cards() {
    let info = InviteInfo::Server { server_id: "s1".to_string(), server_name: "Club".to_string(), member_count: 12 };
    let card = invite_card(&info, &vec!["s1".to_string()], &vec![]);
    assert_eq!(card.title, "Club");
    assert_eq!(card.subtitle, Some("12 members".to_string()));
    assert!(card.joined);
    assert_eq!(card.button, "Joined");
    let info = InviteInfo::Group { channel_id: "g1".to_string(), channel_name: "Pals".to_string() };
    let card = invite_card(&info, &vec![], &vec![]);
    assert_eq!(card.subtitle, None);
    assert!(!card.joined);
    assert_eq!(card.button, "Join");
}

fn user(id: &str, rel: Relationship) -> UserInfo {
    UserInfo { id: id.to_string(), username: id.to_string(), display_name: None, relationship: rel, online: true, bot: false }
}

#[test]
fn friends_list_groups() {
    let users = vec![user("a", Relationship::Incoming), user("b", Relationship::Outgoing), user("c", Relationship::Friend)];
    let related = vec!["a".to_string(), "b".to_string(), "c".to_string()];
    assert_eq!(
        friend_rows(FriendPage::Pending, &related, &users),
        vec![
            FriendListItem::Header { title: "Incoming".to_string(), count: 1 },
            FriendListItem::User("a".to_string()),
            FriendListItem::Header { title: "Outgoing".to_string(), count: 1 },
            FriendListItem::User("b".to_string()),
        ]
    );
    assert_eq!(
        friend_rows(FriendPage::Blocked, &related, &users),
        vec![FriendListItem::Header { title: "Blocked".to_string(), count: 0 }, FriendListItem::Placeholder]
    );
    assert_eq!(header_label("Online", 4), "Online \u{2013} 4");
}

#[test]
fn after_joining() {
    let j = Joined::Server { server_id: "s".to_string(), channel_ids: vec!["c1".to_string(), "c2".to_string()] };
    assert_eq!(after_join(&j), (Some("c1".to_string()), Selection::Server("s".to_string())));
    let j = Joined::Server { server_id: "s".to_string(), channel_ids: vec![] };
    assert_eq!(after_join(&j), (None, Selection::Server("s".to_string())));
    let j = Joined::Group { channel_id: "g".to_string() };
    assert_eq!(after_join(&j), (Some("g".to_string()), Selection::Home));
}

#[test]
fn invite_lookup_outcomes() {
    let servers = vec!["s1".to_string()];
    let channels: Vec<String> = vec![];
    assert_eq!(invite_view(None, &servers, &channels), InviteView::Loading);
    assert_eq!(invite_view(Some(None), &servers, &channels), InviteView::Unknown("Unknown Invite".to_string()));
    let info = InviteInfo::Group { channel_id: "g1".to_string(), channel_name: "Pals".to_string() };
    assert_eq!(
        invite_view(Some(Some(info)), &servers, &channels),
        InviteView::Card(InviteCard { title: "Pals".to_string(), subtitle: None, joined: false, button: "Join".to_string() })
    );
}

#[test]
fn join_replies() {
    assert_eq!(join_outcome(Err("NotFound".to_string())), JoinOutcome::ShowError("NotFound".to_string()));
    assert_eq!(
        join_outcome(Ok(Joined::Group { channel_id: "g1".to_string() })),
        JoinOutcome::Navigate { channel: Some("g1".to_string()), selection: Selection::Home }
    );
    assert_eq!(
        join_outcome(Ok(Joined::Server { server_id: "s2".to_string(), channel_ids: vec!["c1".to_string(), "c2".to_string()] })),
        JoinOutcome::Navigate { channel: Some("c1".to_string()), selection: Selection::Server("s2".to_string()) }
    );
}
