use stoat_components::autocomplete::{
    autocomplete_matches, candidates, insertion_text, popup_height, popup_key, replace_start, select_down,
    select_up, AutocompleteEntry, AutocompleteRoleEntry, AutocompleteSources, Directory, EmojiInfo, PopupKey,
    PopupOutcome, RoleInfo, sort_by_name, popup_after_query,
};
use stoat_components::compose::AutocompleteType;
use stoat_components::model::{ChannelInfo, Relationship, UserInfo};

fn user(id: &str, username: &str, display: Option<&str>) -> UserInfo {
    UserInfo {
        id: id.to_string(),
        username: username.to_string(),
        display_name: display.map(|d| d.to_string()),
        relationship: Relationship::Unrelated,
        online: false,
        bot: false,
    }
}

fn sources() -> AutocompleteSources {
    AutocompleteSources {
        members: vec!["u1".to_string(), "u2".to_string(), "u3".to_string()],
        server_channels: vec!["c1".to_string(), "c2".to_string()],
        roles: vec![RoleInfo { id: "r1".to_string(), name: "Moderators".to_string() }],
        unicode_emojis: vec![EmojiInfo { name: "smile".to_string(), value: "😄".to_string() }],
        custom_emojis: vec![EmojiInfo { name: "Smug".to_string(), value: "01ARZ3NDEKTSV4RRFFQ69G5FAV".to_string() }],
        can_mention_everyone: true,
    }
}

fn directory() -> Directory {
    Directory {
        users: vec![user("u1", "zed", Some("Alice")), user("u2", "albert", None), user("u3", "bob", None)],
        channels: vec![
            ChannelInfo::TextChannel {
                id: "c1".to_string(),
                server: "s".to_string(),
                name: "General".to_string(),
                description: None,
                last_message_id: None,
            },
            ChannelInfo::TextChannel {
                id: "c2".to_string(),
                server: "s".to_string(),
                name: "games".to_string(),
                description: None,
                last_message_id: None,
            },
        ],
        roles: vec![RoleInfo { id: "r1".to_string(), name: "Moderators".to_string() }],
    }
}

fn text_channel() -> ChannelInfo {
    ChannelInfo::TextChannel {
        id: "c1".to_string(),
        server: "s".to_string(),
        name: "General".to_string(),
        description: None,
        last_message_id: None,
    }
}

#[test]
fn users_match_by_display_name_then_username_in_any_case() {
    let got = autocomplete_matches(AutocompleteType::User, &text_channel(), &sources(), &directory(), "AL");
    assert_eq!(
        got,
        vec![
            ("Alice".to_string(), AutocompleteEntry::User("u1".to_string())),
            ("albert".to_string(), AutocompleteEntry::User("u2".to_string())),
        ]
    );
}

#[test]
fn matches_are_ordered_by_name() {
    let got = autocomplete_matches(AutocompleteType::User, &text_channel(), &sources(), &directory(), "");
    let names: Vec<String> = got.into_iter().map(|(n, _)| n).collect();
    assert_eq!(names, vec!["Alice".to_string(), "albert".to_string(), "bob".to_string()]);
}

#[test]
fn channels_match_by_lower_cased_name() {
    let got = autocomplete_matches(AutocompleteType::Channel, &text_channel(), &sources(), &directory(), "g");
    assert_eq!(
        got,
        vec![
            ("General".to_string(), AutocompleteEntry::Channel("c1".to_string())),
            ("games".to_string(), AutocompleteEntry::Channel("c2".to_string())),
        ]
    );
}

#[test]
fn emoji_names_are_compared_as_they_are() {
    let got = autocomplete_matches(AutocompleteType::Emoji, &text_channel(), &sources(), &directory(), "sm");
    assert_eq!(
        got,
        vec![(
            "smile".to_string(),
            AutocompleteEntry::Emoji { value: "😄".to_string(), name: "smile".to_string() }
        )]
    );
}

#[test]
fn roles_with_everyone_and_online() {
    let got = autocomplete_matches(AutocompleteType::Role, &text_channel(), &sources(), &directory(), "");
    let names: Vec<String> = got.into_iter().map(|(n, _)| n).collect();
    assert_eq!(names, vec!["Moderators".to_string(), "everyone".to_string(), "online".to_string()]);
    let mut s = sources();
    s.can_mention_everyone = false;
    let got = autocomplete_matches(AutocompleteType::Role, &text_channel(), &s, &directory(), "e");
    assert!(got.is_empty());
}

#[test]
fn candidates_of_a_direct_message_are_its_recipients() {
    let dm = ChannelInfo::DirectMessage {
        id: "d".to_string(),
        active: true,
        recipients: vec!["u1".to_string(), "u3".to_string()],
        last_message_id: None,
    };
    assert_eq!(
        candidates(AutocompleteType::User, &dm, &sources()),
        vec![AutocompleteEntry::User("u1".to_string()), AutocompleteEntry::User("u3".to_string())]
    );
    let saved = ChannelInfo::SavedMessages { id: "n".to_string(), user: "me".to_string() };
    assert_eq!(candidates(AutocompleteType::User, &saved, &sources()), vec![AutocompleteEntry::User("me".to_string())]);
}

#[test]
fn picked_entries_insert_mentions() {
    assert_eq!(insertion_text(&AutocompleteEntry::User("u1".to_string())), "<@u1> ");
    assert_eq!(insertion_text(&AutocompleteEntry::Channel("c1".to_string())), "<#c1> ");
    assert_eq!(insertion_text(&AutocompleteEntry::Role(AutocompleteRoleEntry::Custom("r1".to_string()))), "<%r1> ");
    assert_eq!(insertion_text(&AutocompleteEntry::Role(AutocompleteRoleEntry::Everyone)), "@everyone ");
    assert_eq!(insertion_text(&AutocompleteEntry::Role(AutocompleteRoleEntry::Online)), "@online ");
    assert_eq!(
        insertion_text(&AutocompleteEntry::Emoji {
            value: "01ARZ3NDEKTSV4RRFFQ69G5FAV".to_string(),
            name: "Smug".to_string()
        }),
        ":01ARZ3NDEKTSV4RRFFQ69G5FAV: "
    );
    assert_eq!(insertion_text(&AutocompleteEntry::Emoji { value: "😄".to_string(), name: "smile".to_string() }), "😄 ");
}

#[test]
fn selection_wraps_round() {
    assert_eq!(select_up(0, 3), 2);
    assert_eq!(select_up(2, 3), 1);
    assert_eq!(select_up(7, 3), 2);
    assert_eq!(select_down(2, 3), 0);
    assert_eq!(select_down(0, 3), 1);
    assert_eq!(select_down(usize::MAX, 3), 0);
}

#[test]
fn up_and_down_undo_each_other() {
    for len in 1..5usize {
        for idx in 0..len {
            assert_eq!(select_down(select_up(idx, len), len), idx);
            assert_eq!(select_up(select_down(idx, len), len), idx);
        }
    }
}

#[test]
fn popup_keys() {
    assert_eq!(popup_key(PopupKey::Enter, true, 1, 3), PopupOutcome { selected: 1, pick: Some(1), visible: true, consumed: true });
    assert_eq!(popup_key(PopupKey::Enter, true, 3, 3), PopupOutcome { selected: 3, pick: None, visible: true, consumed: false });
    assert_eq!(popup_key(PopupKey::Escape, true, 0, 3), PopupOutcome { selected: 0, pick: None, visible: false, consumed: false });
    assert_eq!(popup_key(PopupKey::ArrowUp, false, 0, 0), PopupOutcome { selected: 0, pick: None, visible: false, consumed: false });
    assert_eq!(popup_key(PopupKey::ArrowDown, true, 0, 3), PopupOutcome { selected: 1, pick: None, visible: true, consumed: true });
}

#[test]
fn popup_height_is_capped() {
    assert_eq!(popup_height(0), 16);
    assert_eq!(popup_height(2), 80);
    assert_eq!(popup_height(5), 176);
    assert_eq!(popup_height(100), 176);
}

#[test]
fn replacement_starts_before_the_trigger() {
    assert_eq!(replace_start(10, "al"), 7);
    assert_eq!(replace_start(4, "é"), 1);
}

#[test]
fn entries_with_the_same_name_keep_their_order() {
    let v = vec![
        ("bob".to_string(), AutocompleteEntry::User("u2".to_string())),
        ("alice".to_string(), AutocompleteEntry::User("u9".to_string())),
        ("bob".to_string(), AutocompleteEntry::User("u1".to_string())),
        ("Bob".to_string(), AutocompleteEntry::User("u5".to_string())),
    ];
    let r = sort_by_name(v);
    let ids: Vec<AutocompleteEntry> = r.into_iter().map(|(_, e)| e).collect();
    assert_eq!(
        ids,
        vec![
            AutocompleteEntry::User("u5".to_string()),
            AutocompleteEntry::User("u9".to_string()),
            AutocompleteEntry::User("u2".to_string()),
            AutocompleteEntry::User("u1".to_string()),
        ]
    );
}

#[test]
fn a_new_query_selects_the_first_match() {
    assert_eq!(popup_after_query(3), PopupOutcome { selected: 0, pick: None, visible: true, consumed: false });
    assert_eq!(popup_after_query(0), PopupOutcome { selected: 0, pick: None, visible: false, consumed: false });
}
