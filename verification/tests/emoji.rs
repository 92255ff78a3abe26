use stoat_components::emoji::{emoji_url, fluent_codes, name_contains, picker_items, CustomEmoji, PickerItem, UnicodeEmoji};

#[test]
fn fluent_codes_are_hex_joined() {
    assert_eq!(fluent_codes("😀"), "1f600");
    assert_eq!(fluent_codes("👍🏽"), "1f44d-1f3fd");
    assert_eq!(fluent_codes(""), "");
}

#[test]
fn emoji_urls() {
    assert_eq!(
        emoji_url("01ARZ3NDEKTSV4RRFFQ69G5FAV", "https://cdn.example", "emojis"),
        "https://cdn.example/emojis/01ARZ3NDEKTSV4RRFFQ69G5FAV"
    );
    assert_eq!(
        emoji_url("😀", "https://cdn.example", "emojis"),
        "https://static.stoat.chat/emoji/fluent-3d/1f600.svg?v=1"
    );
}

#[test]
fn substring_search() {
    assert!(name_contains("thumbsup", "mbs"));
    assert!(name_contains("abc", ""));
    assert!(!name_contains("abc", "abcd"));
    assert!(name_contains("abc", "c"));
}

fn custom(id: &str, name: &str, server: Option<&str>) -> CustomEmoji {
    CustomEmoji { id: id.to_string(), name: name.to_string(), server: server.map(|s| s.to_string()) }
}

fn unicode(name: &str, value: &str) -> UnicodeEmoji {
    UnicodeEmoji { name: name.to_string(), value: value.to_string() }
}

#[test]
fn filtered_grid_fills_rows() {
    let c = vec![custom("e1", "PartyParrot", Some("s1")), custom("e2", "cat", Some("s1"))];
    let u = vec![unicode("party_popper", "🎉"), unicode("smile", "😄")];
    let items = picker_items("PARTY", &vec!["s1".to_string()], &c, &u);
    assert_eq!(items.len(), 10);
    assert_eq!(items[0], PickerItem::Emoji("e1".to_string()));
    assert_eq!(items[1], PickerItem::Unicode { name: "party_popper".to_string(), value: "🎉".to_string() });
    assert!(items[2..].iter().all(|i| *i == PickerItem::Spacer));
}

#[test]
fn unfiltered_grid_has_server_sections_then_defaults() {
    let c = vec![custom("e1", "a", Some("s1")), custom("e2", "b", None), custom("e3", "c", Some("s1"))];
    let u = vec![unicode("smile", "😄")];
    let items = picker_items("", &vec!["s0".to_string(), "s1".to_string()], &c, &u);
    assert_eq!(items.len(), 40);
    assert_eq!(items[0], PickerItem::Server("s1".to_string()));
    assert_eq!(items[1], PickerItem::Spacer);
    assert_eq!(items[10], PickerItem::Emoji("e1".to_string()));
    assert_eq!(items[11], PickerItem::Emoji("e3".to_string()));
    assert_eq!(items[20], PickerItem::Title("Default".to_string()));
    assert_eq!(items[30], PickerItem::Unicode { name: "smile".to_string(), value: "😄".to_string() });
    assert_eq!(items.len() % 10, 0);
}
