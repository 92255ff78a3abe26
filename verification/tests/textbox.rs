use stoat_components::textbox::{
    key_action, key_action_with, sed_apply, sed_count, sed_parse, ComposerState, KeyAction, KeyKind, LastMessage, SedCommand,
};

fn state(content: &str) -> ComposerState {
    ComposerState {
        autocomplete_visible: false,
        content: content.to_string(),
        attachments_empty: true,
        replies_empty: true,
        last_message: Some(LastMessage { id: "m1".to_string(), content: "foo foo foo".to_string() }),
        slowmode_active: false,
    }
}

fn edit(content: &str) -> KeyAction {
    KeyAction::EditLast { message_id: "m1".to_string(), content: content.to_string() }
}

#[test]
fn sed_command_replaces_every_match() {
    assert_eq!(key_action(KeyKind::Enter, false, false, &state("s/foo/bar")), edit("bar bar bar"));
    assert_eq!(key_action(KeyKind::Enter, false, false, &state("s/foo/bar/")), edit("bar bar bar"));
    assert_eq!(key_action(KeyKind::Enter, false, false, &state("s/foo/bar/g")), edit("bar bar bar"));
}

#[test]
fn sed_command_with_a_count() {
    assert_eq!(key_action(KeyKind::Enter, false, false, &state("s/foo/bar/2")), edit("bar bar foo"));
    assert_eq!(key_action(KeyKind::Enter, false, false, &state("s/foo/bar/0")), edit("foo foo foo"));
}

#[test]
fn a_huge_count_falls_back_to_one() {
    assert_eq!(
        key_action(KeyKind::Enter, false, false, &state("s/foo/bar/99999999999999999999999")),
        edit("bar foo foo")
    );
}

#[test]
fn text_that_is_no_command_is_sent() {
    assert_eq!(key_action(KeyKind::Enter, false, false, &state("s/foo")), KeyAction::Send);
    assert_eq!(key_action(KeyKind::Enter, false, false, &state("s/a/b/x")), KeyAction::Send);
    assert_eq!(key_action(KeyKind::Enter, false, false, &state("hello")), KeyAction::Send);
}

#[test]
fn a_command_is_sent_as_text_with_replies_or_attachments() {
    let mut s = state("s/foo/bar");
    s.replies_empty = false;
    assert_eq!(key_action(KeyKind::Enter, false, false, &s), KeyAction::Send);
    let mut s = state("s/foo/bar");
    s.last_message = None;
    assert_eq!(key_action(KeyKind::Enter, false, false, &s), KeyAction::Send);
}

#[test]
fn empty_box_and_slowmode_send_nothing() {
    assert_eq!(key_action(KeyKind::Enter, false, false, &state("")), KeyAction::Nothing);
    let mut s = state("hi");
    s.slowmode_active = true;
    assert_eq!(key_action(KeyKind::Enter, false, false, &s), KeyAction::Nothing);
    let mut s = state("");
    s.attachments_empty = false;
    assert_eq!(key_action(KeyKind::Enter, false, false, &s), KeyAction::Send);
}

#[test]
fn shift_enter_goes_to_the_editor() {
    assert_eq!(key_action(KeyKind::Enter, true, false, &state("hi")), KeyAction::ToEditor);
}

#[test]
fn open_popup_takes_enter_and_arrows() {
    let mut s = state("hi");
    s.autocomplete_visible = true;
    assert_eq!(key_action(KeyKind::Enter, false, false, &s), KeyAction::ToAutocomplete);
    assert_eq!(key_action(KeyKind::ArrowUp, false, false, &s), KeyAction::ToAutocomplete);
    assert_eq!(key_action(KeyKind::ArrowDown, false, false, &s), KeyAction::ToAutocomplete);
    assert_eq!(key_action(KeyKind::Other, false, false, &s), KeyAction::ToEditor);
}

#[test]
fn arrow_up_on_an_empty_box_recalls_the_last_message() {
    assert_eq!(
        key_action(KeyKind::ArrowUp, false, false, &state("")),
        KeyAction::StartEditing { message_id: "m1".to_string() }
    );
    assert_eq!(key_action(KeyKind::ArrowUp, false, false, &state("x")), KeyAction::ToEditor);
    let mut s = state("");
    s.last_message = None;
    assert_eq!(key_action(KeyKind::ArrowUp, false, false, &s), KeyAction::Nothing);
}

#[test]
fn paste_with_files_attaches_them() {
    assert_eq!(key_action(KeyKind::Paste, false, true, &state("")), KeyAction::PasteFiles);
    assert_eq!(key_action(KeyKind::Paste, false, false, &state("")), KeyAction::ToEditor);
}

#[test]
fn command_counts() {
    assert_eq!(sed_count(&None), None);
    assert_eq!(sed_count(&Some("g".to_string())), None);
    assert_eq!(sed_count(&Some("3".to_string())), Some(3));
    assert_eq!(sed_count(&Some("+4".to_string())), Some(4));
    assert_eq!(sed_count(&Some("x".to_string())), Some(1));
}

#[test]
fn applying_a_given_command() {
    let cmd = SedCommand { pattern: "a".to_string(), replacement: "xy".to_string(), flags: Some("1".to_string()) };
    assert_eq!(sed_apply(&cmd, "banana"), "bxynana");
    let cmd = SedCommand { pattern: "an".to_string(), replacement: "-".to_string(), flags: None };
    assert_eq!(sed_apply(&cmd, "banana"), "b--a");
    let s = state("ignored");
    assert_eq!(key_action_with(KeyKind::Enter, false, false, &s, Some(cmd)), edit("foo foo foo"));
    let cmd = SedCommand { pattern: "o".to_string(), replacement: "0".to_string(), flags: Some("g".to_string()) };
    assert_eq!(key_action_with(KeyKind::Enter, false, false, &s, Some(cmd)), edit("f00 f00 f00"));
}

#[test]
fn an_empty_pattern_matches_between_characters() {
    let cmd = SedCommand { pattern: String::new(), replacement: "-".to_string(), flags: None };
    assert_eq!(sed_apply(&cmd, "ab"), "ab".replace("", "-"));
    let cmd = SedCommand { pattern: String::new(), replacement: "-".to_string(), flags: Some("1".to_string()) };
    assert_eq!(sed_apply(&cmd, "ab"), "ab".replacen("", "-", 1));
    let cmd = SedCommand { pattern: String::new(), replacement: "-".to_string(), flags: Some("5".to_string()) };
    assert_eq!(sed_apply(&cmd, "ab"), "ab".replacen("", "-", 5));
    assert_eq!(sed_apply(&cmd, ""), "".replacen("", "-", 5));
}

fn by_regex(text: &str) -> Option<SedCommand> {
    let re = regex::Regex::new(r"^s/([^/]+)/([^/]+)(?:/(g|(?:\d+))?)?$").unwrap();
    re.captures(text).map(|g| SedCommand {
        pattern: g.get(1).unwrap().as_str().to_string(),
        replacement: g.get(2).unwrap().as_str().to_string(),
        flags: g.get(3).map(|m| m.as_str().to_string()),
    })
}

#[test]
fn edit_command_grammar() {
    assert_eq!(
        sed_parse("s/cat/dog/g"),
        Some(SedCommand { pattern: "cat".to_string(), replacement: "dog".to_string(), flags: Some("g".to_string()) })
    );
    assert_eq!(
        sed_parse("s/cat/dog"),
        Some(SedCommand { pattern: "cat".to_string(), replacement: "dog".to_string(), flags: None })
    );
    assert_eq!(
        sed_parse("s/cat/dog/"),
        Some(SedCommand { pattern: "cat".to_string(), replacement: "dog".to_string(), flags: None })
    );
    assert_eq!(
        sed_parse("s/a/b/\u{663}2"),
        Some(SedCommand { pattern: "a".to_string(), replacement: "b".to_string(), flags: Some("\u{663}2".to_string()) })
    );
    assert_eq!(sed_parse("s//dog/"), None);
    assert_eq!(sed_parse("s/cat//"), None);
    assert_eq!(sed_parse("s/cat/dog/x"), None);
    assert_eq!(sed_parse("s/cat/dog/g/"), None);
    assert_eq!(sed_parse("x/cat/dog"), None);
}

#[test]
fn edit_command_grammar_agrees_with_the_pattern() {
    for t in [
        "s/a/b", "s/a/b/", "s/a/b/g", "s/a/b/12", "s/a/b/1g", "s/a/b/gg", "s/a\nb/c/", "s/a/b/\u{664}",
        "s/a/b/\u{2155}", "s/", "s//", "s/a/", "s/a//", "", "s", "s/a/b/c/d", "S/a/b", " s/a/b", "s/a/b/ ",
    ] {
        assert_eq!(sed_parse(t), by_regex(t), "{:?}", t);
    }
}
