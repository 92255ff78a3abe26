use stoat_components::home::{home_pane, nav_highlighted, press_page, HomePane, HomeSelection, NavButton};

#[test]
fn home_starts_on_the_welcome_page() {
    assert_eq!(HomeSelection::default(), HomeSelection::Welcome);
    assert_eq!(home_pane(None, HomeSelection::default()), HomePane::Welcome);
}

#[test]
fn an_open_conversation_is_shown_over_the_page() {
    assert_eq!(home_pane(Some("c1"), HomeSelection::Friends), HomePane::Channel("c1".to_string()));
    assert_eq!(home_pane(None, HomeSelection::Friends), HomePane::Friends);
}

#[test]
fn highlighted_nav_buttons() {
    assert!(nav_highlighted(NavButton::Home, HomeSelection::Welcome, None, Some("s")));
    assert!(!nav_highlighted(NavButton::Home, HomeSelection::Welcome, Some("c1"), Some("s")));
    assert!(!nav_highlighted(NavButton::Friends, HomeSelection::Welcome, None, Some("s")));
    assert!(nav_highlighted(NavButton::SavedNotes, HomeSelection::Friends, Some("s"), Some("s")));
    assert!(!nav_highlighted(NavButton::SavedNotes, HomeSelection::Friends, Some("c1"), Some("s")));
    assert!(!nav_highlighted(NavButton::SavedNotes, HomeSelection::Friends, Some("s"), None));
}

#[test]
fn pressing_friends_closes_the_conversation_and_shows_friends() {
    let mut selection = HomeSelection::Welcome;
    let mut selected = Some("c1".to_string());
    press_page(NavButton::Friends, &mut selection, &mut selected);
    assert_eq!(selection, HomeSelection::Friends);
    assert_eq!(selected, None);
    assert!(nav_highlighted(NavButton::Friends, selection, selected.as_deref(), Some("s")));
    assert!(!nav_highlighted(NavButton::Home, selection, selected.as_deref(), Some("s")));
    assert_eq!(home_pane(selected.as_deref(), selection), HomePane::Friends);
}

#[test]
fn pressing_saved_notes_changes_no_page() {
    let mut selection = HomeSelection::Friends;
    let mut selected = Some("c1".to_string());
    press_page(NavButton::SavedNotes, &mut selection, &mut selected);
    assert_eq!(selection, HomeSelection::Friends);
    assert_eq!(selected, Some("c1".to_string()));
}
