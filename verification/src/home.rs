//! The home screen: which page it shows beside the conversation list, and
//! which of the list's navigation buttons is highlighted.

use vstd::prelude::*;
use crate::text::str_eq;

verus! {

/// The page of the home screen picked in the conversation list.
#[derive(Debug, Clone, Copy, PartialEq, Eq, Structural)]
pub enum HomeSelection {
    Welcome,
    Friends,
}

impl Default for HomeSelection {
    fn default() -> (r: Self)
        ensures
            r == HomeSelection::Welcome,
    {
        HomeSelection::Welcome
    }
}

/// What the home screen shows beside the conversation list.
#[derive(Debug, PartialEq)]
pub enum HomePane {
    /// The open conversation with this id.
    Channel(String),
    Welcome,
    Friends,
}

/// [`HomePane`] as plain values.
pub enum HomePaneV {
    Channel(Seq<char>),
    Welcome,
    Friends,
}

impl View for HomePane {
    type V = HomePaneV;

    open spec fn view(&self) -> HomePaneV {
        match self {
            HomePane::Channel(id) => HomePaneV::Channel(id@),
            HomePane::Welcome => HomePaneV::Welcome,
            HomePane::Friends => HomePaneV::Friends,
        }
    }
}

/// The open conversation, if there is one, else the picked page.
pub open spec fn spec_home_pane(selected: Option<Seq<char>>, selection: HomeSelection) -> HomePaneV {
    match selected {
        Some(id) => HomePaneV::Channel(id),
        None => match selection {
            HomeSelection::Welcome => HomePaneV::Welcome,
            HomeSelection::Friends => HomePaneV::Friends,
        },
    }
}

/// What the home screen shows, given the open conversation (`selected`)
/// and the picked page.
pub fn home_pane(selected: Option<&str>, selection: HomeSelection) -> (r: HomePane)
    ensures
        r@ == spec_home_pane(
            match selected {
                Some(id) => Some(id@),
                None => None,
            },
            selection,
        ),
{
    match selected {
        Some(id) => HomePane::Channel(id.to_string()),
        None => match selection {
            HomeSelection::Welcome => HomePane::Welcome,
            HomeSelection::Friends => HomePane::Friends,
        },
    }
}

/// The navigation buttons at the top of the conversation list.
#[derive(Debug, Clone, Copy, PartialEq, Eq, Structural)]
pub enum NavButton {
    Home,
    Friends,
    SavedNotes,
}

/// Whether a navigation button is highlighted: Home and Friends while
/// their page is picked and no conversation is open, Saved Notes while the
/// saved-notes channel (`saved`, once known) is the open conversation.
pub open spec fn spec_nav_highlighted(
    button: NavButton,
    selection: HomeSelection,
    selected: Option<Seq<char>>,
    saved: Option<Seq<char>>,
) -> bool {
    match button {
        NavButton::Home => selection == HomeSelection::Welcome && selected is None,
        NavButton::Friends => selection == HomeSelection::Friends && selected is None,
        NavButton::SavedNotes => saved is Some && selected is Some && selected->0 == saved->0,
    }
}

/// Whether `button` is highlighted; `selected` is the open conversation and
/// `saved` the id of the saved-notes channel, where it is known.
pub fn nav_highlighted(button: NavButton, selection: HomeSelection, selected: Option<&str>, saved: Option<&str>) -> (r: bool)
    ensures
        r == spec_nav_highlighted(
            button,
            selection,
            match selected {
                Some(id) => Some(id@),
                None => None,
            },
            match saved {
                Some(id) => Some(id@),
                None => None,
            },
        ),
{
    match button {
        NavButton::Home => selection == HomeSelection::Welcome && selected.is_none(),
        NavButton::Friends => selection == HomeSelection::Friends && selected.is_none(),
        NavButton::SavedNotes => match (selected, saved) {
            (Some(a), Some(b)) => str_eq(a, b),
            _ => false,
        },
    }
}

/// The state a press of Home or Friends leaves: no conversation open, and
/// the button's page picked.
pub open spec fn spec_press_page(button: NavButton, selection: HomeSelection, selected: Option<Seq<char>>) -> (
    HomeSelection,
    Option<Seq<char>>,
) {
    match button {
        NavButton::Home => (HomeSelection::Welcome, None),
        NavButton::Friends => (HomeSelection::Friends, None),
        NavButton::SavedNotes => (selection, selected),
    }
}

/// Presses Home or Friends: closes the open conversation and picks the
/// button's page. Saved Notes opens a channel instead, which the caller
/// does, so here it changes nothing.
pub fn press_page(button: NavButton, selection: &mut HomeSelection, selected: &mut Option<String>)
    ensures
        (*final(selection), match *final(selected) {
            Some(id) => Some(id@),
            None => None,
        }) == spec_press_page(
            button,
            *old(selection),
            match *old(selected) {
                Some(id) => Some(id@),
                None => None,
            },
        ),
{
    match button {
        NavButton::Home => {
            *selection = HomeSelection::Welcome;
            *selected = None;
        },
        NavButton::Friends => {
            *selection = HomeSelection::Friends;
            *selected = None;
        },
        NavButton::SavedNotes => {},
    }
}

/// At most one navigation button is highlighted at a time.
pub proof fn law_one_nav_button_highlighted(
    a: NavButton,
    b: NavButton,
    selection: HomeSelection,
    selected: Option<Seq<char>>,
    saved: Option<Seq<char>>,
)
    requires
        spec_nav_highlighted(a, selection, selected, saved),
        spec_nav_highlighted(b, selection, selected, saved),
    ensures
        a == b,
{
}

/// Pressing Home or Friends highlights that button and shows its page.
pub proof fn law_pressed_page_is_shown(
    button: NavButton,
    selection: HomeSelection,
    selected: Option<Seq<char>>,
    saved: Option<Seq<char>>,
)
    requires
        button != NavButton::SavedNotes,
    ensures
        ({
            let (sel, open) = spec_press_page(button, selection, selected);
            &&& spec_nav_highlighted(button, sel, open, saved)
            &&& spec_home_pane(open, sel) == (if button == NavButton::Home {
                HomePaneV::Welcome
            } else {
                HomePaneV::Friends
            })
        }),
{
}

} // verus!
