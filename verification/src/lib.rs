//! Message-composition and rendering logic of the Stoat desktop client:
//! the markdown model and its parsers, the composer's reply and attachment
//! state, autocomplete, and the small text decisions the views are built from.

pub mod text;
pub mod markdown;
pub mod compose;
pub mod model;
pub mod textbox;
pub mod autocomplete;
pub mod login;
pub mod timestamp;
pub mod listing;
pub mod menus;
pub mod emoji;
pub mod links;
pub mod cards;
pub mod search;
pub mod gif;
pub mod messages;
pub mod voice;
pub mod dropdown;
pub mod home;
