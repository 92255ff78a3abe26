//! The markdown model: inline parsing of mentions, emoji, links and spoilers,
//! and the block structure built from a CommonMark event stream.

pub mod inline;
pub mod blocks;
pub mod view;
