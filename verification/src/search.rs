//! Message search: the sort orders offered, and their labels.

use vstd::prelude::*;
use crate::text::{chars_of, string_of};

verus! {

/// How search results are ordered.
#[derive(PartialEq, Eq, Hash, Clone, Copy, Debug, Structural)]
pub enum MessageSort {
    Relevance,
    Latest,
    Oldest,
}

impl MessageSort {
    /// The label of the order on its button.
    pub open spec fn spec_label(self) -> Seq<char> {
        match self {
            MessageSort::Relevance => "Relevance"@,
            MessageSort::Latest => "Latest"@,
            MessageSort::Oldest => "Oldest"@,
        }
    }

    /// The label of the order on its button.
    pub fn label(self) -> (r: String)
        ensures
            r@ == self.spec_label(),
    {
        let s = match self {
            MessageSort::Relevance => "Relevance",
            MessageSort::Latest => "Latest",
            MessageSort::Oldest => "Oldest",
        };
        proof {
            reveal_strlit("Relevance");
            reveal_strlit("Latest");
            reveal_strlit("Oldest");
        }
        string_of(chars_of(s).as_slice())
    }

    /// The orders, as the buttons show them.
    pub fn all() -> (r: Vec<MessageSort>)
        ensures
            r@ == seq![MessageSort::Relevance, MessageSort::Latest, MessageSort::Oldest],
    {
        let v = vec![MessageSort::Relevance, MessageSort::Latest, MessageSort::Oldest];
        proof {
            assert(v@ =~= seq![MessageSort::Relevance, MessageSort::Latest, MessageSort::Oldest]);
        }
        v
    }
}

} // verus!
