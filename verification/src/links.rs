//! Reading URLs: the parts the client looks at, and the invite links it
//! recognises.

use vstd::prelude::*;
use crate::text::str_eq;

verus! {

/// The parts of a parsed URL the client reads: scheme, host, and path
/// segments (none for a URL that cannot be a base).
#[derive(Debug, PartialEq)]
pub struct UrlParts {
    pub scheme: String,
    pub host: Option<String>,
    pub segments: Option<Vec<String>>,
}

/// The parts as plain values.
pub type UrlPartsV = (Seq<char>, Option<Seq<char>>, Option<Seq<Seq<char>>>);

impl View for UrlParts {
    type V = UrlPartsV;

    open spec fn view(&self) -> UrlPartsV {
        (
            self.scheme@,
            match self.host {
                Some(h) => Some(h@),
                None => None,
            },
            match self.segments {
                Some(s) => Some(s@.map_values(|x: String| x@)),
                None => None,
            },
        )
    }
}

/// The view of an optional parse.
pub open spec fn url_view(u: Option<UrlParts>) -> Option<UrlPartsV> {
    match u {
        Some(p) => Some(p@),
        None => None,
    }
}

/// What the URL parser reads from `text`: its scheme, host and path
/// segments, or `None` where it rejects `text`.
pub uninterp spec fn parsed_url(text: Seq<char>) -> Option<UrlPartsV>;

/// `url::Url::parse` on `text`, then `scheme`, `host_str` and
/// `path_segments`. The contract claims only that the result is the named
/// value for `text`: what the parser accepts and how it normalises is left
/// to the `url` crate.
#[verifier::external_body]
pub(crate) fn parse_url(text: &str) -> (r: Option<UrlParts>)
    ensures
        url_view(r) == parsed_url(text@),
{
    match url::Url::parse(text) {
        Ok(u) => Some(UrlParts {
            scheme: u.scheme().to_string(),
            host: u.host_str().map(|h| h.to_string()),
            segments: u.path_segments().map(|s| s.map(|p| p.to_string()).collect()),
        }),
        Err(_) => None,
    }
}

/// The invite code a link carries: `stoat.chat/invite/CODE`, or
/// `stt.gg/CODE`.
pub open spec fn spec_invite_code(u: Option<UrlPartsV>) -> Option<Seq<char>> {
    match u {
        Some(p) => match (p.1, p.2) {
            (Some(host), Some(segs)) => if host == "stoat.chat"@ && segs.len() >= 2 && segs[0] == "invite"@ {
                Some(segs[1])
            } else if host == "stt.gg"@ && segs.len() >= 1 {
                Some(segs[0])
            } else {
                None
            },
            _ => None,
        },
        None => None,
    }
}

/// The invite code carried by the parsed link `u`, if any.
pub fn invite_code_of(u: &Option<UrlParts>) -> (r: Option<String>)
    ensures
        match r {
            Some(c) => spec_invite_code(url_view(*u)) == Some(c@),
            None => spec_invite_code(url_view(*u)) is None,
        },
{
    match u {
        Some(p) => match (&p.host, &p.segments) {
            (Some(host), Some(segs)) => {
                let main = "stoat.chat";
                let short = "stt.gg";
                let invite = "invite";
                proof {
                    reveal_strlit("stoat.chat");
                    reveal_strlit("stt.gg");
                    reveal_strlit("invite");
                }
                if str_eq(host.as_str(), main) && segs.len() >= 2 && str_eq(segs[0].as_str(), invite) {
                    Some(segs[1].clone())
                } else if str_eq(host.as_str(), short) && segs.len() >= 1 {
                    Some(segs[0].clone())
                } else {
                    None
                }
            },
            _ => None,
        },
        None => None,
    }
}

/// The invite code of the link `text`, if it is an invite link.
pub fn invite_code(text: &str) -> (r: Option<String>)
    ensures
        match r {
            Some(c) => spec_invite_code(parsed_url(text@)) == Some(c@),
            None => spec_invite_code(parsed_url(text@)) is None,
        },
{
    let u = parse_url(text);
    invite_code_of(&u)
}

} // verus!
