//! Voice rooms: whether the user's microphone counts as muted, and what
//! the microphone button does.

use vstd::prelude::*;

verus! {

/// What a published track carries.
#[derive(Debug, PartialEq, Eq, Clone, Copy, Structural)]
pub enum TrackKind {
    Audio,
    Video,
}

/// Where a published track comes from.
#[derive(Debug, PartialEq, Eq, Clone, Copy, Structural)]
pub enum TrackSource {
    Unknown,
    Camera,
    Microphone,
    Screenshare,
    ScreenshareAudio,
}

/// A track the user publishes, as far as the controls look at it.
#[derive(Debug, PartialEq, Eq, Clone, Copy, Structural)]
pub struct TrackInfo {
    pub kind: TrackKind,
    pub muted: bool,
    pub source: TrackSource,
}

/// A muted microphone-like track: muted audio that is not a screen share's.
pub open spec fn muted_voice(t: TrackInfo) -> bool {
    t.kind == TrackKind::Audio && t.muted && t.source != TrackSource::ScreenshareAudio
}

/// A live microphone-like track: unmuted audio that is not a screen
/// share's.
pub open spec fn live_voice(t: TrackInfo) -> bool {
    t.kind == TrackKind::Audio && !t.muted && t.source != TrackSource::ScreenshareAudio
}

/// The microphone counts as muted when every published track is a muted
/// voice track (so also when nothing is published).
pub open spec fn spec_is_muted(tracks: Seq<TrackInfo>) -> bool {
    forall|k: int| 0 <= k < tracks.len() ==> muted_voice(#[trigger] tracks[k])
}

/// Whether the microphone counts as muted.
pub fn is_muted(tracks: &Vec<TrackInfo>) -> (r: bool)
    ensures
        r == spec_is_muted(tracks@),
{
    let mut i: usize = 0;
    while i < tracks.len()
        invariant
            i <= tracks.len(),
            forall|k: int| 0 <= k < i ==> muted_voice(#[trigger] tracks@[k]),
        decreases tracks.len() - i,
    {
        let t = tracks[i];
        if !(t.kind == TrackKind::Audio && t.muted && t.source != TrackSource::ScreenshareAudio) {
            return false;
        }
        i = i + 1;
    }
    true
}

/// What pressing the microphone button does.
#[derive(Debug, PartialEq, Eq, Clone, Copy, Structural)]
pub enum MicAction {
    /// Publish a new microphone track.
    Publish,
    /// Unpublish the track at this position and stop recording.
    Unpublish(usize),
    Nothing,
}

/// The microphone button: while muted it publishes a microphone track;
/// otherwise it unpublishes the first live voice track, if there is one.
pub open spec fn spec_mic_action(tracks: Seq<TrackInfo>) -> MicAction {
    if spec_is_muted(tracks) {
        MicAction::Publish
    } else if exists|k: int| 0 <= k < tracks.len() && live_voice(tracks[k]) {
        MicAction::Unpublish(
            (choose|k: int| 0 <= k < tracks.len() && live_voice(tracks[k]) && forall|j: int| 0 <= j < k ==> !live_voice(tracks[j])) as usize,
        )
    } else {
        MicAction::Nothing
    }
}

/// What pressing the microphone button does, given the published tracks.
pub fn mic_action(tracks: &Vec<TrackInfo>) -> (r: MicAction)
    ensures
        r == spec_mic_action(tracks@),
{
    if is_muted(tracks) {
        return MicAction::Publish;
    }
    let mut i: usize = 0;
    while i < tracks.len()
        invariant
            i <= tracks.len(),
            !spec_is_muted(tracks@),
            forall|k: int| 0 <= k < i ==> !live_voice(#[trigger] tracks@[k]),
        decreases tracks.len() - i,
    {
        let t = tracks[i];
        if t.kind == TrackKind::Audio && !t.muted && t.source != TrackSource::ScreenshareAudio {
            proof {
                let s = tracks@;
                let k = i as int;
                let c = choose|c: int| 0 <= c < s.len() && live_voice(s[c]) && forall|j: int| 0 <= j < c ==> !live_voice(s[j]);
                assert(0 <= k < s.len() && live_voice(s[k]) && forall|j: int| 0 <= j < k ==> !live_voice(s[j]));
                if c < k {
                    assert(!live_voice(s[c]));
                } else if c > k {
                    assert(!live_voice(s[k]));
                }
            }
            return MicAction::Unpublish(i);
        }
        i = i + 1;
    }
    MicAction::Nothing
}

} // verus!
