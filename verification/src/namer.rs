//! Display names for tracks.
//!
//! A track is labelled after the first track-name meta payload it carries,
//! when that payload is valid text. A track without one — or whose first one
//! is not valid text — falls back to the positional label `track-{index}`.
//! Later track-name events in the same track never matter.

use vstd::prelude::*;
use vstd::utf8::{valid_utf8, decode_utf8};
use crate::digits::{dec_str, usize_to_string};
use crate::events::{Event, EventKind};

verus! {

/// The payload of the first track-name meta event of the track, if any.
pub open spec fn first_track_name(t: Seq<Event<'_>>) -> Option<Seq<u8>>
    decreases t.len(),
{
    if t.len() == 0 {
        None
    } else {
        match t[0].kind {
            EventKind::TrackName(p) => Some(p@),
            _ => first_track_name(t.drop_first()),
        }
    }
}

/// The positional fallback label for a track at `index`.
pub open spec fn fallback_label(index: nat) -> Seq<char> {
    "track-"@ + dec_str(index)
}

/// The display name of a track at `index`: the decoding of its first
/// track-name payload when there is one and it is valid text, and the
/// positional fallback otherwise.
pub open spec fn label_spec(t: Seq<Event<'_>>, index: nat) -> Seq<char> {
    match first_track_name(t) {
        Some(p) => if valid_utf8(p) {
            decode_utf8(p)
        } else {
            fallback_label(index)
        },
        None => fallback_label(index),
    }
}

/// Relies on `core::str::from_utf8`: it accepts exactly the valid UTF-8 byte
/// sequences, and the characters of the returned slice are their decoding.
#[verifier::external_body]
fn utf8_to_string(bytes: &[u8]) -> (r: Option<String>)
    ensures
        r is Some <==> valid_utf8(bytes@),
        r matches Some(s) ==> s@ == decode_utf8(bytes@),
{
    match core::str::from_utf8(bytes) {
        Ok(s) => Some(s.to_string()),
        Err(_) => None,
    }
}

/// Builds the positional fallback label `track-{index}`.
fn fallback_name(index: usize) -> (r: String)
    ensures
        r@ == fallback_label(index as nat),
{
    let mut r = String::new();
    r.append("track-");
    let digits = usize_to_string(index);
    r.append(digits.as_str());
    proof {
        assert(r@ =~= fallback_label(index as nat));
    }
    r
}

/// The display name for the track at `index`: its declared name when its
/// first track-name payload is valid text, and `track-{index}` otherwise.
pub fn track_label(track: &Vec<Event<'_>>, index: usize) -> (r: String)
    ensures
        r@ == label_spec(track@, index as nat),
{
    let mut i: usize = 0;
    proof {
        assert(track@.skip(0) =~= track@);
    }
    while i < track.len()
        invariant
            i <= track.len(),
            first_track_name(track@) == first_track_name(track@.skip(i as int)),
            forall|j: int| 0 <= j < i ==> !(#[trigger] track@[j].kind matches
                EventKind::TrackName(_)),
        decreases track.len() - i,
    {
        let e = track[i];
        match e.kind {
            EventKind::TrackName(p) => {
                proof {
                    assert(track@.skip(i as int)[0] == track@[i as int]);
                    assert(first_track_name(track@) == Some(p@));
                }
                match utf8_to_string(p) {
                    Some(s) => {
                        return s;
                    },
                    None => {
                        return fallback_name(index);
                    },
                }
            },
            _ => {},
        }
        proof {
            assert(track@.skip(i as int).drop_first() =~= track@.skip(i + 1));
            assert(track@.skip(i as int)[0] == track@[i as int]);
        }
        i += 1;
    }
    proof {
        assert(track@.skip(i as int).len() == 0);
        assert(first_track_name(track@) is None);
    }
    fallback_name(index)
}

} // verus!
