//! Selective lowering of note-on velocities.

use vstd::prelude::*;
use crate::events::{Event, EventKind, wf_event, wf_track};

verus! {

/// A velocity lowered by `amount`, floored at zero: the arithmetic never
/// wraps below the 7-bit domain.
pub open spec fn attenuated_vel(vel: u8, amount: u8) -> u8 {
    if vel >= amount {
        (vel - amount) as u8
    } else {
        0
    }
}

/// What the attenuator makes of one event: a note-on gets its velocity
/// lowered, every other payload — and every delta time — stays as it is.
pub open spec fn attenuated_event(e: Event<'_>, amount: u8) -> Event<'_> {
    match e.kind {
        EventKind::NoteOn { channel, key, vel } => Event {
            delta: e.delta,
            kind: EventKind::NoteOn { channel, key, vel: attenuated_vel(vel, amount) },
        },
        _ => e,
    }
}

/// What the attenuator makes of a whole track, event by event, in order.
pub open spec fn attenuated_track(t: Seq<Event<'_>>, amount: u8) -> Seq<Event<'_>> {
    t.map_values(|e: Event<'_>| attenuated_event(e, amount))
}

/// Returns a new track in which every note-on velocity is replaced by
/// `max(0, vel - amount)` while everything else — order, delta times, keys,
/// channels, other payloads — is kept exactly. The input is not touched.
pub fn attenuate<'a>(track: &Vec<Event<'a>>, amount: u8) -> (r: Vec<Event<'a>>)
    ensures
        r@ == attenuated_track(track@, amount),
        wf_track(track@) ==> wf_track(r@),
{
    let mut r: Vec<Event<'a>> = Vec::new();
    let mut i: usize = 0;
    while i < track.len()
        invariant
            i <= track.len(),
            r@ =~= attenuated_track(track@, amount).take(i as int),
        decreases track.len() - i,
    {
        let e = track[i];
        let out = match e.kind {
            EventKind::NoteOn { channel, key, vel } => {
                let lowered = if vel >= amount {
                    vel - amount
                } else {
                    0
                };
                Event { delta: e.delta, kind: EventKind::NoteOn { channel, key, vel: lowered } }
            },
            _ => e,
        };
        r.push(out);
        proof {
            assert(out == attenuated_event(track@[i as int], amount));
            assert(r@ =~= attenuated_track(track@, amount).take(i + 1));
        }
        i += 1;
    }
    proof {
        assert(r@ =~= attenuated_track(track@, amount));
        if wf_track(track@) {
            assert forall|j: int| 0 <= j < r@.len() implies wf_event(#[trigger] r@[j]) by {
                assert(wf_event(track@[j]));
            }
        }
    }
    r
}

} // verus!
