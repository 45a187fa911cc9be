//! The document model the pipeline works on.
//!
//! Only what the pipeline inspects is held structurally: note-on velocities
//! (which it lowers) and track-name meta payloads (which it reads). Every
//! other event kind is carried through opaquely, exactly as the reader
//! produced it, so it can be written back unchanged.

use vstd::prelude::*;

verus! {

/// `midly::TrackEventKind` carries every event kind this pipeline does not
/// inspect; a value of it is opaque here and only carried through.
#[verifier::external_type_specification]
#[verifier::external_body]
pub struct ExTrackEventKind<'a>(midly::TrackEventKind<'a>);

/// `midly::TrackEvent` is an event as the reader hands it out: a delta time
/// plus a kind.
#[verifier::external_type_specification]
#[verifier::external_body]
pub struct ExTrackEvent<'a>(midly::TrackEvent<'a>);

/// `midly::Header` holds the format type and timing division of an SMF
/// document; the pipeline preserves it without looking inside.
#[verifier::external_type_specification]
#[verifier::external_body]
pub struct ExHeader(midly::Header);

/// `midly::Error` is what the SMF reader reports on malformed input.
#[verifier::external_type_specification]
#[verifier::external_body]
pub struct ExError(midly::Error);

/// The payload of one timed track event, as far as the pipeline cares.
#[derive(Clone, Copy)]
pub enum EventKind<'a> {
    /// A channel-voice note-on message: the one payload whose velocity the
    /// attenuator rewrites.
    NoteOn { channel: u8, key: u8, vel: u8 },
    /// A track-name meta payload: the bytes the namer reads.
    TrackName(&'a [u8]),
    /// Any other payload, carried through byte-for-byte.
    Other(midly::TrackEventKind<'a>),
}

/// One timed event of a track.
#[derive(Clone, Copy)]
pub struct Event<'a> {
    /// MIDI ticks after the previous event of the same track.
    pub delta: u32,
    pub kind: EventKind<'a>,
}

/// A structured SMF document: a header plus ordered tracks of timed events.
pub struct MidiDoc<'a> {
    pub header: midly::Header,
    pub tracks: Vec<Vec<Event<'a>>>,
}

/// The fields of an event stay inside the ranges the SMF format gives them:
/// velocities and keys are 7-bit, channels 4-bit, delta times 28-bit.
pub open spec fn wf_event(e: Event<'_>) -> bool {
    &&& e.delta < 0x1000_0000
    &&& match e.kind {
        EventKind::NoteOn { channel, key, vel } => channel < 16 && key < 128 && vel < 128,
        _ => true,
    }
}

/// Every event of the track is well-formed.
pub open spec fn wf_track(t: Seq<Event<'_>>) -> bool {
    forall|i: int| 0 <= i < t.len() ==> wf_event(#[trigger] t[i])
}

impl<'a> MidiDoc<'a> {
    /// The tracks as a sequence of event sequences.
    pub open spec fn tracks_view(self) -> Seq<Seq<Event<'a>>> {
        self.tracks@.map_values(|t: Vec<Event<'a>>| t@)
    }

    /// Every event of every track is well-formed.
    pub open spec fn wf(self) -> bool {
        forall|i: int| 0 <= i < self.tracks@.len() ==> wf_track(#[trigger] self.tracks@[i]@)
    }
}

} // verus!
