//! Reading and writing the SMF binary format.
//!
//! The binary work itself is midly's; this module wraps its reader and
//! writer and converts between its event values and the pipeline's own
//! model, one event at a time.

use vstd::prelude::*;
use crate::errors::PipelineError;
use crate::events::{Event, EventKind, MidiDoc, wf_event};

verus! {

/// Whether midly accepts the bytes as a well-formed SMF stream.
pub uninterp spec fn smf_parses(raw: Seq<u8>) -> bool;

/// The header and tracks of events that midly decodes the bytes to, when it
/// accepts them.
pub uninterp spec fn smf_parsed(raw: Seq<u8>) -> (
    midly::Header,
    Seq<Seq<midly::TrackEvent<'static>>>,
);

/// The midly event value that `to_raw` builds for one event of the model.
pub uninterp spec fn raw_event(e: Event) -> midly::TrackEvent;

/// The event of the model that `from_raw` reads off one midly event.
pub uninterp spec fn abs_event(ev: midly::TrackEvent) -> Event;

/// Whether midly can serialize the header and tracks of events: per its
/// documentation this fails only beyond the format's size limits.
pub uninterp spec fn smf_encodable(
    header: midly::Header,
    tracks: Seq<Seq<midly::TrackEvent>>,
) -> bool;

/// The bytes midly serializes a header and tracks of events to.
pub uninterp spec fn smf_encoding(
    header: midly::Header,
    tracks: Seq<Seq<midly::TrackEvent>>,
) -> Seq<u8>;

/// The bytes a header and tracks of the model serialize to.
pub open spec fn doc_encoding(header: midly::Header, tracks: Seq<Seq<Event<'_>>>) -> Seq<u8> {
    smf_encoding(
        header,
        tracks.map_values(|t: Seq<Event<'_>>| t.map_values(|e: Event<'_>| raw_event(e))),
    )
}

/// Whether a header and tracks of the model can be serialized.
pub open spec fn doc_encodable(header: midly::Header, tracks: Seq<Seq<Event<'_>>>) -> bool {
    smf_encodable(
        header,
        tracks.map_values(|t: Seq<Event<'_>>| t.map_values(|e: Event<'_>| raw_event(e))),
    )
}

/// The header of the document midly decodes the bytes to.
pub open spec fn decoded_header(raw: Seq<u8>) -> midly::Header {
    smf_parsed(raw).0
}

/// The tracks of the model's document for the given bytes: midly's decoded
/// events, each read into the model.
pub open spec fn decoded_tracks(raw: Seq<u8>) -> Seq<Seq<Event<'static>>> {
    smf_parsed(raw).1.map_values(
        |t: Seq<midly::TrackEvent<'static>>|
            t.map_values(|ev: midly::TrackEvent<'static>| abs_event(ev)),
    )
}

/// Relies on `midly::Smf::parse`: it accepts exactly the well-formed SMF
/// streams, and the header and tracks of events it hands back are a
/// function of the bytes alone.
#[verifier::external_body]
fn parse_smf<'a>(raw: &'a [u8]) -> (r: Result<
    (midly::Header, Vec<Vec<midly::TrackEvent<'a>>>),
    midly::Error,
>)
    ensures
        r is Ok <==> smf_parses(raw@),
        r matches Ok(p) ==> p.0 == smf_parsed(raw@).0 && p.1@.map_values(
            |t: Vec<midly::TrackEvent<'a>>| t@,
        ) == smf_parsed(raw@).1,
{
    midly::Smf::parse(raw).map(|smf| (smf.header, smf.tracks))
}

/// Relies on `midly::TrackEvent` being plain data: the delta time and the
/// payload fields are read off the value, and `u4::as_int`, `u7::as_int` and
/// `u28::as_int` stay inside 4, 7 and 28 bits.
#[verifier::external_body]
fn from_raw<'a>(ev: &midly::TrackEvent<'a>) -> (e: Event<'a>)
    ensures
        wf_event(e),
        e == abs_event(*ev),
        raw_event(e) == *ev,
{
    let kind = match ev.kind {
        midly::TrackEventKind::Midi {
            channel,
            message: midly::MidiMessage::NoteOn { key, vel },
        } => EventKind::NoteOn { channel: channel.as_int(), key: key.as_int(), vel: vel.as_int() },
        midly::TrackEventKind::Meta(midly::MetaMessage::TrackName(name)) => EventKind::TrackName(
            name,
        ),
        other => EventKind::Other(other),
    };
    Event { delta: ev.delta.as_int(), kind }
}

/// Relies on `u4::new`, `u7::new` and `u28::new`: on values inside the
/// 4-, 7- and 28-bit ranges they are exact, so this inverts `from_raw`.
#[verifier::external_body]
fn to_raw<'a>(e: Event<'a>) -> (r: midly::TrackEvent<'a>)
    requires
        wf_event(e),
    ensures
        r == raw_event(e),
{
    let kind = match e.kind {
        EventKind::NoteOn { channel, key, vel } => midly::TrackEventKind::Midi {
            channel: midly::num::u4::new(channel),
            message: midly::MidiMessage::NoteOn {
                key: midly::num::u7::new(key),
                vel: midly::num::u7::new(vel),
            },
        },
        EventKind::TrackName(name) => midly::TrackEventKind::Meta(
            midly::MetaMessage::TrackName(name),
        ),
        EventKind::Other(other) => other,
    };
    midly::TrackEvent { delta: midly::num::u28::new(e.delta), kind }
}

/// Relies on `midly::write`: serialization succeeds or fails, and on
/// success produces its bytes, as a function of the header and the events
/// alone; writing into a `Vec` itself cannot fail, so failure comes only
/// from the format's deterministic size limits.
#[verifier::external_body]
fn write_smf<'a>(
    header: &midly::Header,
    tracks: &Vec<Vec<midly::TrackEvent<'a>>>,
) -> (r: Result<Vec<u8>, &'static str>)
    ensures
        r is Ok <==> smf_encodable(
            *header,
            tracks@.map_values(|t: Vec<midly::TrackEvent<'a>>| t@),
        ),
        r matches Ok(bytes) ==> bytes@ == smf_encoding(
            *header,
            tracks@.map_values(|t: Vec<midly::TrackEvent<'a>>| t@),
        ),
{
    let mut buf: Vec<u8> = Vec::new();
    match midly::write(header, tracks.iter(), &mut buf) {
        Ok(()) => Ok(buf),
        Err(e) => Err(e),
    }
}

/// Decodes a byte buffer into a structured document. Exactly the buffers
/// midly rejects are answered with `FormatError`; a decoded document is
/// well-formed and is the model's reading of what midly decoded the bytes
/// to.
pub fn decode_doc<'a>(raw: &'a [u8]) -> (r: Result<MidiDoc<'a>, PipelineError>)
    ensures
        r is Ok <==> smf_parses(raw@),
        r matches Ok(doc) ==> {
            &&& doc.wf()
            &&& doc.header == decoded_header(raw@)
            &&& doc.tracks_view() == decoded_tracks(raw@)
        },
        r matches Err(e) ==> e == PipelineError::FormatError,
{
    let (header, raw_tracks) = match parse_smf(raw) {
        Ok(parts) => parts,
        Err(_) => {
            return Err(PipelineError::FormatError);
        },
    };
    let ghost parsed = smf_parsed(raw@);
    let mut tracks: Vec<Vec<Event<'a>>> = Vec::new();
    let mut i: usize = 0;
    while i < raw_tracks.len()
        invariant
            i <= raw_tracks.len(),
            raw_tracks@.map_values(|t: Vec<midly::TrackEvent<'a>>| t@) == parsed.1,
            parsed == smf_parsed(raw@),
            tracks@.len() == i,
            forall|j: int| 0 <= j < i ==> crate::events::wf_track(#[trigger] tracks@[j]@),
            forall|j: int| 0 <= j < i ==> #[trigger] tracks@[j]@ == parsed.1[j].map_values(
                |ev: midly::TrackEvent<'static>| abs_event(ev),
            ),
        decreases raw_tracks.len() - i,
    {
        let raw_track = &raw_tracks[i];
        let mut track: Vec<Event<'a>> = Vec::new();
        let mut k: usize = 0;
        while k < raw_track.len()
            invariant
                k <= raw_track.len(),
                track@.len() == k,
                forall|j: int| 0 <= j < k ==> wf_event(#[trigger] track@[j]),
                forall|j: int| 0 <= j < k ==> #[trigger] track@[j] == abs_event(raw_track@[j]),
            decreases raw_track.len() - k,
        {
            track.push(from_raw(&raw_track[k]));
            k += 1;
        }
        proof {
            assert(raw_track@ == parsed.1[i as int]);
            assert(track@ =~= parsed.1[i as int].map_values(
                |ev: midly::TrackEvent<'static>| abs_event(ev),
            ));
        }
        tracks.push(track);
        i += 1;
    }
    let doc = MidiDoc { header, tracks };
    proof {
        assert(doc.tracks_view() =~= decoded_tracks(raw@));
    }
    Ok(doc)
}

/// Re-serializes a document. It succeeds exactly when the document is
/// encodable (a failure is possible only beyond the format's size limits),
/// and on success the bytes are exactly the document's encoding; a failure
/// is answered with `FormatError`.
pub fn encode_doc<'a>(doc: &MidiDoc<'a>) -> (r: Result<Vec<u8>, PipelineError>)
    requires
        doc.wf(),
    ensures
        r is Ok <==> doc_encodable(doc.header, doc.tracks_view()),
        r matches Ok(bytes) ==> bytes@ == doc_encoding(doc.header, doc.tracks_view()),
        r matches Err(e) ==> e == PipelineError::FormatError,
{
    let mut raw_tracks: Vec<Vec<midly::TrackEvent<'a>>> = Vec::new();
    let mut i: usize = 0;
    while i < doc.tracks.len()
        invariant
            i <= doc.tracks@.len(),
            doc.wf(),
            raw_tracks@.len() == i,
            forall|j: int| 0 <= j < i ==> #[trigger] raw_tracks@[j]@ == doc.tracks@[j]@.map_values(
                |e: Event<'a>| raw_event(e),
            ),
        decreases doc.tracks.len() - i,
    {
        let track = &doc.tracks[i];
        let mut raw_track: Vec<midly::TrackEvent<'a>> = Vec::new();
        let mut k: usize = 0;
        while k < track.len()
            invariant
                k <= track.len(),
                crate::events::wf_track(track@),
                raw_track@ =~= track@.take(k as int).map_values(|e: Event<'a>| raw_event(e)),
            decreases track.len() - k,
        {
            raw_track.push(to_raw(track[k]));
            proof {
                assert(track@.take(k + 1).map_values(|e: Event<'a>| raw_event(e)) =~= track@.take(
                    k as int,
                ).map_values(|e: Event<'a>| raw_event(e)).push(raw_event(track@[k as int])));
            }
            k += 1;
        }
        proof {
            assert(track@.take(track@.len() as int) =~= track@);
        }
        raw_tracks.push(raw_track);
        i += 1;
    }
    proof {
        assert(raw_tracks@.map_values(|t: Vec<midly::TrackEvent<'a>>| t@)
            =~= doc.tracks_view().map_values(
            |t: Seq<Event<'a>>| t.map_values(|e: Event<'a>| raw_event(e)),
        ));
    }
    match write_smf(&doc.header, &raw_tracks) {
        Ok(bytes) => Ok(bytes),
        Err(_) => Err(PipelineError::FormatError),
    }
}

} // verus!
