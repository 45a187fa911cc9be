//! The properties the pipeline promises, stated over the spec model and
//! proved once and for all.

use vstd::prelude::*;
use crate::attenuate::{attenuated_event, attenuated_track, attenuated_vel};
use crate::events::{Event, EventKind};
use crate::namer::{fallback_label, first_track_name, label_spec};
use crate::names::variant_name;
use crate::pipeline::{expected_entries, variant_names, variant_tracks};

verus! {

/// Law: in the variant for track `i`, track `i` is exactly the original,
/// and in every other track each event keeps its delta time and payload
/// except that a note-on's velocity becomes `max(0, vel - amount)`.
pub proof fn lemma_isolation(tracks: Seq<Seq<Event<'_>>>, i: int, amount: u8)
    requires
        0 <= i < tracks.len(),
    ensures
        variant_tracks(tracks, i, amount).len() == tracks.len(),
        variant_tracks(tracks, i, amount)[i] == tracks[i],
        forall|j: int, k: int|
            0 <= j < tracks.len() && j != i && 0 <= k < tracks[j].len() ==> {
                let e = tracks[j][k];
                let a = #[trigger] variant_tracks(tracks, i, amount)[j][k];
                &&& variant_tracks(tracks, i, amount)[j].len() == tracks[j].len()
                &&& a.delta == e.delta
                &&& match e.kind {
                    EventKind::NoteOn { channel, key, vel } => a.kind == (EventKind::NoteOn {
                        channel,
                        key,
                        vel: attenuated_vel(vel, amount),
                    }),
                    _ => a.kind == e.kind,
                }
            },
{
    assert forall|j: int, k: int|
        0 <= j < tracks.len() && j != i && 0 <= k < tracks[j].len() implies {
        let e = tracks[j][k];
        let a = #[trigger] variant_tracks(tracks, i, amount)[j][k];
        &&& variant_tracks(tracks, i, amount)[j].len() == tracks[j].len()
        &&& a.delta == e.delta
        &&& match e.kind {
            EventKind::NoteOn { channel, key, vel } => a.kind == (EventKind::NoteOn {
                channel,
                key,
                vel: attenuated_vel(vel, amount),
            }),
            _ => a.kind == e.kind,
        }
    } by {
        assert(variant_tracks(tracks, i, amount)[j] == attenuated_track(tracks[j], amount));
        assert(variant_tracks(tracks, i, amount)[j][k] == attenuated_event(tracks[j][k], amount));
    }
}

/// Law: attenuating by nothing changes nothing: a track attenuated by
/// amount `0` is the original, event for event.
pub proof fn lemma_attenuate_zero(t: Seq<Event<'_>>)
    ensures
        attenuated_track(t, 0) == t,
{
    assert(attenuated_track(t, 0) =~= t);
}

/// Law: with amount `0` every variant is the unmodified document, track
/// for track.
pub proof fn lemma_variant_zero(tracks: Seq<Seq<Event<'_>>>, i: int)
    ensures
        variant_tracks(tracks, i, 0) == tracks,
{
    assert forall|j: int| 0 <= j < tracks.len() implies #[trigger] variant_tracks(tracks, i, 0)[j]
        == tracks[j] by {
        if j != i {
            lemma_attenuate_zero(tracks[j]);
        }
    }
    assert(variant_tracks(tracks, i, 0) =~= tracks);
}

/// Law: one invocation's entries are the document's track count plus one,
/// and the last of them — the `All` entry — holds the input bytes
/// themselves, byte for byte, with no attenuation applied anywhere.
pub proof fn lemma_all_entry_unmodified(
    header: midly::Header,
    tracks: Seq<Seq<Event<'_>>>,
    stem: Seq<char>,
    ext: Seq<char>,
    amount: u8,
    all_bytes: Seq<u8>,
)
    ensures
        expected_entries(header, tracks, stem, ext, amount, all_bytes).len() == tracks.len() + 1,
        expected_entries(header, tracks, stem, ext, amount, all_bytes).last() == (
            variant_name(stem, "All"@, ext),
            all_bytes,
        ),
{
}

/// Names built from one stem and extension agree only when their labels
/// agree.
pub proof fn lemma_variant_name_injective(
    stem: Seq<char>,
    ext: Seq<char>,
    l1: Seq<char>,
    l2: Seq<char>,
)
    requires
        variant_name(stem, l1, ext) == variant_name(stem, l2, ext),
    ensures
        l1 == l2,
{
    reveal_strlit("_");
    reveal_strlit(".");
    let n1 = variant_name(stem, l1, ext);
    let n2 = variant_name(stem, l2, ext);
    assert(n1.len() == stem.len() + 1 + l1.len() + 1 + ext.len());
    assert(n2.len() == stem.len() + 1 + l2.len() + 1 + ext.len());
    assert(l1.len() == l2.len());
    assert forall|k: int| 0 <= k < l1.len() implies l1[k] == l2[k] by {
        assert(n1[stem.len() + "_"@.len() + k] == l1[k]);
        assert(n2[stem.len() + "_"@.len() + k] == l2[k]);
    }
    assert(l1 =~= l2);
}

/// Law: with pairwise distinct track labels, none of them `All`, the
/// entry names of one invocation are pairwise distinct. (Two tracks that
/// declare the same name collide by design and are answered with an
/// archive error instead.)
pub proof fn lemma_entry_names_distinct(tracks: Seq<Seq<Event<'_>>>, stem: Seq<char>, ext: Seq<char>)
    requires
        forall|i: int, j: int|
            0 <= i < j < tracks.len() ==> label_spec(tracks[i], i as nat) != label_spec(
                tracks[j],
                j as nat,
            ),
        forall|i: int| 0 <= i < tracks.len() ==> label_spec(#[trigger] tracks[i], i as nat) != "All"@,
    ensures
        forall|i: int, j: int|
            0 <= i < j < variant_names(tracks, stem, ext).len() ==> variant_names(
                tracks,
                stem,
                ext,
            )[i] != variant_names(tracks, stem, ext)[j],
{
    let names = variant_names(tracks, stem, ext);
    assert forall|i: int, j: int| 0 <= i < j < names.len() implies names[i] != names[j] by {
        if names[i] == names[j] {
            if j < tracks.len() {
                lemma_variant_name_injective(
                    stem,
                    ext,
                    label_spec(tracks[i], i as nat),
                    label_spec(tracks[j], j as nat),
                );
            } else {
                lemma_variant_name_injective(stem, ext, label_spec(tracks[i], i as nat), "All"@);
            }
        }
    }
}

/// Law: a track without any track-name meta event is labelled with the
/// positional fallback, whatever its index.
pub proof fn lemma_fallback_label(t: Seq<Event<'_>>, index: nat)
    requires
        forall|k: int| 0 <= k < t.len() ==> !((#[trigger] t[k]).kind matches EventKind::TrackName(
            _,
        )),
    ensures
        label_spec(t, index) == fallback_label(index),
    decreases t.len(),
{
    if t.len() > 0 {
        let rest = t.drop_first();
        assert forall|k: int| 0 <= k < rest.len() implies !((#[trigger] rest[k]).kind
            matches EventKind::TrackName(_)) by {
            assert(rest[k] == t[k + 1]);
        }
        lemma_fallback_label(rest, index);
    }
}

/// Law: the first track-name meta event decides the label; later ones in
/// the same track never matter.
pub proof fn lemma_first_name_wins(t: Seq<Event<'_>>, i: int, p: &[u8])
    requires
        0 <= i < t.len(),
        t[i].kind == EventKind::TrackName(p),
        forall|k: int| 0 <= k < i ==> !((#[trigger] t[k]).kind matches EventKind::TrackName(_)),
    ensures
        first_track_name(t) == Some(p@),
    decreases i,
{
    if i == 0 {
    } else {
        assert(t.drop_first()[i - 1] == t[i]);
        assert forall|k: int| 0 <= k < i - 1 implies !((#[trigger] t.drop_first()[k]).kind
            matches EventKind::TrackName(_)) by {
            assert(t.drop_first()[k] == t[k + 1]);
        }
        lemma_first_name_wins(t.drop_first(), i - 1, p);
    }
}

} // verus!
