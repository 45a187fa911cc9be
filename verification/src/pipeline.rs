//! The end-to-end transform: one named, encoded variant per track, plus
//! the input bytes themselves as the final `All` entry, all bundled into
//! one archive.

use vstd::prelude::*;
use crate::archive::{archive_accepts, build_archive, entries_view, zip_archive_bytes};
use crate::attenuate::{attenuate, attenuated_track};
use crate::codec::{
    decode_doc, decoded_header, decoded_tracks, doc_encodable, doc_encoding, encode_doc,
    smf_parses,
};
use crate::errors::PipelineError;
use crate::events::{Event, MidiDoc, wf_track};
use crate::namer::{label_spec, track_label};
use crate::names::{build_variant_name, ext_of, has_dot, split_name, stem_of, variant_name};

verus! {

/// One derived document together with its computed output file name.
pub struct Variant<'a> {
    pub name: String,
    pub doc: MidiDoc<'a>,
}

/// What one finished invocation hands back: the archive's base name, the
/// ordered entry names, and the archive bytes.
#[derive(Debug)]
pub struct MidiProcessResult {
    pub zip_name: String,
    pub file_names: Vec<String>,
    pub zip_file: Vec<u8>,
}

/// The tracks of the variant for track `i`: track `i` exactly as in the
/// original, every other track attenuated.
pub open spec fn variant_tracks(
    tracks: Seq<Seq<Event<'_>>>,
    i: int,
    amount: u8,
) -> Seq<Seq<Event<'_>>> {
    Seq::new(
        tracks.len(),
        |j: int|
            if j == i {
                tracks[j]
            } else {
                attenuated_track(tracks[j], amount)
            },
    )
}

/// The ordered output names: one per track, then the `All` entry.
pub open spec fn variant_names(
    tracks: Seq<Seq<Event<'_>>>,
    stem: Seq<char>,
    ext: Seq<char>,
) -> Seq<Seq<char>> {
    Seq::new(
        tracks.len() + 1,
        |i: int|
            if i < tracks.len() {
                variant_name(stem, label_spec(tracks[i], i as nat), ext)
            } else {
                variant_name(stem, "All"@, ext)
            },
    )
}

/// The ordered archive entries: each output name next to the encoding of
/// its document — the per-track variants first, and last the `All` entry
/// holding the input bytes themselves, byte for byte.
pub open spec fn expected_entries(
    header: midly::Header,
    tracks: Seq<Seq<Event<'_>>>,
    stem: Seq<char>,
    ext: Seq<char>,
    amount: u8,
    all_bytes: Seq<u8>,
) -> Seq<(Seq<char>, Seq<u8>)> {
    Seq::new(
        tracks.len() + 1,
        |i: int|
            if i < tracks.len() {
                (
                    variant_name(stem, label_spec(tracks[i], i as nat), ext),
                    doc_encoding(header, variant_tracks(tracks, i, amount)),
                )
            } else {
                (variant_name(stem, "All"@, ext), all_bytes)
            },
    )
}

/// Every per-track variant of the document can be serialized.
pub open spec fn variants_encodable(
    header: midly::Header,
    tracks: Seq<Seq<Event<'_>>>,
    amount: u8,
) -> bool {
    forall|i: int|
        0 <= i < tracks.len() ==> doc_encodable(
            header,
            #[trigger] variant_tracks(tracks, i, amount),
        )
}

/// A plain element-for-element copy of a track.
fn copy_track<'a>(t: &Vec<Event<'a>>) -> (r: Vec<Event<'a>>)
    ensures
        r@ == t@,
{
    let mut r: Vec<Event<'a>> = Vec::new();
    let mut i: usize = 0;
    while i < t.len()
        invariant
            i <= t.len(),
            r@ =~= t@.take(i as int),
        decreases t.len() - i,
    {
        r.push(t[i]);
        i += 1;
    }
    proof {
        assert(t@.take(t@.len() as int) =~= t@);
    }
    r
}

/// Derives the per-track variants of the document, in ascending track
/// order: for each track index `i` a full copy in which every *other*
/// track is attenuated and track `i` is untouched, named
/// `{stem}_{label}.{ext}` after track `i`'s display name.
pub fn plan_variants<'a>(doc: &MidiDoc<'a>, stem: &str, ext: &str, amount: u8) -> (r: Vec<
    Variant<'a>,
>)
    requires
        doc.wf(),
    ensures
        r@.len() == doc.tracks@.len(),
        forall|i: int|
            0 <= i < doc.tracks@.len() ==> {
                &&& (#[trigger] r@[i]).name@ == variant_name(
                    stem@,
                    label_spec(doc.tracks_view()[i], i as nat),
                    ext@,
                )
                &&& r@[i].doc.header == doc.header
                &&& r@[i].doc.tracks_view() == variant_tracks(doc.tracks_view(), i, amount)
                &&& r@[i].doc.wf()
            },
{
    let n = doc.tracks.len();
    let mut r: Vec<Variant<'a>> = Vec::new();
    let mut i: usize = 0;
    while i < n
        invariant
            n == doc.tracks@.len(),
            doc.wf(),
            i <= n,
            r@.len() == i,
            forall|k: int|
                0 <= k < i ==> {
                    &&& (#[trigger] r@[k]).name@ == variant_name(
                        stem@,
                        label_spec(doc.tracks_view()[k], k as nat),
                        ext@,
                    )
                    &&& r@[k].doc.header == doc.header
                    &&& r@[k].doc.tracks_view() == variant_tracks(doc.tracks_view(), k, amount)
                    &&& r@[k].doc.wf()
                },
        decreases n - i,
    {
        let label = track_label(&doc.tracks[i], i);
        let name = build_variant_name(stem, label.as_str(), ext);
        let mut tracks: Vec<Vec<Event<'a>>> = Vec::new();
        let mut j: usize = 0;
        while j < n
            invariant
                n == doc.tracks@.len(),
                doc.wf(),
                i < n,
                j <= n,
                tracks@.len() == j,
                forall|k: int|
                    0 <= k < j ==> #[trigger] tracks@[k]@ == variant_tracks(
                        doc.tracks_view(),
                        i as int,
                        amount,
                    )[k],
            decreases n - j,
        {
            let t = if j == i {
                copy_track(&doc.tracks[j])
            } else {
                attenuate(&doc.tracks[j], amount)
            };
            tracks.push(t);
            proof {
                assert(doc.tracks_view()[j as int] == doc.tracks@[j as int]@);
                assert(wf_track(doc.tracks@[j as int]@));
            }
            j += 1;
        }
        let vdoc = MidiDoc { header: doc.header, tracks };
        proof {
            assert(vdoc.tracks_view() =~= variant_tracks(doc.tracks_view(), i as int, amount));
            assert forall|k: int| 0 <= k < vdoc.tracks@.len() implies wf_track(
                #[trigger] vdoc.tracks@[k]@,
            ) by {
                assert(vdoc.tracks_view()[k] == vdoc.tracks@[k]@);
                assert(wf_track(doc.tracks@[k]@));
                if k != i {
                    assert(vdoc.tracks@[k]@ == attenuated_track(doc.tracks@[k]@, amount));
                }
            }
            assert(label_spec(doc.tracks@[i as int]@, i as nat) == label_spec(
                doc.tracks_view()[i as int],
                i as nat,
            ));
        }
        r.push(Variant { name, doc: vdoc });
        i += 1;
    }
    r
}

/// Runs the whole per-document pipeline: derives the per-track variants,
/// encodes each, and bundles them together with the input bytes themselves
/// as the final `All` entry. It fails with `FormatError` exactly when some
/// variant cannot be serialized; entries the archive accepts always build;
/// and on success the outcome holds the stem as base name, the output
/// names in order, and the archive with exactly those entries.
pub fn process_doc<'a>(
    doc: &MidiDoc<'a>,
    original: &[u8],
    stem: &str,
    ext: &str,
    amount: u8,
) -> (r: Result<MidiProcessResult, PipelineError>)
    requires
        doc.wf(),
    ensures
        r matches Ok(out) ==> {
            &&& out.zip_name@ == stem@
            &&& out.file_names@.map_values(|s: String| s@) == variant_names(
                doc.tracks_view(),
                stem@,
                ext@,
            )
            &&& out.zip_file@ == zip_archive_bytes(
                expected_entries(doc.header, doc.tracks_view(), stem@, ext@, amount, original@),
            )
        },
        r == Err::<MidiProcessResult, PipelineError>(PipelineError::FormatError)
            <==> !variants_encodable(doc.header, doc.tracks_view(), amount),
        r is Ok <==> variants_encodable(doc.header, doc.tracks_view(), amount) && archive_accepts(
            expected_entries(doc.header, doc.tracks_view(), stem@, ext@, amount, original@),
        ),
        r is Ok ==> forall|i: int, j: int|
            0 <= i < j < variant_names(doc.tracks_view(), stem@, ext@).len() ==> variant_names(
                doc.tracks_view(),
                stem@,
                ext@,
            )[i] != variant_names(doc.tracks_view(), stem@, ext@)[j],
        r matches Err(e) ==> e == PipelineError::FormatError || e == PipelineError::ArchiveError,
{
    let variants = plan_variants(doc, stem, ext, amount);
    let ghost expected = expected_entries(
        doc.header,
        doc.tracks_view(),
        stem@,
        ext@,
        amount,
        original@,
    );
    let mut entries: Vec<(String, Vec<u8>)> = Vec::new();
    let mut file_names: Vec<String> = Vec::new();
    let n = variants.len();
    let mut i: usize = 0;
    while i < n
        invariant
            n == variants@.len(),
            variants@.len() == doc.tracks@.len(),
            doc.wf(),
            expected == expected_entries(
                doc.header,
                doc.tracks_view(),
                stem@,
                ext@,
                amount,
                original@,
            ),
            forall|k: int|
                0 <= k < variants@.len() ==> {
                    &&& (#[trigger] variants@[k]).name@ == variant_name(
                        stem@,
                        label_spec(doc.tracks_view()[k], k as nat),
                        ext@,
                    )
                    &&& variants@[k].doc.header == doc.header
                    &&& variants@[k].doc.tracks_view() == variant_tracks(
                        doc.tracks_view(),
                        k,
                        amount,
                    )
                    &&& variants@[k].doc.wf()
                },
            i <= n,
            entries@.len() == i,
            file_names@.len() == i,
            forall|k: int| 0 <= k < i ==> #[trigger] entries_view(entries@)[k] == expected[k],
            forall|k: int| 0 <= k < i ==> #[trigger] file_names@[k]@ == expected[k].0,
            forall|k: int|
                0 <= k < i ==> doc_encodable(
                    doc.header,
                    #[trigger] variant_tracks(doc.tracks_view(), k, amount),
                ),
        decreases n - i,
    {
        let v = &variants[i];
        let bytes = match encode_doc(&v.doc) {
            Ok(bytes) => bytes,
            Err(e) => {
                proof {
                    assert(!doc_encodable(
                        doc.header,
                        variant_tracks(doc.tracks_view(), i as int, amount),
                    ));
                }
                return Err(e);
            },
        };
        file_names.push(v.name.clone());
        let ghost pre = entries@;
        entries.push((v.name.clone(), bytes));
        proof {
            assert forall|k: int| 0 <= k < i implies #[trigger] entries_view(entries@)[k]
                == expected[k] by {
                assert(entries@[k] == pre[k]);
                assert(entries_view(pre)[k] == expected[k]);
            }
            assert(entries_view(entries@)[i as int] == (variants@[i as int].name@, bytes@));
            assert(bytes@ == doc_encoding(
                doc.header,
                variant_tracks(doc.tracks_view(), i as int, amount),
            ));
            assert(entries_view(entries@)[i as int] == expected[i as int]);
        }
        i += 1;
    }
    let all_name = build_variant_name(stem, "All", ext);
    file_names.push(all_name.clone());
    let ghost pre = entries@;
    entries.push((all_name, vstd::slice::slice_to_vec(original)));
    proof {
        assert forall|k: int| 0 <= k < n implies #[trigger] entries_view(entries@)[k]
            == expected[k] by {
            assert(entries@[k] == pre[k]);
            assert(entries_view(pre)[k] == expected[k]);
        }
        assert(entries_view(entries@)[n as int] == expected[n as int]);
        assert(entries_view(entries@) =~= expected);
        assert(file_names@.map_values(|s: String| s@) =~= variant_names(
            doc.tracks_view(),
            stem@,
            ext@,
        ));
    }
    let archive = match build_archive(&entries) {
        Ok(bytes) => bytes,
        Err(e) => {
            return Err(e);
        },
    };
    let zip_name = stem.to_owned();
    proof {
        let names = variant_names(doc.tracks_view(), stem@, ext@);
        assert forall|a: int, b: int| 0 <= a < b < names.len() implies names[a] != names[b] by {
            assert(entries_view(entries@)[a].0 == names[a]);
            assert(entries_view(entries@)[b].0 == names[b]);
        }
    }
    Ok(MidiProcessResult { zip_name, file_names, zip_file: archive })
}

/// The whole invocation, from an input file to an archive: the name is
/// split at its last dot, the bytes are decoded, and the variants are
/// derived, encoded and bundled; the final `All` entry holds the input
/// bytes byte-identically. A name without a dot is answered with
/// `MissingExtensionError` (and nothing is decoded); bytes that are no SMF
/// stream with `FormatError`; inputs whose variants all serialize and
/// whose entries the archive accepts always succeed; and on success the
/// outcome is exactly the pipeline's transform of the decoded document.
pub fn process_file<'a>(name: &str, data: &'a [u8], amount: u8) -> (r: Result<
    MidiProcessResult,
    PipelineError,
>)
    ensures
        r == Err::<MidiProcessResult, PipelineError>(PipelineError::MissingExtensionError)
            <==> !has_dot(name@),
        has_dot(name@) ==> (r == Err::<MidiProcessResult, PipelineError>(
            PipelineError::FormatError,
        ) <==> !smf_parses(data@) || !variants_encodable(
            decoded_header(data@),
            decoded_tracks(data@),
            amount,
        )),
        r is Ok <==> has_dot(name@) && smf_parses(data@) && variants_encodable(
            decoded_header(data@),
            decoded_tracks(data@),
            amount,
        ) && archive_accepts(
            expected_entries(
                decoded_header(data@),
                decoded_tracks(data@),
                stem_of(name@),
                ext_of(name@),
                amount,
                data@,
            ),
        ),
        r is Ok ==> forall|i: int, j: int|
            0 <= i < j < variant_names(decoded_tracks(data@), stem_of(name@), ext_of(name@)).len()
                ==> variant_names(decoded_tracks(data@), stem_of(name@), ext_of(name@))[i]
                != variant_names(decoded_tracks(data@), stem_of(name@), ext_of(name@))[j],
        r matches Ok(out) ==> {
            &&& smf_parses(data@)
            &&& out.zip_name@ == stem_of(name@)
            &&& out.file_names@.map_values(|s: String| s@) == variant_names(
                decoded_tracks(data@),
                stem_of(name@),
                ext_of(name@),
            )
            &&& out.zip_file@ == zip_archive_bytes(
                expected_entries(
                    decoded_header(data@),
                    decoded_tracks(data@),
                    stem_of(name@),
                    ext_of(name@),
                    amount,
                    data@,
                ),
            )
        },
{
    let (stem, ext) = match split_name(name) {
        Ok(parts) => parts,
        Err(e) => {
            return Err(e);
        },
    };
    let doc = match decode_doc(data) {
        Ok(doc) => doc,
        Err(e) => {
            return Err(e);
        },
    };
    process_doc(&doc, data, stem.as_str(), ext.as_str(), amount)
}

} // verus!
