//! Bundling the named variants into one zip archive held in memory.
//!
//! The container work is the zip crate's; this module wraps one `ZipWriter`
//! over an in-memory cursor and tracks, as a ghost sequence, which named
//! entries have been written into it.

use vstd::prelude::*;
use vstd::utf8::encode_utf8;
use crate::errors::PipelineError;

verus! {

/// A `zip::ZipWriter` over an in-memory cursor. The writer's type takes its
/// generics from `std::io` traits Verus does not know, so it is held behind
/// a private field; a value is described only through `zip_entries`.
#[verifier::external_body]
pub struct ArchiveWriter {
    inner: zip::ZipWriter<std::io::Cursor<Vec<u8>>>,
}

/// `zip::result::ZipError` is what the archive writer reports on failure.
#[verifier::external_type_specification]
#[verifier::external_body]
pub struct ExZipError(zip::result::ZipError);

/// `std::io::Error` is what writing into the archive reports on failure.
#[verifier::external_type_specification]
#[verifier::external_body]
pub struct ExIoError(std::io::Error);

/// The named entries written into the archive so far, in order: each entry
/// is its name and the bytes written under that name.
pub uninterp spec fn zip_entries(z: ArchiveWriter) -> Seq<(Seq<char>, Seq<u8>)>;

/// The bytes of the finished archive holding exactly the given entries.
pub uninterp spec fn zip_archive_bytes(entries: Seq<(Seq<char>, Seq<u8>)>) -> Seq<u8>;

/// Relies on `zip::ZipWriter::new`: a fresh writer holds no entries.
#[verifier::external_body]
fn zip_new() -> (z: ArchiveWriter)
    ensures
        zip_entries(z) == Seq::<(Seq<char>, Seq<u8>)>::empty(),
{
    ArchiveWriter { inner: zip::ZipWriter::new(std::io::Cursor::new(Vec::new())) }
}

/// The writer takes a new entry of this name: the name is not taken yet
/// and its UTF-8 form fits the format's 16-bit name-length field.
pub open spec fn accepts_name(entries: Seq<(Seq<char>, Seq<u8>)>, name: Seq<char>) -> bool {
    &&& forall|i: int| 0 <= i < entries.len() ==> (#[trigger] entries[i]).0 != name
    &&& encode_utf8(name).len() <= 0xFFFF
}

/// The writer takes these bytes for its open entry: the bytes are empty,
/// or an entry is open and stays within the format's 32-bit size field.
pub open spec fn accepts_bytes(entries: Seq<(Seq<char>, Seq<u8>)>, data: Seq<u8>) -> bool {
    data.len() == 0 || (entries.len() > 0 && entries.last().1.len() + data.len() <= 0xFFFF_FFFF)
}

/// The entry list after writing bytes into the entry opened last.
pub open spec fn entries_after_write(
    entries: Seq<(Seq<char>, Seq<u8>)>,
    data: Seq<u8>,
) -> Seq<(Seq<char>, Seq<u8>)> {
    if data.len() == 0 {
        entries
    } else {
        entries.update(entries.len() - 1, (entries.last().0, entries.last().1 + data))
    }
}

/// Relies on `zip::ZipWriter::start_file` with default options (the
/// system field pinned, so the bytes do not vary with the build's host):
/// it succeeds exactly when the name is not already in the archive and its
/// UTF-8 form fits the format's 16-bit name-length field, and on success
/// it opens one new, empty entry under the given name.
#[verifier::external_body]
fn zip_start(z: &mut ArchiveWriter, name: &str) -> (r: Result<(), zip::result::ZipError>)
    ensures
        r is Ok <==> accepts_name(zip_entries(*old(z)), name@),
        r is Ok ==> zip_entries(*final(z)) == zip_entries(*old(z)).push((name@, Seq::empty())),
{
    let options = zip::write::SimpleFileOptions::default().system(zip::System::Unix);
    z.inner.start_file(name, options)
}

/// Relies on `std::io::Write::write_all` on `zip::ZipWriter`, writing into
/// memory: it succeeds exactly when the bytes are empty, or an entry is
/// open and the entry stays within the format's 32-bit size field; on
/// success the bytes are appended to the entry opened last.
#[verifier::external_body]
fn zip_write(z: &mut ArchiveWriter, data: &[u8]) -> (r: Result<(), std::io::Error>)
    ensures
        r is Ok <==> accepts_bytes(zip_entries(*old(z)), data@),
        r is Ok ==> zip_entries(*final(z)) == entries_after_write(zip_entries(*old(z)), data@),
{
    std::io::Write::write_all(&mut z.inner, data)
}

/// Relies on `zip::ZipWriter::finish`, writing into memory: it cannot fail
/// (every name in the writer fits its length field, and an in-memory
/// cursor accepts every write and seek), and the returned buffer is the
/// finished archive holding exactly the entries written so far.
#[verifier::external_body]
fn zip_finish(z: ArchiveWriter) -> (r: Result<Vec<u8>, zip::result::ZipError>)
    ensures
        r is Ok,
        r matches Ok(bytes) ==> bytes@ == zip_archive_bytes(zip_entries(z)),
{
    z.inner.finish().map(|cursor| cursor.into_inner())
}

/// The view of a list of named buffers: each as its name and its bytes.
pub open spec fn entries_view(entries: Seq<(String, Vec<u8>)>) -> Seq<(Seq<char>, Seq<u8>)> {
    entries.map_values(|e: (String, Vec<u8>)| (e.0@, e.1@))
}

/// The entries the archive writer accepts outright: pairwise distinct
/// names, each name within the format's 16-bit name-length field, each
/// entry's bytes within its 32-bit size field.
pub open spec fn archive_accepts(entries: Seq<(Seq<char>, Seq<u8>)>) -> bool {
    &&& forall|i: int, j: int|
        0 <= i < j < entries.len() ==> entries[i].0 != entries[j].0
    &&& forall|i: int|
        0 <= i < entries.len() ==> encode_utf8((#[trigger] entries[i]).0).len() <= 0xFFFF
            && entries[i].1.len() <= 0xFFFF_FFFF
}

/// Writes each named buffer as one archive entry, in the order given, and
/// returns the finished archive's bytes. It succeeds exactly on the
/// entries the writer accepts — pairwise distinct names within the
/// format's limits — so a built archive never holds two entries of one
/// name; a failing write, or two entries colliding on one name, is
/// answered with `ArchiveError`.
pub fn build_archive(entries: &Vec<(String, Vec<u8>)>) -> (r: Result<Vec<u8>, PipelineError>)
    ensures
        r matches Ok(bytes) ==> bytes@ == zip_archive_bytes(entries_view(entries@)),
        r is Ok <==> archive_accepts(entries_view(entries@)),
        r is Ok ==> forall|i: int, j: int|
            0 <= i < j < entries@.len() ==> entries_view(entries@)[i].0 != entries_view(
                entries@,
            )[j].0,
        r matches Err(e) ==> e == PipelineError::ArchiveError,
{
    let ghost view = entries_view(entries@);
    let mut z = zip_new();
    let mut i: usize = 0;
    while i < entries.len()
        invariant
            i <= entries.len(),
            view == entries_view(entries@),
            view.len() == entries@.len(),
            forall|k: int| 0 <= k < entries@.len() ==> #[trigger] view[k] == (
                entries@[k].0@,
                entries@[k].1@,
            ),
            zip_entries(z) =~= view.take(i as int),
            forall|k: int, l: int| 0 <= k < l < i ==> view[k].0 != view[l].0,
            forall|k: int|
                0 <= k < i ==> encode_utf8((#[trigger] view[k]).0).len() <= 0xFFFF
                    && view[k].1.len() <= 0xFFFF_FFFF,
        decreases entries.len() - i,
    {
        let entry = &entries[i];
        let ghost before = zip_entries(z);
        match zip_start(&mut z, entry.0.as_str()) {
            Ok(()) => {},
            Err(_) => {
                proof {
                    if archive_accepts(view) {
                        assert(encode_utf8(view[i as int].0).len() <= 0xFFFF);
                        assert(forall|k: int|
                            0 <= k < i ==> (#[trigger] before[k]).0 == view[k].0 && view[k].0
                                != view[i as int].0);
                        assert(accepts_name(before, entry.0@));
                        assert(false);
                    }
                }
                return Err(PipelineError::ArchiveError);
            },
        }
        let ghost opened = before.push((entry.0@, Seq::<u8>::empty()));
        proof {
            assert(zip_entries(z) == opened);
            assert(opened.last().1.len() == 0);
            assert(accepts_name(before, entry.0@));
            let vi = view[i as int];
            assert(forall|k: int|
                0 <= k < i ==> (#[trigger] view[k]).0 == before[k].0 && before[k].0 != vi.0);
        }
        match zip_write(&mut z, entry.1.as_slice()) {
            Ok(()) => {},
            Err(_) => {
                proof {
                    if archive_accepts(view) {
                        assert(view[i as int].1.len() <= 0xFFFF_FFFF);
                        assert(accepts_bytes(opened, entry.1@));
                        assert(false);
                    }
                }
                return Err(PipelineError::ArchiveError);
            },
        }
        proof {
            assert(encode_utf8(view[i as int].0).len() <= 0xFFFF);
            if entry.1@.len() == 0 {
                assert(zip_entries(z) == opened);
                assert(view[i as int].1 =~= Seq::<u8>::empty());
                assert(zip_entries(z) =~= view.take(i + 1));
            } else {
                assert(accepts_bytes(opened, entry.1@));
                assert(view[i as int].1.len() <= 0xFFFF_FFFF);
                assert(zip_entries(z) =~= opened.update(
                    opened.len() - 1,
                    (entry.0@, Seq::<u8>::empty() + entry.1@),
                ));
                assert(Seq::<u8>::empty() + entry.1@ =~= entry.1@);
                assert(zip_entries(z) =~= view.take(i + 1));
            }
        }
        i += 1;
    }
    proof {
        assert(view.take(entries@.len() as int) =~= view);
        assert(archive_accepts(view));
    }
    match zip_finish(z) {
        Ok(bytes) => Ok(bytes),
        Err(_) => {
            proof {
                assert(false);
            }
            Err(PipelineError::ArchiveError)
        },
    }
}

} // verus!
