//! End-to-end tests: real SMF bytes in, a real zip archive out.

use std::io::Read;

use midly::num::{u15, u28, u4, u7};
use midly::{Format, Header, MetaMessage, MidiMessage, Smf, Timing, TrackEvent, TrackEventKind};

use midi_isolate::errors::PipelineError;
use midi_isolate::pipeline::process_file;

fn note_on(delta: u32, key: u8, vel: u8) -> TrackEvent<'static> {
    TrackEvent {
        delta: u28::new(delta),
        kind: TrackEventKind::Midi {
            channel: u4::new(0),
            message: MidiMessage::NoteOn { key: u7::new(key), vel: u7::new(vel) },
        },
    }
}

fn end_of_track() -> TrackEvent<'static> {
    TrackEvent { delta: u28::new(0), kind: TrackEventKind::Meta(MetaMessage::EndOfTrack) }
}

fn named_track(name: Option<&'static [u8]>, vels: &[u8]) -> Vec<TrackEvent<'static>> {
    let mut track = Vec::new();
    if let Some(name) = name {
        track.push(TrackEvent {
            delta: u28::new(0),
            kind: TrackEventKind::Meta(MetaMessage::TrackName(name)),
        });
    }
    for &vel in vels {
        track.push(note_on(10, 60, vel));
    }
    track.push(end_of_track());
    track
}

fn demo_smf() -> Vec<u8> {
    let header = Header::new(Format::Parallel, Timing::Metrical(u15::new(480)));
    let mut smf = Smf::new(header);
    smf.tracks.push(named_track(Some(b"Drums"), &[100, 15]));
    smf.tracks.push(named_track(None, &[90]));
    smf.tracks.push(named_track(Some(b"Lead"), &[64, 0]));
    let mut bytes = Vec::new();
    smf.write(&mut bytes).expect("writing the demo file failed");
    bytes
}

fn velocities(track: &[TrackEvent<'_>]) -> Vec<u8> {
    let mut out = Vec::new();
    for ev in track {
        if let TrackEventKind::Midi { message: MidiMessage::NoteOn { vel, .. }, .. } = ev.kind {
            out.push(vel.as_int());
        }
    }
    out
}

fn archive_entry(archive_bytes: &[u8], name: &str) -> Vec<u8> {
    let cursor = std::io::Cursor::new(archive_bytes.to_vec());
    let mut archive = zip::ZipArchive::new(cursor).expect("not a zip archive");
    let mut entry = archive.by_name(name).expect("entry not found");
    let mut data = Vec::new();
    entry.read_to_end(&mut data).expect("reading the entry failed");
    data
}

#[test]
fn end_to_end_demo() {
    let input = demo_smf();
    let result = process_file("demo.mid", &input, 20).expect("the pipeline failed");

    assert_eq!(result.zip_name, "demo");
    assert_eq!(
        result.file_names,
        vec!["demo_Drums.mid", "demo_track-1.mid", "demo_Lead.mid", "demo_All.mid"]
    );

    // In the variant for track 0, track 0 is untouched and the others are
    // lowered by 20, floored at 0.
    let drums = archive_entry(&result.zip_file, "demo_Drums.mid");
    let smf = Smf::parse(&drums).expect("entry is not valid SMF");
    assert_eq!(smf.tracks.len(), 3);
    assert_eq!(velocities(&smf.tracks[0]), vec![100, 15]);
    assert_eq!(velocities(&smf.tracks[1]), vec![70]);
    assert_eq!(velocities(&smf.tracks[2]), vec![44, 0]);

    // In the variant for track 2, only the others are lowered.
    let lead = archive_entry(&result.zip_file, "demo_Lead.mid");
    let smf = Smf::parse(&lead).expect("entry is not valid SMF");
    assert_eq!(velocities(&smf.tracks[0]), vec![80, 0]);
    assert_eq!(velocities(&smf.tracks[1]), vec![70]);
    assert_eq!(velocities(&smf.tracks[2]), vec![64, 0]);

    // The All entry is byte-identical to the input.
    let all = archive_entry(&result.zip_file, "demo_All.mid");
    assert_eq!(all, input);
}

#[test]
fn isolation_keeps_every_other_field() {
    let input = demo_smf();
    let result = process_file("demo.mid", &input, 20).expect("the pipeline failed");
    let original = Smf::parse(&input).expect("input is not valid SMF");
    let drums = archive_entry(&result.zip_file, "demo_Drums.mid");
    let smf = Smf::parse(&drums).expect("entry is not valid SMF");
    for (i, (orig_track, new_track)) in original.tracks.iter().zip(smf.tracks.iter()).enumerate() {
        assert_eq!(orig_track.len(), new_track.len());
        for (orig, new) in orig_track.iter().zip(new_track.iter()) {
            assert_eq!(orig.delta, new.delta);
            match (orig.kind, new.kind) {
                (
                    TrackEventKind::Midi { channel: c1, message: MidiMessage::NoteOn { key: k1, vel: v1 } },
                    TrackEventKind::Midi { channel: c2, message: MidiMessage::NoteOn { key: k2, vel: v2 } },
                ) => {
                    assert_eq!(c1, c2);
                    assert_eq!(k1, k2);
                    if i == 0 {
                        assert_eq!(v1, v2);
                    } else {
                        assert_eq!(v2.as_int(), v1.as_int().saturating_sub(20));
                    }
                }
                (a, b) => assert_eq!(a, b),
            }
        }
    }
}

#[test]
fn count_invariant_and_distinct_names() {
    let input = demo_smf();
    let result = process_file("demo.mid", &input, 5).expect("the pipeline failed");
    // Three tracks in, four entries out.
    assert_eq!(result.file_names.len(), 4);
    for i in 0..result.file_names.len() {
        for j in i + 1..result.file_names.len() {
            assert_ne!(result.file_names[i], result.file_names[j]);
        }
    }
    let cursor = std::io::Cursor::new(result.zip_file.clone());
    let mut archive = zip::ZipArchive::new(cursor).expect("not a zip archive");
    assert_eq!(archive.len(), 4);
    // The entries come in the order the variants were produced.
    for (i, expected) in result.file_names.iter().enumerate() {
        let entry = archive.by_index(i).expect("entry not found");
        assert_eq!(entry.name(), expected);
    }
}

#[test]
fn round_trip_identity() {
    let input = demo_smf();
    let result = process_file("demo.mid", &input, 127).expect("the pipeline failed");
    let all = archive_entry(&result.zip_file, "demo_All.mid");
    assert_eq!(all, input);
}

#[test]
fn missing_extension_fails() {
    let input = demo_smf();
    assert_eq!(process_file("song", &input, 30).unwrap_err(), PipelineError::MissingExtensionError);
}

#[test]
fn malformed_input_fails() {
    let truncated = vec![0x4d, 0x54, 0x68, 0x64, 0x00, 0x00];
    assert_eq!(
        process_file("song.mid", &truncated, 30).unwrap_err(),
        PipelineError::FormatError
    );
}

#[test]
fn colliding_track_names_fail_the_archive() {
    let header = Header::new(Format::Parallel, Timing::Metrical(u15::new(480)));
    let mut smf = Smf::new(header);
    smf.tracks.push(named_track(Some(b"Twin"), &[80]));
    smf.tracks.push(named_track(Some(b"Twin"), &[90]));
    let mut bytes = Vec::new();
    smf.write(&mut bytes).expect("writing the twin file failed");
    assert_eq!(
        process_file("twin.mid", &bytes, 10).unwrap_err(),
        PipelineError::ArchiveError
    );
}

#[test]
fn all_entry_is_verbatim_even_for_non_canonical_input() {
    // A hand-written single-track file with two explicit note-on status
    // bytes in a row; a re-encoder would compress the second one away with
    // running status, so only verbatim archiving reproduces these bytes.
    let mut input: Vec<u8> = Vec::new();
    input.extend_from_slice(b"MThd");
    input.extend_from_slice(&[0x00, 0x00, 0x00, 0x06, 0x00, 0x00, 0x00, 0x01, 0x01, 0xE0]);
    input.extend_from_slice(b"MTrk");
    input.extend_from_slice(&[0x00, 0x00, 0x00, 0x0C]);
    input.extend_from_slice(&[0x00, 0x90, 0x3C, 0x64]);
    input.extend_from_slice(&[0x00, 0x90, 0x3C, 0x00]);
    input.extend_from_slice(&[0x00, 0xFF, 0x2F, 0x00]);

    let mut re_encoded = Vec::new();
    Smf::parse(&input)
        .expect("input is not valid SMF")
        .write(&mut re_encoded)
        .expect("re-encoding failed");
    assert_ne!(re_encoded, input);

    let result = process_file("raw.mid", &input, 10).expect("the pipeline failed");
    let all = archive_entry(&result.zip_file, "raw_All.mid");
    assert_eq!(all, input);
}
