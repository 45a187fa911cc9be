//! Unit tests of the attenuator, the namer and the name splitting.

use midi_isolate::attenuate::attenuate;
use midi_isolate::digits::usize_to_string;
use midi_isolate::errors::PipelineError;
use midi_isolate::events::{Event, EventKind};
use midi_isolate::namer::track_label;
use midi_isolate::names::{build_variant_name, split_name};

fn note_on(vel: u8) -> Event<'static> {
    Event { delta: 0, kind: EventKind::NoteOn { channel: 3, key: 60, vel } }
}

#[test]
fn saturation_floors_at_zero() {
    let track = vec![note_on(10)];
    let out = attenuate(&track, 30);
    assert_eq!(out.len(), 1);
    match out[0].kind {
        EventKind::NoteOn { channel, key, vel } => {
            assert_eq!(channel, 3);
            assert_eq!(key, 60);
            assert_eq!(vel, 0);
        }
        _ => panic!("expected a note-on"),
    }
}

#[test]
fn attenuating_by_zero_keeps_velocity() {
    let track = vec![note_on(127)];
    let out = attenuate(&track, 0);
    match out[0].kind {
        EventKind::NoteOn { vel, .. } => assert_eq!(vel, 127),
        _ => panic!("expected a note-on"),
    }
}

#[test]
fn attenuate_leaves_other_events_alone() {
    let name: &[u8] = b"Keys";
    let track = vec![
        Event { delta: 7, kind: EventKind::TrackName(name) },
        note_on(100),
        Event {
            delta: 11,
            kind: EventKind::Other(midly::TrackEventKind::Meta(midly::MetaMessage::EndOfTrack)),
        },
    ];
    let out = attenuate(&track, 40);
    assert_eq!(out.len(), 3);
    assert_eq!(out[0].delta, 7);
    match out[0].kind {
        EventKind::TrackName(p) => assert_eq!(p, b"Keys"),
        _ => panic!("expected the track name"),
    }
    match out[1].kind {
        EventKind::NoteOn { vel, .. } => assert_eq!(vel, 60),
        _ => panic!("expected a note-on"),
    }
    assert_eq!(out[2].delta, 11);
    match out[2].kind {
        EventKind::Other(midly::TrackEventKind::Meta(midly::MetaMessage::EndOfTrack)) => {}
        _ => panic!("expected the end-of-track marker"),
    }
}

#[test]
fn unnamed_track_falls_back_to_position() {
    let track = vec![note_on(64)];
    assert_eq!(track_label(&track, 2), "track-2");
}

#[test]
fn first_track_name_wins() {
    let first: &[u8] = b"Bass";
    let second: &[u8] = b"Later";
    let track = vec![
        note_on(64),
        Event { delta: 0, kind: EventKind::TrackName(first) },
        Event { delta: 0, kind: EventKind::TrackName(second) },
    ];
    assert_eq!(track_label(&track, 0), "Bass");
}

#[test]
fn invalid_text_falls_back() {
    let bad: &[u8] = &[0xff, 0xfe, 0x20];
    let track = vec![Event { delta: 0, kind: EventKind::TrackName(bad) }];
    assert_eq!(track_label(&track, 0), "track-0");
}

#[test]
fn split_name_takes_last_dot() {
    let (stem, ext) = split_name("archive.tar.gz").unwrap();
    assert_eq!(stem, "archive.tar");
    assert_eq!(ext, "gz");
}

#[test]
fn split_name_without_dot_fails() {
    assert_eq!(split_name("song").unwrap_err(), PipelineError::MissingExtensionError);
}

#[test]
fn variant_name_layout() {
    assert_eq!(build_variant_name("demo", "Drums", "mid"), "demo_Drums.mid");
}

#[test]
fn decimal_rendering() {
    assert_eq!(usize_to_string(0), "0");
    assert_eq!(usize_to_string(7), "7");
    assert_eq!(usize_to_string(42), "42");
    assert_eq!(usize_to_string(120), "120");
}
