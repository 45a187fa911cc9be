//! Per-track MIDI practice files.
//!
//! Given a Standard MIDI File with several tracks, the library derives one
//! variant of the file per track: in the variant for track `i`, every note-on
//! velocity in the *other* tracks is lowered by a configurable amount, while
//! track `i` itself is kept untouched. Each variant gets a deterministic file
//! name, and all of them are bundled into a single zip archive — together with
//! one `All` entry holding the input bytes unchanged — and the ordered list of
//! entry names.

pub mod archive;
pub mod attenuate;
pub mod codec;
pub mod digits;
pub mod errors;
pub mod events;
pub mod laws;
pub mod namer;
pub mod names;
pub mod pipeline;
