//! A small domain model for Western tonal music — notes, scales, chords and
//! voicings — together with a deterministic translator that lowers a composed
//! arrangement (tracks of named clips) into a textual SuperCollider program.

pub mod note;
pub mod scale;
pub mod chord;
pub mod duration;
pub mod clip;
pub mod track;
pub mod arrangement;
pub mod render;
pub mod translate;
