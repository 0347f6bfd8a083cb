//! A verified model of Advanced SubStation Alpha (`.ass`) subtitle documents.
//!
//! The library holds the document model (script info, style, events), the
//! section extractor and the per-section decoders and encoders, the dialogue
//! table operations, the colour codec, and the SubRip (`.srt`) importer.
//! File reading and writing are left to the caller: every function here is a
//! pure transform over in-memory values, and each carries a contract that
//! Verus has checked.

pub mod color;
pub mod consts;
pub mod decode;
pub mod doc;
pub mod encode;
pub mod error;
pub mod events;
pub mod laws;
pub mod script_info;
pub mod srt;
pub mod text;
pub mod v4;

pub use color::{AssFileOptions, Rgb};
pub use doc::{AssFile, Components};
pub use error::{AssError, IndexNotFound};
pub use events::{Dialogue, Dialogues, Events};
pub use script_info::ScriptInfo;
pub use srt::{Srt, SrtData};
pub use v4::V4Format;
