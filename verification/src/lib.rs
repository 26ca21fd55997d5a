//! The logic of the rusteze meeting recorder: argument rules, session metadata
//! and its crash recovery, the recording lifecycle, capture-backend protocols and
//! audio formats, each with a contract that Verus proves.
pub mod text;
pub mod native_helper;
pub mod cli;
pub mod meeting;
pub mod transcription;
pub mod audio;
pub mod windows;
pub mod unsupported;
pub mod linux;
pub mod prepare_audio;
pub mod lifecycle;
pub mod recovery;
pub mod metadata_json;
