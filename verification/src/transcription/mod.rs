//! Transcription by a provider's programming interface.
pub mod api;

pub use crate::transcription::api::{
    TranscriptionConfig, TranscriptionModel, TranscriptionProvider, TranscriptionResponse,
};
