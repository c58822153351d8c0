//! Audio capture, its display, and the conversion of what was recorded.
pub mod audio;
pub mod clock;
pub mod devices;
pub mod ffmpeg;
pub mod layout;
pub mod meter;
pub mod palette;
pub mod pulse;
pub mod saving;
pub mod transcription_animation;
pub mod typing;
pub mod ui;

pub use crate::recording::audio::{AudioRecorder, RecordedAudio};
pub use crate::recording::ffmpeg::find_ffmpeg;
pub use crate::recording::transcription_animation::TranscriptionAnimation;
pub use crate::recording::ui::{OsttTui, RecordingCommand};
