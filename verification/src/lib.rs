//! Recording, remote control and transcription delivery for a terminal
//! speech-to-text recorder.
use vstd::prelude::*;

pub mod app;
pub mod commands;
pub mod config;
pub mod outside;
pub mod paths;
pub mod platform;
pub mod recording;
pub mod remote;
pub mod text;
pub mod transcription;

verus! {

} // verus!
