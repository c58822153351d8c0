//! What the configuration file holds.
use vstd::prelude::*;
use vstd::string::*;

verus! {

/// What the recorder shows while it records.
#[derive(Debug, Clone, Copy, PartialEq, Eq, Structural)]
pub enum VisualizationType {
    Waveform,
    Spectrum,
}

impl Default for VisualizationType {
    /// The spectrum.
    fn default() -> (r: Self)
        ensures
            r == VisualizationType::Spectrum,
    {
        VisualizationType::Spectrum
    }
}

impl VisualizationType {
    /// The name by which the configuration file and the user know it.
    pub fn as_str(self) -> (r: &'static str)
        ensures
            r@ == match self {
                VisualizationType::Waveform => "waveform"@,
                VisualizationType::Spectrum => "spectrum"@,
            },
    {
        match self {
            VisualizationType::Waveform => "waveform",
            VisualizationType::Spectrum => "spectrum",
        }
    }
}

/// The settings of the recording.
#[derive(Debug)]
pub struct AudioConfig {
    /// The input device: a name, a position, or `default`.
    pub device: String,
    /// The sample rate to ask for, in hertz.
    pub sample_rate: u32,
    /// From which peak volume on the peak is highlighted, in percent.
    pub peak_volume_threshold: u8,
    /// The level that counts as full volume, in decibels.
    pub reference_level_db: i8,
    /// The codec and the options of the saved recording.
    pub output_format: String,
    /// What to show while recording.
    pub visualization: VisualizationType,
}

/// What the configuration file sets for the transcription.
#[derive(Debug)]
pub struct TranscriptionOverrideConfig {
    pub provider: Option<String>,
    pub model: Option<String>,
    pub endpoint: Option<String>,
    pub api_key: Option<String>,
}

/// The output format where the file names none.
pub fn default_output_format() -> (r: String)
    ensures
        r@ == "mp3 -ab 16k -ar 12000"@,
{
    "mp3 -ab 16k -ar 12000".to_string()
}

/// The peak threshold where the file names none.
pub fn default_peak_volume_threshold() -> (r: u8)
    ensures
        r == 90,
{
    90
}

/// The reference level where the file names none.
pub fn default_reference_level_db() -> (r: i8)
    ensures
        r == -20,
{
    -20
}

/// The configuration.
#[derive(Debug)]
pub struct OsttConfig {
    pub audio: AudioConfig,
    pub transcription: TranscriptionOverrideConfig,
}

} // verus!
