//! How a recording is saved: first as a temporary WAV file, which is then
//! converted to the format asked for and removed.
use crate::recording::audio::RecordedAudio;
use crate::text::{contains, decimal, decimal_text, ends_with, law_contains, law_strip, opt_text};
use vstd::prelude::*;
use vstd::string::*;

verus! {

/// The format of the temporary WAV file. Its samples are integers.
#[derive(Debug, Clone, Copy, PartialEq, Eq, Structural)]
pub struct WavFormat {
    pub channels: u16,
    pub sample_rate: u32,
    pub bits_per_sample: u16,
}

/// What is to be done next to save a recording.
#[derive(Debug, Clone, Copy, PartialEq, Eq, Structural)]
pub enum SaveStep {
    /// Write the samples to the temporary WAV file.
    WriteWav,
    /// Convert the temporary file to the output file.
    Convert,
    /// Remove the temporary file. It is of no account whether that succeeds.
    RemoveTemp {
        /// Whether the output file has been written.
        converted: bool,
    },
    /// See whether the output file is there.
    CheckOutput,
    /// The recording is saved.
    Done,
    /// The recording could not be saved.
    Failed,
}

/// The step after a step that succeeded, or did not.
pub open spec fn next_save(step: SaveStep, succeeded: bool) -> SaveStep {
    match step {
        SaveStep::WriteWav => if succeeded {
            SaveStep::Convert
        } else {
            SaveStep::RemoveTemp { converted: false }
        },
        SaveStep::Convert => SaveStep::RemoveTemp { converted: succeeded },
        SaveStep::RemoveTemp { converted } => if converted {
            SaveStep::CheckOutput
        } else {
            SaveStep::Failed
        },
        SaveStep::CheckOutput => if succeeded {
            SaveStep::Done
        } else {
            SaveStep::Failed
        },
        SaveStep::Done => SaveStep::Done,
        SaveStep::Failed => SaveStep::Failed,
    }
}

impl SaveStep {
    /// The step after this one has succeeded, or has not.
    pub fn next(self, succeeded: bool) -> (r: SaveStep)
        ensures
            r == next_save(self, succeeded),
    {
        match self {
            SaveStep::WriteWav => {
                if succeeded {
                    SaveStep::Convert
                } else {
                    SaveStep::RemoveTemp { converted: false }
                }
            },
            SaveStep::Convert => SaveStep::RemoveTemp { converted: succeeded },
            SaveStep::RemoveTemp { converted } => {
                if converted {
                    SaveStep::CheckOutput
                } else {
                    SaveStep::Failed
                }
            },
            SaveStep::CheckOutput => {
                if succeeded {
                    SaveStep::Done
                } else {
                    SaveStep::Failed
                }
            },
            SaveStep::Done => SaveStep::Done,
            SaveStep::Failed => SaveStep::Failed,
        }
    }
}

impl RecordedAudio {
    /// The first step to save the recording; where there is no output file,
    /// nothing is to be done.
    pub fn save(&self, output_path: Option<&str>) -> (r: SaveStep)
        ensures
            r == match output_path {
                Some(_) => SaveStep::WriteWav,
                None => SaveStep::Done,
            },
    {
        match output_path {
            Some(_) => SaveStep::WriteWav,
            None => SaveStep::Done,
        }
    }

    /// The format of the temporary WAV file: 16-bit mono at the rate of the
    /// recording.
    pub fn save_wav(&self) -> (r: WavFormat)
        ensures
            r == (WavFormat { channels: 1, sample_rate: self.sample_rate, bits_per_sample: 16 }),
    {
        WavFormat { channels: 1, sample_rate: self.sample_rate, bits_per_sample: 16 }
    }
}

/// What the log says before a step, where it says something.
pub open spec fn before_save_text(
    step: SaveStep,
    temp_wav: Seq<char>,
    samples: nat,
    output: Seq<char>,
    format: Seq<char>,
) -> Option<Seq<char>> {
    match step {
        SaveStep::WriteWav => Some(
            "phase=save-wav-start temp_wav="@ + temp_wav + " samples="@ + decimal(samples),
        ),
        SaveStep::Convert => Some(
            "phase=ffmpeg-start output="@ + output + " format="@ + format,
        ),
        _ => None,
    }
}

/// What the log says before a step, where it says something.
pub fn before_save(step: SaveStep, temp_wav: &str, samples: usize, output: &str, format: &str) -> (r:
    Option<String>)
    ensures
        opt_text(r) == before_save_text(step, temp_wav@, samples as nat, output@, format@),
{
    match step {
        SaveStep::WriteWav => {
            let mut out = "phase=save-wav-start temp_wav=".to_string();
            out.append(temp_wav);
            out.append(" samples=");
            let n = decimal_text(samples as u128);
            out.append(n.as_str());
            Some(out)
        },
        SaveStep::Convert => {
            let mut out = "phase=ffmpeg-start output=".to_string();
            out.append(output);
            out.append(" format=");
            out.append(format);
            Some(out)
        },
        _ => None,
    }
}

/// What the log says after a step that succeeded, where it says something.
pub open spec fn after_save_text(step: SaveStep, temp_wav: Seq<char>, output: Seq<char>) -> Option<
    Seq<char>,
> {
    match step {
        SaveStep::WriteWav => Some("phase=save-wav-done temp_wav="@ + temp_wav),
        SaveStep::Convert => Some("phase=ffmpeg-done output="@ + output),
        _ => None,
    }
}

/// What the log says after a step that succeeded, where it says something.
pub fn after_save(step: SaveStep, temp_wav: &str, output: &str) -> (r: Option<String>)
    ensures
        opt_text(r) == after_save_text(step, temp_wav@, output@),
{
    match step {
        SaveStep::WriteWav => {
            let mut out = "phase=save-wav-done temp_wav=".to_string();
            out.append(temp_wav);
            Some(out)
        },
        SaveStep::Convert => {
            let mut out = "phase=ffmpeg-done output=".to_string();
            out.append(output);
            Some(out)
        },
        _ => None,
    }
}

/// However the steps turn out, the temporary file is removed, and the recording
/// is saved exactly if the file was written and converted and the output is
/// there.
pub proof fn law_saving(wav: bool, converted: bool, removed: bool, checked: bool)
    ensures
        ({
            let written = next_save(SaveStep::WriteWav, wav);
            let tried = if written == SaveStep::Convert {
                next_save(written, converted)
            } else {
                written
            };
            let cleaned = next_save(tried, removed);
            let ended = if cleaned == SaveStep::CheckOutput {
                next_save(cleaned, checked)
            } else {
                cleaned
            };
            &&& tried is RemoveTemp
            &&& ended == if wav && converted && checked {
                SaveStep::Done
            } else {
                SaveStep::Failed
            }
        }),
{
}

/// What is about to be done, and what was done, is logged with the files that it
/// is about.
pub proof fn law_saving_is_logged(
    temp_wav: Seq<char>,
    samples: nat,
    output: Seq<char>,
    format: Seq<char>,
)
    ensures
        before_save_text(SaveStep::WriteWav, temp_wav, samples, output, format) matches Some(text)
            && contains(text, temp_wav) && ends_with(text, decimal(samples)),
        before_save_text(SaveStep::Convert, temp_wav, samples, output, format) matches Some(text)
            && contains(text, output) && ends_with(text, format),
        after_save_text(SaveStep::WriteWav, temp_wav, output) matches Some(text) && ends_with(
            text,
            temp_wav,
        ),
        after_save_text(SaveStep::Convert, temp_wav, output) matches Some(text) && ends_with(
            text,
            output,
        ),
{
    let n = decimal(samples);
    let wav = "phase=save-wav-start temp_wav="@;
    let written = wav + temp_wav + " samples="@ + n;
    law_contains(wav, temp_wav, " samples="@ + n, written);
    assert(written =~= wav + temp_wav + (" samples="@ + n));
    law_strip(written, n, wav + temp_wav + " samples="@);
    let start = "phase=ffmpeg-start output="@;
    let converted = start + output + " format="@ + format;
    law_contains(start, output, " format="@ + format, converted);
    assert(converted =~= start + output + (" format="@ + format));
    law_strip(converted, format, start + output + " format="@);
    let done = "phase=save-wav-done temp_wav="@;
    law_strip(done + temp_wav, temp_wav, done);
    law_strip("phase=ffmpeg-done output="@ + output, output, "phase=ffmpeg-done output="@);
}

/// Only a conversion that succeeded and left its output is done, whatever
/// happened to the temporary file; and an end stays one.
pub proof fn law_save_steps(step: SaveStep, succeeded: bool)
    ensures
        next_save(step, succeeded) == SaveStep::Done ==> step == SaveStep::Done || (step
            == SaveStep::CheckOutput && succeeded),
        next_save(step, succeeded) == SaveStep::CheckOutput ==> step == (SaveStep::RemoveTemp {
            converted: true,
        }),
        next_save(step, succeeded) == (SaveStep::RemoveTemp { converted: true }) ==> step
            == SaveStep::Convert && succeeded,
        step == SaveStep::Done || step == SaveStep::Failed ==> next_save(step, succeeded) == step,
        step is RemoveTemp ==> next_save(step, succeeded) == next_save(step, !succeeded),
        step == SaveStep::WriteWav || step == SaveStep::Convert ==> !succeeded ==> next_save(
            step,
            succeeded,
        ) == (SaveStep::RemoveTemp { converted: false }),
{
}

} // verus!
