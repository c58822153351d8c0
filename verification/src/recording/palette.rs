//! The colours of the recording screen.
use vstd::prelude::*;

verus! {

/// A colour by its red, green and blue parts.
#[derive(Debug, Clone, Copy, PartialEq, Eq, Structural)]
pub struct RgbColor {
    pub r: u8,
    pub g: u8,
    pub b: u8,
}

impl RgbColor {
    /// The colour with the given parts.
    pub fn new(r: u8, g: u8, b: u8) -> (c: Self)
        ensures
            c == (RgbColor { r, g, b }),
    {
        RgbColor { r, g, b }
    }

    /// The grey of this colour.
    pub open spec fn gray_model(self) -> RgbColor {
        let mean = ((self.r + self.g + self.b) / 3) as u8;
        RgbColor { r: mean, g: mean, b: mean }
    }

    /// The grey whose parts are the mean of the parts of this colour.
    pub fn gray(self) -> (c: Self)
        ensures
            c == self.gray_model(),
    {
        let mean: u8 = ((self.r as u16 + self.g as u16 + self.b as u16) / 3) as u8;
        RgbColor { r: mean, g: mean, b: mean }
    }
}

/// The colours of the recording screen.
#[derive(Debug, Clone, Copy, PartialEq, Eq, Structural)]
pub struct WaveformColors {
    pub top_fg: RgbColor,
    pub top_bg: RgbColor,
    pub bottom_fg: RgbColor,
    pub bottom_bg: RgbColor,
    pub footer_fg: RgbColor,
    pub footer_bg: RgbColor,
    pub border_fg: RgbColor,
}

impl WaveformColors {
    /// The colours while the recording runs.
    pub fn base() -> (c: Self)
        ensures
            c == (WaveformColors {
                top_fg: RgbColor { r: 206, g: 224, b: 220 },
                top_bg: RgbColor { r: 0, g: 0, b: 0 },
                bottom_fg: RgbColor { r: 0, g: 0, b: 0 },
                bottom_bg: RgbColor { r: 185, g: 207, b: 212 },
                footer_fg: RgbColor { r: 185, g: 207, b: 212 },
                footer_bg: RgbColor { r: 0, g: 0, b: 0 },
                border_fg: RgbColor { r: 80, g: 90, b: 95 },
            }),
    {
        WaveformColors {
            top_fg: RgbColor::new(206, 224, 220),
            top_bg: RgbColor::new(0, 0, 0),
            bottom_fg: RgbColor::new(0, 0, 0),
            bottom_bg: RgbColor::new(185, 207, 212),
            footer_fg: RgbColor::new(185, 207, 212),
            footer_bg: RgbColor::new(0, 0, 0),
            border_fg: RgbColor::new(80, 90, 95),
        }
    }

    /// The colour towards which the waveform fades when the recording is called
    /// off: a red.
    pub fn fade_target() -> (c: RgbColor)
        ensures
            c == (RgbColor { r: 200, g: 60, b: 60 }),
            c.r > c.g && c.r > c.b,
    {
        RgbColor::new(200, 60, 60)
    }

    /// The colour of the footer when the recording is called off.
    pub fn neutral() -> (c: RgbColor)
        ensures
            c == (RgbColor { r: 120, g: 130, b: 135 }),
    {
        RgbColor::new(120, 130, 135)
    }
}

/// The grey of a colour is as bright as the colour, up to rounding, and the grey
/// of a grey is that grey.
pub proof fn law_gray(color: RgbColor)
    ensures
        ({
            let grey = color.gray_model();
            &&& grey.r == grey.g == grey.b
            &&& grey.r + grey.g + grey.b <= color.r + color.g + color.b
            &&& color.r + color.g + color.b < grey.r + grey.g + grey.b + 3
            &&& grey.gray_model() == grey
        }),
{
}

} // verus!
