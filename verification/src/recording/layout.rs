//! Where on the screen things are shown.
use crate::outside::split_trailing;
use crate::text::{contains, decimal, decimal_text, ends_with, law_contains, law_strip, starts_with};
use vstd::prelude::*;
use vstd::string::*;

verus! {

/// A rectangle of the screen, in cells.
#[derive(Debug, Clone, Copy, PartialEq, Eq, Structural)]
pub struct Area {
    pub x: u16,
    pub y: u16,
    pub width: u16,
    pub height: u16,
}

impl Area {
    /// The edges of the rectangle can be numbered.
    pub open spec fn wf(self) -> bool {
        self.x + self.width <= u16::MAX && self.y + self.height <= u16::MAX
    }

    /// Whether a cell lies in the rectangle.
    pub open spec fn has(self, x: int, y: int) -> bool {
        self.x <= x < self.x + self.width && self.y <= y < self.y + self.height
    }
}

/// The parts of the recording screen.
#[derive(Debug, Clone, Copy, PartialEq, Eq, Structural)]
pub struct WaveformLayout {
    /// All but the footer.
    pub content: Area,
    /// The upper part of the waveform.
    pub top: Area,
    /// The lower part of the waveform.
    pub bottom: Area,
    /// The last line.
    pub footer: Area,
}

/// The parts of the recording screen: the footer takes the last line, the
/// upper part of the waveform two thirds of the rest and the lower part what
/// is left.
pub open spec fn waveform_parts(area: Area) -> WaveformLayout {
    let content_height = if area.height == 0 {
        0
    } else {
        area.height - 1
    };
    let top_height = content_height / 3 * 2;
    WaveformLayout {
        content: Area { x: area.x, y: area.y, width: area.width, height: content_height as u16 },
        top: Area { x: area.x, y: area.y, width: area.width, height: top_height as u16 },
        bottom: Area {
            x: area.x,
            y: (area.y + top_height) as u16,
            width: area.width,
            height: (content_height - top_height) as u16,
        },
        footer: Area {
            x: area.x,
            y: (area.y + content_height) as u16,
            width: area.width,
            height: 1,
        },
    }
}

/// The parts of the recording screen.
pub fn waveform_layout(area: Area) -> (r: WaveformLayout)
    requires
        area.wf(),
    ensures
        r == waveform_parts(area),
{
    let content_height: u16 = if area.height == 0 {
        0
    } else {
        area.height - 1
    };
    let top_height: u16 = content_height / 3 * 2;
    let bottom_height: u16 = content_height - top_height;
    WaveformLayout {
        content: Area { x: area.x, y: area.y, width: area.width, height: content_height },
        top: Area { x: area.x, y: area.y, width: area.width, height: top_height },
        bottom: Area {
            x: area.x,
            y: area.y + top_height,
            width: area.width,
            height: bottom_height,
        },
        footer: Area { x: area.x, y: area.y + content_height, width: area.width, height: 1 },
    }
}

/// On a screen with a line at least, the parts of the recording screen cover
/// it: each cell lies in exactly one of the two parts of the waveform and the
/// footer.
pub proof fn law_waveform_parts_cover(area: Area, x: int, y: int)
    requires
        area.wf(),
        area.height > 0,
    ensures
        area.has(x, y) <==> (waveform_parts(area).top.has(x, y) || waveform_parts(area).bottom.has(
            x,
            y,
        ) || waveform_parts(area).footer.has(x, y)),
        !(waveform_parts(area).top.has(x, y) && waveform_parts(area).bottom.has(x, y)),
        !(waveform_parts(area).top.has(x, y) && waveform_parts(area).footer.has(x, y)),
        !(waveform_parts(area).bottom.has(x, y) && waveform_parts(area).footer.has(x, y)),
{
}

/// How far a bar of the fading waveform reaches up and down, in cells.
#[derive(Debug, Clone, Copy, PartialEq, Eq, Structural)]
pub struct BarHeight {
    pub up: i16,
    pub down: i16,
}

/// A bar of the fading waveform: its column and its lines.
#[derive(Debug)]
pub struct Bar {
    pub x: u16,
    pub upper: Vec<u16>,
    pub lower: Vec<u16>,
}

/// What a bar shows.
#[verifier::ext_equal]
pub struct BarModel {
    pub x: u16,
    pub upper: Seq<u16>,
    pub lower: Seq<u16>,
}

impl View for Bar {
    type V = BarModel;

    open spec fn view(&self) -> BarModel {
        BarModel { x: self.x, upper: self.upper@, lower: self.lower@ }
    }
}

/// The lines of a bar above the centre, from the centre on: none lies above
/// the screen.
pub open spec fn upper_lines(center: u16, up: i16) -> Seq<u16> {
    Seq::new(
        if up > 0 {
            up as nat
        } else {
            0
        },
        |step: int|
            if center > step {
                (center - 1 - step) as u16
            } else {
                0
            },
    )
}

/// The lines of a bar from the centre down, as far as the lower part goes.
pub open spec fn lower_lines(bottom: Area, down: i16) -> Seq<u16> {
    Seq::new(
        if down <= 0 {
            0
        } else if down < bottom.height {
            down as nat
        } else {
            bottom.height as nat
        },
        |step: int| (bottom.y + step) as u16,
    )
}

/// The bar in a column.
pub open spec fn bar_at(layout: WaveformLayout, heights: Seq<BarHeight>, i: int) -> BarModel {
    BarModel {
        x: (layout.content.x + i) as u16,
        upper: upper_lines(layout.bottom.y, heights[i].up),
        lower: lower_lines(layout.bottom, heights[i].down),
    }
}

/// The lines of a bar above the centre.
fn bar_upper(center: u16, up: i16) -> (r: Vec<u16>)
    ensures
        r@ == upper_lines(center, up),
{
    let mut lines: Vec<u16> = Vec::new();
    let mut step: i16 = 0;
    while step < up
        invariant
            0 <= step,
            step <= up || step == 0,
            lines@ == upper_lines(center, step),
        decreases up - step,
    {
        let s: u16 = step as u16;
        let y: u16 = if center > s {
            center - 1 - s
        } else {
            0
        };
        lines.push(y);
        step += 1;
        assert(lines@ =~= upper_lines(center, step));
    }
    lines
}

/// The lines of a bar from the centre down.
fn bar_lower(bottom: Area, down: i16) -> (r: Vec<u16>)
    requires
        bottom.wf(),
    ensures
        r@ == lower_lines(bottom, down),
{
    let mut lines: Vec<u16> = Vec::new();
    let mut step: i16 = 0;
    while step < down && (step as u16) < bottom.height
        invariant
            0 <= step,
            step <= down || step == 0,
            step <= bottom.height,
            bottom.wf(),
            lines@ == lower_lines(bottom, step),
        decreases down - step,
    {
        lines.push(bottom.y + step as u16);
        step += 1;
        assert(lines@ =~= lower_lines(bottom, step));
    }
    assert(lines@ =~= lower_lines(bottom, down));
    lines
}

/// The bars of the fading waveform: one in each column, as far as the screen
/// and the heights go.
pub fn cancel_bars(layout: &WaveformLayout, heights: &[BarHeight]) -> (r: Vec<Bar>)
    requires
        layout.content.wf(),
        layout.bottom.wf(),
    ensures
        r@.len() == if heights@.len() < layout.content.width {
            heights@.len()
        } else {
            layout.content.width as nat
        },
        forall|i: int| 0 <= i < r@.len() ==> (#[trigger] r@[i])@ == bar_at(*layout, heights@, i),
{
    let mut bars: Vec<Bar> = Vec::new();
    let mut i: u16 = 0;
    while i < layout.content.width && (i as usize) < heights.len()
        invariant
            i <= layout.content.width,
            i <= heights@.len(),
            bars@.len() == i,
            layout.content.wf(),
            layout.bottom.wf(),
            forall|k: int|
                0 <= k < bars@.len() ==> (#[trigger] bars@[k])@ == bar_at(*layout, heights@, k),
        decreases layout.content.width - i,
    {
        let height = heights[i as usize];
        let bar = Bar {
            x: layout.content.x + i,
            upper: bar_upper(layout.bottom.y, height.up),
            lower: bar_lower(layout.bottom, height.down),
        };
        assert(bar@ =~= bar_at(*layout, heights@, i as int));
        bars.push(bar);
        i += 1;
    }
    bars
}

/// A bar whose heights fit stays within its column and the two parts of the
/// waveform.
pub proof fn law_bar_in_waveform(area: Area, heights: Seq<BarHeight>, i: int, step: int)
    requires
        area.wf(),
        0 <= i < heights.len(),
        i < area.width,
        heights[i].up <= waveform_parts(area).top.height,
    ensures
        0 <= step < bar_at(waveform_parts(area), heights, i).upper.len() ==> waveform_parts(
            area,
        ).top.has(
            bar_at(waveform_parts(area), heights, i).x as int,
            bar_at(waveform_parts(area), heights, i).upper[step] as int,
        ),
        0 <= step < bar_at(waveform_parts(area), heights, i).lower.len() ==> waveform_parts(
            area,
        ).bottom.has(
            bar_at(waveform_parts(area), heights, i).x as int,
            bar_at(waveform_parts(area), heights, i).lower[step] as int,
        ),
{
}

/// How far a value stays below the full height of a hundred.
pub open spec fn inverted_value(v: u64) -> u64 {
    if v < 100 {
        (100 - v) as u64
    } else {
        0
    }
}

/// How far each value stays below the full height.
pub open spec fn inverted_values(data: Seq<u64>) -> Seq<u64> {
    data.map_values(|v: u64| inverted_value(v))
}

/// The upside-down values for the lower part of the waveform.
pub fn inverted(data: &[u64]) -> (r: Vec<u64>)
    ensures
        r@ == inverted_values(data@),
{
    let mut out: Vec<u64> = Vec::new();
    let mut i: usize = 0;
    while i < data.len()
        invariant
            i <= data@.len(),
            out@ == inverted_values(data@.take(i as int)),
        decreases data@.len() - i,
    {
        let v: u64 = data[i];
        out.push(
            if v < 100 {
                100 - v
            } else {
                0
            },
        );
        i += 1;
        assert(out@ =~= inverted_values(data@.take(i as int)));
    }
    assert(data@.take(i as int) =~= data@);
    out
}

/// The footer of a recording made with the development build: what is left for
/// the text, and where the label stands. Where the footer is too short there is
/// no label.
pub open spec fn footer_parts(footer: Area, dev_mode: bool) -> (Area, Option<Area>) {
    if dev_mode && footer.width > 8 {
        (
            Area { x: footer.x, y: footer.y, width: (footer.width - 3) as u16, height: footer.height },
            Some(
                Area {
                    x: (footer.x + footer.width - 3) as u16,
                    y: footer.y,
                    width: 3,
                    height: footer.height,
                },
            ),
        )
    } else {
        (footer, None)
    }
}

/// The parts of the footer: the text, and the label of the development build.
pub fn footer_layout(footer: Area, dev_mode: bool) -> (r: (Area, Option<Area>))
    requires
        footer.x + footer.width <= u16::MAX,
    ensures
        r == footer_parts(footer, dev_mode),
{
    if dev_mode && footer.width > 8 {
        let (text, label) = split_trailing(footer, 3);
        (text, Some(label))
    } else {
        (footer, None)
    }
}

/// The parts of the typing screen.
#[derive(Debug, Clone, Copy, PartialEq, Eq, Structural)]
pub struct TypingLayout {
    /// The line with the status.
    pub header: Option<Area>,
    /// The text with its border, where it has one.
    pub text: Area,
    /// Whether there is a border around the text.
    pub border: bool,
    /// The text without its border.
    pub inner: Area,
    /// The line with the gauge.
    pub footer: Option<Area>,
}

/// The parts of the typing screen: from three lines on there is a header, from
/// four lines on a footer, and around a text that is large enough a border.
pub open spec fn typing_parts(area: Area) -> TypingLayout {
    let header: int = if area.height >= 3 {
        1
    } else {
        0
    };
    let footer: int = if area.height >= 4 {
        1
    } else {
        0
    };
    let text_height = area.height - header - footer;
    let border = area.width > 6 && text_height > 4;
    let margin: int = if border {
        1
    } else {
        0
    };
    TypingLayout {
        header: if header == 1 {
            Some(Area { x: area.x, y: area.y, width: area.width, height: 1 })
        } else {
            None
        },
        text: Area {
            x: area.x,
            y: (area.y + header) as u16,
            width: area.width,
            height: text_height as u16,
        },
        border,
        inner: Area {
            x: (area.x + margin) as u16,
            y: (area.y + header + margin) as u16,
            width: (area.width - 2 * margin) as u16,
            height: (text_height - 2 * margin) as u16,
        },
        footer: if footer == 1 {
            Some(
                Area {
                    x: area.x,
                    y: (area.y + area.height - 1) as u16,
                    width: area.width,
                    height: 1,
                },
            )
        } else {
            None
        },
    }
}

/// The parts of the typing screen.
pub fn typing_layout(area: Area) -> (r: TypingLayout)
    requires
        area.wf(),
    ensures
        r == typing_parts(area),
{
    let show_header = area.height >= 3;
    let show_footer = area.height >= 4;
    let header_height: u16 = if show_header {
        1
    } else {
        0
    };
    let footer_height: u16 = if show_footer {
        1
    } else {
        0
    };
    let text = Area {
        x: area.x,
        y: area.y + header_height,
        width: area.width,
        height: area.height - header_height - footer_height,
    };
    let border = text.width > 6 && text.height > 4;
    let inner = if border {
        Area { x: text.x + 1, y: text.y + 1, width: text.width - 2, height: text.height - 2 }
    } else {
        text
    };
    TypingLayout {
        header: if show_header {
            Some(Area { x: area.x, y: area.y, width: area.width, height: 1 })
        } else {
            None
        },
        text,
        border,
        inner,
        footer: if show_footer {
            Some(
                Area { x: area.x, y: area.y + (area.height - 1), width: area.width, height: 1 },
            )
        } else {
            None
        },
    }
}

/// The parts of the typing screen cover it: each cell lies in exactly one of
/// the header, the text and the footer.
pub proof fn law_typing_parts_cover(area: Area, x: int, y: int)
    requires
        area.wf(),
    ensures
        ({
            let parts = typing_parts(area);
            let in_header = parts.header matches Some(h) && h.has(x, y);
            let in_footer = parts.footer matches Some(f) && f.has(x, y);
            let in_text = parts.text.has(x, y);
            &&& area.has(x, y) <==> (in_header || in_text || in_footer)
            &&& !(in_header && in_text)
            &&& !(in_header && in_footer)
            &&& !(in_text && in_footer)
            &&& parts.inner.has(x, y) ==> in_text
        }),
{
}

/// The status line of the typing screen.
pub open spec fn status_text(label: Seq<char>, typed: nat, total: nat, percent: nat) -> Seq<char> {
    label + "  "@ + decimal(typed) + "/"@ + decimal(total) + "  "@ + decimal(percent) + "%"@
}

/// The status line of the typing screen: what is being done, how many
/// characters have been typed, and how much that is of the whole.
pub fn typing_status(label: &str, typed: usize, total: usize, percent: u16) -> (r: String)
    ensures
        r@ == status_text(label@, typed as nat, total as nat, percent as nat),
{
    let mut out = label.to_string();
    out.append("  ");
    out.append(decimal_text(typed as u128).as_str());
    out.append("/");
    out.append(decimal_text(total as u128).as_str());
    out.append("  ");
    out.append(decimal_text(percent as u128).as_str());
    out.append("%");
    out
}

/// What a value lacks of a hundred is shown, and nothing where it lacks nothing.
pub proof fn law_inverted(data: Seq<u64>, i: int)
    requires
        0 <= i < data.len(),
    ensures
        inverted_values(data).len() == data.len(),
        data[i] <= 100 ==> inverted_values(data)[i] + data[i] == 100,
        data[i] >= 100 ==> inverted_values(data)[i] == 0,
{
}

/// The waveform has all lines but the last, and two thirds of them are above its
/// centre, in whole thirds.
pub proof fn law_waveform_proportions(area: Area)
    requires
        area.wf(),
        area.height > 0,
    ensures
        ({
            let parts = waveform_parts(area);
            &&& parts.footer.height == 1
            &&& parts.footer.y + 1 == area.y + area.height
            &&& parts.content.height + 1 == area.height
            &&& parts.top.height + parts.bottom.height == parts.content.height
            &&& parts.top.height % 2 == 0
            &&& 0 <= 2 * parts.bottom.height - parts.top.height <= 4
            &&& parts.top.y == area.y
            &&& parts.bottom.y == area.y + parts.top.height
        }),
{
}

/// A bar is one column of the waveform, the one of its height. It goes up and
/// down from the centre without a gap: up by its upper height, down by its lower
/// height as far as there are lines.
pub proof fn law_bar_shape(area: Area, heights: Seq<BarHeight>, i: int, step: int)
    requires
        area.wf(),
        0 <= i < heights.len(),
        i < area.width,
    ensures
        ({
            let parts = waveform_parts(area);
            let bar = bar_at(parts, heights, i);
            &&& bar.x == area.x + i
            &&& heights[i].up > 0 ==> bar.upper.len() == heights[i].up
            &&& heights[i].up <= 0 ==> bar.upper.len() == 0
            &&& 0 <= step < bar.upper.len() && step < parts.top.height ==> bar.upper[step] + step
                + 1 == parts.bottom.y
            &&& bar.lower.len() <= parts.bottom.height
            &&& 0 <= heights[i].down <= parts.bottom.height ==> bar.lower.len() == heights[i].down
            &&& heights[i].down > parts.bottom.height ==> bar.lower.len() == parts.bottom.height
            &&& heights[i].down < 0 ==> bar.lower.len() == 0
            &&& 0 <= step < bar.lower.len() ==> bar.lower[step] == parts.bottom.y + step
        }),
{
}

/// The footer is its text and the label, side by side. The label is there in
/// development where the footer has room for it, and takes its last columns.
pub proof fn law_footer_parts_cover(footer: Area, dev_mode: bool, x: int, y: int)
    requires
        footer.wf(),
    ensures
        ({
            let (text, label) = footer_parts(footer, dev_mode);
            let in_label = label matches Some(l) && l.has(x, y);
            &&& footer.has(x, y) <==> (text.has(x, y) || in_label)
            &&& !(text.has(x, y) && in_label)
            &&& label is Some <==> (dev_mode && footer.width > 8)
            &&& label matches Some(l) ==> l.width == 3 && l.x + l.width == footer.x + footer.width
        }),
{
}

/// The heading is the first line of a screen of three lines or more, the footer
/// the last of one of four or more. A border leaves one line and one column free
/// on each side, and is drawn where that leaves enough room.
pub proof fn law_typing_proportions(area: Area, x: int, y: int)
    requires
        area.wf(),
    ensures
        ({
            let parts = typing_parts(area);
            &&& parts.header is Some <==> area.height >= 3
            &&& parts.header matches Some(h) ==> h.y == area.y && h.height == 1 && h.x == area.x
                && h.width == area.width
            &&& parts.footer is Some <==> area.height >= 4
            &&& parts.footer matches Some(f) ==> f.y + 1 == area.y + area.height && f.height == 1
                && f.x == area.x && f.width == area.width
            &&& parts.border <==> (area.width > 6 && parts.text.height > 4)
            &&& !parts.border ==> parts.inner == parts.text
            &&& parts.border ==> (parts.inner.has(x, y) <==> parts.text.has(x - 1, y - 1)
                && parts.text.has(x + 1, y + 1))
        }),
{
}

/// The heading begins with its label, shows how much of the whole is done, and
/// ends with the share of it.
pub proof fn law_status_text(label: Seq<char>, typed: nat, total: nat, percent: nat)
    ensures
        starts_with(status_text(label, typed, total, percent), label),
        contains(
            status_text(label, typed, total, percent),
            decimal(typed) + "/"@ + decimal(total),
        ),
        ends_with(status_text(label, typed, total, percent), decimal(percent) + "%"@),
{
    let s = status_text(label, typed, total, percent);
    let done = decimal(typed) + "/"@ + decimal(total);
    let share = decimal(percent) + "%"@;
    law_strip(s, label, "  "@ + done + "  "@ + share);
    assert(s =~= label + ("  "@ + done + "  "@ + share));
    law_contains(label + "  "@, done, "  "@ + share, s);
    assert(s =~= label + "  "@ + done + ("  "@ + share));
    law_strip(s, share, label + "  "@ + done + "  "@);
    assert(s =~= (label + "  "@ + done + "  "@) + share);
}

} // verus!
