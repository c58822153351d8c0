//! The animation that runs while a recording is transcribed: the letters of the
//! logo slide in from the right and out to the left.
use crate::recording::layout::Area;
use vstd::prelude::*;
use vstd::string::*;

verus! {

/// A letter of the logo, two lines high.
#[derive(Debug, Clone, Copy)]
pub struct AsciiArtChar {
    pub top: &'static str,
    pub bottom: &'static str,
    pub width: i32,
}

/// How many letters the logo has.
pub const LOGO_LETTERS: usize = 4;

/// How wide the logo is.
pub const LOGO_WIDTH: i32 = 5;

/// The upper line of a letter.
pub open spec fn letter_top(i: int) -> Seq<char> {
    if i == 0 {
        "┏┓"@
    } else if i == 1 {
        "┏"@
    } else {
        "╋"@
    }
}

/// The lower line of a letter.
pub open spec fn letter_bottom(i: int) -> Seq<char> {
    if i == 0 {
        "┗┛"@
    } else if i == 1 {
        "┛"@
    } else {
        "┗"@
    }
}

/// How wide a letter is.
pub open spec fn letter_width(i: int) -> int {
    if i == 0 {
        2
    } else {
        1
    }
}

/// A letter of the logo.
pub fn letter(i: usize) -> (r: AsciiArtChar)
    requires
        i < LOGO_LETTERS,
    ensures
        r.top@ == letter_top(i as int),
        r.bottom@ == letter_bottom(i as int),
        r.width == letter_width(i as int),
{
    if i == 0 {
        AsciiArtChar { top: "┏┓", bottom: "┗┛", width: 2 }
    } else if i == 1 {
        AsciiArtChar { top: "┏", bottom: "┛", width: 1 }
    } else {
        AsciiArtChar { top: "╋", bottom: "┗", width: 1 }
    }
}

/// Where a letter stands when the logo is complete: the logo stands in the
/// middle, each letter directly behind the one before it.
pub open spec fn letter_target(width: u16, i: int) -> int {
    width / 2 - LOGO_WIDTH / 2 + if i == 0 {
        0
    } else {
        i + 1
    }
}

/// A piece of the logo, and the cell where it begins.
#[derive(Debug, Clone, Copy)]
pub struct LogoCell {
    pub x: u16,
    pub y: u16,
    pub text: &'static str,
}

/// A piece of the logo, and the cell where it begins.
pub struct LogoCellModel {
    pub x: int,
    pub y: int,
    pub text: Seq<char>,
}

impl View for LogoCell {
    type V = LogoCellModel;

    open spec fn view(&self) -> LogoCellModel {
        LogoCellModel { x: self.x as int, y: self.y as int, text: self.text@ }
    }
}

/// What is shown of a letter that stands at column `x`: each of its lines, where
/// the whole line lies on the screen.
pub open spec fn letter_cells(area: Area, i: int, x: int) -> Seq<LogoCellModel> {
    let fits = x >= 0 && x + letter_width(i) <= area.width;
    let middle = area.height as int / 2;
    let top = if fits && middle >= 1 {
        seq![LogoCellModel { x: area.x + x, y: area.y + middle - 1, text: letter_top(i) }]
    } else {
        Seq::empty()
    };
    let bottom = if fits && area.height > 0 {
        seq![LogoCellModel { x: area.x + x, y: area.y + middle, text: letter_bottom(i) }]
    } else {
        Seq::empty()
    };
    top + bottom
}

/// What is shown of the first `n` letters.
pub open spec fn logo_cells(area: Area, columns: Seq<i32>, n: int) -> Seq<LogoCellModel>
    decreases n,
{
    if n <= 0 {
        Seq::empty()
    } else {
        logo_cells(area, columns, n - 1) + letter_cells(area, n - 1, columns[n - 1] as int)
    }
}

/// What pieces of the logo show.
pub open spec fn cell_models(cells: Seq<LogoCell>) -> Seq<LogoCellModel> {
    cells.map_values(|c: LogoCell| c@)
}

/// The animation: how many frames it has shown.
#[derive(Debug)]
pub struct TranscriptionAnimation {
    pub frame_count: u32,
}

impl Default for TranscriptionAnimation {
    /// An animation that begins.
    fn default() -> (r: Self)
        ensures
            r.frame_count == 0,
    {
        Self::new()
    }
}

impl TranscriptionAnimation {
    /// An animation that begins.
    pub fn new() -> (r: Self)
        ensures
            r.frame_count == 0,
    {
        TranscriptionAnimation { frame_count: 0 }
    }

    /// Goes on to the next frame; after the last number it begins again.
    pub fn update(&mut self)
        ensures
            final(self).frame_count == (old(self).frame_count + 1) % 0x1_0000_0000,
    {
        self.frame_count = self.frame_count.wrapping_add(1);
    }

    /// Where each letter stands when the logo is complete.
    pub fn targets(width: u16) -> (r: Vec<i32>)
        ensures
            r@.len() == LOGO_LETTERS,
            forall|i: int| 0 <= i < LOGO_LETTERS ==> #[trigger] r@[i] == letter_target(width, i),
    {
        let mut out: Vec<i32> = Vec::new();
        let mut x: i32 = width as i32 / 2 - LOGO_WIDTH / 2;
        let mut i: usize = 0;
        while i < LOGO_LETTERS
            invariant
                i <= LOGO_LETTERS,
                out@.len() == i,
                x == letter_target(width, i as int),
                forall|k: int| 0 <= k < i ==> #[trigger] out@[k] == letter_target(width, k),
            decreases LOGO_LETTERS - i,
        {
            out.push(x);
            x = x + letter(i).width;
            i += 1;
        }
        out
    }

    /// What is shown of the logo whose letters stand at the given columns of
    /// the area.
    pub fn draw(&self, area: Area, columns: &[i32]) -> (r: Vec<LogoCell>)
        requires
            area.wf(),
            columns@.len() == LOGO_LETTERS,
            forall|i: int| 0 <= i < LOGO_LETTERS ==> #[trigger] columns@[i] <= i32::MAX - 2,
        ensures
            cell_models(r@) == logo_cells(area, columns@, LOGO_LETTERS as int),
    {
        let mut cells: Vec<LogoCell> = Vec::new();
        let middle: u16 = area.height / 2;
        let mut i: usize = 0;
        assert(cell_models(cells@) =~= Seq::<LogoCellModel>::empty());
        while i < LOGO_LETTERS
            invariant
                i <= LOGO_LETTERS == columns@.len(),
                area.wf(),
                middle == area.height / 2,
                forall|k: int| 0 <= k < LOGO_LETTERS ==> #[trigger] columns@[k] <= i32::MAX - 2,
                cell_models(cells@) == logo_cells(area, columns@, i as int),
            decreases LOGO_LETTERS - i,
        {
            let ghost before = cell_models(cells@);
            let x: i32 = columns[i];
            let l = letter(i);
            if x >= 0 && x + l.width <= area.width as i32 {
                if middle >= 1 {
                    cells.push(
                        LogoCell { x: area.x + x as u16, y: area.y + (middle - 1), text: l.top },
                    );
                }
                if area.height > 0 {
                    cells.push(
                        LogoCell { x: area.x + x as u16, y: area.y + middle, text: l.bottom },
                    );
                }
            }
            assert(cell_models(cells@) =~= before + letter_cells(area, i as int, x as int));
            i += 1;
        }
        cells
    }
}

/// The complete logo stands next to the middle of the screen: on both sides the
/// same number of columns is left, or on the right one more than on the left or
/// one less.
pub proof fn law_logo_is_centred(width: u16)
    requires
        width >= LOGO_WIDTH,
    ensures
        0 <= letter_target(width, 0),
        -1 <= (width - (letter_target(width, 3) + letter_width(3))) - letter_target(width, 0) <= 1,
        forall|i: int|
            0 <= i < 3 ==> letter_target(width, i + 1) == #[trigger] letter_target(width, i)
                + letter_width(i),
{
}

/// What is shown of a letter lies on the screen.
pub proof fn law_letter_on_screen(area: Area, i: int, x: int, k: int)
    requires
        0 <= k < letter_cells(area, i, x).len(),
    ensures
        area.has(letter_cells(area, i, x)[k].x, letter_cells(area, i, x)[k].y),
        area.has(
            letter_cells(area, i, x)[k].x + letter_width(i) - 1,
            letter_cells(area, i, x)[k].y,
        ),
{
}

/// A letter that fits in its columns is drawn whole: its upper half just above
/// the middle and its lower half just below it, in the same columns. One that
/// does not fit is not drawn.
pub proof fn law_letter_is_whole(area: Area, i: int, x: int)
    ensures
        ({
            let cells = letter_cells(area, i, x);
            &&& 0 <= x && x + letter_width(i) <= area.width && area.height >= 2 ==> {
                &&& cells.len() == 2
                &&& cells[0].text == letter_top(i) && cells[1].text == letter_bottom(i)
                &&& cells[0].x == area.x + x && cells[1].x == area.x + x
                &&& cells[1].y == cells[0].y + 1
                &&& cells[1].y == area.y + area.height as int / 2
            }
            &&& x < 0 || x + letter_width(i) > area.width ==> cells.len() == 0
            &&& area.height == 0 ==> cells.len() == 0
        }),
{
}

/// The halves of a letter are as wide as the letter, and the last two letters
/// are the same.
pub proof fn law_letters(i: int)
    ensures
        0 <= i < 4 ==> letter_top(i).len() == letter_width(i) && letter_bottom(i).len()
            == letter_width(i),
        letter_top(2) == letter_top(3),
        letter_bottom(2) == letter_bottom(3),
        LOGO_WIDTH == letter_width(0) + letter_width(1) + letter_width(2) + letter_width(3),
{
    reveal_strlit("┏┓");
    reveal_strlit("┏");
    reveal_strlit("╋");
    reveal_strlit("┗┛");
    reveal_strlit("┛");
    reveal_strlit("┗");
}

/// A logo whose letters all fit is drawn letter by letter, each in its columns.
pub proof fn law_logo_is_whole(area: Area, columns: Seq<i32>, n: int, i: int)
    requires
        0 <= i < n <= columns.len(),
        area.height >= 2,
        forall|k: int|
            0 <= k < n ==> 0 <= #[trigger] columns[k] && columns[k] + letter_width(k) <= area.width,
    ensures
        logo_cells(area, columns, n).len() == 2 * n,
        logo_cells(area, columns, n)[2 * i] == letter_cells(area, i, columns[i] as int)[0],
        logo_cells(area, columns, n)[2 * i + 1] == letter_cells(area, i, columns[i] as int)[1],
    decreases n,
{
    assert(columns[n - 1] >= 0);
    if n == 1 {
        reveal_with_fuel(logo_cells, 2);
    } else if i < n - 1 {
        law_logo_is_whole(area, columns, n - 1, i);
    } else {
        law_logo_is_whole(area, columns, n - 1, i - 1);
    }
}

} // verus!
