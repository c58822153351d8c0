//! The lines that show how far a transcription has been typed out.
use crate::text::{chars_of, is_whitespace, text_of, whitespace};
use vstd::prelude::*;

verus! {

/// How a run of characters is shown.
#[derive(Debug, Clone, Copy, PartialEq, Eq, Structural)]
pub enum SpanStyle {
    /// Already typed.
    Typed,
    /// Still to be typed.
    Untyped,
    /// The next character to be typed.
    Cursor,
    /// Filler without a style.
    Plain,
}

/// A run of characters in one style.
#[derive(Debug)]
pub struct StyledSpan {
    pub text: String,
    pub style: SpanStyle,
}

impl View for StyledSpan {
    type V = (Seq<char>, SpanStyle);

    open spec fn view(&self) -> (Seq<char>, SpanStyle) {
        (self.text@, self.style)
    }
}

/// One line on the screen.
#[derive(Debug)]
pub struct TypingLine {
    pub spans: Vec<StyledSpan>,
}

/// A line as the runs of characters that it shows.
pub type LineModel = Seq<(Seq<char>, SpanStyle)>;

impl View for TypingLine {
    type V = LineModel;

    open spec fn view(&self) -> LineModel {
        self.spans@.map_values(|s: StyledSpan| s@)
    }
}

/// The runs of characters of each line.
pub open spec fn line_models(lines: Seq<TypingLine>) -> Seq<LineModel> {
    lines.map_values(|l: TypingLine| l@)
}

/// The first line break in `s[i..j]`, or `j`.
pub open spec fn first_newline(s: Seq<char>, i: int, j: int) -> int
    decreases j - i,
{
    if i < j && s[i] != '\n' {
        first_newline(s, i + 1, j)
    } else if i < j {
        i
    } else {
        j
    }
}

/// The last white space in `s[i + 1..j]`, or `i`.
pub open spec fn last_space(s: Seq<char>, i: int, j: int) -> int
    decreases j - i,
{
    if i + 1 < j && !is_whitespace(s[j - 1]) {
        last_space(s, i, j - 1)
    } else if i + 1 < j {
        j - 1
    } else {
        i
    }
}

/// The first position from `k` on that holds no white space other than a line break.
pub open spec fn skip_blank(s: Seq<char>, k: int) -> int
    decreases s.len() - k,
{
    if 0 <= k < s.len() && is_whitespace(s[k]) && s[k] != '\n' {
        skip_blank(s, k + 1)
    } else {
        k
    }
}

/// Where a line that begins at `i` is full, or the text ends.
pub open spec fn line_limit(s: Seq<char>, i: int, width: int) -> int {
    if i + width < s.len() {
        i + width
    } else {
        s.len() as int
    }
}

/// The line break or white space that ends the line beginning at `i`: the
/// first line break before the line is full, or else, where text is left over,
/// the last white space before it is full.
pub open spec fn line_break(s: Seq<char>, i: int, width: int) -> Option<int> {
    let limit = line_limit(s, i, width);
    if first_newline(s, i, limit) < limit {
        Some(first_newline(s, i, limit))
    } else if limit < s.len() && last_space(s, i, limit) > i {
        Some(last_space(s, i, limit))
    } else {
        None
    }
}

/// Where the line that begins at `i` ends.
pub open spec fn line_end(s: Seq<char>, i: int, width: int) -> int {
    match line_break(s, i, width) {
        Some(k) => k,
        None => line_limit(s, i, width),
    }
}

/// Where the line after the one that begins at `i` begins.
pub open spec fn next_line(s: Seq<char>, i: int, width: int) -> int {
    match line_break(s, i, width) {
        Some(k) => k + 1,
        None => skip_blank(s, line_limit(s, i, width)),
    }
}

proof fn lemma_first_newline(s: Seq<char>, i: int, j: int)
    requires
        0 <= i <= j <= s.len(),
    ensures
        i <= first_newline(s, i, j) <= j,
        forall|k: int| i <= k < first_newline(s, i, j) ==> #[trigger] s[k] != '\n',
        first_newline(s, i, j) < j ==> s[first_newline(s, i, j)] == '\n',
    decreases j - i,
{
    if i < j && s[i] != '\n' {
        lemma_first_newline(s, i + 1, j);
    }
}

proof fn lemma_last_space(s: Seq<char>, i: int, j: int)
    requires
        0 <= i < j <= s.len(),
    ensures
        i <= last_space(s, i, j) < j,
        last_space(s, i, j) > i ==> is_whitespace(s[last_space(s, i, j)]),
        forall|k: int| last_space(s, i, j) < k < j ==> !is_whitespace(#[trigger] s[k]),
    decreases j - i,
{
    if i + 1 < j && !is_whitespace(s[j - 1]) {
        lemma_last_space(s, i, j - 1);
    }
}

proof fn lemma_skip_blank(s: Seq<char>, k: int)
    requires
        0 <= k <= s.len(),
    ensures
        k <= skip_blank(s, k) <= s.len(),
        forall|m: int| k <= m < skip_blank(s, k) ==> is_whitespace(#[trigger] s[m]) && s[m] != '\n',
        skip_blank(s, k) < s.len() ==> !is_whitespace(s[skip_blank(s, k)]) || s[skip_blank(s, k)]
            == '\n',
    decreases s.len() - k,
{
    if k < s.len() && is_whitespace(s[k]) && s[k] != '\n' {
        lemma_skip_blank(s, k + 1);
    }
}

proof fn lemma_line(s: Seq<char>, i: int, width: int)
    requires
        0 <= i < s.len(),
        width > 0,
    ensures
        i <= line_end(s, i, width) <= s.len(),
        line_end(s, i, width) - i <= width,
        line_end(s, i, width) <= next_line(s, i, width) <= s.len(),
        i < next_line(s, i, width),
        forall|k: int| i <= k < line_end(s, i, width) ==> #[trigger] s[k] != '\n',
        forall|k: int|
            line_end(s, i, width) <= k < next_line(s, i, width) ==> is_whitespace(#[trigger] s[k]),
{
    let limit = line_limit(s, i, width);
    lemma_first_newline(s, i, limit);
    lemma_last_space(s, i, limit);
    lemma_skip_blank(s, limit);
    assert(is_whitespace('\n'));
}

/// The lines from position `i` on, as ranges of positions.
pub open spec fn wrap_from(s: Seq<char>, width: int, i: int) -> Seq<(int, int)>
    decreases s.len() - i,
    via wrap_from_decreases
{
    if 0 <= i < s.len() && width > 0 {
        seq![(i, line_end(s, i, width))] + wrap_from(s, width, next_line(s, i, width))
    } else {
        Seq::empty()
    }
}

#[via_fn]
proof fn wrap_from_decreases(s: Seq<char>, width: int, i: int) {
    if 0 <= i < s.len() && width > 0 {
        lemma_line(s, i, width);
    }
}

/// The lines of a text in a column of `width` characters, as ranges of
/// positions. An empty text has one empty line.
pub open spec fn wrap(s: Seq<char>, width: int) -> Seq<(int, int)> {
    if width <= 0 {
        Seq::empty()
    } else if s.len() == 0 {
        seq![(0, 0)]
    } else {
        wrap_from(s, width, 0)
    }
}

/// Whether position `k` stands in one of the ranges.
pub open spec fn covered(ranges: Seq<(int, int)>, k: int) -> bool {
    exists|j: int| 0 <= j < ranges.len() && (#[trigger] ranges[j]).0 <= k < ranges[j].1
}

/// What holds of the lines of `s` from position `i` on.
pub open spec fn well_wrapped(s: Seq<char>, width: int, i: int, r: Seq<(int, int)>) -> bool {
    &&& forall|j: int|
        0 <= j < r.len() ==> i <= (#[trigger] r[j]).0 <= r[j].1 <= s.len() && r[j].1 - r[j].0
            <= width
    &&& forall|j: int, k: int|
        0 <= j < k < r.len() ==> (#[trigger] r[j]).1 <= (#[trigger] r[k]).0 && r[j].0 < r[k].0
    &&& forall|j: int, k: int|
        0 <= j < r.len() && (#[trigger] r[j]).0 <= k < r[j].1 ==> #[trigger] s[k] != '\n'
    &&& forall|k: int|
        i <= k < s.len() && !is_whitespace(#[trigger] s[k]) ==> covered(r, k)
}

proof fn lemma_wrap_from(s: Seq<char>, width: int, i: int)
    requires
        0 <= i <= s.len(),
        width > 0,
    ensures
        well_wrapped(s, width, i, wrap_from(s, width, i)),
        i < s.len() ==> wrap_from(s, width, i).len() > 0,
    decreases s.len() - i,
{
    let r = wrap_from(s, width, i);
    if i < s.len() {
        lemma_line(s, i, width);
        let e = line_end(s, i, width);
        let n = next_line(s, i, width);
        let rest = wrap_from(s, width, n);
        lemma_wrap_from(s, width, n);
        assert(r[0] == (i, e));
        assert forall|j: int| 1 <= j < r.len() implies #[trigger] r[j] == rest[j - 1] by {}
        assert forall|k: int|
            i <= k < s.len() && !is_whitespace(#[trigger] s[k]) implies covered(r, k) by {
            if k < e {
                assert(r[0].0 <= k < r[0].1);
            } else {
                assert(k >= n);
                assert(covered(rest, k));
                let j = choose|j: int|
                    0 <= j < rest.len() && (#[trigger] rest[j]).0 <= k < rest[j].1;
                assert(r[j + 1] == rest[j]);
            }
        }
    }
}

/// Wrapping keeps the text: each line fits the width and holds no line break,
/// the lines follow one another without overlap, each beginning behind the
/// beginning of the one before it, and every character that is
/// no white space stands in a line.
pub proof fn law_wrap(s: Seq<char>, width: int)
    requires
        width > 0,
    ensures
        well_wrapped(s, width, 0, wrap(s, width)),
        wrap(s, width).len() > 0,
{
    lemma_wrap_from(s, width, 0);
}

proof fn lemma_line_breaks_words_last(s: Seq<char>, width: int, i: int)
    requires
        0 <= i < s.len(),
        width > 0,
        line_end(s, i, width) < s.len(),
        !is_whitespace(s[line_end(s, i, width)]),
    ensures
        line_end(s, i, width) == i + width,
        forall|k: int| i < k < i + width ==> !is_whitespace(#[trigger] s[k]),
{
    let limit = line_limit(s, i, width);
    lemma_first_newline(s, i, limit);
    lemma_last_space(s, i, limit);
    assert(is_whitespace('\n'));
}

proof fn lemma_wrap_line_end(s: Seq<char>, width: int, i: int, j: int)
    requires
        0 <= i <= s.len(),
        width > 0,
        0 <= j < wrap_from(s, width, i).len(),
    ensures
        ({
            let line = wrap_from(s, width, i)[j];
            i <= line.0 < s.len() && line.1 == line_end(s, line.0, width)
        }),
    decreases s.len() - i,
{
    lemma_line(s, i, width);
    if j > 0 {
        let n = next_line(s, i, width);
        assert(wrap_from(s, width, i)[j] == wrap_from(s, width, n)[j - 1]);
        lemma_wrap_line_end(s, width, n, j - 1);
    }
}

/// A line ends in the middle of a word only where the line is full and holds
/// no white space to break at.
pub proof fn law_wrap_breaks_words_last(s: Seq<char>, width: int, j: int)
    requires
        0 <= j < wrap(s, width).len(),
        wrap(s, width)[j].1 < s.len(),
        !is_whitespace(s[wrap(s, width)[j].1]),
    ensures
        wrap(s, width)[j].1 == wrap(s, width)[j].0 + width,
        forall|k: int|
            wrap(s, width)[j].0 < k < wrap(s, width)[j].1 ==> !is_whitespace(#[trigger] s[k]),
{
    lemma_wrap_line_end(s, width, 0, j);
    lemma_line_breaks_words_last(s, width, wrap(s, width)[j].0);
}

/// Ranges of machine integers as ranges of positions.
pub open spec fn positions(v: Seq<(usize, usize)>) -> Seq<(int, int)> {
    v.map_values(|p: (usize, usize)| (p.0 as int, p.1 as int))
}

/// Where the line that begins at `i` ends, and where the next one begins.
fn wrap_line(chars: &[char], i: usize, max_width: usize) -> (r: (usize, usize))
    requires
        i < chars@.len(),
        max_width > 0,
    ensures
        r.0 == line_end(chars@, i as int, max_width as int),
        r.1 == next_line(chars@, i as int, max_width as int),
{
    let ghost s = chars@;
    let n: usize = chars.len();
    let limit: usize = if max_width < n - i {
        i + max_width
    } else {
        n
    };
    assert(limit == line_limit(s, i as int, max_width as int));
    let mut newline: usize = i;
    while newline < limit && chars[newline] != '\n'
        invariant
            s == chars@,
            i <= newline <= limit <= n == chars@.len(),
            first_newline(s, i as int, limit as int) == first_newline(
                s,
                newline as int,
                limit as int,
            ),
        decreases limit - newline,
    {
        newline += 1;
    }
    if newline < limit {
        return (newline, newline + 1);
    }
    if limit < n {
        let mut k: usize = limit;
        while k > i + 1 && !whitespace(chars[k - 1])
            invariant
                s == chars@,
                i < k <= limit < n == chars@.len(),
                last_space(s, i as int, limit as int) == last_space(s, i as int, k as int),
            decreases k,
        {
            k -= 1;
        }
        if k > i + 1 {
            return (k - 1, k);
        }
    }
    let mut next: usize = limit;
    while next < n && whitespace(chars[next]) && chars[next] != '\n'
        invariant
            s == chars@,
            limit <= next <= n == chars@.len(),
            skip_blank(s, limit as int) == skip_blank(s, next as int),
        decreases n - next,
    {
        next += 1;
    }
    (limit, next)
}

/// Breaks a text into lines of at most `max_width` characters.
pub fn wrap_text_ranges(chars: &[char], max_width: usize) -> (r: Vec<(usize, usize)>)
    ensures
        positions(r@) == wrap(chars@, max_width as int),
{
    let mut ranges: Vec<(usize, usize)> = Vec::new();
    if max_width == 0 {
        assert(positions(ranges@) =~= wrap(chars@, 0));
        return ranges;
    }
    let ghost s = chars@;
    let mut idx: usize = 0;
    assert(positions(ranges@) + wrap_from(s, max_width as int, 0) =~= wrap_from(
        s,
        max_width as int,
        0,
    ));
    while idx < chars.len()
        invariant
            s == chars@,
            max_width > 0,
            idx <= chars@.len(),
            positions(ranges@) + wrap_from(s, max_width as int, idx as int) == wrap_from(
                s,
                max_width as int,
                0,
            ),
        decreases chars@.len() - idx,
    {
        proof {
            lemma_line(s, idx as int, max_width as int);
        }
        let (end, next) = wrap_line(chars, idx, max_width);
        let ghost before = positions(ranges@);
        ranges.push((idx, end));
        proof {
            assert(positions(ranges@) =~= before.push((idx as int, end as int)));
            assert(positions(ranges@) + wrap_from(s, max_width as int, next as int) =~= before
                + wrap_from(s, max_width as int, idx as int));
        }
        idx = next;
    }
    assert(positions(ranges@) + wrap_from(s, max_width as int, idx as int) =~= positions(ranges@));
    proof {
        if s.len() > 0 {
            lemma_wrap_from(s, max_width as int, 0);
            assert(positions(ranges@).len() > 0);
        }
    }
    if ranges.len() == 0 {
        ranges.push((0, 0));
        assert(positions(ranges@) =~= seq![(0int, 0int)]);
    }
    ranges
}

/// A run of characters, left out where it is empty.
pub open spec fn run(s: Seq<char>, from: int, to: int, style: SpanStyle) -> LineModel {
    if from < to {
        seq![(s.subrange(from, to), style)]
    } else {
        Seq::empty()
    }
}

/// Filler: one empty run.
pub open spec fn blank_line() -> LineModel {
    seq![(Seq::<char>::empty(), SpanStyle::Plain)]
}

/// `x`, but at least `low` and at most `high`.
pub open spec fn clamped(x: int, low: int, high: int) -> int {
    if x < low {
        low
    } else if x > high {
        high
    } else {
        x
    }
}

/// The line `s[start..end]` when the first `typed` characters of the text have
/// been typed: what is typed, the cursor where it stands in this line, and
/// what is still to come.
pub open spec fn line_model(s: Seq<char>, start: int, end: int, typed: int) -> LineModel {
    if start >= end {
        blank_line()
    } else {
        run(s, start, clamped(typed, start, end), SpanStyle::Typed) + if start <= typed < end {
            seq![(seq![s[typed]], SpanStyle::Cursor)] + run(s, typed + 1, end, SpanStyle::Untyped)
        } else {
            run(s, clamped(typed, start, end), end, SpanStyle::Untyped)
        }
    }
}

/// All characters that a line shows.
pub open spec fn shown(line: LineModel) -> Seq<char>
    decreases line.len(),
{
    if line.len() == 0 {
        Seq::empty()
    } else {
        shown(line.drop_last()) + line.last().0
    }
}

proof fn lemma_shown_add(a: LineModel, b: LineModel)
    ensures
        shown(a + b) == shown(a) + shown(b),
    decreases b.len(),
{
    if b.len() == 0 {
        assert(a + b =~= a);
        assert(shown(a + b) =~= shown(a) + shown(b));
    } else {
        lemma_shown_add(a, b.drop_last());
        assert((a + b).drop_last() =~= a + b.drop_last());
        assert((a + b).last() == b.last());
        assert(shown(a + b) =~= shown(a) + shown(b));
    }
}

proof fn lemma_shown_run(s: Seq<char>, from: int, to: int, style: SpanStyle)
    requires
        0 <= from <= s.len(),
        to <= s.len(),
        from <= to,
    ensures
        shown(run(s, from, to, style)) == s.subrange(from, to),
{
    reveal_with_fuel(shown, 2);
    assert(run(s, from, to, style).len() > 0 ==> run(s, from, to, style).drop_last() =~= Seq::<
        (Seq<char>, SpanStyle),
    >::empty());
    assert(shown(run(s, from, to, style)) =~= s.subrange(from, to));
}

/// Whatever has been typed, a line shows its own characters, all of them and
/// in order.
pub proof fn law_line_shows_its_text(s: Seq<char>, start: int, end: int, typed: int)
    requires
        0 <= start <= end <= s.len(),
    ensures
        shown(line_model(s, start, end, typed)) == s.subrange(start, end),
{
    reveal_with_fuel(shown, 2);
    if start >= end {
        assert(blank_line().drop_last() =~= Seq::<(Seq<char>, SpanStyle)>::empty());
        assert(shown(blank_line()) =~= s.subrange(start, end));
    } else {
        let m = clamped(typed, start, end);
        let head = run(s, start, m, SpanStyle::Typed);
        lemma_shown_run(s, start, m, SpanStyle::Typed);
        if start <= typed < end {
            let cursor = seq![(seq![s[typed]], SpanStyle::Cursor)];
            let tail = run(s, typed + 1, end, SpanStyle::Untyped);
            lemma_shown_run(s, typed + 1, end, SpanStyle::Untyped);
            assert(cursor.drop_last() =~= Seq::<(Seq<char>, SpanStyle)>::empty());
            assert(shown(cursor) =~= seq![s[typed]]);
            lemma_shown_add(cursor, tail);
            lemma_shown_add(head, cursor + tail);
            assert(shown(line_model(s, start, end, typed)) =~= s.subrange(start, end));
        } else {
            lemma_shown_run(s, m, end, SpanStyle::Untyped);
            lemma_shown_add(head, run(s, m, end, SpanStyle::Untyped));
            assert(shown(line_model(s, start, end, typed)) =~= s.subrange(start, end));
        }
    }
}

/// Appends a run of characters to a line.
fn push_run(
    spans: &mut Vec<StyledSpan>,
    chars: &[char],
    from: usize,
    to: usize,
    style: SpanStyle,
)
    requires
        from < to <= chars@.len(),
    ensures
        final(spans)@.map_values(|s: StyledSpan| s@) == old(spans)@.map_values(
            |s: StyledSpan| s@,
        ).push((chars@.subrange(from as int, to as int), style)),
{
    let span = StyledSpan { text: text_of(chars, from, to), style };
    spans.push(span);
    assert(spans@.map_values(|s: StyledSpan| s@) =~= old(spans)@.map_values(
        |s: StyledSpan| s@,
    ).push(span@));
}

/// A line of filler.
fn filler() -> (r: TypingLine)
    ensures
        r@ == blank_line(),
{
    let mut spans: Vec<StyledSpan> = Vec::new();
    spans.push(StyledSpan { text: String::new(), style: SpanStyle::Plain });
    let line = TypingLine { spans };
    assert(line@ =~= blank_line());
    line
}

/// Builds the line `chars[start..end]` when `typed_count` characters of the
/// text have been typed.
pub fn build_line(chars: &[char], start: usize, end: usize, typed_count: usize) -> (r: TypingLine)
    requires
        start < end ==> end <= chars@.len(),
    ensures
        r@ == line_model(chars@, start as int, end as int, typed_count as int),
        start < end ==> shown(r@) == chars@.subrange(start as int, end as int),
        forall|k: int|
            start <= k < end ==> #[trigger] styles(r@)[k - start] == if k < typed_count {
                SpanStyle::Typed
            } else if k == typed_count {
                SpanStyle::Cursor
            } else {
                SpanStyle::Untyped
            },
{
    if start >= end {
        return filler();
    }
    let ghost s = chars@;
    let mut spans: Vec<StyledSpan> = Vec::new();
    let head: usize = if typed_count < start {
        start
    } else if typed_count > end {
        end
    } else {
        typed_count
    };
    let ghost head_model = run(s, start as int, head as int, SpanStyle::Typed);
    if start < head {
        push_run(&mut spans, chars, start, head, SpanStyle::Typed);
    }
    assert(spans@.map_values(|p: StyledSpan| p@) =~= head_model);
    if start <= typed_count && typed_count < end {
        push_run(&mut spans, chars, typed_count, typed_count + 1, SpanStyle::Cursor);
        assert(s.subrange(typed_count as int, typed_count + 1) =~= seq![s[typed_count as int]]);
        if typed_count + 1 < end {
            push_run(&mut spans, chars, typed_count + 1, end, SpanStyle::Untyped);
        }
    } else if head < end {
        push_run(&mut spans, chars, head, end, SpanStyle::Untyped);
    }
    let line = TypingLine { spans };
    assert(line@ =~= line_model(s, start as int, end as int, typed_count as int));
    proof {
        law_line_shows_its_text(s, start as int, end as int, typed_count as int);
        assert forall|k: int| start <= k < end implies #[trigger] styles(line@)[k - start] == if k
            < typed_count {
            SpanStyle::Typed
        } else if k == typed_count {
            SpanStyle::Cursor
        } else {
            SpanStyle::Untyped
        } by {
            law_line_styles(s, start as int, end as int, typed_count as int, k);
        }
    }
    line
}

/// Whether the cursor at `cursor` stands in a line: within its range, or at
/// the place of an empty one.
pub open spec fn holds_cursor(range: (int, int), cursor: int) -> bool {
    range.0 <= cursor < range.1 || (range.0 == range.1 && cursor == range.0)
}

/// The first line from `k` on that holds the cursor, or the last line.
pub open spec fn cursor_line_from(ranges: Seq<(int, int)>, cursor: int, k: int) -> int
    decreases ranges.len() - k,
{
    if 0 <= k < ranges.len() {
        if holds_cursor(ranges[k], cursor) {
            k
        } else {
            cursor_line_from(ranges, cursor, k + 1)
        }
    } else {
        ranges.len() - 1
    }
}

/// The line around which the window is placed: the one with the cursor while
/// text is left to type, and otherwise the last one.
pub open spec fn cursor_line(len: int, ranges: Seq<(int, int)>, typed: int) -> int {
    if typed < len {
        cursor_line_from(ranges, typed, 0)
    } else {
        ranges.len() - 1
    }
}

/// How many of `total` lines fit in `height` rows.
pub open spec fn window_height(total: int, height: int) -> int {
    if height < total {
        height
    } else {
        total
    }
}

/// The first of the lines shown: half a window above the line `cursor`, but so
/// that the window is full.
pub open spec fn window_start(total: int, height: int, cursor: int) -> int {
    clamped(
        cursor - window_height(total, height) / 2,
        0,
        total - window_height(total, height),
    )
}

/// The lines in view, with filler above that centres them in the rows.
pub open spec fn typing_lines(s: Seq<char>, typed: int, width: int, height: int) -> Seq<LineModel> {
    if width <= 0 || height <= 0 {
        Seq::empty()
    } else if s.len() == 0 {
        seq![seq![(Seq::<char>::empty(), SpanStyle::Untyped)]]
    } else {
        let ranges = wrap(s, width);
        let t = clamped(typed, 0, s.len() as int);
        let total = ranges.len() as int;
        let window = window_height(total, height);
        let first = window_start(total, height, cursor_line(s.len() as int, ranges, t));
        Seq::new(((height - window) / 2) as nat, |i: int| blank_line()) + Seq::new(
            window as nat,
            |i: int| line_model(s, ranges[first + i].0, ranges[first + i].1, t),
        )
    }
}

proof fn lemma_cursor_line_from(ranges: Seq<(int, int)>, cursor: int, k: int)
    requires
        0 <= k <= ranges.len(),
        ranges.len() > 0,
    ensures
        0 <= cursor_line_from(ranges, cursor, k) < ranges.len(),
        (exists|j: int| k <= j < ranges.len() && holds_cursor(#[trigger] ranges[j], cursor))
            ==> holds_cursor(ranges[cursor_line_from(ranges, cursor, k)], cursor),
        (forall|j: int| k <= j < ranges.len() ==> !holds_cursor(#[trigger] ranges[j], cursor))
            ==> cursor_line_from(ranges, cursor, k) == ranges.len() - 1,
    decreases ranges.len() - k,
{
    if k < ranges.len() && !holds_cursor(ranges[k], cursor) {
        lemma_cursor_line_from(ranges, cursor, k + 1);
    }
}

/// The lines always fit the rows, and where the next character to be typed
/// stands in a line, as every one that is no white space does, some line in
/// view shows it under the cursor.
pub proof fn law_cursor_in_view(s: Seq<char>, typed: int, width: int, height: int)
    requires
        width > 0,
        height > 0,
    ensures
        0 < typing_lines(s, typed, width, height).len() <= height,
        covered(wrap(s, width), typed) ==> 0 <= typed < s.len() && exists|i: int, j: int|
            #![trigger typing_lines(s, typed, width, height)[i][j]]
            {
                &&& 0 <= i < typing_lines(s, typed, width, height).len()
                &&& 0 <= j < typing_lines(s, typed, width, height)[i].len()
                &&& typing_lines(s, typed, width, height)[i][j] == (
                    seq![s[typed]],
                    SpanStyle::Cursor,
                )
            },
{
    if s.len() > 0 {
        law_wrap(s, width);
        let lines = typing_lines(s, typed, width, height);
        let ranges = wrap(s, width);
        let total = ranges.len() as int;
        let window = window_height(total, height);
        let pad = (height - window) / 2;
        if covered(ranges, typed) {
            let c = cursor_line(s.len() as int, ranges, typed);
            let m = choose|m: int|
                0 <= m < ranges.len() && (#[trigger] ranges[m]).0 <= typed < ranges[m].1;
            assert(holds_cursor(ranges[m], typed));
            lemma_cursor_line_from(ranges, typed, 0);
            assert(holds_cursor(ranges[c], typed));
            if ranges[c].0 == ranges[c].1 {
                if c < m {
                    assert(ranges[c].1 <= ranges[m].0);
                    lemma_empty_range_is_newline(s, width, 0, c);
                    assert(s[typed] != '\n');
                    assert(false);
                } else {
                    assert(ranges[m].1 <= ranges[c].0);
                    assert(false);
                }
            }
            let first = window_start(total, height, c);
            let i = pad + (c - first);
            let line = line_model(s, ranges[c].0, ranges[c].1, typed);
            assert(lines[i] == line);
            let head = run(s, ranges[c].0, typed, SpanStyle::Typed);
            let j = head.len() as int;
            assert(lines[i][j] == (seq![s[typed]], SpanStyle::Cursor));
        }
    }
}

proof fn lemma_cursor_span(s: Seq<char>, start: int, end: int, typed: int, j: int)
    requires
        0 <= j < line_model(s, start, end, typed).len(),
        line_model(s, start, end, typed)[j].1 == SpanStyle::Cursor,
    ensures
        start <= typed < end,
        j == run(s, start, typed, SpanStyle::Typed).len(),
{
}

/// No more than one cursor is shown.
pub proof fn law_one_cursor(
    s: Seq<char>,
    typed: int,
    width: int,
    height: int,
    i: int,
    j: int,
    m: int,
    n: int,
)
    requires
        0 <= i < typing_lines(s, typed, width, height).len(),
        0 <= j < typing_lines(s, typed, width, height)[i].len(),
        typing_lines(s, typed, width, height)[i][j].1 == SpanStyle::Cursor,
        0 <= m < typing_lines(s, typed, width, height).len(),
        0 <= n < typing_lines(s, typed, width, height)[m].len(),
        typing_lines(s, typed, width, height)[m][n].1 == SpanStyle::Cursor,
    ensures
        i == m && j == n,
{
    let lines = typing_lines(s, typed, width, height);
    if s.len() > 0 {
        law_wrap(s, width);
        let ranges = wrap(s, width);
        let t = clamped(typed, 0, s.len() as int);
        let total = ranges.len() as int;
        let window = window_height(total, height);
        let c = cursor_line(s.len() as int, ranges, t);
        let first = window_start(total, height, c);
        let pad = (height - window) / 2;
        let a = first + i - pad;
        let b = first + m - pad;
        assert(i >= pad && lines[i] == line_model(s, ranges[a].0, ranges[a].1, t));
        assert(m >= pad && lines[m] == line_model(s, ranges[b].0, ranges[b].1, t));
        lemma_cursor_span(s, ranges[a].0, ranges[a].1, t, j);
        lemma_cursor_span(s, ranges[b].0, ranges[b].1, t, n);
        if a < b {
            assert(ranges[a].1 <= ranges[b].0);
        } else if b < a {
            assert(ranges[b].1 <= ranges[a].0);
        }
    }
}

/// An empty line of a text stands at a line break.
proof fn lemma_empty_range_is_newline(s: Seq<char>, width: int, i: int, j: int)
    requires
        0 <= i <= s.len(),
        width > 0,
        0 <= j < wrap_from(s, width, i).len(),
        wrap_from(s, width, i)[j].0 == wrap_from(s, width, i)[j].1,
    ensures
        ({
            let k = wrap_from(s, width, i)[j].0;
            0 <= k < s.len() && s[k] == '\n'
        }),
    decreases s.len() - i,
{
    let r = wrap_from(s, width, i);
    lemma_line(s, i, width);
    if j == 0 {
        let limit = line_limit(s, i, width);
        lemma_first_newline(s, i, limit);
    } else {
        let n = next_line(s, i, width);
        assert(r[j] == wrap_from(s, width, n)[j - 1]);
        lemma_empty_range_is_newline(s, width, n, j - 1);
    }
}

/// Builds the lines that show how far `text` has been typed, in a space of
/// `max_width` columns and `max_height` rows.
pub fn build_typing_lines(
    text: &str,
    typed_count: usize,
    max_width: usize,
    max_height: usize,
) -> (r: Vec<TypingLine>)
    ensures
        line_models(r@) == typing_lines(
            text@,
            typed_count as int,
            max_width as int,
            max_height as int,
        ),
{
    let ghost s = text@;
    let mut lines: Vec<TypingLine> = Vec::new();
    if max_width == 0 || max_height == 0 {
        assert(line_models(lines@) =~= Seq::<LineModel>::empty());
        return lines;
    }
    let chars = chars_of(text);
    if chars.len() == 0 {
        let mut spans: Vec<StyledSpan> = Vec::new();
        spans.push(StyledSpan { text: String::new(), style: SpanStyle::Untyped });
        let line = TypingLine { spans };
        assert(line@ =~= seq![(Seq::<char>::empty(), SpanStyle::Untyped)]);
        lines.push(line);
        assert(line_models(lines@) =~= seq![line@]);
        return lines;
    }
    let typed: usize = if typed_count < chars.len() {
        typed_count
    } else {
        chars.len()
    };
    let ranges = wrap_text_ranges(&chars, max_width);
    let ghost pos = positions(ranges@);
    proof {
        law_wrap(s, max_width as int);
        lemma_cursor_line_from(pos, typed as int, 0);
        assert forall|k: int| 0 <= k < ranges@.len() implies (#[trigger] ranges@[k]).1 <= s.len() by {
            assert(pos[k] == (ranges@[k].0 as int, ranges@[k].1 as int));
        }
    }
    let total: usize = ranges.len();
    let mut cursor: usize = total - 1;
    if typed < chars.len() {
        let mut k: usize = 0;
        while k < total && !((ranges[k].0 <= typed && typed < ranges[k].1) || (ranges[k].0
            == ranges[k].1 && typed == ranges[k].0))
            invariant
                k <= total == ranges@.len(),
                pos == positions(ranges@),
                cursor_line_from(pos, typed as int, 0) == cursor_line_from(
                    pos,
                    typed as int,
                    k as int,
                ),
            decreases total - k,
        {
            assert(pos[k as int] == (ranges@[k as int].0 as int, ranges@[k as int].1 as int));
            k += 1;
        }
        if k < total {
            assert(pos[k as int] == (ranges@[k as int].0 as int, ranges@[k as int].1 as int));
            cursor = k;
        }
    }
    assert(cursor == cursor_line(s.len() as int, pos, typed as int));
    let window: usize = if max_height < total {
        max_height
    } else {
        total
    };
    let above: usize = if cursor >= window / 2 {
        cursor - window / 2
    } else {
        0
    };
    let first: usize = if above > total - window {
        total - window
    } else {
        above
    };
    assert(first == window_start(total as int, max_height as int, cursor as int));
    let padding: usize = (max_height - window) / 2;
    let mut i: usize = 0;
    while i < padding
        invariant
            i <= padding,
            line_models(lines@) == Seq::new(i as nat, |k: int| blank_line()),
        decreases padding - i,
    {
        let line = filler();
        let ghost before = line_models(lines@);
        lines.push(line);
        assert(line_models(lines@) =~= before.push(blank_line()));
        i += 1;
        assert(line_models(lines@) =~= Seq::new(i as nat, |k: int| blank_line()));
    }
    let ghost blanks = Seq::new(padding as nat, |k: int| blank_line());
    let ghost f = |k: int| line_model(s, pos[first + k].0, pos[first + k].1, typed as int);
    let mut j: usize = 0;
    while j < window
        invariant
            j <= window,
            first + window <= total == ranges@.len(),
            chars@ == s,
            pos == positions(ranges@),
            forall|k: int| 0 <= k < ranges@.len() ==> (#[trigger] ranges@[k]).1 <= s.len(),
            f == (|k: int| line_model(s, pos[first + k].0, pos[first + k].1, typed as int)),
            line_models(lines@) == blanks + Seq::new(j as nat, f),
        decreases window - j,
    {
        let (start, end) = ranges[first + j];
        assert(pos[first + j] == (start as int, end as int));
        let line = build_line(&chars, start, end, typed);
        let ghost before = line_models(lines@);
        lines.push(line);
        assert(line@ == f(j as int));
        assert(line_models(lines@) =~= before.push(line@));
        j += 1;
        assert(line_models(lines@) =~= blanks + Seq::new(j as nat, f));
    }
    assert(line_models(lines@) =~= typing_lines(
        s,
        typed_count as int,
        max_width as int,
        max_height as int,
    ));
    lines
}

/// The styles of the characters that a line shows, one for each.
pub open spec fn styles(line: LineModel) -> Seq<SpanStyle>
    decreases line.len(),
{
    if line.len() == 0 {
        Seq::empty()
    } else {
        styles(line.drop_last()) + Seq::new(line.last().0.len(), |k: int| line.last().1)
    }
}

proof fn lemma_styles_add(a: LineModel, b: LineModel)
    ensures
        styles(a + b) == styles(a) + styles(b),
    decreases b.len(),
{
    if b.len() == 0 {
        assert(a + b =~= a);
        assert(styles(a + b) =~= styles(a) + styles(b));
    } else {
        lemma_styles_add(a, b.drop_last());
        assert((a + b).drop_last() =~= a + b.drop_last());
        assert((a + b).last() == b.last());
        assert(styles(a + b) =~= styles(a) + styles(b));
    }
}

proof fn lemma_styles_one(text: Seq<char>, style: SpanStyle)
    ensures
        styles(seq![(text, style)]) == Seq::new(text.len(), |k: int| style),
{
    let line: LineModel = seq![(text, style)];
    reveal_with_fuel(styles, 2);
    assert(line.drop_last() =~= Seq::<(Seq<char>, SpanStyle)>::empty());
    assert(styles(line) =~= Seq::new(text.len(), |k: int| style));
}

proof fn lemma_styles_run(s: Seq<char>, from: int, to: int, style: SpanStyle)
    requires
        0 <= from <= to <= s.len(),
    ensures
        styles(run(s, from, to, style)) == Seq::new((to - from) as nat, |k: int| style),
{
    if from < to {
        lemma_styles_one(s.subrange(from, to), style);
    }
    assert(styles(run(s, from, to, style)) =~= Seq::new((to - from) as nat, |k: int| style));
}

/// A line shows each of its characters as what it is: typed where it stands
/// before the cursor, under the cursor where it is the next one, and still to
/// be typed where it comes after.
pub proof fn law_line_styles(s: Seq<char>, start: int, end: int, typed: int, k: int)
    requires
        0 <= start <= k < end <= s.len(),
    ensures
        styles(line_model(s, start, end, typed)).len() == end - start,
        styles(line_model(s, start, end, typed))[k - start] == if k < typed {
            SpanStyle::Typed
        } else if k == typed {
            SpanStyle::Cursor
        } else {
            SpanStyle::Untyped
        },
{
    let head = clamped(typed, start, end);
    let first = run(s, start, head, SpanStyle::Typed);
    lemma_styles_run(s, start, head, SpanStyle::Typed);
    if start <= typed < end {
        let cursor: LineModel = seq![(seq![s[typed]], SpanStyle::Cursor)];
        let rest = run(s, typed + 1, end, SpanStyle::Untyped);
        lemma_styles_one(seq![s[typed]], SpanStyle::Cursor);
        lemma_styles_run(s, typed + 1, end, SpanStyle::Untyped);
        lemma_styles_add(cursor, rest);
        lemma_styles_add(first, cursor + rest);
    } else {
        let rest = run(s, head, end, SpanStyle::Untyped);
        lemma_styles_run(s, head, end, SpanStyle::Untyped);
        lemma_styles_add(first, rest);
    }
}

/// A line is as long as it can be: one that ends neither at a line break nor at
/// the end of the text could take no more words, for no white space comes
/// between its end and the last column, and text is left beyond that column.
pub proof fn law_wrap_is_greedy(s: Seq<char>, width: int, j: int)
    requires
        0 <= j < wrap(s, width).len(),
        wrap(s, width)[j].1 < s.len(),
        s[wrap(s, width)[j].1] != '\n',
    ensures
        wrap(s, width)[j].0 + width < s.len(),
        forall|k: int|
            wrap(s, width)[j].1 < k < wrap(s, width)[j].0 + width ==> !is_whitespace(
                #[trigger] s[k],
            ),
{
    lemma_wrap_line_end(s, width, 0, j);
    let i = wrap(s, width)[j].0;
    let limit = line_limit(s, i, width);
    lemma_first_newline(s, i, limit);
    lemma_last_space(s, i, limit);
}

/// Between two lines stands nothing but white space. Where a line ends before
/// it is full, that is just the one character at which it was broken; where it
/// is full, it is the white space up to the next word or line break.
pub proof fn law_wrap_gaps(s: Seq<char>, width: int, j: int)
    requires
        0 <= j,
        j + 1 < wrap(s, width).len(),
    ensures
        ({
            let (start, end) = wrap(s, width)[j];
            let next = wrap(s, width)[j + 1].0;
            &&& forall|k: int| end <= k < next ==> is_whitespace(#[trigger] s[k])
            &&& end - start < width ==> next == end + 1
            &&& end - start == width ==> (forall|k: int|
                end <= k < next ==> #[trigger] s[k] != '\n') && (!is_whitespace(s[next]) || s[next]
                == '\n')
        }),
        wrap(s, width)[0].0 == 0,
{
    lemma_wrap_line_end(s, width, 0, j);
    lemma_wrap_line_end(s, width, 0, j + 1);
    lemma_wrap_next(s, width, 0, j);
    let i = wrap(s, width)[j].0;
    lemma_line(s, i, width);
    let limit = line_limit(s, i, width);
    lemma_first_newline(s, i, limit);
    lemma_last_space(s, i, limit);
    lemma_skip_blank(s, limit);
}

proof fn lemma_wrap_next(s: Seq<char>, width: int, i: int, j: int)
    requires
        0 <= i <= s.len(),
        width > 0,
        0 <= j,
        j + 1 < wrap_from(s, width, i).len(),
    ensures
        wrap_from(s, width, i)[j + 1].0 == next_line(s, wrap_from(s, width, i)[j].0, width),
        wrap_from(s, width, i)[0].0 == i,
    decreases s.len() - i,
{
    lemma_line(s, i, width);
    let n = next_line(s, i, width);
    let rest = wrap_from(s, width, n);
    assert(wrap_from(s, width, i)[j + 1] == rest[j]);
    if j > 0 {
        assert(wrap_from(s, width, i)[j] == rest[j - 1]);
        lemma_wrap_next(s, width, n, j - 1);
    }
}

/// What is in view is a stretch of the text's lines, as many as there is room
/// for, in their order, with filler above that centres them; and they are those
/// around the line with the cursor: with half of them above it, unless the text
/// begins or ends before.
pub proof fn law_view(s: Seq<char>, typed: int, width: int, height: int) -> (first: int)
    requires
        s.len() > 0,
        width > 0,
        height > 0,
        0 <= typed <= s.len(),
    ensures
        ({
            let view = typing_lines(s, typed, width, height);
            let all = wrap(s, width);
            let room = if height < all.len() {
                height
            } else {
                all.len() as int
            };
            let above = (height - room) / 2;
            let cursor = cursor_line(s.len() as int, all, typed);
            &&& view.len() == above + room
            &&& 0 <= first && first + room <= all.len()
            &&& forall|i: int| 0 <= i < above ==> shown(#[trigger] view[i]) == Seq::<char>::empty()
            &&& forall|i: int|
                0 <= i < room ==> #[trigger] view[above + i] == line_model(
                    s,
                    all[first + i].0,
                    all[first + i].1,
                    typed,
                )
            &&& cursor - first <= room / 2 || first + room == all.len()
            &&& cursor - first >= room / 2 || first == 0
            &&& first <= cursor < first + room
        }),
{
    law_wrap(s, width);
    let all = wrap(s, width);
    let cursor = cursor_line(s.len() as int, all, typed);
    lemma_cursor_line_from(all, typed, 0);
    let total = all.len() as int;
    let room = window_height(total, height);
    let first = window_start(total, height, cursor);
    let view = typing_lines(s, typed, width, height);
    let above = (height - room) / 2;
    assert forall|i: int| 0 <= i < above implies shown(#[trigger] view[i]) == Seq::<char>::empty() by {
        assert(view[i] == blank_line());
        reveal_with_fuel(shown, 2);
        assert(blank_line().drop_last() =~= Seq::<(Seq<char>, SpanStyle)>::empty());
        assert(shown(blank_line()) =~= Seq::<char>::empty());
    }
    assert forall|i: int| 0 <= i < room implies #[trigger] view[above + i] == line_model(
        s,
        all[first + i].0,
        all[first + i].1,
        typed,
    ) by {}
    first
}

/// The line with the cursor is the one that holds the next character, or that
/// is empty where the next character is a line break; there is at most one such
/// line. Where there is none, and once the whole text has been typed, it is the
/// last line.
pub proof fn law_cursor_line(s: Seq<char>, typed: int, width: int, m: int)
    requires
        s.len() > 0,
        width > 0,
        0 <= typed <= s.len(),
        0 <= m < wrap(s, width).len(),
    ensures
        ({
            let lines = wrap(s, width);
            let c = cursor_line(s.len() as int, lines, typed);
            let (start, end) = lines[m];
            &&& typed < s.len() && (start <= typed < end || start == typed == end) ==> c == m
            &&& typed == s.len() ==> c == lines.len() - 1
            &&& c == m && c != lines.len() - 1 ==> start <= typed < end || start == typed == end
        }),
{
    law_wrap(s, width);
    let ranges = wrap(s, width);
    lemma_cursor_line_from(ranges, typed, 0);
    let c = cursor_line(s.len() as int, ranges, typed);
    if typed < s.len() && holds_cursor(ranges[m], typed) {
        assert(holds_cursor(ranges[c], typed));
        if ranges[c].0 == ranges[c].1 {
            lemma_empty_range_is_newline(s, width, 0, c);
        }
        if ranges[m].0 == ranges[m].1 {
            lemma_empty_range_is_newline(s, width, 0, m);
        }
        if c < m {
            assert(ranges[c].1 <= ranges[m].0 && ranges[c].0 < ranges[m].0);
        } else if m < c {
            assert(ranges[m].1 <= ranges[c].0 && ranges[m].0 < ranges[c].0);
        }
        if ranges[c].0 <= typed < ranges[c].1 {
            assert(s[typed] != '\n');
        }
        if ranges[m].0 <= typed < ranges[m].1 {
            assert(s[typed] != '\n');
        }
    }
}

/// Nothing more can be typed than the whole text, and nothing is shown where
/// there is no room. A text without characters is one empty line.
pub proof fn law_view_limits(s: Seq<char>, typed: int, width: int, height: int)
    ensures
        typed >= s.len() ==> typing_lines(s, typed, width, height) == typing_lines(
            s,
            s.len() as int,
            width,
            height,
        ),
        width <= 0 || height <= 0 ==> typing_lines(s, typed, width, height).len() == 0,
        width > 0 && height > 0 && s.len() == 0 ==> typing_lines(s, typed, width, height).len() == 1
            && shown(typing_lines(s, typed, width, height)[0]) == s,
{
    if width > 0 && height > 0 && s.len() == 0 {
        reveal_with_fuel(shown, 2);
        assert(shown(typing_lines(s, typed, width, height)[0]) =~= s);
    }
}

} // verus!
