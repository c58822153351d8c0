//! Text operations on character sequences, each with its mathematical meaning.
use vstd::prelude::*;
use vstd::string::*;

verus! {

/// Appends one character to a string.
///
/// `String::push` is documented to append the given `char` to the end of the string.
pub assume_specification[ String::push ](s: &mut String, c: char)
    ensures
        final(s)@ == old(s)@.push(c),
;

/// The characters with the Unicode `White_Space` property.
pub open spec fn is_whitespace(c: char) -> bool {
    let n = c as u32;
    ||| 0x09 <= n <= 0x0d
    ||| n == 0x20
    ||| n == 0x85
    ||| n == 0xa0
    ||| n == 0x1680
    ||| 0x2000 <= n <= 0x200a
    ||| n == 0x2028
    ||| n == 0x2029
    ||| n == 0x202f
    ||| n == 0x205f
    ||| n == 0x3000
}

/// Whether a character is white space.
pub fn whitespace(c: char) -> (r: bool)
    ensures
        r == is_whitespace(c),
{
    let n: u32 = c as u32;
    (0x09 <= n && n <= 0x0d) || n == 0x20 || n == 0x85 || n == 0xa0 || n == 0x1680 || (0x2000 <= n
        && n <= 0x200a) || n == 0x2028 || n == 0x2029 || n == 0x202f || n == 0x205f || n == 0x3000
}

/// The characters of a text, in order.
pub fn chars_of(s: &str) -> (r: Vec<char>)
    ensures
        r@ == s@,
{
    let mut out: Vec<char> = Vec::new();
    for c in it: s.chars()
        invariant
            it.seq() == s@,
            out@ == s@.take(it.index() as int),
    {
        out.push(c);
    }
    out
}

/// The text made of `cs[from..to]`.
pub fn text_of(cs: &[char], from: usize, to: usize) -> (r: String)
    requires
        from <= to <= cs@.len(),
    ensures
        r@ == cs@.subrange(from as int, to as int),
{
    let mut out = String::new();
    let mut i: usize = from;
    while i < to
        invariant
            from <= i <= to <= cs@.len(),
            out@ == cs@.subrange(from as int, i as int),
        decreases to - i,
    {
        out.push(cs[i]);
        i += 1;
    }
    out
}

/// A text without its leading white space.
pub open spec fn trim_start(s: Seq<char>) -> Seq<char>
    decreases s.len(),
{
    if s.len() > 0 && is_whitespace(s[0]) {
        trim_start(s.drop_first())
    } else {
        s
    }
}

/// A text without its trailing white space.
pub open spec fn trim_end(s: Seq<char>) -> Seq<char>
    decreases s.len(),
{
    if s.len() > 0 && is_whitespace(s.last()) {
        trim_end(s.drop_last())
    } else {
        s
    }
}

/// A text without leading and trailing white space.
pub open spec fn trim(s: Seq<char>) -> Seq<char> {
    trim_end(trim_start(s))
}

/// What `trim` keeps is the middle of the text, begins and ends with a
/// character that is no white space, and everything around it is white space.
pub proof fn law_trim(s: Seq<char>)
    ensures
        exists|i: int, j: int|
            #![trigger s.subrange(i, j)]
            {
                &&& 0 <= i <= j <= s.len()
                &&& trim(s) == s.subrange(i, j)
                &&& forall|k: int| 0 <= k < i ==> is_whitespace(#[trigger] s[k])
                &&& forall|k: int| j <= k < s.len() ==> is_whitespace(#[trigger] s[k])
                &&& i < j ==> !is_whitespace(s[i]) && !is_whitespace(s[j - 1])
            },
{
    let i = lemma_trim_start(s);
    let t = trim_start(s);
    let n = lemma_trim_end(t);
    assert(trim(s) =~= s.subrange(i, i + n));
    assert forall|k: int| i + n <= k < s.len() implies is_whitespace(#[trigger] s[k]) by {
        assert(s[k] == t[k - i]);
    }
    if n > 0 {
        assert(s[i] == t[0]);
        assert(s[i + n - 1] == t[n - 1]);
    }
}

proof fn lemma_trim_start(s: Seq<char>) -> (i: int)
    ensures
        0 <= i <= s.len(),
        trim_start(s) == s.skip(i),
        forall|k: int| 0 <= k < i ==> is_whitespace(#[trigger] s[k]),
        i < s.len() ==> !is_whitespace(s[i]),
    decreases s.len(),
{
    if s.len() > 0 && is_whitespace(s[0]) {
        let j = lemma_trim_start(s.drop_first());
        assert(s.drop_first().skip(j) =~= s.skip(j + 1));
        assert forall|k: int| 0 <= k < j + 1 implies is_whitespace(#[trigger] s[k]) by {
            if k > 0 {
                assert(s[k] == s.drop_first()[k - 1]);
            }
        }
        if j + 1 < s.len() {
            assert(s[j + 1] == s.drop_first()[j]);
        }
        j + 1
    } else {
        assert(s.skip(0) =~= s);
        0
    }
}

proof fn lemma_trim_end(s: Seq<char>) -> (n: int)
    ensures
        0 <= n <= s.len(),
        trim_end(s) == s.take(n),
        forall|k: int| n <= k < s.len() ==> is_whitespace(#[trigger] s[k]),
        n > 0 ==> !is_whitespace(s[n - 1]),
    decreases s.len(),
{
    if s.len() > 0 && is_whitespace(s.last()) {
        let n = lemma_trim_end(s.drop_last());
        assert(s.drop_last().take(n) =~= s.take(n));
        assert forall|k: int| n <= k < s.len() implies is_whitespace(#[trigger] s[k]) by {
            if k < s.len() - 1 {
                assert(s[k] == s.drop_last()[k]);
            }
        }
        n
    } else {
        assert(s.take(s.len() as int) =~= s);
        s.len() as int
    }
}

/// A text that neither begins nor ends with white space is left as it is.
pub proof fn lemma_trim_fixed(s: Seq<char>)
    requires
        s.len() > 0 ==> !is_whitespace(s[0]) && !is_whitespace(s.last()),
    ensures
        trim(s) == s,
{
}

/// Trimming twice is trimming once.
pub proof fn law_trim_idempotent(s: Seq<char>)
    ensures
        trim(trim(s)) == trim(s),
{
    law_trim(s);
    let t = trim(s);
    if t.len() > 0 {
        let (i, j) = choose|i: int, j: int|
            #![trigger s.subrange(i, j)]
            {
                &&& 0 <= i <= j <= s.len()
                &&& trim(s) == s.subrange(i, j)
                &&& i < j ==> !is_whitespace(s[i]) && !is_whitespace(s[j - 1])
            };
        assert(t[0] == s[i]);
        assert(t.last() == s[j - 1]);
    }
    lemma_trim_fixed(t);
}

/// White space around a text makes no difference to what `trim` keeps.
pub proof fn law_trim_padding(before: Seq<char>, s: Seq<char>, after: Seq<char>)
    requires
        forall|k: int| 0 <= k < before.len() ==> is_whitespace(#[trigger] before[k]),
        forall|k: int| 0 <= k < after.len() ==> is_whitespace(#[trigger] after[k]),
    ensures
        trim(before + s + after) == trim(s),
    decreases before.len() + after.len(),
{
    let all = before + s + after;
    if before.len() > 0 {
        assert(all[0] == before[0]);
        assert(all.drop_first() =~= before.drop_first() + s + after);
        assert forall|k: int| 0 <= k < before.drop_first().len() implies is_whitespace(
            #[trigger] before.drop_first()[k],
        ) by {
            assert(before.drop_first()[k] == before[k + 1]);
        }
        law_trim_padding(before.drop_first(), s, after);
    } else if after.len() > 0 {
        let n = all.len() - 1;
        assert(all.last() == after.last());
        assert(all.drop_last() =~= before + s + after.drop_last());
        assert forall|k: int| 0 <= k < after.drop_last().len() implies is_whitespace(
            #[trigger] after.drop_last()[k],
        ) by {
            assert(after.drop_last()[k] == after[k]);
        }
        law_trim_padding(before, s, after.drop_last());
        lemma_trim_drop_last(all);
    } else {
        assert(all =~= s);
    }
}

proof fn lemma_trim_drop_last(s: Seq<char>)
    requires
        s.len() > 0,
        is_whitespace(s.last()),
    ensures
        trim(s) == trim(s.drop_last()),
    decreases s.len(),
{
    let t = s.drop_last();
    if is_whitespace(s[0]) {
        if s.len() == 1 {
            assert(s.drop_first() =~= Seq::<char>::empty());
            assert(t =~= Seq::<char>::empty());
            assert(trim_start(s) == trim_start(s.drop_first()));
        } else {
            assert(s.drop_first().drop_last() =~= t.drop_first());
            assert(t[0] == s[0]);
            lemma_trim_drop_last(s.drop_first());
        }
    } else {
        assert(t[0] == s[0]);
    }
}

/// The bounds of the trimmed middle of `cs`.
pub fn trim_bounds(cs: &[char]) -> (r: (usize, usize))
    ensures
        r.0 <= r.1 <= cs@.len(),
        cs@.subrange(r.0 as int, r.1 as int) == trim(cs@),
{
    let n: usize = cs.len();
    let mut from: usize = 0;
    assert(cs@.skip(0) =~= cs@);
    while from < n && whitespace(cs[from])
        invariant
            from <= n == cs@.len(),
            trim_start(cs@.skip(from as int)) == trim_start(cs@),
        decreases n - from,
    {
        proof {
            assert(cs@.skip(from as int).drop_first() =~= cs@.skip(from + 1));
        }
        from += 1;
    }
    let ghost t = cs@.skip(from as int);
    assert(trim_start(cs@) == t);
    let mut to: usize = n;
    assert(cs@.subrange(from as int, n as int) =~= t);
    while from < to && whitespace(cs[to - 1])
        invariant
            from <= to <= n == cs@.len(),
            t == cs@.skip(from as int),
            trim_end(cs@.subrange(from as int, to as int)) == trim_end(t),
        decreases to,
    {
        proof {
            assert(cs@.subrange(from as int, to as int).drop_last() =~= cs@.subrange(
                from as int,
                to - 1,
            ));
        }
        to -= 1;
    }
    (from, to)
}

/// The text without leading and trailing white space.
pub fn trimmed(s: &str) -> (r: String)
    ensures
        r@ == trim(s@),
{
    let cs = chars_of(s);
    let (from, to) = trim_bounds(&cs);
    text_of(&cs, from, to)
}

/// Whether two texts are the same.
pub fn same_text(a: &str, b: &str) -> (r: bool)
    ensures
        r == (a@ == b@),
{
    same_chars(&chars_of(a), &chars_of(b))
}

/// Whether two character slices are the same.
pub fn same_chars(a: &[char], b: &[char]) -> (r: bool)
    ensures
        r == (a@ == b@),
{
    if a.len() != b.len() {
        return false;
    }
    let mut i: usize = 0;
    while i < a.len()
        invariant
            i <= a@.len(),
            a@.len() == b@.len(),
            forall|k: int| 0 <= k < i ==> a@[k] == b@[k],
        decreases a@.len() - i,
    {
        if a[i] != b[i] {
            return false;
        }
        i += 1;
    }
    assert(a@ =~= b@);
    true
}

/// A letter `A` to `Z` as its lower-case form, any other character as it is.
pub open spec fn ascii_lower_char(c: char) -> char {
    if 'A' <= c <= 'Z' {
        (c as u32 + 32) as char
    } else {
        c
    }
}

/// A text with the letters `A` to `Z` in lower case.
pub open spec fn ascii_lower(s: Seq<char>) -> Seq<char> {
    s.map_values(|c: char| ascii_lower_char(c))
}

/// The text with the letters `A` to `Z` in lower case.
pub fn ascii_lowered(s: &str) -> (r: String)
    ensures
        r@ == ascii_lower(s@),
{
    let cs = chars_of(s);
    let mut out = String::new();
    let mut i: usize = 0;
    while i < cs.len()
        invariant
            i <= cs@.len(),
            out@ == ascii_lower(cs@.take(i as int)),
        decreases cs@.len() - i,
    {
        let c = cs[i];
        if 'A' <= c && c <= 'Z' {
            let b: u8 = c as u8;
            out.push((b + 32) as char);
        } else {
            out.push(c);
        }
        i += 1;
        proof {
            assert(ascii_lower(cs@.take(i as int)) =~= ascii_lower(cs@.take(i - 1)).push(
                ascii_lower_char(c),
            ));
        }
    }
    assert(cs@.take(i as int) =~= cs@);
    out
}

/// The views of a list of texts.
pub open spec fn texts(v: Seq<String>) -> Seq<Seq<char>> {
    v.map_values(|t: String| t@)
}

/// Whether a text is among others.
pub fn is_among(list: &Vec<String>, text: &str) -> (r: bool)
    ensures
        r == texts(list@).contains(text@),
{
    let mut i: usize = 0;
    while i < list.len()
        invariant
            i <= list@.len(),
            forall|k: int| 0 <= k < i ==> list@[k]@ != text@,
        decreases list@.len() - i,
    {
        if same_text(list[i].as_str(), text) {
            assert(texts(list@)[i as int] == text@);
            return true;
        }
        i += 1;
    }
    proof {
        if texts(list@).contains(text@) {
            let k = choose|k: int| 0 <= k < texts(list@).len() && texts(list@)[k] == text@;
            assert(list@[k]@ == text@);
        }
    }
    false
}

/// How many characters stand before the first white space.
pub open spec fn word_len(s: Seq<char>) -> nat
    decreases s.len(),
{
    if s.len() > 0 && !is_whitespace(s[0]) {
        1 + word_len(s.drop_first())
    } else {
        0
    }
}

proof fn lemma_word_len(s: Seq<char>)
    ensures
        word_len(s) <= s.len(),
        forall|k: int| 0 <= k < word_len(s) ==> !is_whitespace(#[trigger] s[k]),
        word_len(s) < s.len() ==> is_whitespace(s[word_len(s) as int]),
    decreases s.len(),
{
    if s.len() > 0 && !is_whitespace(s[0]) {
        let r = s.drop_first();
        lemma_word_len(r);
        assert forall|k: int| 0 <= k < word_len(s) implies !is_whitespace(#[trigger] s[k]) by {
            if k > 0 {
                assert(s[k] == r[k - 1]);
            }
        }
        if word_len(s) < s.len() {
            assert(s[word_len(s) as int] == r[word_len(r) as int]);
        }
    }
}

/// The runs of characters between white space, in order.
pub open spec fn words(s: Seq<char>) -> Seq<Seq<char>>
    decreases s.len(),
    via words_decreases
{
    if s.len() == 0 {
        Seq::empty()
    } else if is_whitespace(s[0]) {
        words(s.drop_first())
    } else {
        seq![s.take(word_len(s) as int)] + words(s.skip(word_len(s) as int))
    }
}

#[via_fn]
proof fn words_decreases(s: Seq<char>) {
    lemma_word_len(s);
}

/// No word is empty, and no word holds white space.
pub proof fn law_words(s: Seq<char>)
    ensures
        forall|i: int| 0 <= i < words(s).len() ==> (#[trigger] words(s)[i]).len() > 0,
        forall|i: int, k: int|
            0 <= i < words(s).len() && 0 <= k < words(s)[i].len() ==> !is_whitespace(
                #[trigger] words(s)[i][k],
            ),
    decreases s.len(),
{
    if s.len() == 0 {
    } else if is_whitespace(s[0]) {
        law_words(s.drop_first());
        assert(words(s) == words(s.drop_first()));
    } else {
        lemma_word_len(s);
        let n = word_len(s) as int;
        let rest = words(s.skip(n));
        law_words(s.skip(n));
        assert forall|i: int| 0 <= i < words(s).len() implies (#[trigger] words(s)[i]).len() > 0 by {
            if i > 0 {
                assert(words(s)[i] == rest[i - 1]);
            }
        }
        assert forall|i: int, k: int|
            0 <= i < words(s).len() && 0 <= k < words(s)[i].len() implies !is_whitespace(
            #[trigger] words(s)[i][k],
        ) by {
            if i > 0 {
                assert(words(s)[i] == rest[i - 1]);
                assert(!is_whitespace(rest[i - 1][k]));
            } else {
                assert(words(s)[0] == s.take(n));
                assert(words(s)[0][k] == s[k]);
            }
        }
    }
}

/// Splits a text at white space.
pub fn split_words(s: &str) -> (r: Vec<String>)
    ensures
        texts(r@) == words(s@),
{
    let cs = chars_of(s);
    let n: usize = cs.len();
    let mut out: Vec<String> = Vec::new();
    let mut i: usize = 0;
    assert(cs@.skip(0) =~= cs@);
    assert(texts(out@) + words(cs@) =~= words(cs@));
    while i < n
        invariant
            i <= n == cs@.len(),
            texts(out@) + words(cs@.skip(i as int)) == words(cs@),
        decreases n - i,
    {
        let ghost rest = cs@.skip(i as int);
        if whitespace(cs[i]) {
            assert(rest.drop_first() =~= cs@.skip(i + 1));
            i += 1;
        } else {
            let from: usize = i;
            while i < n && !whitespace(cs[i])
                invariant
                    from <= i <= n == cs@.len(),
                    rest == cs@.skip(from as int),
                    word_len(rest) == (i - from) + word_len(cs@.skip(i as int)),
                decreases n - i,
            {
                assert(cs@.skip(i as int).drop_first() =~= cs@.skip(i + 1));
                i += 1;
            }
            assert(word_len(rest) == i - from);
            let word = text_of(&cs, from, i);
            let ghost before = texts(out@);
            out.push(word);
            proof {
                assert(rest.take(i - from) =~= cs@.subrange(from as int, i as int));
                assert(rest.skip(i - from) =~= cs@.skip(i as int));
                assert(texts(out@) =~= before.push(word@));
                assert(texts(out@) + words(cs@.skip(i as int)) =~= before + (seq![word@] + words(
                    cs@.skip(i as int),
                )));
            }
        }
    }
    assert(cs@.skip(i as int).len() == 0);
    assert(texts(out@) + words(cs@.skip(i as int)) =~= texts(out@));
    out
}

/// Whether `pat` stands in `s` at position `i`.
pub open spec fn matches_at(s: Seq<char>, i: int, pat: Seq<char>) -> bool {
    0 <= i && i + pat.len() <= s.len() && s.subrange(i, i + pat.len()) == pat
}

/// Whether `s` begins with `pat`.
pub open spec fn starts_with(s: Seq<char>, pat: Seq<char>) -> bool {
    matches_at(s, 0, pat)
}

/// Whether `s` ends with `pat`.
pub open spec fn ends_with(s: Seq<char>, pat: Seq<char>) -> bool {
    matches_at(s, s.len() - pat.len(), pat)
}

/// Whether `pat` stands somewhere in `s`.
pub open spec fn contains(s: Seq<char>, pat: Seq<char>) -> bool {
    exists|i: int| matches_at(s, i, pat)
}

/// Whether `pat` stands in `cs` at position `at`.
pub fn chars_match_at(cs: &[char], at: usize, pat: &[char]) -> (r: bool)
    ensures
        r == matches_at(cs@, at as int, pat@),
{
    if at > cs.len() || pat.len() > cs.len() - at {
        return false;
    }
    let mut k: usize = 0;
    while k < pat.len()
        invariant
            k <= pat@.len(),
            at + pat@.len() <= cs@.len(),
            at + pat@.len() <= usize::MAX,
            forall|j: int| 0 <= j < k ==> cs@[at + j] == pat@[j],
        decreases pat@.len() - k,
    {
        if cs[at + k] != pat[k] {
            assert(cs@.subrange(at as int, at + pat@.len())[k as int] != pat@[k as int]);
            return false;
        }
        k += 1;
    }
    assert(cs@.subrange(at as int, at + pat@.len()) =~= pat@);
    true
}

/// The first position from `from` on at which `pat` stands in `s`.
pub open spec fn first_match(s: Seq<char>, pat: Seq<char>, from: int) -> Option<int>
    decreases s.len() + 1 - from,
{
    if from < 0 || from + pat.len() > s.len() {
        None
    } else if matches_at(s, from, pat) {
        Some(from)
    } else {
        first_match(s, pat, from + 1)
    }
}

/// `first_match` gives a match with no earlier one, and nothing only where
/// there is no match at all.
pub proof fn law_first_match(s: Seq<char>, pat: Seq<char>, from: int)
    requires
        0 <= from,
    ensures
        match first_match(s, pat, from) {
            Some(i) => from <= i && matches_at(s, i, pat) && forall|k: int|
                from <= k < i ==> !matches_at(s, k, pat),
            None => forall|k: int| from <= k ==> !matches_at(s, k, pat),
        },
    decreases s.len() + 1 - from,
{
    if from + pat.len() > s.len() {
    } else if matches_at(s, from, pat) {
    } else {
        law_first_match(s, pat, from + 1);
    }
}

/// Finds the first place of `pat` in `cs`.
pub fn find_chars(cs: &[char], pat: &[char]) -> (r: Option<usize>)
    ensures
        match r {
            Some(i) => first_match(cs@, pat@, 0) == Some(i as int),
            None => first_match(cs@, pat@, 0) is None,
        },
{
    if pat.len() > cs.len() {
        return None;
    }
    let last: usize = cs.len() - pat.len();
    let mut i: usize = 0;
    while i <= last
        invariant
            last == cs@.len() - pat@.len(),
            i <= last + 1,
            first_match(cs@, pat@, 0) == first_match(cs@, pat@, i as int),
        decreases last + 1 - i,
    {
        if chars_match_at(cs, i, pat) {
            return Some(i);
        }
        if i == last {
            assert(first_match(cs@, pat@, last + 1) is None);
            return None;
        }
        i += 1;
    }
    None
}

/// Whether a text holds another.
pub fn text_contains(s: &str, pat: &str) -> (r: bool)
    ensures
        r == contains(s@, pat@),
{
    let cs = chars_of(s);
    let ps = chars_of(pat);
    let found = find_chars(&cs, &ps);
    proof {
        law_first_match(cs@, ps@, 0);
        if found is None {
            assert forall|i: int| !matches_at(s@, i, pat@) by {}
        }
    }
    found.is_some()
}

/// Whether a text begins with another.
pub fn text_starts_with(s: &str, pat: &str) -> (r: bool)
    ensures
        r == starts_with(s@, pat@),
{
    chars_match_at(&chars_of(s), 0, &chars_of(pat))
}

/// What follows `pat` at the beginning of `s`, where it stands there.
pub open spec fn strip_prefix(s: Seq<char>, pat: Seq<char>) -> Option<Seq<char>> {
    if starts_with(s, pat) {
        Some(s.skip(pat.len() as int))
    } else {
        None
    }
}

/// What precedes `pat` at the end of `s`, where it stands there.
pub open spec fn strip_suffix(s: Seq<char>, pat: Seq<char>) -> Option<Seq<char>> {
    if ends_with(s, pat) {
        Some(s.take(s.len() - pat.len()))
    } else {
        None
    }
}

/// What follows the first place of `pat` in `s`.
pub open spec fn after_first(s: Seq<char>, pat: Seq<char>) -> Option<Seq<char>> {
    match first_match(s, pat, 0) {
        Some(i) => Some(s.skip(i + pat.len())),
        None => None,
    }
}

/// An optional text as an optional sequence of characters.
pub open spec fn opt_text(t: Option<String>) -> Option<Seq<char>> {
    match t {
        Some(s) => Some(s@),
        None => None,
    }
}

/// An optional text as an optional sequence of characters.
pub open spec fn opt_str(t: Option<&str>) -> Option<Seq<char>> {
    match t {
        Some(s) => Some(s@),
        None => None,
    }
}

/// Takes `pat` off the beginning of a text.
pub fn text_strip_prefix(s: &str, pat: &str) -> (r: Option<String>)
    ensures
        opt_text(r) == strip_prefix(s@, pat@),
{
    let cs = chars_of(s);
    let ps = chars_of(pat);
    if chars_match_at(&cs, 0, &ps) {
        let rest = text_of(&cs, ps.len(), cs.len());
        assert(rest@ =~= s@.skip(pat@.len() as int));
        Some(rest)
    } else {
        None
    }
}

/// Takes `pat` off the end of a text.
pub fn text_strip_suffix(s: &str, pat: &str) -> (r: Option<String>)
    ensures
        opt_text(r) == strip_suffix(s@, pat@),
{
    let cs = chars_of(s);
    let ps = chars_of(pat);
    if ps.len() <= cs.len() && chars_match_at(&cs, cs.len() - ps.len(), &ps) {
        let rest = text_of(&cs, 0, cs.len() - ps.len());
        assert(rest@ =~= s@.take(s@.len() - pat@.len()));
        Some(rest)
    } else {
        None
    }
}

/// What follows the first place of `pat` in a text.
pub fn text_after(s: &str, pat: &str) -> (r: Option<String>)
    ensures
        opt_text(r) == after_first(s@, pat@),
{
    let cs = chars_of(s);
    let ps = chars_of(pat);
    proof {
        law_first_match(cs@, ps@, 0);
    }
    match find_chars(&cs, &ps) {
        Some(i) => {
            let n: usize = cs.len();
            assert(matches_at(cs@, i as int, ps@));
            let rest = text_of(&cs, i + ps.len(), n);
            assert(rest@ =~= s@.skip(i + pat@.len()));
            Some(rest)
        },
        None => None,
    }
}

/// How many characters stand before the first `c`.
pub open spec fn first_index(s: Seq<char>, c: char) -> nat
    decreases s.len(),
{
    if s.len() > 0 && s[0] != c {
        1 + first_index(s.drop_first(), c)
    } else {
        0
    }
}

pub proof fn lemma_first_index(s: Seq<char>, c: char)
    ensures
        first_index(s, c) <= s.len(),
        first_index(s, c) < s.len() ==> s[first_index(s, c) as int] == c,
        forall|k: int| 0 <= k < first_index(s, c) ==> #[trigger] s[k] != c,
    decreases s.len(),
{
    if s.len() > 0 && s[0] != c {
        let r = s.drop_first();
        lemma_first_index(r, c);
        if first_index(s, c) < s.len() {
            assert(s[first_index(s, c) as int] == r[first_index(r, c) as int]);
        }
        assert forall|k: int| 0 <= k < first_index(s, c) implies #[trigger] s[k] != c by {
            if k > 0 {
                assert(s[k] == r[k - 1]);
            }
        }
    }
}

/// The first position from `from` on that holds `c`, or the length.
pub fn index_of(cs: &[char], from: usize, c: char) -> (r: usize)
    requires
        from <= cs@.len(),
    ensures
        from <= r <= cs@.len(),
        r - from == first_index(cs@.skip(from as int), c),
{
    let mut i: usize = from;
    while i < cs.len() && cs[i] != c
        invariant
            from <= i <= cs@.len(),
            first_index(cs@.skip(from as int), c) == (i - from) + first_index(
                cs@.skip(i as int),
                c,
            ),
        decreases cs@.len() - i,
    {
        assert(cs@.skip(i as int).drop_first() =~= cs@.skip(i + 1));
        i += 1;
    }
    i
}

/// A line without the carriage return before its line break.
pub open spec fn without_cr(s: Seq<char>) -> Seq<char> {
    if s.len() > 0 && s.last() == '\r' {
        s.drop_last()
    } else {
        s
    }
}

/// The lines of a text, each without its line break (`\n` or `\r\n`).
pub open spec fn lines(s: Seq<char>) -> Seq<Seq<char>>
    decreases s.len(),
    via lines_decreases
{
    if s.len() == 0 {
        Seq::empty()
    } else {
        let n = first_index(s, '\n') as int;
        if n == s.len() {
            seq![s]
        } else {
            seq![without_cr(s.take(n))] + lines(s.skip(n + 1))
        }
    }
}

#[via_fn]
proof fn lines_decreases(s: Seq<char>) {
    lemma_first_index(s, '\n');
}

/// Splits a text into its lines.
pub fn split_lines(s: &str) -> (r: Vec<String>)
    ensures
        texts(r@) == lines(s@),
{
    let cs = chars_of(s);
    let n: usize = cs.len();
    let mut out: Vec<String> = Vec::new();
    let mut i: usize = 0;
    assert(cs@.skip(0) =~= cs@);
    assert(texts(out@) + lines(cs@) =~= lines(cs@));
    while i < n
        invariant
            i <= n == cs@.len(),
            texts(out@) + lines(cs@.skip(i as int)) == lines(cs@),
        decreases n - i,
    {
        let ghost rest = cs@.skip(i as int);
        let ghost before = texts(out@);
        let end: usize = index_of(&cs, i, '\n');
        proof {
            lemma_first_index(rest, '\n');
            assert(rest.take(end - i) =~= cs@.subrange(i as int, end as int));
        }
        if end == n {
            let line = text_of(&cs, i, n);
            out.push(line);
            proof {
                assert(line@ =~= rest);
                assert(texts(out@) =~= before.push(line@));
                assert(cs@.skip(n as int).len() == 0);
                assert(texts(out@) + lines(cs@.skip(n as int)) =~= before + lines(rest));
            }
            i = n;
        } else {
            let stop: usize = if end > i && cs[end - 1] == '\r' {
                end - 1
            } else {
                end
            };
            let line = text_of(&cs, i, stop);
            out.push(line);
            proof {
                assert(line@ =~= without_cr(rest.take(end - i)));
                assert(rest.skip(end - i + 1) =~= cs@.skip(end + 1));
                assert(texts(out@) =~= before.push(line@));
                assert(texts(out@) + lines(cs@.skip(end + 1)) =~= before + lines(rest));
            }
            i = end + 1;
        }
    }
    assert(cs@.skip(i as int).len() == 0);
    assert(texts(out@) + lines(cs@.skip(i as int)) =~= texts(out@));
    out
}

/// The pieces of a text between the occurrences of `c`, empty ones included.
pub open spec fn split(s: Seq<char>, c: char) -> Seq<Seq<char>>
    decreases s.len(),
    via split_decreases
{
    let n = first_index(s, c) as int;
    if n >= s.len() {
        seq![s]
    } else {
        seq![s.take(n)] + split(s.skip(n + 1), c)
    }
}

#[via_fn]
proof fn split_decreases(s: Seq<char>, c: char) {
    lemma_first_index(s, c);
}

/// Splits a text at each `c`.
pub fn split_at_char(s: &str, c: char) -> (r: Vec<String>)
    ensures
        texts(r@) == split(s@, c),
        r@.len() > 0,
{
    let cs = chars_of(s);
    let n: usize = cs.len();
    let mut out: Vec<String> = Vec::new();
    let mut i: usize = 0;
    assert(cs@.skip(0) =~= cs@);
    assert(texts(out@) + split(cs@, c) =~= split(cs@, c));
    loop
        invariant_except_break
            texts(out@) + split(cs@.skip(i as int), c) == split(cs@, c),
        invariant
            i <= n == cs@.len(),
        ensures
            texts(out@) == split(cs@, c),
            out@.len() > 0,
        decreases n - i,
    {
        let ghost rest = cs@.skip(i as int);
        let ghost before = texts(out@);
        let end: usize = index_of(&cs, i, c);
        let piece = text_of(&cs, i, end);
        out.push(piece);
        proof {
            lemma_first_index(rest, c);
            assert(rest.take(end - i) =~= piece@);
            assert(texts(out@) =~= before.push(piece@));
        }
        if end == n {
            proof {
                assert(piece@ =~= rest);
                assert(texts(out@) =~= before + split(rest, c));
            }
            break;
        }
        proof {
            assert(rest.skip(end - i + 1) =~= cs@.skip(end + 1));
            assert(texts(out@) + split(cs@.skip(end + 1), c) =~= before + split(rest, c));
        }
        i = end + 1;
    }
    out
}

/// The parts, one after the other, with `sep` between them.
pub open spec fn join(parts: Seq<Seq<char>>, sep: Seq<char>) -> Seq<char>
    decreases parts.len(),
{
    if parts.len() == 0 {
        Seq::empty()
    } else if parts.len() == 1 {
        parts[0]
    } else {
        join(parts.drop_last(), sep) + sep + parts.last()
    }
}

/// Joins texts, with `sep` between them.
pub fn join_texts(parts: &[String], sep: &str) -> (r: String)
    ensures
        r@ == join(texts(parts@), sep@),
{
    let mut out = String::new();
    let mut i: usize = 0;
    while i < parts.len()
        invariant
            i <= parts@.len(),
            out@ == join(texts(parts@.take(i as int)), sep@),
        decreases parts@.len() - i,
    {
        if i > 0 {
            out.append(sep);
        }
        out.append(parts[i].as_str());
        proof {
            let now = texts(parts@.take(i + 1));
            assert(now.drop_last() =~= texts(parts@.take(i as int)));
            assert(now.last() == parts@[i as int]@);
            assert(out@ =~= join(now, sep@));
        }
        i += 1;
    }
    assert(parts@.take(i as int) =~= parts@);
    out
}

/// The decimal digit of a number below ten.
pub open spec fn digit_char(d: nat) -> char {
    (48 + d) as char
}

/// A number in decimal notation.
pub open spec fn decimal(n: nat) -> Seq<char>
    decreases n,
{
    if n < 10 {
        seq![digit_char(n)]
    } else {
        decimal(n / 10).push(digit_char(n % 10))
    }
}

/// The decimal notation of a number.
pub fn decimal_text(n: u128) -> (r: String)
    ensures
        r@ == decimal(n as nat),
    decreases n,
{
    let d: u8 = (n % 10) as u8;
    let mut out = if n < 10 {
        String::new()
    } else {
        decimal_text(n / 10)
    };
    out.push((48 + d) as char);
    proof {
        assert(n < 10 ==> out@ =~= seq![digit_char(n as nat)]);
    }
    out
}

/// A text filled up on the left with zeros to `width` characters.
pub open spec fn zero_padded(s: Seq<char>, width: nat) -> Seq<char> {
    if s.len() >= width {
        s
    } else {
        Seq::new((width - s.len()) as nat, |i: int| '0') + s
    }
}

/// The decimal notation of a number, filled up on the left with zeros.
pub fn padded_decimal_text(n: u128, width: usize) -> (r: String)
    ensures
        r@ == zero_padded(decimal(n as nat), width as nat),
{
    let digits = decimal_text(n);
    let have: usize = digits.as_str().unicode_len();
    let mut out = String::new();
    let mut i: usize = have;
    while i < width
        invariant
            have <= i,
            i <= width || i == have,
            out@ == Seq::new((i - have) as nat, |k: int| '0'),
        decreases width - i,
    {
        out.push('0');
        i += 1;
        assert(out@ =~= Seq::new((i - have) as nat, |k: int| '0'));
    }
    out.append(digits.as_str());
    assert(out@ =~= zero_padded(decimal(n as nat), width as nat));
    out
}

/// Whether a character is a decimal digit.
pub open spec fn is_digit(c: char) -> bool {
    '0' <= c <= '9'
}

/// The number that a run of digits denotes.
pub open spec fn digits_value(s: Seq<char>) -> nat
    decreases s.len(),
{
    if s.len() == 0 {
        0
    } else {
        digits_value(s.drop_last()) * 10 + (s.last() as nat - 48) as nat
    }
}

/// The digits of a number, without the plus sign that may precede them.
pub open spec fn unsigned_digits(s: Seq<char>) -> Seq<char> {
    if s.len() > 0 && s[0] == '+' {
        s.drop_first()
    } else {
        s
    }
}

/// The number at most `max` that a text denotes: digits, with an optional
/// plus sign in front.
pub open spec fn parse_number(s: Seq<char>, max: nat) -> Option<nat> {
    let d = unsigned_digits(s);
    if d.len() > 0 && (forall|i: int| 0 <= i < d.len() ==> is_digit(#[trigger] d[i]))
        && digits_value(d) <= max {
        Some(digits_value(d))
    } else {
        None
    }
}

proof fn lemma_digits_value_grows(s: Seq<char>, i: int)
    requires
        0 <= i <= s.len(),
    ensures
        digits_value(s.take(i)) <= digits_value(s),
    decreases s.len(),
{
    if i == s.len() {
        assert(s.take(i) =~= s);
    } else {
        lemma_digits_value_grows(s.drop_last(), i);
        assert(s.drop_last().take(i) =~= s.take(i));
    }
}

/// Reads a number.
pub fn parse_u64(s: &str) -> (r: Option<u64>)
    ensures
        match r {
            Some(v) => parse_number(s@, u64::MAX as nat) == Some(v as nat),
            None => parse_number(s@, u64::MAX as nat) is None,
        },
{
    let cs = chars_of(s);
    let n: usize = cs.len();
    let from: usize = if n > 0 && cs[0] == '+' {
        1
    } else {
        0
    };
    let ghost d = unsigned_digits(s@);
    assert(d =~= cs@.skip(from as int));
    if from == n {
        return None;
    }
    let mut value: u64 = 0;
    let mut i: usize = from;
    while i < n
        invariant
            from <= i <= n == cs@.len(),
            d == cs@.skip(from as int),
            value == digits_value(d.take(i - from)),
            forall|k: int| 0 <= k < i - from ==> is_digit(#[trigger] d[k]),
            d == unsigned_digits(s@),
        decreases n - i,
    {
        let c = cs[i];
        assert(c == d[i - from]);
        if c < '0' || '9' < c {
            assert(!is_digit(d[i - from]));
            return None;
        }
        let digit: u64 = (c as u8 - 48) as u64;
        proof {
            assert(d.take(i - from + 1).drop_last() =~= d.take(i - from));
            assert(d.take(i - from + 1).last() == c);
            lemma_digits_value_grows(d, i - from + 1);
        }
        if value > (u64::MAX - digit) / 10 {
            assert(value * 10 + digit > u64::MAX);
            return None;
        }
        value = value * 10 + digit;
        i += 1;
    }
    assert(d.take(n - from) =~= d);
    Some(value)
}

/// Reads a number that fits in a `usize`.
pub fn parse_usize(s: &str) -> (r: Option<usize>)
    ensures
        match r {
            Some(v) => parse_number(s@, usize::MAX as nat) == Some(v as nat),
            None => parse_number(s@, usize::MAX as nat) is None,
        },
{
    match parse_u64(s) {
        Some(v) => if v <= usize::MAX as u64 {
            Some(v as usize)
        } else {
            None
        },
        None => None,
    }
}

pub proof fn lemma_decimal_digits(n: nat)
    ensures
        decimal(n).len() > 0,
        forall|i: int| 0 <= i < decimal(n).len() ==> is_digit(#[trigger] decimal(n)[i]),
        digits_value(decimal(n)) == n,
    decreases n,
{
    if n < 10 {
        reveal_with_fuel(digits_value, 2);
        assert(decimal(n).drop_last() =~= Seq::<char>::empty());
    } else {
        lemma_decimal_digits(n / 10);
        assert(decimal(n).drop_last() =~= decimal(n / 10));
        assert forall|i: int| 0 <= i < decimal(n).len() implies is_digit(#[trigger] decimal(n)[i]) by {
            if i < decimal(n).len() - 1 {
                assert(decimal(n)[i] == decimal(n / 10)[i]);
            }
        }
    }
}

/// Reading the decimal notation of a number gives the number back.
pub proof fn law_parse_decimal(n: nat, max: nat)
    requires
        n <= max,
    ensures
        parse_number(decimal(n), max) == Some(n),
{
    lemma_decimal_digits(n);
    assert(is_digit(decimal(n)[0]));
}

/// A line ends at the first line feed, and a carriage return before that is no
/// part of it; what comes after the last line feed is a line where it is not
/// empty.
pub proof fn law_lines(line: Seq<char>, rest: Seq<char>)
    requires
        forall|k: int| 0 <= k < line.len() ==> #[trigger] line[k] != '\n',
    ensures
        lines(line + seq!['\r', '\n'] + rest) == seq![line] + lines(rest),
        !(line.len() > 0 && line.last() == '\r') ==> lines(line + seq!['\n'] + rest) == seq![line]
            + lines(rest),
        lines(line) == if line.len() == 0 {
            Seq::empty()
        } else {
            seq![line]
        },
{
    let a = line + seq!['\r', '\n'] + rest;
    lemma_first_index(a, '\n');
    let n = line.len() as int;
    assert(a[n] == '\r' && a[n + 1] == '\n');
    assert(forall|k: int| 0 <= k < n ==> a[k] == line[k]);
    assert(first_index(a, '\n') == n + 1);
    assert(a.take(n + 1) =~= line.push('\r'));
    assert(a.take(n + 1).drop_last() =~= line);
    assert(a.skip(n + 2) =~= rest);
    let b = line + seq!['\n'] + rest;
    lemma_first_index(b, '\n');
    assert(b[n] == '\n');
    assert(forall|k: int| 0 <= k < n ==> b[k] == line[k]);
    assert(first_index(b, '\n') == n);
    assert(b.take(n) =~= line);
    assert(b.skip(n + 1) =~= rest);
    lemma_first_index(line, '\n');
}

/// A text is cut at each separator: what comes before the first is the first
/// part, and what comes after it is cut in the same way.
pub proof fn law_split(part: Seq<char>, rest: Seq<char>, c: char)
    requires
        forall|k: int| 0 <= k < part.len() ==> #[trigger] part[k] != c,
    ensures
        split(part + seq![c] + rest, c) == seq![part] + split(rest, c),
        split(part, c) == seq![part],
{
    let a = part + seq![c] + rest;
    lemma_first_index(a, c);
    let n = part.len() as int;
    assert(a[n] == c);
    assert(forall|k: int| 0 <= k < n ==> a[k] == part[k]);
    assert(first_index(a, c) == n);
    assert(a.take(n) =~= part);
    assert(a.skip(n + 1) =~= rest);
    lemma_first_index(part, c);
}

/// To join texts is to put the separator between each and the next.
pub proof fn law_join(first: Seq<char>, rest: Seq<Seq<char>>, sep: Seq<char>)
    ensures
        join(seq![first] + rest, sep) == if rest.len() == 0 {
            first
        } else {
            first + sep + join(rest, sep)
        },
        join(Seq::empty(), sep) == Seq::<char>::empty(),
    decreases rest.len(),
{
    let all = seq![first] + rest;
    if rest.len() == 0 {
        assert(all[0] == first);
    } else if rest.len() == 1 {
        reveal_with_fuel(join, 2);
        assert(all.drop_last() =~= seq![first]);
        assert(join(all.drop_last(), sep) == first);
        assert(all.last() == rest[0]);
        assert(join(all, sep) =~= first + sep + join(rest, sep));
    } else {
        law_join(first, rest.drop_last(), sep);
        assert(all.drop_last() =~= seq![first] + rest.drop_last());
        assert(join(all, sep) =~= first + sep + join(rest, sep));
    }
}

/// Joining the parts of a text with the separator that it was cut at gives the
/// text back.
pub proof fn law_split_join(s: Seq<char>, c: char)
    ensures
        join(split(s, c), seq![c]) == s,
        forall|i: int| 0 <= i < split(s, c).len() ==> !(#[trigger] split(s, c)[i]).contains(c),
    decreases s.len(),
{
    lemma_first_index(s, c);
    let n = first_index(s, c) as int;
    if n < s.len() {
        let rest = s.skip(n + 1);
        law_split_join(rest, c);
        law_join(s.take(n), split(rest, c), seq![c]);
        assert(s =~= s.take(n) + seq![c] + rest);
        assert forall|i: int| 0 <= i < split(s, c).len() implies !(#[trigger] split(
            s,
            c,
        )[i]).contains(c) by {
            if i == 0 {
                assert(split(s, c)[0] == s.take(n));
            } else {
                assert(split(s, c)[i] == split(rest, c)[i - 1]);
            }
        }
    }
}

proof fn lemma_word_len_is(s: Seq<char>, n: int)
    requires
        0 <= n <= s.len(),
        forall|k: int| 0 <= k < n ==> !is_whitespace(#[trigger] s[k]),
        n < s.len() ==> is_whitespace(s[n]),
    ensures
        word_len(s) == n,
{
    lemma_word_len(s);
    if word_len(s) < n {
        assert(!is_whitespace(s[word_len(s) as int]));
    }
}

/// The words of a text are those before any of its white space and those after
/// it, in that order; a text without white space is one word.
pub proof fn law_words_between_whitespace(before: Seq<char>, space: char, after: Seq<char>)
    requires
        is_whitespace(space),
    ensures
        words(before + seq![space] + after) == words(before) + words(after),
        before.len() > 0 && (forall|k: int|
            0 <= k < before.len() ==> !is_whitespace(#[trigger] before[k])) ==> words(before)
            == seq![before],
    decreases before.len(),
{
    let s = before + seq![space] + after;
    if before.len() == 0 {
        assert(s.drop_first() =~= after);
        assert(words(before) + words(after) =~= words(after));
    } else if is_whitespace(before[0]) {
        law_words_between_whitespace(before.drop_first(), space, after);
        assert(s.drop_first() =~= before.drop_first() + seq![space] + after);
    } else {
        lemma_word_len(before);
        let n = word_len(before) as int;
        assert(forall|k: int| 0 <= k < n ==> s[k] == before[k]);
        assert(s[n] == if n < before.len() {
            before[n]
        } else {
            space
        });
        lemma_word_len_is(s, n);
        assert(n > 0);
        law_words_between_whitespace(before.skip(n), space, after);
        assert(s.skip(n) =~= before.skip(n) + seq![space] + after);
        assert(s.take(n) =~= before.take(n));
        assert(words(s) =~= words(before) + words(after));
        if forall|k: int| 0 <= k < before.len() ==> !is_whitespace(#[trigger] before[k]) {
            assert(n == before.len());
            assert(before.take(n) =~= before);
            assert(words(before.skip(n)) =~= Seq::empty());
            assert(words(before) =~= seq![before]);
        }
    }
}

/// A text begins, or ends, with a pattern exactly where it is that pattern with
/// the rest after, or before, it; and the rest is what is left without it.
pub proof fn law_strip(s: Seq<char>, pat: Seq<char>, rest: Seq<char>)
    ensures
        strip_prefix(s, pat) == Some(rest) <==> s == pat + rest,
        strip_suffix(s, pat) == Some(rest) <==> s == rest + pat,
        starts_with(s, pat) <==> strip_prefix(s, pat) is Some,
        ends_with(s, pat) <==> strip_suffix(s, pat) is Some,
{
    let n = pat.len() as int;
    if s == pat + rest {
        assert(s.subrange(0, n) =~= pat);
        assert(s.skip(n) =~= rest);
    }
    if strip_prefix(s, pat) == Some(rest) {
        assert(s =~= s.subrange(0, n) + s.skip(n));
    }
    if s == rest + pat {
        assert(s.subrange(s.len() - n, s.len() as int) =~= pat);
        assert(s.take(s.len() - n) =~= rest);
    }
    if strip_suffix(s, pat) == Some(rest) {
        assert(s =~= s.take(s.len() - n) + s.subrange(s.len() - n, s.len() as int));
    }
}

/// A text holds whatever stands between any two parts of it, and it holds
/// nothing else.
pub proof fn law_contains(before: Seq<char>, pat: Seq<char>, after: Seq<char>, s: Seq<char>)
    ensures
        contains(before + pat + after, pat),
        contains(s, pat) ==> exists|i: int|
            0 <= i <= s.len() && s == #[trigger] s.take(i) + pat + s.skip(i + pat.len()),
{
    let whole = before + pat + after;
    let at = before.len() as int;
    assert(whole.subrange(at, at + pat.len()) =~= pat);
    assert(matches_at(whole, at, pat));
    if contains(s, pat) {
        let i = choose|i: int| matches_at(s, i, pat);
        assert(s =~= s.take(i) + s.subrange(i, i + pat.len()) + s.skip(i + pat.len()));
    }
}

/// What comes after a pattern is what comes after the first place that holds it.
pub proof fn law_after_first(before: Seq<char>, pat: Seq<char>, after: Seq<char>)
    requires
        forall|k: int|
            0 <= k < before.len() ==> !#[trigger] matches_at(before + pat + after, k, pat),
    ensures
        after_first(before + pat + after, pat) == Some(after),
{
    let s = before + pat + after;
    let at = before.len() as int;
    assert(s.subrange(at, at + pat.len()) =~= pat);
    assert(matches_at(s, at, pat));
    law_first_match(s, pat, 0);
    assert(s.skip(at + pat.len()) =~= after);
}

/// Where a text holds a pattern nowhere, nothing comes after it; otherwise
/// something does.
pub proof fn law_after_first_is_there(s: Seq<char>, pat: Seq<char>)
    ensures
        after_first(s, pat) is Some <==> contains(s, pat),
{
    law_first_match(s, pat, 0);
}

/// Only the letters from `A` to `Z` change, each to the one that many letters
/// after `a`.
pub proof fn law_ascii_lower(s: Seq<char>, k: int)
    requires
        0 <= k < s.len(),
    ensures
        ascii_lower(s).len() == s.len(),
        'A' <= s[k] <= 'Z' ==> ascii_lower(s)[k] as int - 'a' as int == s[k] as int - 'A' as int,
        !('A' <= s[k] <= 'Z') ==> ascii_lower(s)[k] == s[k],
        ascii_lower(ascii_lower(s)) == ascii_lower(s),
{
    assert forall|i: int| 0 <= i < s.len() implies ascii_lower(ascii_lower(s))[i]
        == #[trigger] ascii_lower(s)[i] by {
        let c = s[i];
        if 'A' <= c <= 'Z' {
            let d = (c as u32 + 32) as char;
            assert(d as int == c as int + 32);
        }
    }
    assert(ascii_lower(ascii_lower(s)) =~= ascii_lower(s));
}

proof fn lemma_leading_zeros(zeros: nat, s: Seq<char>)
    ensures
        digits_value(Seq::new(zeros, |i: int| '0') + s) == digits_value(s),
    decreases s.len() + zeros,
{
    let z = Seq::new(zeros, |i: int| '0');
    if s.len() > 0 {
        lemma_leading_zeros(zeros, s.drop_last());
        assert((z + s).drop_last() =~= z + s.drop_last());
        assert((z + s).last() == s.last());
    } else if zeros > 0 {
        lemma_leading_zeros((zeros - 1) as nat, s);
        let less = Seq::new((zeros - 1) as nat, |i: int| '0');
        assert((z + s).drop_last() =~= less + s);
        assert((z + s).last() == '0');
    } else {
        assert(z + s =~= s);
    }
}

/// A padded number is as wide as asked for, or as its digits need, and still
/// that number.
pub proof fn law_zero_padded(n: nat, width: nat, max: nat)
    requires
        n <= max,
    ensures
        parse_number(zero_padded(decimal(n), width), max) == Some(n),
        zero_padded(decimal(n), width).len() == if decimal(n).len() < width {
            width
        } else {
            decimal(n).len()
        },
{
    lemma_decimal_digits(n);
    let d = decimal(n);
    if d.len() < width {
        lemma_leading_zeros((width - d.len()) as nat, d);
    }
    let p = zero_padded(d, width);
    assert(is_digit(p[0]));
    assert(unsigned_digits(p) == p);
    assert forall|i: int| 0 <= i < p.len() implies is_digit(#[trigger] p[i]) by {
        if d.len() < width && i >= width - d.len() {
            assert(p[i] == d[i - (width - d.len())]);
        }
    }
}

/// A number reads the same with a plus sign or a zero before it. What is not
/// made of digits is no number, nor is one that is too large.
pub proof fn law_parse(digits: Seq<char>, max: nat, i: int)
    requires
        digits.len() > 0,
        digits[0] != '+',
    ensures
        parse_number(seq!['+'] + digits, max) == parse_number(digits, max),
        parse_number(seq!['0'] + digits, max) == parse_number(digits, max),
        0 <= i < digits.len() && !is_digit(digits[i]) ==> parse_number(digits, max) is None,
        parse_number(Seq::empty(), max) is None,
        parse_number(seq!['+'], max) is None,
        parse_number(digits, max) matches Some(n) ==> n <= max,
{
    assert((seq!['+'] + digits).drop_first() =~= digits);
    let z = seq!['0'] + digits;
    assert(unsigned_digits(z) == z);
    assert(seq!['0'] =~= Seq::new(1, |i: int| '0'));
    lemma_leading_zeros(1, digits);
    assert forall|k: int| 0 <= k < digits.len() implies digits[k] == #[trigger] z[k + 1] by {}
    if forall|k: int| 0 <= k < z.len() ==> is_digit(#[trigger] z[k]) {
        assert forall|k: int| 0 <= k < digits.len() implies is_digit(#[trigger] digits[k]) by {
            assert(is_digit(z[k + 1]));
        }
    }
    if forall|k: int| 0 <= k < digits.len() ==> is_digit(#[trigger] digits[k]) {
        assert forall|k: int| 0 <= k < z.len() implies is_digit(#[trigger] z[k]) by {
            if k > 0 {
                assert(z[k] == digits[k - 1]);
            }
        }
    }
    assert(seq!['+'].drop_first() =~= Seq::<char>::empty());
}

/// A number that is too large is not read.
pub proof fn law_parse_too_large(n: nat, max: nat)
    requires
        n > max,
    ensures
        parse_number(decimal(n), max) is None,
{
    lemma_decimal_digits(n);
    assert(is_digit(decimal(n)[0]));
}

/// Cutting joined texts at the separator gives them back, where none holds it.
pub proof fn law_join_split(parts: Seq<Seq<char>>, c: char)
    requires
        parts.len() > 0,
        forall|i: int| 0 <= i < parts.len() ==> !(#[trigger] parts[i]).contains(c),
    ensures
        split(join(parts, seq![c]), c) == parts,
    decreases parts.len(),
{
    let rest = parts.drop_first();
    assert(parts =~= seq![parts[0]] + rest);
    law_join(parts[0], rest, seq![c]);
    assert(!parts[0].contains(c));
    assert forall|k: int| 0 <= k < parts[0].len() implies #[trigger] parts[0][k] != c by {
        assert(parts[0].contains(parts[0][k]));
    }
    law_split(parts[0], join(rest, seq![c]), c);
    if rest.len() > 0 {
        assert forall|i: int| 0 <= i < rest.len() implies !(#[trigger] rest[i]).contains(c) by {
            assert(rest[i] == parts[i + 1]);
        }
        law_join_split(rest, c);
    } else {
        assert(parts =~= seq![parts[0]]);
    }
}

/// The words of words joined with a space are those words.
pub proof fn law_join_words(parts: Seq<Seq<char>>)
    requires
        forall|i: int| 0 <= i < parts.len() ==> (#[trigger] parts[i]).len() > 0,
        forall|i: int, k: int|
            0 <= i < parts.len() && 0 <= k < parts[i].len() ==> !is_whitespace(
                #[trigger] parts[i][k],
            ),
    ensures
        words(join(parts, seq![' '])) == parts,
    decreases parts.len(),
{
    if parts.len() > 0 {
        let rest = parts.drop_first();
        assert(parts =~= seq![parts[0]] + rest);
        law_join(parts[0], rest, seq![' ']);
        law_words_between_whitespace(parts[0], ' ', join(rest, seq![' ']));
        assert forall|k: int| 0 <= k < parts[0].len() implies !is_whitespace(
            #[trigger] parts[0][k],
        ) by {}
        assert(words(parts[0]) == seq![parts[0]]);
        assert forall|i: int| 0 <= i < rest.len() implies (#[trigger] rest[i]).len() > 0 by {
            assert(rest[i] == parts[i + 1]);
        }
        assert forall|i: int, k: int|
            0 <= i < rest.len() && 0 <= k < rest[i].len() implies !is_whitespace(
            #[trigger] rest[i][k],
        ) by {
            assert(rest[i][k] == parts[i + 1][k]);
        }
        law_join_words(rest);
        if rest.len() == 0 {
            assert(parts =~= seq![parts[0]]);
        }
    }
}

/// What holds of each character of some texts and of the separator holds of each
/// character of the joined text.
pub proof fn lemma_join_chars(parts: Seq<Seq<char>>, sep: Seq<char>, p: spec_fn(char) -> bool)
    requires
        forall|i: int, k: int|
            0 <= i < parts.len() && 0 <= k < parts[i].len() ==> p(#[trigger] parts[i][k]),
        forall|k: int| 0 <= k < sep.len() ==> p(#[trigger] sep[k]),
    ensures
        forall|k: int| 0 <= k < join(parts, sep).len() ==> p(#[trigger] join(parts, sep)[k]),
    decreases parts.len(),
{
    if parts.len() == 1 {
        assert forall|k: int| 0 <= k < join(parts, sep).len() implies p(
            #[trigger] join(parts, sep)[k],
        ) by {
            assert(join(parts, sep)[k] == parts[0][k]);
        }
    } else if parts.len() > 1 {
        let less = parts.drop_last();
        assert forall|i: int, k: int|
            0 <= i < less.len() && 0 <= k < less[i].len() implies p(#[trigger] less[i][k]) by {
            assert(less[i][k] == parts[i][k]);
        }
        lemma_join_chars(less, sep, p);
        let head = join(less, sep);
        assert forall|k: int| 0 <= k < join(parts, sep).len() implies p(
            #[trigger] join(parts, sep)[k],
        ) by {
            if k >= head.len() + sep.len() {
                assert(join(parts, sep)[k] == parts[parts.len() - 1][k - head.len() - sep.len()]);
            } else if k >= head.len() {
                assert(join(parts, sep)[k] == sep[k - head.len()]);
            } else {
                assert(join(parts, sep)[k] == head[k]);
            }
        }
    }
}

/// A text that differs from a pattern in one of its last characters does not end
/// with it.
pub proof fn lemma_not_ends_with(s: Seq<char>, pat: Seq<char>, k: int)
    requires
        1 <= k <= pat.len(),
        k <= s.len(),
        s[s.len() - k] != pat[pat.len() - k],
    ensures
        !ends_with(s, pat),
{
    if ends_with(s, pat) {
        let tail = s.subrange(s.len() - pat.len(), s.len() as int);
        assert(tail[pat.len() - k] == s[s.len() - k]);
    }
}

} // verus!
