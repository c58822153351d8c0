//! The recordings that are kept for a while.
use crate::outside::{format_utc, is_field_pattern, utc_format, UtcTime};
use crate::text::{
    decimal, decimal_text, digit_char, ends_with, is_digit, is_whitespace, law_parse_decimal,
    law_strip, law_words_between_whitespace, law_zero_padded, lemma_decimal_digits,
    padded_decimal_text, same_text, split_words, starts_with, texts, words, zero_padded,
};
use vstd::prelude::*;
use vstd::string::*;

verus! {

/// How long a recording is kept, in nanoseconds: seven days.
pub const RECORDING_CACHE_RETENTION: i128 = 604_800_000_000_000;

/// The codec that an output format names, `mp3` where it names none.
pub open spec fn codec(output_format: Seq<char>) -> Seq<char> {
    if words(output_format).len() > 0 {
        words(output_format)[0]
    } else {
        "mp3"@
    }
}

/// The extension of files with a codec's output.
pub open spec fn codec_extension(codec: Seq<char>) -> Seq<char> {
    if codec == "libopus"@ || codec == "libvorbis"@ {
        "ogg"@
    } else if codec == "flac"@ {
        "flac"@
    } else if codec == "aac"@ {
        "m4a"@
    } else if codec == "pcm_s16le"@ {
        "wav"@
    } else {
        codec
    }
}

/// The file extension for an output format.
pub fn recording_extension(output_format: &str) -> (r: String)
    ensures
        r@ == codec_extension(codec(output_format@)),
{
    let parts = split_words(output_format);
    assert(texts(parts@).len() == parts@.len());
    let name = if parts.len() > 0 {
        assert(texts(parts@)[0] == parts@[0]@);
        parts[0].clone()
    } else {
        "mp3".to_string()
    };
    let word = name.as_str();
    if same_text(word, "libopus") || same_text(word, "libvorbis") {
        "ogg".to_string()
    } else if same_text(word, "flac") {
        "flac".to_string()
    } else if same_text(word, "aac") {
        "m4a".to_string()
    } else if same_text(word, "pcm_s16le") {
        "wav".to_string()
    } else {
        name
    }
}

/// The pattern of the time in the name of a recording.
pub open spec fn stamp_pattern() -> Seq<char> {
    "%Y%m%dT%H%M%SZ"@
}

/// The name of a recording: the second in which it was saved, the process that
/// saved it, the millisecond, and the extension.
pub open spec fn cache_filename(
    stamp: Seq<char>,
    pid: nat,
    millis: nat,
    extension: Seq<char>,
) -> Seq<char> {
    stamp + "-"@ + decimal(pid) + "-"@ + zero_padded(decimal(millis), 3) + "."@ + extension
}

/// The name of the file of a recording that was made at a given time.
pub open spec fn recording_name(now: UtcTime, pid: nat, extension: Seq<char>) -> Seq<char> {
    cache_filename(
        utc_format(now.secs, now.nanos, stamp_pattern()),
        pid,
        now.nanos as nat / 1_000_000,
        extension,
    )
}

/// Names a recording that is saved now.
pub fn recording_cache_filename(now: UtcTime, pid: u32, extension: &str) -> (r: String)
    requires
        now.valid(),
    ensures
        r@ == recording_name(now, pid as nat, extension@),
{
    proof {
        reveal_strlit("%Y%m%dT%H%M%SZ");
        assert(is_field_pattern("%Y%m%dT%H%M%SZ"@));
    }
    let stamp = format_utc(now, "%Y%m%dT%H%M%SZ");
    stamped_filename(stamp.as_str(), pid, now.nanos / 1_000_000, extension)
}

/// Names a recording, given the second in which it was saved in words.
pub fn stamped_filename(stamp: &str, pid: u32, millis: u32, extension: &str) -> (r: String)
    ensures
        r@ == cache_filename(stamp@, pid as nat, millis as nat, extension@),
{
    let mut name = stamp.to_string();
    name.append("-");
    let id = decimal_text(pid as u128);
    name.append(id.as_str());
    name.append("-");
    let ms = padded_decimal_text(millis as u128, 3);
    name.append(ms.as_str());
    name.append(".");
    name.append(extension);
    name
}

/// An entry of the directory of recordings.
#[derive(Debug, Clone, Copy)]
pub struct CacheEntry {
    /// Whether the entry is a regular file.
    pub is_file: bool,
    /// When it was last changed, in nanoseconds since the Unix epoch, where
    /// that is known.
    pub modified: Option<i128>,
}

/// Whether an entry is a file that was last changed longer ago than recordings
/// are kept.
pub open spec fn is_expired(entry: CacheEntry, now: int, retention: int) -> bool {
    &&& entry.is_file
    &&& entry.modified matches Some(modified) && modified <= now && now - modified > retention
}

/// Whether an entry is a file that was last changed longer ago than recordings
/// are kept.
fn expired(entry: &CacheEntry, now: i128, retention: i128) -> (r: bool)
    ensures
        r == is_expired(*entry, now as int, retention as int),
{
    if !entry.is_file {
        return false;
    }
    match entry.modified {
        Some(modified) => if modified > now {
            false
        } else {
            match now.checked_sub(modified) {
                Some(age) => age > retention,
                None => true,
            }
        },
        None => false,
    }
}

/// The entries to remove, by position: the expired ones and no others, in order.
pub fn prune_recording_cache(entries: &Vec<CacheEntry>, now: i128, retention: i128) -> (r: Vec<
    usize,
>)
    ensures
        forall|i: int|
            0 <= i < entries@.len() ==> (is_expired(
                #[trigger] entries@[i],
                now as int,
                retention as int,
            ) <==> r@.contains(i as usize)),
        forall|k: int| 0 <= k < r@.len() ==> (#[trigger] r@[k]) < entries@.len(),
        forall|j: int, k: int| 0 <= j < k < r@.len() ==> #[trigger] r@[j] < #[trigger] r@[k],
{
    let mut out: Vec<usize> = Vec::new();
    let mut i: usize = 0;
    while i < entries.len()
        invariant
            i <= entries@.len(),
            forall|m: int|
                0 <= m < i ==> (is_expired(#[trigger] entries@[m], now as int, retention as int)
                    <==> out@.contains(m as usize)),
            forall|k: int| 0 <= k < out@.len() ==> (#[trigger] out@[k]) < i,
            forall|j: int, k: int|
                0 <= j < k < out@.len() ==> #[trigger] out@[j] < #[trigger] out@[k],
        decreases entries@.len() - i,
    {
        let ghost before = out@;
        if expired(&entries[i], now, retention) {
            out.push(i);
            assert(out@[before.len() as int] == i);
        }
        proof {
            assert forall|m: int| 0 <= m < i + 1 implies (is_expired(
                #[trigger] entries@[m],
                now as int,
                retention as int,
            ) <==> out@.contains(m as usize)) by {
                if m < i {
                    if before.contains(m as usize) {
                        let k = choose|k: int| 0 <= k < before.len() && before[k] == m as usize;
                        assert(out@[k] == m as usize);
                    }
                    if out@.contains(m as usize) {
                        let k = choose|k: int| 0 <= k < out@.len() && out@[k] == m as usize;
                        assert(k < before.len());
                        assert(before[k] == m as usize);
                    }
                }
            }
        }
        i += 1;
    }
    out
}

/// A recording is kept for the whole cache window: at any time within it, and
/// at any time before it was last changed by the clock, it has not expired.
pub proof fn law_recent_recordings_are_kept(
    entry: CacheEntry,
    modified: i128,
    now: int,
    retention: int,
)
    requires
        entry.modified == Some(modified),
        now <= modified + retention,
    ensures
        !is_expired(entry, now, retention),
{
}

/// Once a recording has expired, it stays so.
pub proof fn law_expiry_is_final(entry: CacheEntry, now: int, later: int, retention: int)
    requires
        now <= later,
        is_expired(entry, now, retention),
    ensures
        is_expired(entry, later, retention),
{
}

/// The codec is the first word of a format, and a codec without an extension of
/// its own gives its name.
pub proof fn law_codec(before: Seq<char>, word: Seq<char>, space: char, rest: Seq<char>)
    requires
        forall|k: int| 0 <= k < before.len() ==> is_whitespace(#[trigger] before[k]),
        word.len() > 0,
        forall|k: int| 0 <= k < word.len() ==> !is_whitespace(#[trigger] word[k]),
        is_whitespace(space),
    ensures
        codec(word) == word,
        codec(before + word) == word,
        codec(before + word + seq![space] + rest) == word,
        !(word == "libopus"@ || word == "libvorbis"@ || word == "aac"@ || word == "pcm_s16le"@)
            ==> codec_extension(word) == word,
    decreases before.len(),
{
    law_words_between_whitespace(word, space, rest);
    if before.len() == 0 {
        assert(before + word =~= word);
        assert(before + word + seq![space] + rest =~= word + seq![space] + rest);
    } else {
        let less = before.drop_first();
        assert forall|k: int| 0 <= k < less.len() implies is_whitespace(#[trigger] less[k]) by {
            assert(less[k] == before[k + 1]);
        }
        law_codec(less, word, space, rest);
        let short = before + word;
        assert(short[0] == before[0]);
        assert(short.drop_first() =~= less + word);
        let long = before + word + seq![space] + rest;
        assert(long[0] == before[0]);
        assert(long.drop_first() =~= less + word + seq![space] + rest);
    }
}

/// A format without words is that of the default codec.
pub proof fn law_no_codec(format: Seq<char>)
    requires
        forall|k: int| 0 <= k < format.len() ==> is_whitespace(#[trigger] format[k]),
    ensures
        codec(format) == "mp3"@,
    decreases format.len(),
{
    if format.len() > 0 {
        let less = format.drop_first();
        assert forall|k: int| 0 <= k < less.len() implies is_whitespace(#[trigger] less[k]) by {
            assert(less[k] == format[k + 1]);
        }
        law_no_codec(less);
    }
}

proof fn lemma_no_dash(n: nat)
    ensures
        forall|k: int| 0 <= k < decimal(n).len() ==> #[trigger] decimal(n)[k] != '-',
{
    lemma_decimal_digits(n);
    assert forall|k: int| 0 <= k < decimal(n).len() implies #[trigger] decimal(n)[k] != '-' by {
        assert(is_digit(decimal(n)[k]));
    }
}

/// No two recordings of one second have the same name: another process or
/// another millisecond makes another name.
pub proof fn law_names_differ(
    stamp: Seq<char>,
    a: nat,
    b: nat,
    millis: nat,
    other: nat,
    extension: Seq<char>,
)
    requires
        cache_filename(stamp, a, millis, extension) == cache_filename(stamp, b, other, extension),
    ensures
        a == b,
        millis == other,
{
    reveal_strlit("-");
    reveal_strlit(".");
    let first = decimal(a) + "-"@ + zero_padded(decimal(millis), 3);
    let second = decimal(b) + "-"@ + zero_padded(decimal(other), 3);
    let head = stamp + "-"@;
    let tail = "."@ + extension;
    let whole = cache_filename(stamp, a, millis, extension);
    assert(whole =~= head + first + tail);
    assert(cache_filename(stamp, b, other, extension) =~= head + second + tail);
    let end = whole.len() - tail.len();
    assert(whole.subrange(head.len() as int, end) =~= first);
    assert(whole.subrange(head.len() as int, end) =~= second);
    lemma_no_dash(a);
    lemma_no_dash(b);
    let n = decimal(a).len() as int;
    let m = decimal(b).len() as int;
    assert(first[n] == '-' && first[m] == '-') by {
        assert(second[m] == '-');
    }
    assert(n == m) by {
        if n < m {
            assert(second[n] == decimal(b)[n]);
        }
        if m < n {
            assert(first[m] == decimal(a)[m]);
        }
    }
    assert(first.take(n) =~= decimal(a));
    assert(second.take(m) =~= decimal(b));
    law_parse_decimal(a, a + b);
    law_parse_decimal(b, a + b);
    assert(first.skip(n + 1) =~= zero_padded(decimal(millis), 3));
    assert(second.skip(m + 1) =~= zero_padded(decimal(other), 3));
    law_zero_padded(millis, 3, millis + other);
    law_zero_padded(other, 3, millis + other);
}

/// A recording is named by its time to the millisecond: the stamp, the process
/// and three digits, before the extension.
pub proof fn law_recording_name(
    now: UtcTime,
    pid: nat,
    extension: Seq<char>,
    millis: nat,
    rest: nat,
)
    requires
        millis < 1000,
        rest < 1_000_000,
        now.nanos == millis * 1_000_000 + rest,
    ensures
        starts_with(
            recording_name(now, pid, extension),
            utc_format(now.secs, now.nanos, stamp_pattern()) + "-"@ + decimal(pid) + "-"@,
        ),
        ends_with(
            recording_name(now, pid, extension),
            seq![
                digit_char(millis / 100),
                digit_char(millis / 10 % 10),
                digit_char(millis % 10),
            ] + "."@ + extension,
        ),
{
    let name = recording_name(now, pid, extension);
    assert(now.nanos as nat / 1_000_000 == millis);
    let digits = seq![
        digit_char(millis / 100),
        digit_char(millis / 10 % 10),
        digit_char(millis % 10),
    ];
    reveal_with_fuel(decimal, 3);
    assert(zero_padded(decimal(millis), 3) =~= digits);
    let head = utc_format(now.secs, now.nanos, stamp_pattern()) + "-"@ + decimal(pid) + "-"@;
    let tail = digits + "."@ + extension;
    assert(name =~= head + tail);
    law_strip(name, head, tail);
    law_strip(name, tail, head);
}

/// A file is removed once more than the retention has passed since it changed,
/// and not before. What is no file, or whose time is not known, stays. The
/// retention is seven days.
pub proof fn law_expiry(entry: CacheEntry, now: int, retention: int)
    requires
        retention >= 0,
    ensures
        !entry.is_file || entry.modified is None ==> !is_expired(entry, now, retention),
        entry.is_file && entry.modified is Some ==> (is_expired(entry, now, retention) <==> now
            > entry.modified->0 + retention),
        RECORDING_CACHE_RETENTION == 7 * 24 * 60 * 60 * 1_000_000_000,
{
}

} // verus!
