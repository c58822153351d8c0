//! What the sound servers' command-line tools say about the default input source.
use crate::outside::from_utf8;
use crate::text::{
    after_first, ascii_lower_char, chars_of, contains, ends_with, first_index, index_of, is_digit,
    is_whitespace, join, join_texts, law_after_first, law_after_first_is_there, law_join,
    law_join_split, law_join_words, law_split, law_strip, law_trim_padding, law_words_between_whitespace,
    lemma_first_index, lemma_join_chars, lemma_not_ends_with, lemma_trim_fixed, lines, matches_at,
    opt_text, split, split_at_char, split_lines, split_words, starts_with, strip_prefix,
    strip_suffix, text_after, text_of, text_starts_with, text_strip_prefix, text_strip_suffix,
    texts, trim, trimmed, words,
};
use vstd::prelude::*;
use vstd::string::*;
use vstd::utf8::{decode_utf8, valid_utf8};

verus! {

/// What a tool has said: its output, where it succeeded and its output is text.
pub fn command_stdout(success: bool, stdout: &[u8]) -> (r: Option<String>)
    ensures
        r is Some <==> success && valid_utf8(stdout@),
        r matches Some(said) ==> said@ == decode_utf8(stdout@),
{
    if !success {
        return None;
    }
    match from_utf8(stdout) {
        Ok(said) => Some(said),
        Err(_) => None,
    }
}

/// A device label without the profile that the sound server appends to it.
pub open spec fn without_profile(label: Seq<char>) -> Seq<char> {
    let t = trim(label);
    if let Some(base) = strip_suffix(t, " Analog Stereo"@) {
        trim(base)
    } else if let Some(base) = strip_suffix(t, " Analog Mono"@) {
        trim(base)
    } else if let Some(base) = strip_suffix(t, " Digital Stereo"@) {
        trim(base)
    } else if let Some(base) = strip_suffix(t, " Stereo"@) {
        trim(base)
    } else if let Some(base) = strip_suffix(t, " Mono"@) {
        trim(base)
    } else {
        t
    }
}

/// Takes the profile off a device label.
pub fn strip_pulse_profile_suffix(label: &str) -> (r: String)
    ensures
        r@ == without_profile(label@),
{
    let t = trimmed(label);
    if let Some(base) = text_strip_suffix(t.as_str(), " Analog Stereo") {
        return trimmed(base.as_str());
    }
    if let Some(base) = text_strip_suffix(t.as_str(), " Analog Mono") {
        return trimmed(base.as_str());
    }
    if let Some(base) = text_strip_suffix(t.as_str(), " Digital Stereo") {
        return trimmed(base.as_str());
    }
    if let Some(base) = text_strip_suffix(t.as_str(), " Stereo") {
        return trimmed(base.as_str());
    }
    if let Some(base) = text_strip_suffix(t.as_str(), " Mono") {
        return trimmed(base.as_str());
    }
    t
}

/// What a line of `wpctl inspect` says: nothing about the name of the source,
/// or its name, which is missing where the closing quote is.
pub open spec fn wpctl_line(line: Seq<char>) -> Option<Option<Seq<char>>> {
    let t = trim(line);
    if let Some(value) = after_first(t, "node.nick = \""@) {
        Some(strip_suffix(value, "\""@))
    } else if let Some(value) = after_first(t, "node.description = \""@) {
        match strip_suffix(value, "\""@) {
            Some(label) => Some(Some(without_profile(label))),
            None => Some(None),
        }
    } else {
        None
    }
}

/// The name that the first line with a name gives.
pub open spec fn wpctl_source(ls: Seq<Seq<char>>) -> Option<Seq<char>>
    decreases ls.len(),
{
    if ls.len() == 0 {
        None
    } else {
        match wpctl_line(ls[0]) {
            Some(name) => name,
            None => wpctl_source(ls.drop_first()),
        }
    }
}

/// Reads the name of the default source from the output of `wpctl inspect`.
pub fn linux_default_source_name_from_wpctl(output: &str) -> (r: Option<String>)
    ensures
        opt_text(r) == wpctl_source(lines(output@)),
{
    let ls = split_lines(output);
    let ghost all = texts(ls@);
    let mut i: usize = 0;
    assert(all.skip(0) =~= all);
    while i < ls.len()
        invariant
            i <= ls@.len(),
            all == texts(ls@),
            all == lines(output@),
            wpctl_source(all.skip(i as int)) == wpctl_source(all),
        decreases ls@.len() - i,
    {
        assert(all[i as int] == ls@[i as int]@);
        assert(all.skip(i as int).drop_first() =~= all.skip(i + 1));
        assert(all.skip(i as int)[0] == ls@[i as int]@);
        let t = trimmed(ls[i].as_str());
        if let Some(value) = text_after(t.as_str(), "node.nick = \"") {
            return text_strip_suffix(value.as_str(), "\"");
        }
        if let Some(value) = text_after(t.as_str(), "node.description = \"") {
            return match text_strip_suffix(value.as_str(), "\"") {
                Some(label) => Some(strip_pulse_profile_suffix(label.as_str())),
                None => None,
            };
        }
        i += 1;
    }
    None
}

/// The default source that the first line of `pactl info` with one names.
pub open spec fn pactl_default(ls: Seq<Seq<char>>) -> Option<Seq<char>>
    decreases ls.len(),
{
    if ls.len() == 0 {
        None
    } else {
        match strip_prefix(ls[0], "Default Source: "@) {
            Some(name) => Some(trim(name)),
            None => pactl_default(ls.drop_first()),
        }
    }
}

/// Reads the node name of the default source from the output of `pactl info`.
pub fn pactl_default_source(info: &str) -> (r: Option<String>)
    ensures
        opt_text(r) == pactl_default(lines(info@)),
{
    let ls = split_lines(info);
    let ghost all = texts(ls@);
    let mut i: usize = 0;
    assert(all.skip(0) =~= all);
    while i < ls.len()
        invariant
            i <= ls@.len(),
            all == texts(ls@),
            all == lines(info@),
            pactl_default(all.skip(i as int)) == pactl_default(all),
        decreases ls@.len() - i,
    {
        assert(all[i as int] == ls@[i as int]@);
        assert(all.skip(i as int).drop_first() =~= all.skip(i + 1));
        assert(all.skip(i as int)[0] == ls@[i as int]@);
        if let Some(name) = text_strip_prefix(ls[i].as_str(), "Default Source: ") {
            return Some(trimmed(name.as_str()));
        }
        i += 1;
    }
    None
}

/// The description of source `wanted` in the lines of `pactl list sources`,
/// when `name` and `description` are what the source at hand has given so far.
///
/// A line that begins with `Source #` begins the next source, and ends the
/// search where the source at hand is the one wanted.
pub open spec fn pactl_description(
    ls: Seq<Seq<char>>,
    wanted: Seq<char>,
    name: Option<Seq<char>>,
    description: Option<Seq<char>>,
) -> Option<Seq<char>>
    decreases ls.len(),
{
    if ls.len() == 0 {
        description
    } else {
        let t = trim(ls[0]);
        let rest = ls.drop_first();
        if starts_with(t, "Source #"@) {
            if name == Some(wanted) {
                description
            } else {
                pactl_description(rest, wanted, None, None)
            }
        } else if let Some(value) = strip_prefix(t, "Name: "@) {
            pactl_description(rest, wanted, Some(trim(value)), description)
        } else if let Some(value) = strip_prefix(t, "Description: "@) {
            if name == Some(wanted) {
                pactl_description(rest, wanted, name, Some(trim(value)))
            } else {
                pactl_description(rest, wanted, name, description)
            }
        } else {
            pactl_description(rest, wanted, name, description)
        }
    }
}

/// Finds the description of a source in the output of `pactl list sources`.
pub fn pactl_source_description(wanted: &str, sources: &str) -> (r: Option<String>)
    ensures
        opt_text(r) == pactl_description(lines(sources@), wanted@, None, None),
{
    let ls = split_lines(sources);
    let ghost all = texts(ls@);
    let mut here = false;
    let mut description: Option<String> = None;
    let ghost mut name: Option<Seq<char>> = None;
    let mut i: usize = 0;
    assert(all.skip(0) =~= all);
    while i < ls.len()
        invariant
            i <= ls@.len(),
            all == texts(ls@),
            all == lines(sources@),
            here == (name == Some(wanted@)),
            pactl_description(all.skip(i as int), wanted@, name, opt_text(description))
                == pactl_description(all, wanted@, None, None),
        decreases ls@.len() - i,
    {
        assert(all[i as int] == ls@[i as int]@);
        assert(all.skip(i as int).drop_first() =~= all.skip(i + 1));
        assert(all.skip(i as int)[0] == ls@[i as int]@);
        let t = trimmed(ls[i].as_str());
        if text_starts_with(t.as_str(), "Source #") {
            if here {
                return description;
            }
            here = false;
            description = None;
            proof {
                name = None;
            }
        } else if let Some(value) = text_strip_prefix(t.as_str(), "Name: ") {
            let found = trimmed(value.as_str());
            here = crate::text::same_text(found.as_str(), wanted);
            proof {
                name = Some(found@);
            }
        } else if let Some(value) = text_strip_prefix(t.as_str(), "Description: ") {
            if here {
                description = Some(trimmed(value.as_str()));
            }
        }
        i += 1;
    }
    description
}

/// The default source by the two listings of `pactl`: its node name and its
/// description. There is none where a listing could not be had, or where the
/// first one names no default source.
pub fn linux_default_source_from_pactl(info: Option<&str>, sources: Option<&str>) -> (r: Option<
    (String, Option<String>),
>)
    ensures
        match (info, sources) {
            (Some(info), Some(sources)) => match pactl_default(lines(info@)) {
                Some(name) => r matches Some(found) && found.0@ == name && opt_text(found.1)
                    == pactl_description(lines(sources@), name, None, None),
                None => r is None,
            },
            _ => r is None,
        },
{
    match (info, sources) {
        (Some(info), Some(sources)) => match pactl_default_source(info) {
            Some(name) => {
                let description = pactl_source_description(name.as_str(), sources);
                Some((name, description))
            },
            None => None,
        },
        _ => None,
    }
}

/// Whether a character is a hexadecimal digit or a dash.
pub open spec fn is_serial_char(c: char) -> bool {
    is_digit(c) || 'a' <= c <= 'f' || 'A' <= c <= 'F' || c == '-'
}

/// Whether a part of a node name is a serial number.
pub open spec fn is_serial(s: Seq<char>) -> bool {
    forall|i: int| 0 <= i < s.len() ==> is_serial_char(#[trigger] s[i])
}

/// `s` without `pat` in front, where it stands there.
pub open spec fn without_prefix(s: Seq<char>, pat: Seq<char>) -> Seq<char> {
    match strip_prefix(s, pat) {
        Some(rest) => rest,
        None => s,
    }
}

/// A text with a space for each dash.
pub open spec fn dashes_as_spaces(s: Seq<char>) -> Seq<char> {
    s.map_values(|c: char| if c == '-' { ' ' } else { c })
}

/// The part of a node name that names the device.
pub open spec fn node_core(node: Seq<char>) -> Seq<char> {
    let n = without_prefix(node, "alsa_input."@);
    without_prefix(n.take(first_index(n, '.') as int), "usb-"@)
}

/// The parts of a device's node name, without a serial number at the end.
pub open spec fn name_parts(core: Seq<char>) -> Seq<Seq<char>> {
    let parts = split(core, '_');
    if is_serial(parts.last()) {
        parts.drop_last()
    } else {
        parts
    }
}

/// What a node name says about the device: the words of its name.
pub open spec fn node_hint(node: Seq<char>) -> Seq<char> {
    join(words(dashes_as_spaces(join(name_parts(node_core(node)), " "@))), " "@)
}

fn serial(s: &str) -> (r: bool)
    ensures
        r == is_serial(s@),
{
    let cs = chars_of(s);
    let mut i: usize = 0;
    while i < cs.len()
        invariant
            i <= cs@.len(),
            cs@ == s@,
            forall|k: int| 0 <= k < i ==> is_serial_char(#[trigger] cs@[k]),
        decreases cs@.len() - i,
    {
        let c = cs[i];
        if !(('0' <= c && c <= '9') || ('a' <= c && c <= 'f') || ('A' <= c && c <= 'F') || c
            == '-') {
            assert(!is_serial_char(s@[i as int]));
            return false;
        }
        i += 1;
    }
    true
}

fn dashes_to_spaces(s: &str) -> (r: String)
    ensures
        r@ == dashes_as_spaces(s@),
{
    let cs = chars_of(s);
    let mut out = String::new();
    let mut i: usize = 0;
    while i < cs.len()
        invariant
            i <= cs@.len(),
            out@ == dashes_as_spaces(cs@.take(i as int)),
        decreases cs@.len() - i,
    {
        let c = cs[i];
        let d = if c == '-' {
            ' '
        } else {
            c
        };
        out.push(d);
        i += 1;
        assert(dashes_as_spaces(cs@.take(i as int)) =~= dashes_as_spaces(cs@.take(i - 1)).push(d));
    }
    assert(cs@.take(i as int) =~= cs@);
    out
}

fn drop_prefix(s: &str, pat: &str) -> (r: String)
    ensures
        r@ == without_prefix(s@, pat@),
{
    match text_strip_prefix(s, pat) {
        Some(rest) => rest,
        None => s.to_string(),
    }
}

/// Turns the node name of a source into words to look for in device names.
pub fn node_name_to_hint(node_name: &str) -> (r: String)
    ensures
        r@ == node_hint(node_name@),
{
    let named = drop_prefix(node_name, "alsa_input.");
    let cs = chars_of(named.as_str());
    let dot: usize = index_of(&cs, 0, '.');
    assert(cs@.skip(0) =~= cs@);
    let first = text_of(&cs, 0, dot);
    assert(first@ =~= named@.take(first_index(named@, '.') as int));
    let core = drop_prefix(first.as_str(), "usb-");
    let mut parts = split_at_char(core.as_str(), '_');
    let ghost all = texts(parts@);
    let last: usize = parts.len() - 1;
    assert(all.last() == parts@[last as int]@);
    if serial(parts[last].as_str()) {
        parts.pop();
        assert(texts(parts@) =~= all.drop_last());
    }
    let joined = join_texts(&parts, " ");
    let spaced = dashes_to_spaces(joined.as_str());
    let found = split_words(spaced.as_str());
    join_texts(&found, " ")
}

/// Where two texts end in the same way, one ends with the other exactly where
/// what comes before does.
proof fn lemma_ends_before(base: Seq<char>, pat: Seq<char>, tail: Seq<char>)
    ensures
        ends_with(base + tail, pat + tail) <==> ends_with(base, pat),
{
    let s = base + tail;
    let whole = pat + tail;
    if ends_with(s, whole) {
        let end = s.subrange(s.len() - whole.len(), s.len() as int);
        assert(base.subrange(base.len() - pat.len(), base.len() as int) =~= end.take(
            pat.len() as int,
        ));
        assert(whole.take(pat.len() as int) =~= pat);
    }
    if ends_with(base, pat) {
        assert(s.subrange(s.len() - whole.len(), s.len() as int) =~= base.subrange(
            base.len() - pat.len(),
            base.len() as int,
        ) + tail);
    }
}

/// A label loses the name of its profile, and nothing else: whichever of the
/// known profiles it ends with is left out, and a label without one stays.
pub proof fn law_profile(base: Seq<char>)
    requires
        base.len() > 0,
        !is_whitespace(base[0]),
        !is_whitespace(base.last()),
    ensures
        without_profile(base + " Analog Stereo"@) == base,
        without_profile(base + " Analog Mono"@) == base,
        without_profile(base + " Digital Stereo"@) == base,
        !ends_with(base, " Analog"@) && !ends_with(base, " Digital"@) ==> without_profile(
            base + " Stereo"@,
        ) == base,
        !ends_with(base, " Analog"@) ==> without_profile(base + " Mono"@) == base,
        !ends_with(base, " Stereo"@) && !ends_with(base, " Mono"@) ==> without_profile(base)
            == base,
{
    reveal_strlit(" Analog Stereo");
    reveal_strlit(" Analog Mono");
    reveal_strlit(" Digital Stereo");
    reveal_strlit(" Stereo");
    reveal_strlit(" Mono");
    reveal_strlit(" Analog");
    reveal_strlit(" Digital");
    let analog_stereo = " Analog Stereo"@;
    let analog_mono = " Analog Mono"@;
    let digital_stereo = " Digital Stereo"@;
    let stereo = " Stereo"@;
    let mono = " Mono"@;
    assert(analog_stereo =~= " Analog"@ + stereo);
    assert(analog_mono =~= " Analog"@ + mono);
    assert(digital_stereo =~= " Digital"@ + stereo);
    lemma_trim_fixed(base);
    let a = base + analog_stereo;
    lemma_trim_fixed(a);
    law_strip(a, analog_stereo, base);
    let b = base + analog_mono;
    lemma_trim_fixed(b);
    lemma_not_ends_with(b, analog_stereo, 2);
    law_strip(b, analog_mono, base);
    let c = base + digital_stereo;
    lemma_trim_fixed(c);
    lemma_not_ends_with(c, analog_stereo, 8);
    lemma_not_ends_with(c, analog_mono, 2);
    law_strip(c, digital_stereo, base);
    let d = base + stereo;
    lemma_trim_fixed(d);
    lemma_ends_before(base, " Analog"@, stereo);
    lemma_ends_before(base, " Digital"@, stereo);
    lemma_not_ends_with(d, analog_mono, 2);
    law_strip(d, stereo, base);
    let e = base + mono;
    lemma_trim_fixed(e);
    lemma_not_ends_with(e, analog_stereo, 2);
    lemma_ends_before(base, " Analog"@, mono);
    lemma_not_ends_with(e, digital_stereo, 2);
    lemma_not_ends_with(e, stereo, 2);
    law_strip(e, mono, base);
    if !ends_with(base, stereo) && !ends_with(base, mono) {
        if ends_with(base, analog_stereo) {
            let rest = strip_suffix(base, analog_stereo)->0;
            law_strip(base, analog_stereo, rest);
            assert(base =~= (rest + " Analog"@) + stereo);
            law_strip(base, stereo, rest + " Analog"@);
        }
        if ends_with(base, analog_mono) {
            let rest = strip_suffix(base, analog_mono)->0;
            law_strip(base, analog_mono, rest);
            assert(base =~= (rest + " Analog"@) + mono);
            law_strip(base, mono, rest + " Analog"@);
        }
        if ends_with(base, digital_stereo) {
            let rest = strip_suffix(base, digital_stereo)->0;
            law_strip(base, digital_stereo, rest);
            assert(base =~= (rest + " Digital"@) + stereo);
            law_strip(base, stereo, rest + " Digital"@);
        }
    }
}

/// White space around a label does not matter.
pub proof fn law_profile_padding(before: Seq<char>, label: Seq<char>, after: Seq<char>)
    requires
        forall|k: int| 0 <= k < before.len() ==> is_whitespace(#[trigger] before[k]),
        forall|k: int| 0 <= k < after.len() ==> is_whitespace(#[trigger] after[k]),
    ensures
        without_profile(before + label + after) == without_profile(label),
{
    law_trim_padding(before, label, after);
}

/// Whether a line of `wpctl inspect` says nothing of the name of the source.
pub open spec fn wpctl_silent(line: Seq<char>) -> bool {
    !contains(trim(line), "node.nick = \""@) && !contains(trim(line), "node.description = \""@)
}

proof fn lemma_wpctl_skip(before: Seq<Seq<char>>, rest: Seq<Seq<char>>)
    requires
        forall|k: int| 0 <= k < before.len() ==> wpctl_silent(#[trigger] before[k]),
    ensures
        wpctl_source(before + rest) == wpctl_source(rest),
    decreases before.len(),
{
    if before.len() == 0 {
        assert(before + rest =~= rest);
    } else {
        let t = trim(before[0]);
        assert(wpctl_silent(before[0]));
        law_after_first_is_there(t, "node.nick = \""@);
        law_after_first_is_there(t, "node.description = \""@);
        lemma_wpctl_skip(before.drop_first(), rest);
        assert((before + rest).drop_first() =~= before.drop_first() + rest);
        assert((before + rest)[0] == before[0]);
    }
}

/// The first line that gives the nick or the description of the source names it:
/// a nick as it stands between the quotes, a description without its profile.
/// Where no line does, the source has no name.
pub proof fn law_wpctl_source(
    before: Seq<Seq<char>>,
    line: Seq<char>,
    after: Seq<Seq<char>>,
    lead: Seq<char>,
    name: Seq<char>,
)
    requires
        forall|k: int| 0 <= k < before.len() ==> wpctl_silent(#[trigger] before[k]),
    ensures
        trim(line) == lead + "node.nick = \""@ + (name + "\""@) && (forall|k: int|
            0 <= k < lead.len() ==> !#[trigger] matches_at(trim(line), k, "node.nick = \""@))
            ==> wpctl_source(before + seq![line] + after) == Some(name),
        trim(line) == lead + "node.description = \""@ + (name + "\""@) && (forall|k: int|
            0 <= k < lead.len() ==> !#[trigger] matches_at(
                trim(line),
                k,
                "node.description = \""@,
            )) && !contains(trim(line), "node.nick = \""@) ==> wpctl_source(
            before + seq![line] + after,
        ) == Some(without_profile(name)),
        wpctl_source(before) is None,
{
    let nick = "node.nick = \""@;
    let description = "node.description = \""@;
    let t = trim(line);
    let value = name + "\""@;
    lemma_wpctl_skip(before, seq![line] + after);
    assert(before + seq![line] + after =~= before + (seq![line] + after));
    assert((seq![line] + after)[0] == line);
    law_strip(value, "\""@, name);
    law_after_first_is_there(t, nick);
    if t == lead + nick + value && forall|k: int|
        0 <= k < lead.len() ==> !#[trigger] matches_at(t, k, nick) {
        law_after_first(lead, nick, value);
    }
    if t == lead + description + value && forall|k: int|
        0 <= k < lead.len() ==> !#[trigger] matches_at(t, k, description) {
        law_after_first(lead, description, value);
    }
    lemma_wpctl_skip(before, Seq::empty());
    assert(before + Seq::<Seq<char>>::empty() =~= before);
}

/// The first line that names a default source gives its name, without the white
/// space around it. Where no line does, there is none.
pub proof fn law_pactl_default(
    before: Seq<Seq<char>>,
    name: Seq<char>,
    after: Seq<Seq<char>>,
)
    requires
        forall|k: int|
            0 <= k < before.len() ==> !starts_with(#[trigger] before[k], "Default Source: "@),
    ensures
        pactl_default(before + seq!["Default Source: "@ + name] + after) == Some(trim(name)),
        pactl_default(before) is None,
    decreases before.len(),
{
    let line = "Default Source: "@ + name;
    let all = before + seq![line] + after;
    if before.len() == 0 {
        assert(all[0] == line);
        law_strip(line, "Default Source: "@, name);
    } else {
        assert(!starts_with(before[0], "Default Source: "@));
        law_pactl_default(before.drop_first(), name, after);
        assert(all[0] == before[0]);
        assert(all.drop_first() =~= before.drop_first() + seq![line] + after);
    }
}

/// Whether a line of `pactl list sources` gives the name of the wanted source.
pub open spec fn gives_name(line: Seq<char>, wanted: Seq<char>) -> bool {
    strip_prefix(trim(line), "Name: "@) matches Some(value) && trim(value) == wanted
}

/// Whether a line of `pactl list sources` begins the entry of a source.
pub open spec fn begins_source(line: Seq<char>) -> bool {
    starts_with(trim(line), "Source #"@)
}

/// Whether a line is neither the beginning, the name nor the description of a
/// source.
pub open spec fn is_other_property(line: Seq<char>) -> bool {
    &&& !begins_source(line)
    &&& !starts_with(trim(line), "Name: "@)
    &&& !starts_with(trim(line), "Description: "@)
}

proof fn lemma_pactl_skip(
    before: Seq<Seq<char>>,
    rest: Seq<Seq<char>>,
    wanted: Seq<char>,
    name: Option<Seq<char>>,
) -> (left: Option<Seq<char>>)
    requires
        name != Some(wanted),
        forall|k: int| 0 <= k < before.len() ==> !gives_name(#[trigger] before[k], wanted),
    ensures
        left != Some(wanted),
        pactl_description(before + rest, wanted, name, None) == pactl_description(
            rest,
            wanted,
            left,
            None,
        ),
    decreases before.len(),
{
    if before.len() == 0 {
        assert(before + rest =~= rest);
        name
    } else {
        let all = before + rest;
        let less = before.drop_first();
        assert(all[0] == before[0]);
        assert(all.drop_first() =~= less + rest);
        assert(!gives_name(before[0], wanted));
        assert forall|k: int| 0 <= k < less.len() implies !gives_name(#[trigger] less[k], wanted) by {
            assert(less[k] == before[k + 1]);
        }
        let next = if begins_source(before[0]) {
            None
        } else {
            match strip_prefix(trim(before[0]), "Name: "@) {
                Some(value) => Some(trim(value)),
                None => name,
            }
        };
        lemma_pactl_skip(less, rest, wanted, next)
    }
}

proof fn lemma_pactl_other(
    others: Seq<Seq<char>>,
    rest: Seq<Seq<char>>,
    wanted: Seq<char>,
    name: Option<Seq<char>>,
    description: Option<Seq<char>>,
)
    requires
        forall|k: int| 0 <= k < others.len() ==> is_other_property(#[trigger] others[k]),
    ensures
        pactl_description(others + rest, wanted, name, description) == pactl_description(
            rest,
            wanted,
            name,
            description,
        ),
    decreases others.len(),
{
    if others.len() == 0 {
        assert(others + rest =~= rest);
    } else {
        let all = others + rest;
        assert(all[0] == others[0]);
        assert(is_other_property(others[0]));
        assert(all.drop_first() =~= others.drop_first() + rest);
        lemma_pactl_other(others.drop_first(), rest, wanted, name, description);
    }
}

proof fn lemma_pactl_prefixes(t: Seq<char>)
    ensures
        starts_with(t, "Name: "@) ==> !starts_with(t, "Source #"@) && !starts_with(
            t,
            "Description: "@,
        ),
        starts_with(t, "Description: "@) ==> !starts_with(t, "Source #"@) && !starts_with(
            t,
            "Name: "@,
        ),
{
    reveal_strlit("Name: ");
    reveal_strlit("Source #");
    reveal_strlit("Description: ");
    if starts_with(t, "Name: "@) {
        assert(t.subrange(0, 6)[0] == t[0]);
    }
    if starts_with(t, "Source #"@) {
        assert(t.subrange(0, 8)[0] == t[0]);
    }
    if starts_with(t, "Description: "@) {
        assert(t.subrange(0, 13)[0] == t[0]);
    }
}

/// The description of a source is the one in its own entry, among whatever other
/// properties stand there, and after however many other sources.
pub proof fn law_pactl_description(
    before: Seq<Seq<char>>,
    header: Seq<char>,
    name_line: Seq<char>,
    between: Seq<Seq<char>>,
    description_line: Seq<char>,
    others: Seq<Seq<char>>,
    after: Seq<Seq<char>>,
    wanted: Seq<char>,
    description: Seq<char>,
)
    requires
        forall|k: int| 0 <= k < before.len() ==> !gives_name(#[trigger] before[k], wanted),
        begins_source(header),
        gives_name(name_line, wanted),
        forall|k: int| 0 <= k < between.len() ==> is_other_property(#[trigger] between[k]),
        trim(description_line) == "Description: "@ + description,
        forall|k: int| 0 <= k < others.len() ==> is_other_property(#[trigger] others[k]),
        after.len() > 0 ==> begins_source(after[0]),
    ensures
        pactl_description(
            before + (seq![header, name_line] + (between + (seq![description_line] + (others
                + after)))),
            wanted,
            None,
            None,
        ) == Some(trim(description)),
{
    let tail = others + after;
    let described = seq![description_line] + tail;
    let named = between + described;
    let entry = seq![header, name_line] + named;
    let left = lemma_pactl_skip(before, entry, wanted, None);
    assert(entry[0] == header);
    let entered = entry.drop_first();
    assert(entered[0] == name_line);
    assert(entered.drop_first() =~= named);
    lemma_pactl_prefixes(trim(name_line));
    law_strip(
        trim(name_line),
        "Name: "@,
        strip_prefix(trim(name_line), "Name: "@)->0,
    );
    assert(pactl_description(entry, wanted, left, None) == pactl_description(
        entered,
        wanted,
        None,
        None,
    ));
    assert(pactl_description(entered, wanted, None, None) == pactl_description(
        named,
        wanted,
        Some(wanted),
        None,
    ));
    lemma_pactl_other(between, described, wanted, Some(wanted), None);
    law_strip(trim(description_line), "Description: "@, description);
    lemma_pactl_prefixes(trim(description_line));
    assert(described[0] == description_line);
    assert(described.drop_first() =~= tail);
    lemma_pactl_other(others, after, wanted, Some(wanted), Some(trim(description)));
}

/// A source that is not listed has no description.
pub proof fn law_pactl_unlisted(ls: Seq<Seq<char>>, wanted: Seq<char>)
    requires
        forall|k: int| 0 <= k < ls.len() ==> !gives_name(#[trigger] ls[k], wanted),
    ensures
        pactl_description(ls, wanted, None, None) is None,
{
    let left = lemma_pactl_skip(ls, Seq::empty(), wanted, None);
    assert(ls + Seq::<Seq<char>>::empty() =~= ls);
}

/// Whether a text is a plain word of a node's name.
pub open spec fn is_plain_word(s: Seq<char>) -> bool {
    s.len() > 0 && forall|k: int|
        0 <= k < s.len() ==> !is_whitespace(#[trigger] s[k]) && s[k] != '.' && s[k] != '-' && s[k]
            != '_'
}

/// A node whose name is made of plain words hints at those words, but for the
/// last one where that is a serial number.
pub proof fn law_node_hint(parts: Seq<Seq<char>>)
    requires
        parts.len() > 0,
        forall|i: int| 0 <= i < parts.len() ==> is_plain_word(#[trigger] parts[i]),
    ensures
        node_hint(join(parts, "_"@)) == join(
            if is_serial(parts.last()) {
                parts.drop_last()
            } else {
                parts
            },
            " "@,
        ),
{
    reveal_strlit("_");
    reveal_strlit(" ");
    reveal_strlit("alsa_input.");
    reveal_strlit("usb-");
    assert("_"@ =~= seq!['_']);
    assert(" "@ =~= seq![' ']);
    let node = join(parts, "_"@);
    let plain = |c: char| c != '.' && c != '-';
    assert forall|i: int, k: int| 0 <= i < parts.len() && 0 <= k < parts[i].len() implies plain(
        #[trigger] parts[i][k],
    ) by {
        assert(is_plain_word(parts[i]));
    }
    lemma_join_chars(parts, "_"@, plain);
    if starts_with(node, "alsa_input."@) {
        assert(node.subrange(0, 11)[10] == node[10]);
        assert(plain(node[10]));
    }
    lemma_first_index(node, '.');
    assert(first_index(node, '.') == node.len()) by {
        if first_index(node, '.') < node.len() {
            assert(plain(node[first_index(node, '.') as int]));
        }
    }
    assert(node.take(node.len() as int) =~= node);
    if starts_with(node, "usb-"@) {
        assert(node.subrange(0, 4)[3] == node[3]);
        assert(plain(node[3]));
    }
    assert(node_core(node) == node);
    assert forall|i: int| 0 <= i < parts.len() implies !(#[trigger] parts[i]).contains('_') by {
        assert(is_plain_word(parts[i]));
    }
    law_join_split(parts, '_');
    let kept = name_parts(node);
    assert forall|i: int| 0 <= i < kept.len() implies is_plain_word(#[trigger] kept[i]) by {
        assert(kept[i] == parts[i]);
    }
    let spaced = join(kept, " "@);
    assert forall|i: int, k: int| 0 <= i < kept.len() && 0 <= k < kept[i].len() implies plain(
        #[trigger] kept[i][k],
    ) by {
        assert(is_plain_word(kept[i]));
    }
    lemma_join_chars(kept, " "@, plain);
    assert forall|k: int| 0 <= k < spaced.len() implies #[trigger] dashes_as_spaces(spaced)[k]
        == spaced[k] by {
        assert(plain(spaced[k]));
    }
    assert(dashes_as_spaces(spaced) =~= spaced);
    assert forall|i: int, k: int|
        0 <= i < kept.len() && 0 <= k < kept[i].len() implies !is_whitespace(
        #[trigger] kept[i][k],
    ) by {
        assert(is_plain_word(kept[i]));
    }
    assert forall|i: int| 0 <= i < kept.len() implies (#[trigger] kept[i]).len() > 0 by {
        assert(is_plain_word(kept[i]));
    }
    law_join_words(kept);
}

/// Two plain words with a dash between them hint at both, unless both are serial
/// numbers.
pub proof fn law_node_hint_dash(a: Seq<char>, b: Seq<char>)
    requires
        is_plain_word(a),
        is_plain_word(b),
        a != "usb"@,
        !is_serial(a) || !is_serial(b),
    ensures
        node_hint(a + "-"@ + b) == a + " "@ + b,
{
    reveal_strlit("-");
    reveal_strlit(" ");
    reveal_strlit("usb");
    reveal_strlit("usb-");
    reveal_strlit("alsa_input.");
    assert("-"@ =~= seq!['-']);
    assert(" "@ =~= seq![' ']);
    let node = a + "-"@ + b;
    let n = a.len() as int;
    assert forall|k: int| 0 <= k < node.len() implies #[trigger] node[k] != '.' && node[k] != '_' by {
        if k < n {
            assert(node[k] == a[k]);
        } else if k > n {
            assert(node[k] == b[k - n - 1]);
        }
    }
    if starts_with(node, "alsa_input."@) {
        assert(node.subrange(0, 11)[10] == node[10]);
    }
    lemma_first_index(node, '.');
    assert(node.take(node.len() as int) =~= node);
    if starts_with(node, "usb-"@) {
        assert(node.subrange(0, 4)[3] == node[3]);
        assert(node[n] == '-');
        if n > 3 {
            assert(node[3] == a[3]);
        }
        if n < 3 {
            assert(node.subrange(0, 4)[n] == node[n]);
        }
        assert(a =~= node.subrange(0, 4).take(3));
        assert(a =~= "usb"@);
    }
    assert(node_core(node) == node);
    law_split(node, Seq::empty(), '_');
    assert(split(node, '_') == seq![node]);
    if is_serial(node) {
        assert forall|k: int| 0 <= k < a.len() implies is_serial_char(#[trigger] a[k]) by {
            assert(is_serial_char(node[k]));
        }
        assert forall|k: int| 0 <= k < b.len() implies is_serial_char(#[trigger] b[k]) by {
            assert(is_serial_char(node[n + 1 + k]));
        }
    }
    assert(name_parts(node) == seq![node]);
    assert(join(seq![node], " "@) == node);
    assert(dashes_as_spaces(node) =~= a + seq![' '] + b) by {
        assert forall|k: int| 0 <= k < node.len() implies #[trigger] dashes_as_spaces(node)[k] == (a
            + seq![' '] + b)[k] by {
            if k < n {
                assert(node[k] == a[k]);
            } else if k > n {
                assert(node[k] == b[k - n - 1]);
            }
        }
    }
    law_words_between_whitespace(a, ' ', b);
    law_words_between_whitespace(b, ' ', Seq::empty());
    assert(words(a) == seq![a] && words(b) == seq![b]);
    law_join(a, seq![b], " "@);
    law_join(b, Seq::empty(), " "@);
    assert(seq![b] + Seq::<Seq<char>>::empty() =~= seq![b]);
}

/// What leads to a device in a node's name, and what follows the first dot after
/// it, is no part of the hint.
pub proof fn law_node_hint_prefixes(node: Seq<char>, rest: Seq<char>)
    ensures
        !starts_with(node, "alsa_input."@) ==> node_hint("alsa_input."@ + node) == node_hint(node),
        !node.contains('.') && node != "alsa_input"@ ==> node_hint(node + "."@ + rest) == node_hint(
            node,
        ),
        !node.contains('.') && !starts_with(node, "usb-"@) ==> node_hint("usb-"@ + node)
            == node_hint(node),
{
    reveal_strlit("alsa_input.");
    reveal_strlit("alsa_input");
    reveal_strlit("usb-");
    reveal_strlit(".");
    law_strip("alsa_input."@ + node, "alsa_input."@, node);
    if !node.contains('.') {
        assert forall|k: int| 0 <= k < node.len() implies #[trigger] node[k] != '.' by {
            assert(node.contains(node[k]));
        }
        let n = node.len() as int;
        lemma_first_index(node, '.');
        assert(node.take(n) =~= node);
        if starts_with(node, "alsa_input."@) {
            assert(node.subrange(0, 11)[10] == node[10]);
        }
        let dotted = node + "."@ + rest;
        assert(dotted[n] == '.');
        assert forall|k: int| 0 <= k < n implies #[trigger] dotted[k] == node[k] by {}
        lemma_first_index(dotted, '.');
        assert(first_index(dotted, '.') == n);
        assert(dotted.take(n) =~= node);
        if starts_with(dotted, "alsa_input."@) {
            let head = dotted.subrange(0, 11);
            assert(head[10] == dotted[10]);
            if n < 10 {
                assert(head[n] == dotted[n]);
            }
            assert(n == 10);
            assert(node =~= head.take(10));
            assert(node =~= "alsa_input"@);
        }
        let usb = "usb-"@ + node;
        assert forall|k: int| 0 <= k < usb.len() implies #[trigger] usb[k] != '.' by {
            if k >= 4 {
                assert(usb[k] == node[k - 4]);
            }
        }
        if starts_with(usb, "alsa_input."@) {
            assert(usb.subrange(0, 11)[10] == usb[10]);
        }
        lemma_first_index(usb, '.');
        assert(usb.take(usb.len() as int) =~= usb);
        law_strip(usb, "usb-"@, node);
    }
}

/// A serial number is made of hexadecimal digits, in either case, and dashes.
pub proof fn law_serial(s: Seq<char>)
    ensures
        is_serial(s) <==> forall|k: int|
            0 <= k < s.len() ==> #[trigger] s[k] == '-' || "0123456789abcdef"@.contains(
                ascii_lower_char(s[k]),
            ),
{
    reveal_strlit("0123456789abcdef");
    let hex = "0123456789abcdef"@;
    assert forall|c: char| is_serial_char(c) <==> (c == '-' || hex.contains(
        #[trigger] ascii_lower_char(c),
    )) by {
        let d = ascii_lower_char(c);
        if is_digit(c) {
            assert(hex[c as int - 48] == d);
        } else if 'a' <= c <= 'f' {
            assert(hex[c as int - 87] == d);
        } else if 'A' <= c <= 'F' {
            assert(d as int == c as int + 32);
            assert(hex[c as int - 55] == d);
        }
        if hex.contains(d) {
            let i = choose|i: int| 0 <= i < hex.len() && hex[i] == d;
            assert('0' <= d <= '9' || 'a' <= d <= 'f');
            if 'A' <= c <= 'Z' {
                assert(d as int == c as int + 32);
            }
        }
    }
    if is_serial(s) {
        assert forall|k: int| 0 <= k < s.len() implies #[trigger] s[k] == '-' || hex.contains(
            ascii_lower_char(s[k]),
        ) by {
            assert(is_serial_char(s[k]));
        }
    }
    if forall|k: int|
        0 <= k < s.len() ==> #[trigger] s[k] == '-' || hex.contains(ascii_lower_char(s[k])) {
        assert forall|i: int| 0 <= i < s.len() implies is_serial_char(#[trigger] s[i]) by {
            assert(s[i] == '-' || hex.contains(ascii_lower_char(s[i])));
        }
    }
}

} // verus!
