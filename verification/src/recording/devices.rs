//! The choice of an input device.
use crate::outside::{lowercase, to_lowercase};
use crate::recording::pulse::{
    node_hint, node_name_to_hint, strip_pulse_profile_suffix, without_profile,
};
use crate::text::{
    ascii_lower, contains, decimal, decimal_text, ends_with, is_among, is_digit, join, join_texts,
    law_contains, law_parse_decimal, law_strip, opt_str, opt_text, parse_number, parse_usize,
    same_text, starts_with, text_contains, text_starts_with, texts,
};
use vstd::prelude::*;
use vstd::string::*;
use vstd::utf8::is_ascii_chars;

verus! {

/// The name by which devices are told apart: a device without a name gets one
/// from the number of names so far.
pub open spec fn device_key(name: Option<Seq<char>>, seen: nat) -> Seq<char> {
    match name {
        Some(n) => n,
        None => "unknown-"@ + decimal(seen),
    }
}

/// The devices' names, where they have one.
pub open spec fn device_names(names: Seq<Option<String>>) -> Seq<Option<Seq<char>>> {
    names.map_values(|n: Option<String>| opt_text(n))
}

/// The devices that remain when each one whose key was seen before is left
/// out: their keys and their positions.
pub open spec fn unique_devices(names: Seq<Option<Seq<char>>>) -> (Seq<Seq<char>>, Seq<int>)
    decreases names.len(),
{
    if names.len() == 0 {
        (Seq::empty(), Seq::empty())
    } else {
        let (keys, kept) = unique_devices(names.drop_last());
        let key = device_key(names.last(), keys.len());
        if keys.contains(key) {
            (keys, kept)
        } else {
            (keys.push(key), kept.push(names.len() - 1))
        }
    }
}

/// Of the devices that remain no two have the same key, they stand in the
/// order in which they came, the first device is among them, and so is one
/// with the name of each device that has a name.
pub proof fn law_unique_devices(names: Seq<Option<Seq<char>>>)
    ensures
        ({
            let (keys, kept) = unique_devices(names);
            &&& keys.len() == kept.len()
            &&& keys.no_duplicates()
            &&& forall|i: int, j: int|
                0 <= i < j < kept.len() ==> 0 <= #[trigger] kept[i] < #[trigger] kept[j]
            &&& forall|i: int| 0 <= i < kept.len() ==> 0 <= #[trigger] kept[i] < names.len()
            &&& names.len() > 0 ==> kept.len() > 0 && kept[0] == 0
            &&& forall|i: int|
                0 <= i < names.len() && (#[trigger] names[i]) is Some ==> keys.contains(
                    names[i]->0,
                )
            &&& forall|k: int|
                0 <= k < kept.len() && names[#[trigger] kept[k]] is Some ==> keys[k]
                    == names[kept[k]]->0
        }),
    decreases names.len(),
{
    if names.len() > 0 {
        let init = names.drop_last();
        law_unique_devices(init);
        let (keys0, kept0) = unique_devices(init);
        let (keys, kept) = unique_devices(names);
        let key = device_key(names.last(), keys0.len());
        if init.len() == 0 {
            assert(!keys0.contains(key));
        }
        assert forall|i: int| 0 <= i < names.len() && (#[trigger] names[i]) is Some implies keys.contains(
            names[i]->0,
        ) by {
            if i < names.len() - 1 {
                assert(init[i] == names[i]);
                let m = choose|m: int| 0 <= m < keys0.len() && keys0[m] == names[i]->0;
                assert(keys[m] == keys0[m]);
            } else if !keys0.contains(key) {
                assert(keys[keys0.len() as int] == key);
            }
        }
        assert forall|k: int| 0 <= k < kept.len() && names[#[trigger] kept[k]] is Some implies keys[k]
            == names[kept[k]]->0 by {
            if k < kept0.len() {
                assert(kept[k] == kept0[k]);
                assert(init[kept0[k]] == names[kept[k]]);
            }
        }
    }
}

/// There is no input device.
#[derive(Debug, Clone, Copy, PartialEq, Eq, Structural)]
pub struct NoInputDevice;

impl NoInputDevice {
    /// What to tell the user.
    pub fn message(&self) -> (r: String)
        ensures
            r@ == "No audio input device available"@,
    {
        "No audio input device available".to_string()
    }
}

/// Positions as machine integers.
pub open spec fn indices(v: Seq<usize>) -> Seq<int> {
    v.map_values(|i: usize| i as int)
}

/// The devices to try for the default input, by position: each device of the
/// list that no earlier one has the name of.
pub fn resolve_default_input_devices(names: &Vec<Option<String>>) -> (r: Result<
    Vec<usize>,
    NoInputDevice,
>)
    ensures
        r is Err <==> names@.len() == 0,
        r matches Ok(kept) ==> indices(kept@) == unique_devices(device_names(names@)).1,
{
    let mut keys: Vec<String> = Vec::new();
    let mut kept: Vec<usize> = Vec::new();
    let ghost all = device_names(names@);
    let mut i: usize = 0;
    proof {
        assert(texts(keys@) =~= Seq::<Seq<char>>::empty());
        assert(indices(kept@) =~= Seq::<int>::empty());
        assert(all.take(0) =~= Seq::<Option<Seq<char>>>::empty());
    }
    while i < names.len()
        invariant
            i <= names@.len(),
            all == device_names(names@),
            (texts(keys@), indices(kept@)) == unique_devices(all.take(i as int)),
            keys@.len() <= i,
        decreases names@.len() - i,
    {
        let ghost now = all.take(i + 1);
        proof {
            assert(now.drop_last() =~= all.take(i as int));
            assert(now.last() == opt_text(names@[i as int]));
        }
        let key: String = match &names[i] {
            Some(name) => name.clone(),
            None => {
                let mut k = "unknown-".to_string();
                let n = decimal_text(keys.len() as u128);
                k.append(n.as_str());
                k
            },
        };
        assert(key@ == device_key(now.last(), keys@.len()));
        assert(texts(keys@).len() == keys@.len());
        if !is_among(&keys, key.as_str()) {
            let ghost keys0 = texts(keys@);
            let ghost kept0 = indices(kept@);
            keys.push(key);
            kept.push(i);
            assert(texts(keys@) =~= keys0.push(key@));
            assert(indices(kept@) =~= kept0.push(i as int));
        }
        i += 1;
    }
    assert(all.take(i as int) =~= all);
    proof {
        law_unique_devices(all);
        assert(indices(kept@).len() == kept@.len());
    }
    if kept.len() == 0 {
        Err(NoInputDevice)
    } else {
        Ok(kept)
    }
}

/// Which device a configuration asks for.
#[derive(Debug, Clone, Copy, PartialEq, Eq, Structural)]
pub enum DeviceChoice {
    /// The system's default input.
    Default,
    /// The device at this position.
    Index(usize),
}

/// The device asked for does not exist.
#[derive(Debug)]
pub enum DeviceError {
    /// There are too few devices; the last position is given as well.
    IndexOutOfRange { index: usize, last: usize },
    /// No device has this name.
    NotFound(String),
}

/// The first position from `from` on whose device has this name.
pub open spec fn device_named(names: Seq<Option<Seq<char>>>, name: Seq<char>, from: int) -> Option<
    int,
>
    decreases names.len() - from,
{
    if 0 <= from < names.len() {
        if names[from] == Some(name) {
            Some(from)
        } else {
            device_named(names, name, from + 1)
        }
    } else {
        None
    }
}

/// What a device specification stands for: `default`, a position, or the
/// name of a device.
pub open spec fn device_choice(spec: Seq<char>, names: Seq<Option<Seq<char>>>) -> Option<
    DeviceChoice,
> {
    if spec == "default"@ {
        Some(DeviceChoice::Default)
    } else if let Some(i) = parse_number(spec, usize::MAX as nat) {
        if i < names.len() {
            Some(DeviceChoice::Index(i as usize))
        } else {
            None
        }
    } else if let Some(i) = device_named(names, spec, 0) {
        Some(DeviceChoice::Index(i as usize))
    } else {
        None
    }
}

/// Finds the device that a specification stands for.
pub fn find_device_by_name(device_spec: &str, names: &Vec<Option<String>>) -> (r: Result<
    DeviceChoice,
    DeviceError,
>)
    ensures
        match (r, device_choice(device_spec@, device_names(names@))) {
            (Ok(found), Some(choice)) => found == choice,
            (Err(DeviceError::IndexOutOfRange { index, last }), None) => parse_number(
                device_spec@,
                usize::MAX as nat,
            ) == Some(index as nat) && last == if names@.len() == 0 {
                0
            } else {
                names@.len() - 1
            },
            (Err(DeviceError::NotFound(name)), None) => name@ == device_spec@ && parse_number(
                device_spec@,
                usize::MAX as nat,
            ) is None,
            _ => false,
        },
        r matches Ok(DeviceChoice::Index(i)) ==> i < names@.len(),
        device_spec@ != "default"@ && parse_number(device_spec@, usize::MAX as nat) is None
            ==> match r {
            Ok(DeviceChoice::Index(i)) => opt_text(names@[i as int]) == Some(device_spec@)
                && forall|j: int| 0 <= j < i ==> opt_text(#[trigger] names@[j]) != Some(device_spec@),
            Ok(DeviceChoice::Default) => false,
            Err(_) => forall|j: int|
                0 <= j < names@.len() ==> opt_text(#[trigger] names@[j]) != Some(device_spec@),
        },
{
    if same_text(device_spec, "default") {
        return Ok(DeviceChoice::Default);
    }
    let ghost all = device_names(names@);
    let n: usize = names.len();
    if let Some(index) = parse_usize(device_spec) {
        if index < n {
            return Ok(DeviceChoice::Index(index));
        }
        let last: usize = if n == 0 {
            0
        } else {
            n - 1
        };
        return Err(DeviceError::IndexOutOfRange { index, last });
    }
    let mut i: usize = 0;
    while i < n
        invariant
            i <= n == names@.len(),
            all == device_names(names@),
            device_spec@ != "default"@,
            parse_number(device_spec@, usize::MAX as nat) is None,
            device_named(all, device_spec@, 0) == device_named(all, device_spec@, i as int),
            forall|j: int| 0 <= j < i ==> opt_text(#[trigger] names@[j]) != Some(device_spec@),
        decreases n - i,
    {
        assert(all[i as int] == opt_text(names@[i as int]));
        if let Some(name) = &names[i] {
            if same_text(name.as_str(), device_spec) {
                return Ok(DeviceChoice::Index(i));
            }
        }
        i += 1;
    }
    Err(DeviceError::NotFound(device_spec.to_string()))
}

impl DeviceError {
    /// The message of an error.
    pub open spec fn message_model(self) -> Seq<char> {
        match self {
            DeviceError::IndexOutOfRange { index, last } => "Device index "@ + decimal(index as nat)
                + " is out of range (0-"@ + decimal(last as nat) + ")"@,
            DeviceError::NotFound(name) => "Audio input device '"@ + name@
                + "' not found. Use 'ostt list-devices' to see available devices."@,
        }
    }

    /// What to tell the user.
    pub fn message(&self) -> (r: String)
        ensures
            r@ == self.message_model(),
    {
        let mut out = String::new();
        match self {
            DeviceError::IndexOutOfRange { index, last } => {
                out.append("Device index ");
                let i = decimal_text(*index as u128);
                out.append(i.as_str());
                out.append(" is out of range (0-");
                let l = decimal_text(*last as u128);
                out.append(l.as_str());
                out.append(")");
            },
            DeviceError::NotFound(name) => {
                out.append("Audio input device '");
                out.append(name.as_str());
                out.append("' not found. Use 'ostt list-devices' to see available devices.");
            },
        }
        assert(out@ =~= self.message_model());
        out
    }
}

/// How well a name fits what is looked for: equal, one beginning with the
/// other, one holding the other, or not at all.
pub open spec fn match_score(name: Seq<char>, needle: Seq<char>) -> int {
    if name == needle {
        4
    } else if starts_with(name, needle) || starts_with(needle, name) {
        3
    } else if contains(name, needle) || contains(needle, name) {
        2
    } else {
        0
    }
}

/// The score of a device; one without a name does not fit.
pub open spec fn device_score(name: Option<Seq<char>>, needle: Seq<char>) -> int {
    match name {
        Some(n) => match_score(n, needle),
        None => 0,
    }
}

/// Whether `found` is the first of the devices that fit `needle` best, or
/// nothing where no device fits.
pub open spec fn is_best_match(
    names: Seq<Option<Seq<char>>>,
    needle: Seq<char>,
    found: Option<usize>,
) -> bool {
    match found {
        Some(i) => {
            &&& 0 <= i < names.len()
            &&& device_score(names[i as int], needle) > 0
            &&& forall|j: int|
                0 <= j < names.len() ==> device_score(#[trigger] names[j], needle) <= device_score(
                    names[i as int],
                    needle,
                )
            &&& forall|j: int|
                0 <= j < i ==> device_score(#[trigger] names[j], needle) < device_score(
                    names[i as int],
                    needle,
                )
        },
        None => forall|j: int|
            0 <= j < names.len() ==> device_score(#[trigger] names[j], needle) == 0,
    }
}

/// Scores a name against what is looked for.
pub fn score(name: &str, needle: &str) -> (r: u8)
    ensures
        r == match_score(name@, needle@),
{
    if same_text(name, needle) {
        4
    } else if text_starts_with(name, needle) || text_starts_with(needle, name) {
        3
    } else if text_contains(name, needle) || text_contains(needle, name) {
        2
    } else {
        0
    }
}

/// The first of the devices that fit best, from names and a needle in lower case.
pub fn best_match(names: &Vec<Option<String>>, needle: &str) -> (r: Option<usize>)
    ensures
        is_best_match(device_names(names@), needle@, r),
{
    let ghost all = device_names(names@);
    let mut best: Option<usize> = None;
    let mut best_score: u8 = 0;
    let mut i: usize = 0;
    while i < names.len()
        invariant
            i <= names@.len(),
            all == device_names(names@),
            match best {
                Some(b) => {
                    &&& b < i
                    &&& best_score == device_score(all[b as int], needle@)
                    &&& best_score > 0
                    &&& forall|j: int|
                        0 <= j < i ==> device_score(#[trigger] all[j], needle@) <= best_score
                    &&& forall|j: int|
                        0 <= j < b ==> device_score(#[trigger] all[j], needle@) < best_score
                },
                None => best_score == 0 && forall|j: int|
                    0 <= j < i ==> device_score(#[trigger] all[j], needle@) == 0,
            },
        decreases names@.len() - i,
    {
        assert(all[i as int] == opt_text(names@[i as int]));
        if let Some(name) = &names[i] {
            let s: u8 = score(name.as_str(), needle);
            if s > best_score {
                best = Some(i);
                best_score = s;
            }
        }
        i += 1;
    }
    best
}

/// The devices' names in lower case.
pub open spec fn lowered_names(names: Seq<Option<Seq<char>>>) -> Seq<Option<Seq<char>>> {
    names.map_values(
        |n: Option<Seq<char>>|
            match n {
                Some(t) => Some(lowercase(t)),
                None => None,
            },
    )
}

/// The devices' names with the letters `A` to `Z` in lower case.
pub open spec fn ascii_lowered_names(names: Seq<Option<Seq<char>>>) -> Seq<Option<Seq<char>>> {
    names.map_values(
        |n: Option<Seq<char>>|
            match n {
                Some(t) => Some(ascii_lower(t)),
                None => None,
            },
    )
}

/// Whether all names are plain ASCII.
pub open spec fn are_ascii(names: Seq<Option<Seq<char>>>) -> bool {
    forall|i: int|
        0 <= i < names.len() ==> ((#[trigger] names[i]) matches Some(n) ==> is_ascii_chars(n))
}

/// Finds the device whose name fits `needle` best, whatever the case of the
/// letters. An empty needle fits nothing.
pub fn find_device_by_partial_name(needle: &str, names: &Vec<Option<String>>) -> (r: Option<usize>)
    ensures
        if lowercase(needle@).len() == 0 {
            r is None
        } else {
            is_best_match(lowered_names(device_names(names@)), lowercase(needle@), r)
        },
        is_ascii_chars(needle@) && are_ascii(device_names(names@)) ==> if needle@.len() == 0 {
            r is None
        } else {
            is_best_match(ascii_lowered_names(device_names(names@)), ascii_lower(needle@), r)
        },
{
    let needle_lower = to_lowercase(needle);
    if needle_lower.as_str().is_empty() {
        return None;
    }
    let ghost all = device_names(names@);
    let mut lowered: Vec<Option<String>> = Vec::new();
    let mut i: usize = 0;
    while i < names.len()
        invariant
            i <= names@.len(),
            all == device_names(names@),
            device_names(lowered@) == lowered_names(all.take(i as int)),
            are_ascii(all) ==> device_names(lowered@) == ascii_lowered_names(all.take(i as int)),
        decreases names@.len() - i,
    {
        let name = match &names[i] {
            Some(name) => Some(to_lowercase(name.as_str())),
            None => None,
        };
        let ghost before = device_names(lowered@);
        lowered.push(name);
        proof {
            assert(device_names(lowered@) =~= before.push(opt_text(name)));
            assert(all[i as int] == opt_text(names@[i as int]));
            assert(lowered_names(all.take(i + 1)) =~= lowered_names(all.take(i as int)).push(
                opt_text(name),
            ));
            assert(are_ascii(all) ==> ascii_lowered_names(all.take(i + 1)) =~= ascii_lowered_names(
                all.take(i as int),
            ).push(opt_text(name)));
        }
        i += 1;
    }
    assert(all.take(i as int) =~= all);
    best_match(&lowered, needle_lower.as_str())
}

/// The device is looked for by each needle in turn, empty ones left out, and
/// the first needle that a device fits decides.
pub open spec fn is_first_match(
    needles: Seq<Seq<char>>,
    names: Seq<Option<Seq<char>>>,
    found: Option<usize>,
) -> bool {
    match found {
        Some(i) => exists|k: int|
            {
                &&& 0 <= k < needles.len()
                &&& (#[trigger] needles[k]).len() > 0
                &&& is_best_match(names, needles[k], Some(i))
                &&& forall|j: int|
                    0 <= j < k && (#[trigger] needles[j]).len() > 0 ==> is_best_match(
                        names,
                        needles[j],
                        None,
                    )
            },
        None => forall|j: int|
            0 <= j < needles.len() && (#[trigger] needles[j]).len() > 0 ==> is_best_match(
                names,
                needles[j],
                None,
            ),
    }
}

/// Hints in lower case.
pub open spec fn lowered_hints(hints: Seq<Seq<char>>) -> Seq<Seq<char>> {
    hints.map_values(|h: Seq<char>| lowercase(h))
}

/// Hints with the letters `A` to `Z` in lower case.
pub open spec fn ascii_lowered_hints(hints: Seq<Seq<char>>) -> Seq<Seq<char>> {
    hints.map_values(|h: Seq<char>| ascii_lower(h))
}

/// Whether all hints are plain ASCII.
pub open spec fn are_ascii_hints(hints: Seq<Seq<char>>) -> bool {
    forall|i: int| 0 <= i < hints.len() ==> is_ascii_chars(#[trigger] hints[i])
}

/// The hints about the session's default input: what `wpctl` names it, then
/// what `pactl` says of it by its description and by its node name.
pub open spec fn session_hints(
    wpctl: Option<Seq<char>>,
    pactl: Option<(Seq<char>, Option<Seq<char>>)>,
) -> Seq<Seq<char>> {
    let first = match wpctl {
        Some(name) => seq![name],
        None => Seq::empty(),
    };
    let second = match pactl {
        Some((node, Some(description))) => seq![without_profile(description), node_hint(node)],
        Some((node, None)) => seq![node_hint(node)],
        None => Seq::empty(),
    };
    first + second
}

/// What `pactl` says of the default source, as sequences of characters.
pub open spec fn source_model(source: Option<(String, Option<String>)>) -> Option<
    (Seq<char>, Option<Seq<char>>),
> {
    match source {
        Some((node, description)) => Some((node@, opt_text(description))),
        None => None,
    }
}

/// Collects the hints about the session's default input.
pub fn hints(wpctl: &Option<String>, pactl: &Option<(String, Option<String>)>) -> (r: Vec<String>)
    ensures
        texts(r@) == session_hints(opt_text(*wpctl), source_model(*pactl)),
{
    let mut out: Vec<String> = Vec::new();
    if let Some(name) = wpctl {
        out.push(name.clone());
    }
    let ghost first = texts(out@);
    if let Some((node, description)) = pactl {
        if let Some(d) = description {
            out.push(strip_pulse_profile_suffix(d.as_str()));
        }
        out.push(node_name_to_hint(node.as_str()));
    }
    assert(texts(out@) =~= session_hints(opt_text(*wpctl), source_model(*pactl)));
    out
}

/// Finds the device that is the session's default input, by what the sound
/// servers' tools say of it.
pub fn resolve_linux_session_default_input_device(
    wpctl: &Option<String>,
    pactl: &Option<(String, Option<String>)>,
    names: &Vec<Option<String>>,
) -> (r: Option<usize>)
    ensures
        is_first_match(
            lowered_hints(session_hints(opt_text(*wpctl), source_model(*pactl))),
            lowered_names(device_names(names@)),
            r,
        ),
        are_ascii_hints(session_hints(opt_text(*wpctl), source_model(*pactl))) && are_ascii(
            device_names(names@),
        ) ==> is_first_match(
            ascii_lowered_hints(session_hints(opt_text(*wpctl), source_model(*pactl))),
            ascii_lowered_names(device_names(names@)),
            r,
        ),
{
    let list = hints(wpctl, pactl);
    let ghost all = texts(list@);
    let ghost needles = lowered_hints(all);
    let ghost lowered = lowered_names(device_names(names@));
    let ghost plain = are_ascii_hints(all) && are_ascii(device_names(names@));
    let ghost plain_needles = ascii_lowered_hints(all);
    let ghost plain_names = ascii_lowered_names(device_names(names@));
    let mut i: usize = 0;
    while i < list.len()
        invariant
            i <= list@.len(),
            all == texts(list@),
            all == session_hints(opt_text(*wpctl), source_model(*pactl)),
            needles == lowered_hints(all),
            lowered == lowered_names(device_names(names@)),
            plain == (are_ascii_hints(all) && are_ascii(device_names(names@))),
            plain_needles == ascii_lowered_hints(all),
            plain_names == ascii_lowered_names(device_names(names@)),
            forall|j: int|
                0 <= j < i && (#[trigger] needles[j]).len() > 0 ==> is_best_match(
                    lowered,
                    needles[j],
                    None,
                ),
            plain ==> forall|j: int|
                0 <= j < i && (#[trigger] plain_needles[j]).len() > 0 ==> is_best_match(
                    plain_names,
                    plain_needles[j],
                    None,
                ),
        decreases list@.len() - i,
    {
        assert(all[i as int] == list@[i as int]@);
        assert(needles[i as int] == lowercase(all[i as int]));
        assert(plain_needles[i as int] == ascii_lower(all[i as int]));
        let found = find_device_by_partial_name(list[i].as_str(), names);
        if found.is_some() {
            return found;
        }
        i += 1;
    }
    None
}

/// The search for a device that can be opened, among candidates that are
/// tried in order.
#[derive(Debug)]
pub struct DeviceSearch {
    /// The devices to try, by position.
    pub candidates: Vec<usize>,
    /// Why each device tried so far could not be opened.
    pub failures: Vec<String>,
}

/// What a device is called.
pub open spec fn shown_name(device_name: Option<Seq<char>>) -> Seq<char> {
    match device_name {
        Some(n) => n,
        None => "Unknown device"@,
    }
}

/// How a device that could not be opened is reported.
pub open spec fn failure_entry(device_name: Option<Seq<char>>, error: Seq<char>) -> Seq<char> {
    shown_name(device_name) + ": "@ + error
}

/// What a device is called.
fn name_of(device_name: Option<&str>) -> (r: String)
    ensures
        r@ == shown_name(opt_str(device_name)),
{
    match device_name {
        Some(name) => name.to_string(),
        None => "Unknown device".to_string(),
    }
}

/// What the log says of the attempt to open a device.
pub open spec fn open_log(device_name: Option<Seq<char>>, error: Option<Seq<char>>) -> Seq<char> {
    match error {
        None => "phase=device-opened device="@ + shown_name(device_name),
        Some(e) => "phase=device-open-failed device="@ + shown_name(device_name) + " error="@ + e,
    }
}

/// What the log says of the attempt to open a device, with the error where it
/// has failed.
pub fn device_log(device_name: Option<&str>, error: Option<&str>) -> (r: String)
    ensures
        r@ == open_log(opt_str(device_name), opt_str(error)),
{
    let name = name_of(device_name);
    match error {
        None => {
            let mut out = "phase=device-opened device=".to_string();
            out.append(name.as_str());
            out
        },
        Some(e) => {
            let mut out = "phase=device-open-failed device=".to_string();
            out.append(name.as_str());
            out.append(" error=");
            out.append(e);
            out
        },
    }
}

/// The text that reports that none of the devices could be opened.
pub open spec fn open_failure(failures: Seq<Seq<char>>) -> Seq<char> {
    "Failed to open any default input device. Tried: "@ + join(failures, " | "@)
}

/// A search, with its texts as sequences of characters.
#[verifier::ext_equal]
pub struct DeviceSearchModel {
    pub candidates: Seq<usize>,
    pub failures: Seq<Seq<char>>,
}

impl View for DeviceSearch {
    type V = DeviceSearchModel;

    open spec fn view(&self) -> DeviceSearchModel {
        DeviceSearchModel { candidates: self.candidates@, failures: texts(self.failures@) }
    }
}

impl DeviceSearchModel {
    /// A search in which nothing has been tried.
    pub open spec fn fresh(candidates: Seq<usize>) -> DeviceSearchModel {
        DeviceSearchModel { candidates, failures: Seq::empty() }
    }

    /// The device to try next: the first candidate that has not failed.
    pub open spec fn candidate(self) -> Option<usize> {
        if self.failures.len() < self.candidates.len() {
            Some(self.candidates[self.failures.len() as int])
        } else {
            None
        }
    }

    /// The search after the device at hand could not be opened.
    pub open spec fn rejected(
        self,
        device_name: Option<Seq<char>>,
        error: Seq<char>,
    ) -> DeviceSearchModel {
        DeviceSearchModel {
            candidates: self.candidates,
            failures: self.failures.push(failure_entry(device_name, error)),
        }
    }
}

impl DeviceSearch {
    /// No more devices have failed than there are.
    pub open spec fn wf(self) -> bool {
        self.failures@.len() <= self.candidates@.len()
    }

    /// A search in which nothing has been tried.
    pub fn new(candidates: Vec<usize>) -> (r: Self)
        ensures
            r.wf(),
            r@ == DeviceSearchModel::fresh(candidates@),
    {
        let search = DeviceSearch { candidates, failures: Vec::new() };
        assert(search@ =~= DeviceSearchModel::fresh(candidates@));
        search
    }

    /// The device to try next, if one is left.
    pub fn candidate(&self) -> (r: Option<usize>)
        requires
            self.wf(),
        ensures
            r == self@.candidate(),
    {
        assert(self@.failures.len() == self.failures@.len());
        if self.failures.len() < self.candidates.len() {
            Some(self.candidates[self.failures.len()])
        } else {
            None
        }
    }

    /// Notes that the device at hand could not be opened.
    pub fn reject(&mut self, device_name: Option<&str>, error: &str)
        requires
            old(self).wf(),
            old(self)@.candidate() is Some,
        ensures
            final(self).wf(),
            final(self)@ == old(self)@.rejected(opt_str(device_name), error@),
    {
        assert(self@.failures.len() == self.failures@.len());
        let mut entry = name_of(device_name);
        entry.append(": ");
        entry.append(error);
        self.failures.push(entry);
        assert(self@ =~= old(self)@.rejected(opt_str(device_name), error@));
    }

    /// Reports that no device could be opened.
    pub fn failure(&self) -> (r: String)
        ensures
            r@ == open_failure(self@.failures),
    {
        let mut out = "Failed to open any default input device. Tried: ".to_string();
        let tried = join_texts(&self.failures, " | ");
        out.append(tried.as_str());
        out
    }
}

/// A search among candidates after the device at hand has failed once for each
/// error. `names` are the names of all devices.
pub open spec fn search_after(
    candidates: Seq<usize>,
    names: Seq<Option<Seq<char>>>,
    errors: Seq<Seq<char>>,
) -> DeviceSearchModel
    decreases errors.len(),
{
    if errors.len() == 0 {
        DeviceSearchModel::fresh(candidates)
    } else {
        let before = search_after(candidates, names, errors.drop_last());
        match before.candidate() {
            Some(device) => before.rejected(names[device as int], errors.last()),
            None => before,
        }
    }
}

/// The candidates are tried in their order, each once: after some failures the
/// device at hand is the candidate at that position, and none is left exactly
/// when all have failed. The report then lists every candidate, in order, with
/// its own error.
pub proof fn law_device_search(
    candidates: Seq<usize>,
    names: Seq<Option<Seq<char>>>,
    errors: Seq<Seq<char>>,
)
    requires
        errors.len() <= candidates.len(),
    ensures
        search_after(candidates, names, errors).candidates == candidates,
        search_after(candidates, names, errors).candidate() == if errors.len() < candidates.len() {
            Some(candidates[errors.len() as int])
        } else {
            None
        },
        search_after(candidates, names, errors).failures == Seq::new(
            errors.len(),
            |k: int| failure_entry(names[candidates[k] as int], errors[k]),
        ),
        errors.len() == candidates.len() ==> open_failure(
            search_after(candidates, names, errors).failures,
        ) == "Failed to open any default input device. Tried: "@ + join(
            Seq::new(
                candidates.len(),
                |k: int| failure_entry(names[candidates[k] as int], errors[k]),
            ),
            " | "@,
        ),
    decreases errors.len(),
{
    let entries = Seq::new(
        errors.len(),
        |k: int| failure_entry(names[candidates[k] as int], errors[k]),
    );
    let after = search_after(candidates, names, errors);
    if errors.len() > 0 {
        law_device_search(candidates, names, errors.drop_last());
    }
    assert(after.failures =~= entries);
    if errors.len() == candidates.len() {
        assert(entries =~= Seq::new(
            candidates.len(),
            |k: int| failure_entry(names[candidates[k] as int], errors[k]),
        ));
    }
}

/// An input device: the one that the sound system names as its default, or the
/// one at a position of its list.
#[derive(Debug, Clone, Copy, PartialEq, Eq, Structural)]
pub enum InputDevice {
    HostDefault,
    Listed(usize),
}

/// The devices that may be the default input, likeliest first: the session's
/// default, the sound system's default, and then all that are listed.
pub open spec fn default_devices(session: Option<usize>, host_default: bool, count: nat) -> Seq<
    InputDevice,
> {
    let first = match session {
        Some(i) => seq![InputDevice::Listed(i)],
        None => Seq::empty(),
    };
    let second = if host_default {
        seq![InputDevice::HostDefault]
    } else {
        Seq::empty()
    };
    first + second + Seq::new(count, |i: int| InputDevice::Listed(i as usize))
}

/// The devices that may be the default input, likeliest first.
pub fn default_order(session: Option<usize>, host_default: bool, count: usize) -> (r: Vec<
    InputDevice,
>)
    ensures
        r@ == default_devices(session, host_default, count as nat),
{
    let mut out: Vec<InputDevice> = Vec::new();
    if let Some(i) = session {
        out.push(InputDevice::Listed(i));
    }
    if host_default {
        out.push(InputDevice::HostDefault);
    }
    let ghost head = out@;
    let mut i: usize = 0;
    while i < count
        invariant
            i <= count,
            out@ == head + Seq::new(i as nat, |k: int| InputDevice::Listed(k as usize)),
        decreases count - i,
    {
        out.push(InputDevice::Listed(i));
        i += 1;
        assert(out@ =~= head + Seq::new(i as nat, |k: int| InputDevice::Listed(k as usize)));
    }
    assert(out@ =~= default_devices(session, host_default, count as nat));
    out
}

proof fn lemma_device_named(names: Seq<Option<Seq<char>>>, name: Seq<char>, from: int)
    requires
        0 <= from,
    ensures
        match device_named(names, name, from) {
            Some(i) => from <= i < names.len() && names[i] == Some(name) && forall|j: int|
                from <= j < i ==> #[trigger] names[j] != Some(name),
            None => forall|j: int| from <= j < names.len() ==> #[trigger] names[j] != Some(name),
        },
    decreases names.len() - from,
{
    if from < names.len() && names[from] != Some(name) {
        lemma_device_named(names, name, from + 1);
    }
}

/// A device that is asked for by name is the first that has exactly that name,
/// and it is found wherever some device has it. A number asks for the device at
/// that position, and `default` for the system's default.
pub proof fn law_device_by_name(spec: Seq<char>, names: Seq<Option<Seq<char>>>, i: int)
    requires
        names.len() <= usize::MAX,
    ensures
        spec == "default"@ ==> device_choice(spec, names) == Some(DeviceChoice::Default),
        device_choice(spec, names) == Some(DeviceChoice::Default) ==> spec == "default"@,
        spec != "default"@ && parse_number(spec, usize::MAX as nat) is None ==> {
            &&& device_choice(spec, names) matches Some(DeviceChoice::Index(k)) ==> k < names.len()
                && names[k as int] == Some(spec)
            &&& device_choice(spec, names) matches Some(DeviceChoice::Index(k)) ==> (0 <= i < k
                ==> names[i] != Some(spec))
            &&& 0 <= i < names.len() && names[i] == Some(spec) ==> device_choice(spec, names)
                is Some
        },
{
    lemma_device_named(names, spec, 0);
}

/// The decimal notation of a position asks for the device at that position,
/// where there is one.
pub proof fn law_device_by_position(i: nat, names: Seq<Option<Seq<char>>>)
    requires
        i <= usize::MAX,
    ensures
        device_choice(decimal(i), names) == if i < names.len() {
            Some(DeviceChoice::Index(i as usize))
        } else {
            None
        },
{
    law_parse_decimal(i, usize::MAX as nat);
    if decimal(i) == "default"@ {
        reveal_strlit("default");
        assert(!is_digit("default"@[0]));
        assert(false);
    }
}

/// A device is kept the first time that its name occurs.
pub proof fn law_first_of_each_name(names: Seq<Option<Seq<char>>>, k: int, j: int)
    requires
        0 <= k < unique_devices(names).1.len(),
        0 <= j < unique_devices(names).1[k],
        names[j] is Some,
    ensures
        names[j] != names[unique_devices(names).1[k]],
    decreases names.len(),
{
    law_unique_devices(names);
    let less = names.drop_last();
    let (keys, kept) = unique_devices(less);
    law_unique_devices(less);
    if k < kept.len() {
        assert(unique_devices(names).1[k] == kept[k]);
        assert(names[j] == less[j] && names[kept[k]] == less[kept[k]]);
        law_first_of_each_name(less, k, j);
    } else {
        assert(unique_devices(names).1[k] == names.len() - 1);
        assert(names[j] == less[j]);
        assert(keys.contains(less[j]->0));
    }
}

/// The same name is the best match, then a name that begins with what is looked
/// for or the other way round, then one that holds it or the other way round. A
/// name that has nothing of it is no match.
pub proof fn law_match_score(name: Seq<char>, needle: Seq<char>, extra: Seq<char>, lead: Seq<char>)
    ensures
        match_score(needle, needle) > match_score(name, needle) <==> name != needle,
        extra.len() > 0 ==> match_score(needle + extra, needle) == match_score(
            needle,
            needle + extra,
        ),
        extra.len() > 0 ==> match_score(needle, needle) > match_score(needle + extra, needle) > 0,
        lead.len() > 0 && !starts_with(lead + needle + extra, needle) ==> match_score(
            needle + extra,
            needle,
        ) > match_score(lead + needle + extra, needle) > 0,
        match_score(name, needle) == match_score(needle, name),
        match_score(name, needle) > 0 <==> (contains(name, needle) || contains(needle, name)),
{
    law_strip(needle + extra, needle, extra);
    law_contains(lead, needle, extra, name);
    let long = lead + needle + extra;
    if starts_with(needle, long) {
        assert(long.len() <= needle.len());
    }
    if name == needle {
        law_contains(Seq::empty(), needle, Seq::empty(), name);
        assert(Seq::<char>::empty() + needle + Seq::<char>::empty() =~= needle);
    }
}

/// At most one device is the best match, and a device that has the very name is
/// one unless an earlier one has it too.
pub proof fn law_best_match(
    names: Seq<Option<Seq<char>>>,
    needle: Seq<char>,
    a: Option<usize>,
    b: Option<usize>,
    i: int,
)
    requires
        is_best_match(names, needle, a),
        is_best_match(names, needle, b),
    ensures
        a == b,
        0 <= i < names.len() && names[i] == Some(needle) ==> (a matches Some(k) && k <= i
            && names[k as int] == Some(needle)),
        0 <= i < names.len() && (names[i] matches Some(n) && (contains(n, needle) || contains(
            needle,
            n,
        ))) ==> a is Some,
        a matches Some(k) ==> (names[k as int] matches Some(n) && (contains(n, needle) || contains(
            needle,
            n,
        ))),
{
    if let (Some(k), Some(m)) = (a, b) {
        assert(device_score(names[k as int], needle) == device_score(names[m as int], needle));
    }
    if 0 <= i < names.len() {
        if let Some(n) = names[i] {
            law_match_score(n, needle, Seq::empty(), Seq::empty());
            assert(device_score(names[i], needle) == match_score(n, needle));
        }
    }
    if let Some(k) = a {
        if let Some(n) = names[k as int] {
            law_match_score(n, needle, Seq::empty(), Seq::empty());
        }
    }
}

/// An empty hint is passed over, wherever it stands: without it the same device
/// is found.
pub proof fn law_empty_hints_count_for_nothing(
    before: Seq<Seq<char>>,
    after: Seq<Seq<char>>,
    names: Seq<Option<Seq<char>>>,
    found: Option<usize>,
)
    ensures
        is_first_match(before + seq![Seq::empty()] + after, names, found) <==> is_first_match(
            before + after,
            names,
            found,
        ),
        is_first_match(seq![Seq::empty()], names, found) ==> found is None,
{
    let all = before + seq![Seq::empty()] + after;
    let less = before + after;
    let n = before.len() as int;
    assert forall|j: int| 0 <= j < n implies #[trigger] all[j] == less[j] by {}
    assert forall|j: int| n <= j < less.len() implies #[trigger] less[j] == all[j + 1] by {}
    assert forall|j: int| n < j < all.len() implies #[trigger] all[j] == less[j - 1] by {}
    assert(all[n] == Seq::<char>::empty());
    if let Some(i) = found {
        if is_first_match(all, names, found) {
            let k = choose|k: int|
                {
                    &&& 0 <= k < all.len()
                    &&& (#[trigger] all[k]).len() > 0
                    &&& is_best_match(names, all[k], Some(i))
                    &&& forall|j: int|
                        0 <= j < k && (#[trigger] all[j]).len() > 0 ==> is_best_match(
                            names,
                            all[j],
                            None,
                        )
                };
            let m = if k < n {
                k
            } else {
                k - 1
            };
            assert(less[m] == all[k]);
            assert forall|j: int| 0 <= j < m && (#[trigger] less[j]).len() > 0 implies is_best_match(
                names,
                less[j],
                None,
            ) by {
                if j < n {
                    assert(all[j] == less[j]);
                } else {
                    assert(less[j] == all[j + 1]);
                }
            }
        }
        if is_first_match(less, names, found) {
            let k = choose|k: int|
                {
                    &&& 0 <= k < less.len()
                    &&& (#[trigger] less[k]).len() > 0
                    &&& is_best_match(names, less[k], Some(i))
                    &&& forall|j: int|
                        0 <= j < k && (#[trigger] less[j]).len() > 0 ==> is_best_match(
                            names,
                            less[j],
                            None,
                        )
                };
            let m = if k < n {
                k
            } else {
                k + 1
            };
            assert(less[k] == all[m]);
            assert forall|j: int| 0 <= j < m && (#[trigger] all[j]).len() > 0 implies is_best_match(
                names,
                all[j],
                None,
            ) by {
                if j < n {
                    assert(all[j] == less[j]);
                } else {
                    assert(all[j] == less[j - 1]);
                }
            }
        }
    } else {
        if is_first_match(all, names, found) {
            assert forall|j: int|
                0 <= j < less.len() && (#[trigger] less[j]).len() > 0 implies is_best_match(
                names,
                less[j],
                None,
            ) by {
                if j < n {
                    assert(all[j] == less[j]);
                } else {
                    assert(less[j] == all[j + 1]);
                }
            }
        }
        if is_first_match(less, names, found) {
            assert forall|j: int|
                0 <= j < all.len() && (#[trigger] all[j]).len() > 0 implies is_best_match(
                names,
                all[j],
                None,
            ) by {
                if j < n {
                    assert(all[j] == less[j]);
                } else {
                    assert(all[j] == less[j - 1]);
                }
            }
        }
    }
}

/// The first hint that matches any device decides, and the device is the best
/// match of that hint.
pub proof fn law_first_hint_decides(
    silent: Seq<Seq<char>>,
    hint: Seq<char>,
    later: Seq<Seq<char>>,
    names: Seq<Option<Seq<char>>>,
    best: usize,
    found: Option<usize>,
)
    requires
        forall|j: int|
            0 <= j < silent.len() && (#[trigger] silent[j]).len() > 0 ==> is_best_match(
                names,
                silent[j],
                None,
            ),
        hint.len() > 0,
        is_best_match(names, hint, Some(best)),
        is_first_match(silent + seq![hint] + later, names, found),
    ensures
        found == Some(best),
{
    let all = silent + seq![hint] + later;
    let n = silent.len() as int;
    assert(all[n] == hint);
    if is_best_match(names, hint, None) {
        law_best_match(names, hint, None, Some(best), 0);
    }
    if let Some(i) = found {
        let k = choose|k: int|
            {
                &&& 0 <= k < all.len()
                &&& (#[trigger] all[k]).len() > 0
                &&& is_best_match(names, all[k], Some(i))
                &&& forall|j: int|
                    0 <= j < k && (#[trigger] all[j]).len() > 0 ==> is_best_match(
                        names,
                        all[j],
                        None,
                    )
            };
        if k < n {
            assert(all[k] == silent[k]);
            law_best_match(names, all[k], None, Some(i), 0);
        } else if k == n {
            law_best_match(names, hint, Some(i), Some(best), 0);
        } else {
            assert(is_best_match(names, all[n], None));
        }
    }
}

/// What `wpctl` says comes before what `pactl` says, and the description of a
/// source before its node. Nothing that was said is left out.
pub proof fn law_session_hints(
    wpctl: Option<Seq<char>>,
    node: Seq<char>,
    description: Option<Seq<char>>,
)
    ensures
        ({
            let hints = session_hints(wpctl, Some((node, description)));
            &&& hints.len() > 0 && hints.last() == node_hint(node)
            &&& description matches Some(d) ==> hints.len() >= 2 && hints[hints.len() - 2]
                == without_profile(d)
            &&& wpctl matches Some(name) ==> hints[0] == name
            &&& hints.len() == 1 + (if wpctl is Some {
                1int
            } else {
                0
            }) + (if description is Some {
                1int
            } else {
                0
            })
        }),
        session_hints(wpctl, None) == match wpctl {
            Some(name) => seq![name],
            None => Seq::empty(),
        },
{
}

/// A failure is noted with the name of the device and the reason.
pub proof fn law_failure_entry(name: Seq<char>, error: Seq<char>)
    ensures
        starts_with(failure_entry(Some(name), error), name),
        ends_with(failure_entry(Some(name), error), error),
        failure_entry(Some(name), error).len() == name.len() + 2 + error.len(),
        ends_with(open_log(Some(name), Some(error)), error),
        contains(open_log(Some(name), Some(error)), name),
        ends_with(open_log(Some(name), None), name),
{
    reveal_strlit(": ");
    let entry = failure_entry(Some(name), error);
    assert(entry =~= name + (": "@ + error));
    law_strip(entry, name, ": "@ + error);
    law_strip(entry, error, name + ": "@);
    let opened = open_log(Some(name), None);
    law_strip(opened, name, "phase=device-opened device="@);
    let failed = open_log(Some(name), Some(error));
    law_strip(failed, error, "phase=device-open-failed device="@ + name + " error="@);
    law_contains("phase=device-open-failed device="@, name, " error="@ + error, failed);
    assert(failed =~= "phase=device-open-failed device="@ + name + (" error="@ + error));
}

/// By default the device of the session is tried first, then the default of the
/// host, and then every device in the order of the list.
pub proof fn law_default_devices(session: Option<usize>, host_default: bool, count: nat, i: int)
    requires
        0 <= i < count <= usize::MAX,
    ensures
        ({
            let order = default_devices(session, host_default, count);
            &&& order[order.len() - count + i] == InputDevice::Listed(i as usize)
            &&& session matches Some(first) ==> order[0] == InputDevice::Listed(first)
            &&& host_default ==> order[order.len() - count - 1] == InputDevice::HostDefault
            &&& order.len() == count + (if session is Some {
                1int
            } else {
                0
            }) + (if host_default {
                1int
            } else {
                0
            })
        }),
{
}

/// An error about a position tells the position and the last one; an error about
/// a name tells the name.
pub proof fn law_device_errors(error: DeviceError)
    ensures
        error matches DeviceError::IndexOutOfRange { index, last } ==> contains(
            error.message_model(),
            decimal(index as nat) + " is out of range (0-"@ + decimal(last as nat),
        ),
        error matches DeviceError::NotFound(name) ==> contains(
            error.message_model(),
            "'"@ + name@ + "'"@,
        ),
{
    let whole = error.message_model();
    match error {
        DeviceError::IndexOutOfRange { index, last } => {
            let told = decimal(index as nat) + " is out of range (0-"@ + decimal(last as nat);
            assert(whole =~= "Device index "@ + told + ")"@);
            law_contains("Device index "@, told, ")"@, whole);
        },
        DeviceError::NotFound(name) => {
            reveal_strlit("Audio input device '");
            reveal_strlit("Audio input device ");
            reveal_strlit("'");
            reveal_strlit("' not found. Use 'ostt list-devices' to see available devices.");
            reveal_strlit(" not found. Use 'ostt list-devices' to see available devices.");
            let lead = "Audio input device "@;
            let rest = " not found. Use 'ostt list-devices' to see available devices."@;
            let told = "'"@ + name@ + "'"@;
            assert(whole =~= lead + told + rest);
            law_contains(lead, told, rest, whole);
        },
    }
}

proof fn lemma_device_keys(names: Seq<Option<Seq<char>>>)
    requires
        forall|i: int|
            0 <= i < names.len() ==> ((#[trigger] names[i]) matches Some(n) ==> !starts_with(
                n,
                "unknown-"@,
            )),
    ensures
        ({
            let keys = unique_devices(names).0;
            &&& forall|k: int|
                0 <= k < keys.len() ==> #[trigger] keys[k] == "unknown-"@ + decimal(k as nat)
                    || !starts_with(keys[k], "unknown-"@)
            &&& !keys.contains("unknown-"@ + decimal(keys.len()))
        }),
    decreases names.len(),
{
    if names.len() > 0 {
        let less = names.drop_last();
        assert forall|i: int| 0 <= i < less.len() implies ((#[trigger] less[i]) matches Some(n)
            ==> !starts_with(n, "unknown-"@)) by {
            assert(less[i] == names[i]);
        }
        lemma_device_keys(less);
        assert(names.last() == names[names.len() - 1]);
    }
    let keys = unique_devices(names).0;
    let n = keys.len();
    let fresh = "unknown-"@ + decimal(n);
    if keys.contains(fresh) {
        let k = choose|k: int| 0 <= k < keys.len() && keys[k] == fresh;
        law_strip(fresh, "unknown-"@, decimal(n));
        law_strip(fresh, "unknown-"@, decimal(k as nat));
        law_parse_decimal(n, n);
        law_parse_decimal(k as nat, n);
    }
}

/// A device without a name is no duplicate: it is kept, however many others have
/// none, unless a device bears one of the names that stand in for a missing one.
pub proof fn law_unnamed_devices_are_kept(names: Seq<Option<Seq<char>>>, i: int)
    requires
        forall|j: int|
            0 <= j < names.len() ==> ((#[trigger] names[j]) matches Some(n) ==> !starts_with(
                n,
                "unknown-"@,
            )),
        0 <= i < names.len(),
        names[i] is None,
    ensures
        unique_devices(names).1.contains(i),
    decreases names.len(),
{
    let less = names.drop_last();
    assert forall|j: int| 0 <= j < less.len() implies ((#[trigger] less[j]) matches Some(n)
        ==> !starts_with(n, "unknown-"@)) by {
        assert(less[j] == names[j]);
    }
    let kept = unique_devices(less).1;
    let all = unique_devices(names).1;
    lemma_device_keys(less);
    if i < names.len() - 1 {
        law_unnamed_devices_are_kept(less, i);
        let k = choose|k: int| 0 <= k < kept.len() && kept[k] == i;
        assert(all[k] == i);
    } else {
        assert(all == kept.push(i));
        assert(all[kept.len() as int] == i);
    }
}

} // verus!
