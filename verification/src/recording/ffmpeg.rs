//! Where the ffmpeg binary is, and how it is called.
use crate::outside::{from_utf8_lossy, utf8_lossy};
use crate::platform::Platform;
use crate::text::{
    ends_with, is_among, is_whitespace, law_trim_padding, lemma_trim_fixed, opt_str, opt_text,
    split_words, starts_with, texts, trim, trimmed, words,
};
use vstd::prelude::*;
use vstd::string::*;
use vstd::utf8::{decode_utf8, valid_utf8};

verus! {

/// The places where ffmpeg is usually installed.
pub open spec fn install_locations(platform: Platform) -> Seq<Seq<char>> {
    match platform {
        Platform::MacOs => seq![
            "/opt/homebrew/bin/ffmpeg"@,
            "/usr/local/bin/ffmpeg"@,
            "/usr/bin/ffmpeg"@,
        ],
        Platform::Linux => seq![
            "/usr/bin/ffmpeg"@,
            "/usr/local/bin/ffmpeg"@,
            "/snap/bin/ffmpeg"@,
        ],
        Platform::Windows => seq![
            "C:\\ffmpeg\\bin\\ffmpeg.exe"@,
            "C:\\Program Files\\ffmpeg\\bin\\ffmpeg.exe"@,
            "C:\\Program Files (x86)\\ffmpeg\\bin\\ffmpeg.exe"@,
        ],
        Platform::Other => Seq::empty(),
    }
}

/// Lists the places where ffmpeg is usually installed.
pub fn candidates(platform: Platform) -> (r: Vec<String>)
    ensures
        texts(r@) == install_locations(platform),
{
    let mut out: Vec<String> = Vec::new();
    match platform {
        Platform::MacOs => {
            out.push("/opt/homebrew/bin/ffmpeg".to_string());
            out.push("/usr/local/bin/ffmpeg".to_string());
            out.push("/usr/bin/ffmpeg".to_string());
        },
        Platform::Linux => {
            out.push("/usr/bin/ffmpeg".to_string());
            out.push("/usr/local/bin/ffmpeg".to_string());
            out.push("/snap/bin/ffmpeg".to_string());
        },
        Platform::Windows => {
            out.push("C:\\ffmpeg\\bin\\ffmpeg.exe".to_string());
            out.push("C:\\Program Files\\ffmpeg\\bin\\ffmpeg.exe".to_string());
            out.push("C:\\Program Files (x86)\\ffmpeg\\bin\\ffmpeg.exe".to_string());
        },
        Platform::Other => {},
    }
    assert(texts(out@) =~= install_locations(platform));
    out
}

/// The path that the environment gives, where it is not blank.
pub open spec fn env_path(value: Option<Seq<char>>) -> Option<Seq<char>> {
    match value {
        Some(v) if trim(v).len() > 0 => Some(trim(v)),
        _ => None,
    }
}

/// The path that the environment gives, where a file exists there.
pub open spec fn from_env(value: Option<Seq<char>>, existing: Seq<Seq<char>>) -> Option<Seq<char>> {
    match env_path(value) {
        Some(path) if existing.contains(path) => Some(path),
        _ => None,
    }
}

/// The paths whose existence decides where ffmpeg is.
pub open spec fn probes(platform: Platform, env_bin: Option<Seq<char>>) -> Seq<Seq<char>> {
    match env_path(env_bin) {
        Some(path) => seq![path] + install_locations(platform),
        None => install_locations(platform),
    }
}

/// The paths whose existence decides where ffmpeg is: the one that the
/// environment gives, and the usual places.
pub fn ffmpeg_probes(platform: Platform, env_bin: Option<&str>) -> (r: Vec<String>)
    ensures
        texts(r@) == probes(platform, opt_str(env_bin)),
{
    let mut out: Vec<String> = Vec::new();
    if let Some(value) = env_bin {
        let path = trimmed(value);
        if !path.as_str().is_empty() {
            out.push(path);
        }
    }
    let ghost first = texts(out@);
    let mut places = candidates(platform);
    let ghost rest = texts(places@);
    out.append(&mut places);
    assert(texts(out@) =~= first + rest);
    assert(first + rest =~= probes(platform, opt_str(env_bin)));
    out
}

/// The ffmpeg binary that the environment names, where it exists.
pub fn ffmpeg_from_env(env_bin: Option<&str>, existing: &Vec<String>) -> (r: Option<String>)
    ensures
        opt_text(r) == from_env(opt_str(env_bin), texts(existing@)),
{
    if let Some(value) = env_bin {
        let path = trimmed(value);
        if !path.as_str().is_empty() && is_among(existing, path.as_str()) {
            return Some(path);
        }
    }
    None
}

/// What the search of the command path printed.
#[derive(Debug)]
pub struct SearchOutput {
    pub success: bool,
    pub stdout: Vec<u8>,
}

/// The command that searches the command path.
pub fn search_command(platform: Platform) -> (r: &'static str)
    ensures
        r@ == if platform == Platform::Windows {
            "where"@
        } else {
            "which"@
        },
{
    match platform {
        Platform::Windows => "where",
        _ => "which",
    }
}

/// The path that a search printed, where it printed one.
pub open spec fn printed_path(text: Seq<char>) -> Option<Seq<char>> {
    if trim(text).len() > 0 {
        Some(trim(text))
    } else {
        None
    }
}

/// Reads the path that a search printed.
pub fn path_from_text(text: &str) -> (r: Option<String>)
    ensures
        opt_text(r) == printed_path(text@),
{
    let path = trimmed(text);
    if path.as_str().is_empty() {
        None
    } else {
        Some(path)
    }
}

/// The path that a search found: one was printed, and the search succeeded.
pub open spec fn search_result(search: Option<SearchOutput>) -> Option<Seq<char>> {
    match search {
        Some(output) if output.success => printed_path(utf8_lossy(output.stdout@)),
        _ => None,
    }
}

/// Reads the result of a search of the command path, if there was one.
pub fn find_in_path(search: &Option<SearchOutput>) -> (r: Option<String>)
    ensures
        opt_text(r) == search_result(*search),
        search matches Some(output) ==> (output.success && valid_utf8(output.stdout@) ==> opt_text(r)
            == printed_path(decode_utf8(output.stdout@))),
{
    match search {
        Some(output) => if output.success {
            let text = from_utf8_lossy(&output.stdout);
            path_from_text(text.as_str())
        } else {
            None
        },
        None => None,
    }
}

/// The first of some paths that exists.
pub open spec fn first_existing(paths: Seq<Seq<char>>, existing: Seq<Seq<char>>) -> Option<Seq<char>>
    decreases paths.len(),
{
    if paths.len() == 0 {
        None
    } else if existing.contains(paths[0]) {
        Some(paths[0])
    } else {
        first_existing(paths.drop_first(), existing)
    }
}

/// The first of some paths that exists.
fn first_of(paths: &Vec<String>, existing: &Vec<String>) -> (r: Option<String>)
    ensures
        opt_text(r) == first_existing(texts(paths@), texts(existing@)),
{
    let ghost all = texts(paths@);
    let mut i: usize = 0;
    assert(all.skip(0) =~= all);
    while i < paths.len()
        invariant
            i <= paths@.len(),
            all == texts(paths@),
            first_existing(all.skip(i as int), texts(existing@)) == first_existing(
                all,
                texts(existing@),
            ),
        decreases paths@.len() - i,
    {
        assert(all.skip(i as int)[0] == paths@[i as int]@);
        assert(all.skip(i as int).drop_first() =~= all.skip(i + 1));
        if is_among(existing, paths[i].as_str()) {
            return Some(paths[i].clone());
        }
        i += 1;
    }
    None
}

/// There is no ffmpeg binary.
#[derive(Debug, Clone, Copy, PartialEq, Eq, Structural)]
pub struct FfmpegNotFound;

impl FfmpegNotFound {
    /// What to tell the user.
    pub fn message(&self) -> (r: String)
        ensures
            r@
                == "ffmpeg not found. Please install ffmpeg:\nmacOS: brew install ffmpeg\nLinux: apt install ffmpeg (Debian/Ubuntu) or dnf install ffmpeg (Fedora)\nWindows: Download from https://ffmpeg.org/download.html"@,
    {
        "ffmpeg not found. Please install ffmpeg:\nmacOS: brew install ffmpeg\nLinux: apt install ffmpeg (Debian/Ubuntu) or dnf install ffmpeg (Fedora)\nWindows: Download from https://ffmpeg.org/download.html".to_string()
    }
}

/// Where ffmpeg is: where the environment says, then in one of the usual
/// places, then where the search of the command path found it.
pub open spec fn ffmpeg_location(
    platform: Platform,
    env_bin: Option<Seq<char>>,
    existing: Seq<Seq<char>>,
    searched: Option<Seq<char>>,
) -> Option<Seq<char>> {
    if let Some(path) = from_env(env_bin, existing) {
        Some(path)
    } else if let Some(path) = first_existing(install_locations(platform), existing) {
        Some(path)
    } else {
        searched
    }
}

/// Locates the ffmpeg binary, from the paths of `ffmpeg_probes` that exist and
/// the output of the search of the command path.
pub fn find_ffmpeg(
    platform: Platform,
    env_bin: Option<&str>,
    existing: &Vec<String>,
    search: &Option<SearchOutput>,
) -> (r: Result<String, FfmpegNotFound>)
    ensures
        match (
            r,
            ffmpeg_location(
                platform,
                opt_str(env_bin),
                texts(existing@),
                search_result(*search),
            ),
        ) {
            (Ok(path), Some(p)) => path@ == p,
            (Err(_), None) => true,
            _ => false,
        },
        search matches Some(output) ==> (output.success && valid_utf8(output.stdout@) ==> match (
            r,
            ffmpeg_location(
                platform,
                opt_str(env_bin),
                texts(existing@),
                printed_path(decode_utf8(output.stdout@)),
            ),
        ) {
            (Ok(path), Some(p)) => path@ == p,
            (Err(_), None) => true,
            _ => false,
        }),
{
    if let Some(path) = ffmpeg_from_env(env_bin, existing) {
        return Ok(path);
    }
    let places = candidates(platform);
    if let Some(path) = first_of(&places, existing) {
        return Ok(path);
    }
    match find_in_path(search) {
        Some(path) => Ok(path),
        None => Err(FfmpegNotFound),
    }
}

/// A binary that the environment names and that exists is always taken, and the
/// usual places come before the command path: what the search found makes a
/// difference only where ffmpeg is in none of them.
pub proof fn law_ffmpeg_order(
    platform: Platform,
    env_bin: Option<Seq<char>>,
    existing: Seq<Seq<char>>,
    searched: Option<Seq<char>>,
    other: Option<Seq<char>>,
)
    ensures
        from_env(env_bin, existing) is Some ==> ffmpeg_location(
            platform,
            env_bin,
            existing,
            searched,
        ) == from_env(env_bin, existing),
        first_existing(install_locations(platform), existing) is Some ==> ffmpeg_location(
            platform,
            env_bin,
            existing,
            searched,
        ) == ffmpeg_location(platform, env_bin, existing, other),
        from_env(env_bin, existing) is None && first_existing(
            install_locations(platform),
            existing,
        ) is None ==> ffmpeg_location(platform, env_bin, existing, searched) == searched,
{
}

/// An output format that names no codec.
#[derive(Debug, Clone, Copy, PartialEq, Eq, Structural)]
pub struct EmptyFormat;

impl EmptyFormat {
    /// What to tell the user.
    pub fn message(&self) -> (r: String)
        ensures
            r@ == "Invalid format string: empty"@,
    {
        "Invalid format string: empty".to_string()
    }
}

/// The arguments with which ffmpeg turns a WAV file into another format: mono,
/// with the codec and the options that the format names.
pub open spec fn convert_args(input: Seq<char>, output: Seq<char>, format: Seq<Seq<char>>) -> Seq<
    Seq<char>,
> {
    seq![
        "-loglevel"@,
        "error"@,
        "-i"@,
        input,
        "-acodec"@,
        format[0],
        "-ac"@,
        "1"@,
        "-y"@,
    ] + format.drop_first() + seq![output]
}

/// Builds the arguments with which ffmpeg converts a recording.
pub fn convert_with_ffmpeg(input_wav: &str, output_path: &str, format: &str) -> (r: Result<
    Vec<String>,
    EmptyFormat,
>)
    ensures
        r is Err <==> words(format@).len() == 0,
        r matches Ok(args) ==> texts(args@) == convert_args(
            input_wav@,
            output_path@,
            words(format@),
        ),
        r matches Ok(args) ==> follows(texts(args@), "-acodec"@, words(format@)[0]) && follows(
            texts(args@),
            "-i"@,
            input_wav@,
        ) && texts(args@).last() == output_path@,
{
    let parts = split_words(format);
    let ghost all = texts(parts@);
    assert(all.len() == parts@.len());
    if parts.len() == 0 {
        return Err(EmptyFormat);
    }
    let mut args: Vec<String> = Vec::new();
    args.push("-loglevel".to_string());
    args.push("error".to_string());
    args.push("-i".to_string());
    args.push(input_wav.to_string());
    args.push("-acodec".to_string());
    args.push(parts[0].clone());
    args.push("-ac".to_string());
    args.push("1".to_string());
    args.push("-y".to_string());
    let ghost head = texts(args@);
    assert(head =~= seq![
        "-loglevel"@,
        "error"@,
        "-i"@,
        input_wav@,
        "-acodec"@,
        all[0],
        "-ac"@,
        "1"@,
        "-y"@,
    ]);
    let mut i: usize = 1;
    while i < parts.len()
        invariant
            1 <= i <= parts@.len(),
            all == texts(parts@),
            texts(args@) == head + all.subrange(1, i as int),
        decreases parts@.len() - i,
    {
        let ghost before = texts(args@);
        args.push(parts[i].clone());
        assert(texts(args@) =~= before.push(all[i as int]));
        i += 1;
        assert(texts(args@) =~= head + all.subrange(1, i as int));
    }
    let ghost before = texts(args@);
    args.push(output_path.to_string());
    assert(texts(args@) =~= before.push(output_path@));
    assert(texts(args@) =~= convert_args(input_wav@, output_path@, all));
    proof {
        law_conversion(input_wav@, output_path@, all[0], all.drop_first());
        assert(seq![all[0]] + all.drop_first() =~= all);
    }
    Ok(args)
}

/// What became of a conversion: nothing to report, or what ffmpeg said.
pub fn conversion_outcome(success: bool, stderr: &[u8]) -> (r: Result<(), String>)
    ensures
        r is Ok <==> success,
        r matches Err(message) ==> message@ == "Audio encoding failed: "@ + utf8_lossy(stderr@),
        r matches Err(message) ==> valid_utf8(stderr@) ==> message@ == "Audio encoding failed: "@
            + decode_utf8(stderr@),
{
    if success {
        Ok(())
    } else {
        let mut message = "Audio encoding failed: ".to_string();
        let said = from_utf8_lossy(stderr);
        message.append(said.as_str());
        Err(message)
    }
}

/// Whether `value` directly follows `flag` in a list of arguments.
pub open spec fn follows(args: Seq<Seq<char>>, flag: Seq<char>, value: Seq<char>) -> bool {
    exists|i: int| 0 <= i < args.len() - 1 && #[trigger] args[i] == flag && args[i + 1] == value
}

/// ffmpeg reads the temporary file, encodes it with the codec that the first
/// word of the format names, in mono, over whatever is there, takes the other
/// words of the format as options in their order, and writes the output file.
pub proof fn law_conversion(
    input: Seq<char>,
    output: Seq<char>,
    codec: Seq<char>,
    options: Seq<Seq<char>>,
)
    ensures
        ({
            let args = convert_args(input, output, seq![codec] + options);
            &&& follows(args, "-i"@, input)
            &&& follows(args, "-acodec"@, codec)
            &&& follows(args, "-ac"@, "1"@)
            &&& follows(args, "-loglevel"@, "error"@)
            &&& args.contains("-y"@)
            &&& args.last() == output
            &&& args.len() == options.len() + 10
            &&& forall|k: int|
                0 <= k < options.len() ==> args[args.len() - 1 - options.len() + k]
                    == #[trigger] options[k]
        }),
{
    let format = seq![codec] + options;
    let args = convert_args(input, output, format);
    assert(format.drop_first() =~= options);
    assert(args[0] == "-loglevel"@ && args[1] == "error"@);
    assert(args[2] == "-i"@ && args[3] == input);
    assert(args[4] == "-acodec"@ && args[5] == codec);
    assert(args[6] == "-ac"@ && args[7] == "1"@);
    assert(args[8] == "-y"@);
}

/// The first of some paths that exists is one of them, exists, and none before
/// it does; and there is one wherever one of them exists.
pub proof fn law_first_existing(paths: Seq<Seq<char>>, existing: Seq<Seq<char>>)
    ensures
        match first_existing(paths, existing) {
            Some(path) => exists|i: int|
                {
                    &&& 0 <= i < paths.len()
                    &&& #[trigger] paths[i] == path
                    &&& existing.contains(path)
                    &&& forall|j: int| 0 <= j < i ==> !existing.contains(#[trigger] paths[j])
                },
            None => forall|i: int| 0 <= i < paths.len() ==> !existing.contains(#[trigger] paths[i]),
        },
    decreases paths.len(),
{
    if paths.len() > 0 && !existing.contains(paths[0]) {
        let rest = paths.drop_first();
        law_first_existing(rest, existing);
        match first_existing(rest, existing) {
            Some(path) => {
                let i = choose|i: int|
                    {
                        &&& 0 <= i < rest.len()
                        &&& #[trigger] rest[i] == path
                        &&& existing.contains(path)
                        &&& forall|j: int| 0 <= j < i ==> !existing.contains(#[trigger] rest[j])
                    };
                assert(paths[i + 1] == path);
                assert forall|j: int| 0 <= j < i + 1 implies !existing.contains(
                    #[trigger] paths[j],
                ) by {
                    if j > 0 {
                        assert(paths[j] == rest[j - 1]);
                    }
                }
            },
            None => {
                assert forall|i: int| 0 <= i < paths.len() implies !existing.contains(
                    #[trigger] paths[i],
                ) by {
                    if i > 0 {
                        assert(paths[i] == rest[i - 1]);
                    }
                }
            },
        }
    } else if paths.len() > 0 {
        assert(paths[0] == first_existing(paths, existing)->0);
    }
}

/// The path that the environment gives counts without the white space around
/// it, and only where it exists; a blank one does not count.
pub proof fn law_ffmpeg_from_env(
    before: Seq<char>,
    path: Seq<char>,
    after: Seq<char>,
    existing: Seq<Seq<char>>,
)
    requires
        forall|k: int| 0 <= k < before.len() ==> is_whitespace(#[trigger] before[k]),
        forall|k: int| 0 <= k < after.len() ==> is_whitespace(#[trigger] after[k]),
        path.len() > 0 ==> !is_whitespace(path[0]) && !is_whitespace(path.last()),
    ensures
        from_env(Some(before + path + after), existing) == if path.len() > 0 && existing.contains(
            path,
        ) {
            Some(path)
        } else {
            None
        },
        from_env(None, existing) is None,
{
    law_trim_padding(before, path, after);
    lemma_trim_fixed(path);
}

proof fn lemma_first_existing_same(
    paths: Seq<Seq<char>>,
    a: Seq<Seq<char>>,
    b: Seq<Seq<char>>,
)
    requires
        forall|i: int|
            0 <= i < paths.len() ==> (a.contains(#[trigger] paths[i]) <==> b.contains(paths[i])),
    ensures
        first_existing(paths, a) == first_existing(paths, b),
    decreases paths.len(),
{
    if paths.len() > 0 {
        assert(a.contains(paths[0]) <==> b.contains(paths[0]));
        let rest = paths.drop_first();
        assert forall|i: int| 0 <= i < rest.len() implies (a.contains(#[trigger] rest[i])
            <==> b.contains(rest[i])) by {
            assert(rest[i] == paths[i + 1]);
        }
        lemma_first_existing_same(rest, a, b);
    }
}

/// The probed paths are all that matter: where ffmpeg is does not depend on
/// whether any other path exists.
pub proof fn law_probes_decide(
    platform: Platform,
    env_bin: Option<Seq<char>>,
    a: Seq<Seq<char>>,
    b: Seq<Seq<char>>,
    searched: Option<Seq<char>>,
)
    requires
        forall|path: Seq<char>| #[trigger]
            probes(platform, env_bin).contains(path) ==> (a.contains(path) <==> b.contains(path)),
    ensures
        ffmpeg_location(platform, env_bin, a, searched) == ffmpeg_location(
            platform,
            env_bin,
            b,
            searched,
        ),
{
    let all = probes(platform, env_bin);
    let places = install_locations(platform);
    let n = all.len() - places.len();
    assert forall|i: int| 0 <= i < places.len() implies (a.contains(#[trigger] places[i])
        <==> b.contains(places[i])) by {
        assert(all[n + i] == places[i]);
        assert(all.contains(places[i]));
    }
    lemma_first_existing_same(places, a, b);
    if let Some(path) = env_path(env_bin) {
        assert(all[0] == path);
        assert(all.contains(path));
    }
}

/// A place where ffmpeg may be installed names ffmpeg itself, and each platform
/// that is known has its own: the package managers' places come first.
pub proof fn law_install_locations(platform: Platform, i: int)
    requires
        0 <= i < install_locations(platform).len(),
    ensures
        platform != Platform::Windows ==> ends_with(install_locations(platform)[i], "/bin/ffmpeg"@)
            && starts_with(install_locations(platform)[i], "/"@),
        platform == Platform::Windows ==> ends_with(
            install_locations(platform)[i],
            "\\ffmpeg\\bin\\ffmpeg.exe"@,
        ) && starts_with(install_locations(platform)[i], "C:\\"@),
        install_locations(platform).len() == 3,
        install_locations(platform).no_duplicates(),
        platform == Platform::MacOs || platform == Platform::Linux ==> install_locations(
            platform,
        )[1] == "/usr/local/bin/ffmpeg"@ && install_locations(platform).contains(
            "/usr/bin/ffmpeg"@,
        ),
        install_locations(Platform::MacOs)[0] == "/opt/homebrew/bin/ffmpeg"@,
        install_locations(Platform::Linux)[2] == "/snap/bin/ffmpeg"@,
        install_locations(Platform::Other).len() == 0,
{
    reveal_strlit("/opt/homebrew/bin/ffmpeg");
    reveal_strlit("/usr/local/bin/ffmpeg");
    reveal_strlit("/usr/bin/ffmpeg");
    reveal_strlit("/snap/bin/ffmpeg");
    reveal_strlit("C:\\ffmpeg\\bin\\ffmpeg.exe");
    reveal_strlit("C:\\Program Files\\ffmpeg\\bin\\ffmpeg.exe");
    reveal_strlit("C:\\Program Files (x86)\\ffmpeg\\bin\\ffmpeg.exe");
    reveal_strlit("/bin/ffmpeg");
    reveal_strlit("/");
    reveal_strlit("\\ffmpeg\\bin\\ffmpeg.exe");
    reveal_strlit("C:\\");
    let places = install_locations(platform);
    let place = places[i];
    let end = if platform == Platform::Windows {
        "\\ffmpeg\\bin\\ffmpeg.exe"@
    } else {
        "/bin/ffmpeg"@
    };
    let start = if platform == Platform::Windows {
        "C:\\"@
    } else {
        "/"@
    };
    assert(i == 0 || i == 1 || i == 2);
    assert(place.subrange(place.len() - end.len(), place.len() as int) =~= end);
    assert(place.subrange(0, start.len() as int) =~= start);
    assert(install_locations(Platform::MacOs)[2] == "/usr/bin/ffmpeg"@);
    assert(install_locations(Platform::Linux)[0] == "/usr/bin/ffmpeg"@);
    assert(places[0] != places[1] && places[1] != places[2] && places[0] != places[2]) by {
        if platform == Platform::MacOs {
            assert(places[0][1] != places[1][1]);
            assert(places[1].len() != places[2].len());
            assert(places[0][1] != places[2][1]);
        } else if platform == Platform::Linux {
            assert(places[0].len() != places[1].len());
            assert(places[1][1] != places[2][1]);
            assert(places[0][1] != places[2][1]);
        } else {
            assert(places[0].len() != places[1].len());
            assert(places[1].len() != places[2].len());
            assert(places[0].len() != places[2].len());
        }
    }
}

/// What the search printed is the path without the white space around it. A
/// search that failed, or that printed nothing, found nothing.
pub proof fn law_printed_path(before: Seq<char>, path: Seq<char>, after: Seq<char>)
    requires
        forall|k: int| 0 <= k < before.len() ==> is_whitespace(#[trigger] before[k]),
        forall|k: int| 0 <= k < after.len() ==> is_whitespace(#[trigger] after[k]),
        path.len() > 0 ==> !is_whitespace(path[0]) && !is_whitespace(path.last()),
    ensures
        printed_path(before + path + after) == if path.len() > 0 {
            Some(path)
        } else {
            None
        },
{
    law_trim_padding(before, path, after);
    lemma_trim_fixed(path);
}

/// A search that failed, or that was not made, found nothing.
pub proof fn law_failed_search(search: Option<SearchOutput>)
    ensures
        search_result(search) is Some ==> search is Some && search->0.success,
{
}

} // verus!
