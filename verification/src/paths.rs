//! The files and directories that the recorder uses.
//!
//! A location is a base directory, which only the running system knows, and the
//! components to append to it.
use crate::text::{decimal, decimal_text, is_whitespace, law_trim, opt_str, texts, trim, trimmed};
use vstd::prelude::*;
use vstd::string::*;

verus! {

/// The directory that a location starts from.
#[derive(Debug)]
pub enum Base {
    /// The user's home directory.
    Home,
    /// The directory for temporary files.
    Temp,
    /// The directory or file with this path.
    Given(String),
}

/// A base directory, with its path as a sequence of characters.
#[verifier::ext_equal]
pub enum BaseModel {
    Home,
    Temp,
    Given(Seq<char>),
}

/// A base directory and the components to append to it.
#[derive(Debug)]
pub struct Location {
    pub base: Base,
    pub components: Vec<String>,
}

/// A location, with texts as sequences of characters.
#[verifier::ext_equal]
pub struct LocationModel {
    pub base: BaseModel,
    pub components: Seq<Seq<char>>,
}

impl View for Base {
    type V = BaseModel;

    open spec fn view(&self) -> BaseModel {
        match self {
            Base::Home => BaseModel::Home,
            Base::Temp => BaseModel::Temp,
            Base::Given(path) => BaseModel::Given(path@),
        }
    }
}

impl View for Location {
    type V = LocationModel;

    open spec fn view(&self) -> LocationModel {
        LocationModel { base: self.base@, components: texts(self.components@) }
    }
}

/// The home directory is needed and not known.
#[derive(Debug, Clone, Copy, PartialEq, Eq, Structural)]
pub struct NoHomeDirectory;

impl NoHomeDirectory {
    /// What to tell the user.
    pub fn message(&self) -> (r: String)
        ensures
            r@ == "Could not determine home directory"@,
    {
        "Could not determine home directory".to_string()
    }

    /// What to tell the user where it is the configuration that is looked for.
    pub fn config_message(&self) -> (r: String)
        ensures
            r@ == "Could not find home directory"@,
    {
        "Could not find home directory".to_string()
    }
}

/// The location under the home directory with these components.
pub open spec fn under_home(components: Seq<Seq<char>>) -> LocationModel {
    LocationModel { base: BaseModel::Home, components }
}

/// Whether a result is `location` where the home directory is known, and an
/// error where it is not.
pub open spec fn home_result(
    r: Result<Location, NoHomeDirectory>,
    home_known: bool,
    location: LocationModel,
) -> bool {
    match r {
        Ok(l) => home_known && l@ == location,
        Err(_) => !home_known,
    }
}

/// The directory for what the recorder keeps.
pub open spec fn data_dir() -> LocationModel {
    under_home(seq![".local"@, "share"@, "ostt"@])
}

/// The directory for what the recorder notes about its own running.
pub open spec fn state_dir(xdg_state: Option<Seq<char>>) -> LocationModel {
    match xdg_state {
        Some(dir) => LocationModel { base: BaseModel::Given(dir), components: seq!["ostt"@] },
        None => under_home(seq![".local"@, "state"@, "ostt"@]),
    }
}

/// A location one component further down.
pub open spec fn below(dir: LocationModel, name: Seq<char>) -> LocationModel {
    LocationModel { base: dir.base, components: dir.components.push(name) }
}

impl Location {
    /// Appends a component.
    pub fn join(&mut self, name: &str)
        ensures
            final(self)@ == below(old(self)@, name@),
    {
        self.components.push(name.to_string());
        assert(texts(self.components@) =~= texts(old(self).components@).push(name@));
    }
}

/// A base directory as a location.
fn start(base: Base) -> (r: Location)
    ensures
        r@ == (LocationModel { base: base@, components: Seq::<Seq<char>>::empty() }),
{
    let components: Vec<String> = Vec::new();
    assert(texts(components@) =~= Seq::<Seq<char>>::empty());
    Location { base, components }
}

/// The directory for what the recorder keeps.
pub fn ostt_data_dir(home_known: bool) -> (r: Result<Location, NoHomeDirectory>)
    ensures
        home_result(r, home_known, data_dir()),
{
    if !home_known {
        return Err(NoHomeDirectory);
    }
    let mut dir = start(Base::Home);
    dir.join(".local");
    dir.join("share");
    dir.join("ostt");
    assert(dir@ =~~= data_dir());
    Ok(dir)
}

/// The directory for what the recorder notes about its own running: below the
/// one that the environment gives, or in the home directory.
pub fn ostt_state_dir(xdg_state: Option<&str>, home_known: bool) -> (r: Result<
    Location,
    NoHomeDirectory,
>)
    ensures
        home_result(r, home_known || xdg_state is Some, state_dir(opt_str(xdg_state))),
{
    if let Some(given) = xdg_state {
        let mut dir = start(Base::Given(given.to_string()));
        dir.join("ostt");
        assert(dir@ =~~= state_dir(opt_str(xdg_state)));
        return Ok(dir);
    }
    if !home_known {
        return Err(NoHomeDirectory);
    }
    let mut dir = start(Base::Home);
    dir.join(".local");
    dir.join("state");
    dir.join("ostt");
    assert(dir@ =~~= state_dir(opt_str(xdg_state)));
    Ok(dir)
}

/// The log of the latest transcription.
pub fn transcription_debug_log_path(xdg_state: Option<&str>, home_known: bool) -> (r: Result<
    Location,
    NoHomeDirectory,
>)
    ensures
        home_result(
            r,
            home_known || xdg_state is Some,
            below(state_dir(opt_str(xdg_state)), "transcription-latest.log"@),
        ),
{
    match ostt_state_dir(xdg_state, home_known) {
        Ok(mut dir) => {
            dir.join("transcription-latest.log");
            Ok(dir)
        },
        Err(e) => Err(e),
    }
}

/// The file with the keywords that help the transcription.
pub fn keywords_file(home_known: bool) -> (r: Result<Location, NoHomeDirectory>)
    ensures
        home_result(r, home_known, under_home(seq![".config"@, "ostt"@, "keywords.txt"@])),
{
    if !home_known {
        return Err(NoHomeDirectory);
    }
    let mut file = start(Base::Home);
    file.join(".config");
    file.join("ostt");
    file.join("keywords.txt");
    assert(file@ =~~= under_home(seq![".config"@, "ostt"@, "keywords.txt"@]));
    Ok(file)
}

/// The configuration file.
pub fn get_config_path(home_known: bool) -> (r: Result<Location, NoHomeDirectory>)
    ensures
        home_result(r, home_known, under_home(seq![".config"@, "ostt"@, "ostt.toml"@])),
{
    if !home_known {
        return Err(NoHomeDirectory);
    }
    let mut file = start(Base::Home);
    file.join(".config");
    file.join("ostt");
    file.join("ostt.toml");
    assert(file@ =~~= under_home(seq![".config"@, "ostt"@, "ostt.toml"@]));
    Ok(file)
}

/// The directory of the latest recordings.
pub fn recordings_cache_dir(home_known: bool) -> (r: Result<Location, NoHomeDirectory>)
    ensures
        home_result(r, home_known, below(below(data_dir(), "cache"@), "recordings"@)),
{
    match ostt_data_dir(home_known) {
        Ok(mut dir) => {
            dir.join("cache");
            dir.join("recordings");
            Ok(dir)
        },
        Err(e) => Err(e),
    }
}

/// Whether a setting is present and not blank.
pub open spec fn is_set(value: Option<Seq<char>>) -> bool {
    value matches Some(v) && trim(v).len() > 0
}

/// Whether a setting is present and not blank.
fn set(value: Option<&str>) -> (r: bool)
    ensures
        r == is_set(opt_str(value)),
{
    match value {
        Some(v) => {
            let t = trimmed(v);
            !t.as_str().is_empty()
        },
        None => false,
    }
}

/// The socket for remote control: the one that the environment names, or one
/// in the session's runtime directory, or one among the temporary files.
pub open spec fn socket_location(
    env_socket: Option<Seq<char>>,
    runtime_dir: Option<Seq<char>>,
) -> LocationModel {
    if is_set(env_socket) {
        LocationModel { base: BaseModel::Given(env_socket->0), components: Seq::empty() }
    } else if is_set(runtime_dir) {
        LocationModel { base: BaseModel::Given(runtime_dir->0), components: seq!["ostt.sock"@] }
    } else {
        LocationModel { base: BaseModel::Temp, components: seq!["ostt.sock"@] }
    }
}

/// The socket for remote control.
pub fn socket_path(env_socket: Option<&str>, runtime_dir: Option<&str>) -> (r: Location)
    ensures
        r@ == socket_location(opt_str(env_socket), opt_str(runtime_dir)),
{
    if set(env_socket) {
        if let Some(path) = env_socket {
            return start(Base::Given(path.to_string()));
        }
    }
    let mut socket = start(Base::Temp);
    if set(runtime_dir) {
        if let Some(dir) = runtime_dir {
            socket = start(Base::Given(dir.to_string()));
        }
    }
    socket.join("ostt.sock");
    assert(socket@ =~~= socket_location(opt_str(env_socket), opt_str(runtime_dir)));
    socket
}

/// The temporary WAV file of a process.
pub fn create_temp_wav_path(pid: u32) -> (r: Location)
    ensures
        r@ == (LocationModel {
            base: BaseModel::Temp,
            components: seq!["ostt_"@ + decimal(pid as nat) + ".wav"@],
        }),
{
    let mut name = "ostt_".to_string();
    let id = decimal_text(pid as u128);
    name.append(id.as_str());
    name.append(".wav");
    let mut file = start(Base::Temp);
    file.join(name.as_str());
    assert(file@.components =~= seq!["ostt_"@ + decimal(pid as nat) + ".wav"@]);
    file
}

/// The socket is where the environment says, to the letter; otherwise it is in
/// the runtime directory, and otherwise among the temporary files. A blank value
/// counts as none.
pub proof fn law_socket_location(
    env_socket: Option<Seq<char>>,
    runtime_dir: Option<Seq<char>>,
    other: Option<Seq<char>>,
    k: int,
)
    ensures
        env_socket matches Some(path) ==> (0 <= k < path.len() && !is_whitespace(path[k])
            ==> socket_location(env_socket, runtime_dir).base == BaseModel::Given(path)
            && socket_location(env_socket, runtime_dir).components.len() == 0),
        !is_set(env_socket) ==> socket_location(env_socket, runtime_dir) == socket_location(
            None,
            runtime_dir,
        ),
        runtime_dir matches Some(dir) ==> (0 <= k < dir.len() && !is_whitespace(dir[k])
            ==> socket_location(None, runtime_dir).base == BaseModel::Given(dir)),
        !is_set(runtime_dir) ==> socket_location(None, runtime_dir) == socket_location(None, None),
        socket_location(None, None).base == BaseModel::Temp,
        socket_location(None, runtime_dir).components.len() == 1,
        socket_location(None, runtime_dir).components == socket_location(None, other).components,
{
    if let Some(path) = env_socket {
        lemma_not_blank(path, k);
    }
    if let Some(dir) = runtime_dir {
        lemma_not_blank(dir, k);
    }
}

proof fn lemma_not_blank(s: Seq<char>, k: int)
    ensures
        0 <= k < s.len() && !is_whitespace(s[k]) ==> trim(s).len() > 0,
{
    law_trim(s);
    let (i, j) = choose|i: int, j: int|
        #![trigger s.subrange(i, j)]
        {
            &&& 0 <= i <= j <= s.len()
            &&& trim(s) == s.subrange(i, j)
            &&& forall|k: int| 0 <= k < i ==> is_whitespace(#[trigger] s[k])
            &&& forall|k: int| j <= k < s.len() ==> is_whitespace(#[trigger] s[k])
            &&& i < j ==> !is_whitespace(s[i]) && !is_whitespace(s[j - 1])
        };
}

/// The state is in a directory of its own: below the one that the environment
/// gives, whichever that is, or else below the home directory. What is put into
/// a directory lies in it under its name.
pub proof fn law_state_dir(dir: Seq<char>, place: LocationModel, name: Seq<char>)
    ensures
        state_dir(Some(dir)).base == BaseModel::Given(dir),
        state_dir(None).base == BaseModel::Home,
        state_dir(Some(dir)).components.last() == state_dir(None).components.last(),
        state_dir(Some(dir)).components.len() == 1,
        below(place, name).base == place.base,
        below(place, name).components.last() == name,
        below(place, name).components.drop_last() == place.components,
{
    assert(below(place, name).components.drop_last() =~= place.components);
}

} // verus!
