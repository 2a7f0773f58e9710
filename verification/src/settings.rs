//! Saved profiles and the names that identify them.

use vstd::prelude::*;
use crate::text::{chars_of, owned, str_eq};

verus! {

/// Longest profile name Herdr accepts, in characters.
pub const MAX_NAME_LEN: usize = 64;

/// The name of Herdr's own session.
pub open spec fn default_session() -> Seq<char> {
    "default"@
}

/// A character allowed in a profile name.
pub open spec fn name_char(c: char) -> bool {
    ('a' <= c && c <= 'z') || ('A' <= c && c <= 'Z') || ('0' <= c && c <= '9') || c == '.'
        || c == '_' || c == '-'
}

/// Why a string is not a profile name.
#[derive(Clone, Copy, Debug, PartialEq, Eq, Structural)]
pub enum NameError {
    Empty,
    Dots,
    Reserved,
    BadCharacters,
}

/// The first rule of Herdr's session names that `s` breaks, if any.
pub open spec fn name_error(s: Seq<char>) -> Option<NameError> {
    if s.len() == 0 {
        Some(NameError::Empty)
    } else if s == "."@ || s == ".."@ {
        Some(NameError::Dots)
    } else if s == default_session() {
        Some(NameError::Reserved)
    } else if s.len() > MAX_NAME_LEN || !(forall|i: int| 0 <= i < s.len() ==> name_char(#[trigger] s[i])) {
        Some(NameError::BadCharacters)
    } else {
        None
    }
}

/// A string that is a valid profile name.
pub open spec fn valid_name(s: Seq<char>) -> bool {
    name_error(s) is None
}

impl NameError {
    /// The message shown to the user.
    pub fn message(&self) -> (m: String)
        ensures
            m@ == match self {
                NameError::Empty => "profile name cannot be empty"@,
                NameError::Dots => "profile name cannot be . or .."@,
                NameError::Reserved => "'default' is the launcher session, pick another name"@,
                NameError::BadCharacters => "use only ASCII letters, numbers, '.', '_' and '-' (max 64)"@,
            },
    {
        match self {
            NameError::Empty => owned("profile name cannot be empty"),
            NameError::Dots => owned("profile name cannot be . or .."),
            NameError::Reserved => owned("'default' is the launcher session, pick another name"),
            NameError::BadCharacters => owned("use only ASCII letters, numbers, '.', '_' and '-' (max 64)"),
        }
    }
}

/// A validated name for a named Herdr session. Follows Herdr's own rules.
#[derive(Debug, PartialEq, Eq, PartialOrd, Ord, Hash)]
pub struct ProfileName(String);

impl Clone for ProfileName {
    fn clone(&self) -> (r: ProfileName)
        ensures
            r == *self,
    {
        ProfileName(self.0.clone())
    }
}

impl View for ProfileName {
    type V = Seq<char>;

    closed spec fn view(&self) -> Seq<char> {
        self.0@
    }
}

/// Whether every character of `s` may appear in a name.
fn all_name_chars(s: &[char]) -> (r: bool)
    ensures
        r == (forall|i: int| 0 <= i < s@.len() ==> name_char(#[trigger] s@[i])),
{
    let mut i: usize = 0;
    while i < s.len()
        invariant
            i <= s@.len(),
            forall|j: int| 0 <= j < i ==> name_char(#[trigger] s@[j]),
        decreases s@.len() - i,
    {
        let c = s[i];
        if !(('a' <= c && c <= 'z') || ('A' <= c && c <= 'Z') || ('0' <= c && c <= '9') || c == '.'
            || c == '_' || c == '-') {
            return false;
        }
        i = i + 1;
    }
    true
}

impl ProfileName {
    pub fn as_str(&self) -> (s: &str)
        ensures
            s@ == self@,
    {
        self.0.as_str()
    }

    /// Checks `name` against Herdr's rules for session names.
    pub fn parse(name: &str) -> (r: Result<ProfileName, NameError>)
        ensures
            r matches Ok(n) ==> n@ == name@ && valid_name(name@),
            r matches Err(e) ==> name_error(name@) == Some(e),
            r is Ok <==> valid_name(name@),
    {
        let cs = chars_of(name);
        if cs.len() == 0 {
            return Err(NameError::Empty);
        }
        if str_eq(name, ".") || str_eq(name, "..") {
            return Err(NameError::Dots);
        }
        if str_eq(name, "default") {
            return Err(NameError::Reserved);
        }
        if cs.len() > MAX_NAME_LEN || !all_name_chars(cs.as_slice()) {
            return Err(NameError::BadCharacters);
        }
        Ok(ProfileName(name.to_owned()))
    }

    /// Whether two names are the same.
    pub fn same_as(&self, other: &ProfileName) -> (r: bool)
        ensures
            r == (self@ == other@),
    {
        self.0 == other.0
    }

    /// The name as an owned string.
    pub fn to_string(&self) -> (s: String)
        ensures
            s@ == self@,
    {
        self.0.clone()
    }
}

impl std::str::FromStr for ProfileName {
    type Err = NameError;

    fn from_str(name: &str) -> (r: Result<ProfileName, NameError>)
        ensures
            r matches Ok(n) ==> n@ == name@,
            r matches Err(e) ==> name_error(name@) == Some(e),
            r is Ok <==> valid_name(name@),
    {
        ProfileName::parse(name)
    }
}


/// A copy of an optional string.
pub fn clone_opt(o: &Option<String>) -> (r: Option<String>)
    ensures
        r == *o,
{
    match o {
        Some(s) => Some(s.clone()),
        None => None,
    }
}

/// The key under which an attached client of a remote session shows up.
pub open spec fn remote_key(target: Seq<char>, session: Option<Seq<char>>) -> Seq<char> {
    target + "#"@ + match session {
        Some(s) => s,
        None => default_session(),
    }
}

/// `target#session`, with Herdr's default session when none is named.
pub fn remote_attach_key(target: &str, session: Option<&str>) -> (r: String)
    ensures
        r@ == remote_key(target@, match session { Some(s) => Some(s@), None => None }),
{
    let mut r = owned(target);
    r.append("#");
    match session {
        Some(s) => r.append(s),
        None => r.append("default"),
    }
    r
}

/// Herdr's default session, a local named one, or a session on an SSH host.
#[derive(Debug, PartialEq, Eq, Hash)]
pub enum ProfileRef {
    Default,
    Named(ProfileName),
    Remote { name: ProfileName, target: String, session: Option<String> },
}

impl Clone for ProfileRef {
    fn clone(&self) -> (r: ProfileRef)
        ensures
            r == *self,
    {
        match self {
            ProfileRef::Default => ProfileRef::Default,
            ProfileRef::Named(n) => ProfileRef::Named(n.clone()),
            ProfileRef::Remote { name, target, session } => ProfileRef::Remote {
                name: name.clone(),
                target: target.clone(),
                session: clone_opt(session),
            },
        }
    }
}

/// The name of a profile: `default`, or its profile name.
pub open spec fn ref_name(r: ProfileRef) -> Seq<char> {
    match r {
        ProfileRef::Default => default_session(),
        ProfileRef::Named(n) => n@,
        ProfileRef::Remote { name, .. } => name@,
    }
}

/// The view of an optional string.
pub open spec fn opt_view(o: Option<String>) -> Option<Seq<char>> {
    match o {
        Some(s) => Some(s@),
        None => None,
    }
}

/// How an attached client of this profile shows up in the process list.
pub open spec fn attach_key_of(r: ProfileRef) -> Seq<char> {
    match r {
        ProfileRef::Remote { target, session, .. } => remote_key(target@, opt_view(session)),
        _ => ref_name(r),
    }
}

/// The `herdr` arguments that select this profile's session.
pub open spec fn session_args_of(r: ProfileRef) -> Seq<Seq<char>> {
    match r {
        ProfileRef::Default => seq![],
        ProfileRef::Named(n) => seq!["--session"@, n@],
        ProfileRef::Remote { target, session, .. } => match session {
            Some(s) => seq!["--remote"@, target@, "--session"@, s@],
            None => seq!["--remote"@, target@],
        },
    }
}

/// Whether two references denote the same profile.
pub open spec fn same_ref(a: ProfileRef, b: ProfileRef) -> bool {
    match (a, b) {
        (ProfileRef::Default, ProfileRef::Default) => true,
        (ProfileRef::Named(x), ProfileRef::Named(y)) => x@ == y@,
        (
            ProfileRef::Remote { name: n1, target: t1, session: s1 },
            ProfileRef::Remote { name: n2, target: t2, session: s2 },
        ) => n1@ == n2@ && t1@ == t2@ && opt_view(s1) == opt_view(s2),
        _ => false,
    }
}

/// Whether two optional strings hold the same characters.
pub fn same_opt(a: &Option<String>, b: &Option<String>) -> (r: bool)
    ensures
        r == (opt_view(*a) == opt_view(*b)),
{
    match (a, b) {
        (Some(x), Some(y)) => *x == *y,
        (None, None) => true,
        _ => false,
    }
}

impl ProfileRef {
    /// Parses a local profile name. Remote profiles need their settings, see
    /// `ProfileStore::resolve`.
    pub fn parse(name: &str) -> (r: Result<ProfileRef, NameError>)
        ensures
            name@ == default_session() ==> r == Ok::<ProfileRef, NameError>(ProfileRef::Default),
            name@ != default_session() ==> match r {
                Ok(ProfileRef::Named(n)) => n@ == name@ && valid_name(name@),
                Ok(_) => false,
                Err(e) => name_error(name@) == Some(e),
            },
            name@ != default_session() ==> (r is Ok <==> valid_name(name@)),
    {
        if str_eq(name, "default") {
            Ok(ProfileRef::Default)
        } else {
            match ProfileName::parse(name) {
                Ok(n) => Ok(ProfileRef::Named(n)),
                Err(e) => Err(e),
            }
        }
    }

    pub fn name(&self) -> (s: &str)
        ensures
            s@ == ref_name(*self),
    {
        match self {
            ProfileRef::Default => "default",
            ProfileRef::Named(n) => n.as_str(),
            ProfileRef::Remote { name, .. } => name.as_str(),
        }
    }

    pub fn is_default(&self) -> (b: bool)
        ensures
            b == (*self is Default),
    {
        match self {
            ProfileRef::Default => true,
            _ => false,
        }
    }

    /// What an attached `herdr` client for this profile looks like, see
    /// `herdr::attached_session_of`.
    pub fn attach_key(&self) -> (s: String)
        ensures
            s@ == attach_key_of(*self),
    {
        match self {
            ProfileRef::Remote { target, session, .. } => {
                let s = match session {
                    Some(x) => Some(x.as_str()),
                    None => None,
                };
                remote_attach_key(target.as_str(), s)
            },
            _ => owned(self.name()),
        }
    }

    pub fn session_args(&self) -> (args: Vec<String>)
        ensures
            crate::text::str_views(args@) == session_args_of(*self),
    {
        let mut args: Vec<String> = Vec::new();
        match self {
            ProfileRef::Default => {},
            ProfileRef::Named(n) => {
                args.push(owned("--session"));
                args.push(n.to_string());
            },
            ProfileRef::Remote { target, session, .. } => {
                args.push(owned("--remote"));
                args.push(target.clone());
                if let Some(s) = session {
                    args.push(owned("--session"));
                    args.push(s.clone());
                }
            },
        }
        assert(crate::text::str_views(args@) =~= session_args_of(*self));
        args
    }

    /// Whether two references denote the same profile.
    pub fn same_as(&self, other: &ProfileRef) -> (b: bool)
        ensures
            b == same_ref(*self, *other),
    {
        match (self, other) {
            (ProfileRef::Default, ProfileRef::Default) => true,
            (ProfileRef::Named(x), ProfileRef::Named(y)) => x.same_as(y),
            (
                ProfileRef::Remote { name: n1, target: t1, session: s1 },
                ProfileRef::Remote { name: n2, target: t2, session: s2 },
            ) => n1.same_as(n2) && *t1 == *t2 && same_opt(s1, s2),
            _ => false,
        }
    }
}

/// A saved profile.
#[derive(Debug, PartialEq, Eq)]
pub struct Profile {
    pub name: ProfileName,
    pub label: Option<String>,
    /// SSH target for `herdr --remote`; absent for local profiles.
    pub remote: Option<String>,
    /// Named session on the remote host; absent means its default session.
    pub remote_session: Option<String>,
    /// Variables set for everything that runs in the profile's window.
    pub env: Vec<(String, String)>,
}

/// Variables as names and values.
pub open spec fn env_view(env: Seq<(String, String)>) -> Seq<(Seq<char>, Seq<char>)> {
    env.map_values(|p: (String, String)| (p.0@, p.1@))
}

/// A copy of a list of variables.
pub fn clone_env(env: &Vec<(String, String)>) -> (r: Vec<(String, String)>)
    ensures
        env_view(r@) == env_view(env@),
{
    let mut r: Vec<(String, String)> = Vec::new();
    let mut i: usize = 0;
    while i < env.len()
        invariant
            i <= env@.len(),
            env_view(r@) == env_view(env@).take(i as int),
        decreases env@.len() - i,
    {
        let ghost before = env_view(r@);
        r.push((env[i].0.clone(), env[i].1.clone()));
        assert(env_view(r@) =~= before.push((env@[i as int].0@, env@[i as int].1@)));
        assert(env_view(env@).take(i + 1) =~= env_view(env@).take(i as int).push((env@[i as int].0@, env@[i as int].1@)));
        i = i + 1;
    }
    assert(env_view(env@).take(env@.len() as int) =~= env_view(env@));
    r
}

impl Clone for Profile {
    fn clone(&self) -> (r: Profile)
        ensures
            r.name == self.name,
            r.label == self.label,
            r.remote == self.remote,
            r.remote_session == self.remote_session,
            env_view(r.env@) == env_view(self.env@),
    {
        Profile {
            name: self.name.clone(),
            label: clone_opt(&self.label),
            remote: clone_opt(&self.remote),
            remote_session: clone_opt(&self.remote_session),
            env: clone_env(&self.env),
        }
    }
}

/// The label shown for a profile: its own, or its name.
pub open spec fn label_of(p: Profile) -> Seq<char> {
    match p.label {
        Some(l) => l@,
        None => p.name@,
    }
}

/// The reference a saved profile stands for.
pub open spec fn ref_of(p: Profile) -> ProfileRef {
    match p.remote {
        Some(target) => ProfileRef::Remote { name: p.name, target, session: p.remote_session },
        None => ProfileRef::Named(p.name),
    }
}

impl Profile {
    pub fn label(&self) -> (s: &str)
        ensures
            s@ == label_of(*self),
    {
        match &self.label {
            Some(l) => l.as_str(),
            None => self.name.as_str(),
        }
    }

    pub fn to_ref(&self) -> (r: ProfileRef)
        ensures
            r == ref_of(*self),
    {
        match &self.remote {
            Some(target) => ProfileRef::Remote {
                name: self.name.clone(),
                target: target.clone(),
                session: clone_opt(&self.remote_session),
            },
            None => ProfileRef::Named(self.name.clone()),
        }
    }

    /// A profile read from settings, if its name is valid.
    pub fn from_parts(
        name: &str,
        label: Option<String>,
        remote: Option<String>,
        remote_session: Option<String>,
        env: Vec<(String, String)>,
    ) -> (r: Result<Profile, NameError>)
        ensures
            r matches Ok(p) ==> p.name@ == name@ && p.label == label && p.remote == remote
                && p.remote_session == remote_session && p.env == env,
            r matches Err(e) ==> name_error(name@) == Some(e),
            r is Ok <==> valid_name(name@),
    {
        match ProfileName::parse(name) {
            Ok(n) => Ok(Profile { name: n, label, remote, remote_session, env }),
            Err(e) => Err(e),
        }
    }
}

/// Index of the first profile at or after `k` named `name`.
pub open spec fn profile_index_from(ps: Seq<Profile>, name: Seq<char>, k: int) -> Option<int>
    decreases ps.len() - k,
{
    if k < 0 || k >= ps.len() {
        None
    } else if ps[k].name@ == name {
        Some(k)
    } else {
        profile_index_from(ps, name, k + 1)
    }
}

/// Index of the first profile named `name`.
pub open spec fn profile_index(ps: Seq<Profile>, name: Seq<char>) -> Option<int> {
    profile_index_from(ps, name, 0)
}

pub proof fn lemma_profile_index_from(ps: Seq<Profile>, name: Seq<char>, k: int)
    requires
        0 <= k,
    ensures
        profile_index_from(ps, name, k) matches Some(i) ==> k <= i < ps.len() && ps[i].name@
            == name && forall|j: int| k <= j < i ==> ps[j].name@ != name,
        profile_index_from(ps, name, k) is None ==> forall|j: int|
            k <= j < ps.len() ==> ps[j].name@ != name,
    decreases ps.len() - k,
{
    if k < ps.len() && ps[k].name@ != name {
        lemma_profile_index_from(ps, name, k + 1);
    }
}

/// What profiles.json holds.
#[derive(Debug, PartialEq, Eq)]
pub struct Settings {
    pub version: u32,
    pub chooser_on_launch: bool,
    pub terminal: Option<Vec<String>>,
    pub last: Option<String>,
    pub profiles: Vec<Profile>,
}

impl Default for Settings {
    fn default() -> (s: Settings)
        ensures
            s.version == 1,
            s.chooser_on_launch,
            s.terminal is None,
            s.last is None,
            s.profiles@.len() == 0,
    {
        Settings {
            version: 1,
            chooser_on_launch: true,
            terminal: None,
            last: None,
            profiles: Vec::new(),
        }
    }
}

impl Settings {
    /// The saved profile with this name.
    pub fn profile(&self, name: &ProfileName) -> (r: Option<&Profile>)
        ensures
            match profile_index(self.profiles@, name@) {
                Some(i) => r == Some(&self.profiles@[i]),
                None => r is None,
            },
    {
        let mut i: usize = 0;
        while i < self.profiles.len()
            invariant
                i <= self.profiles@.len(),
                profile_index(self.profiles@, name@) == profile_index_from(self.profiles@, name@, i as int),
            decreases self.profiles@.len() - i,
        {
            if self.profiles[i].name.same_as(name) {
                return Some(&self.profiles[i]);
            }
            i = i + 1;
        }
        None
    }
}

/// Where profiles.json lives inside the plugin's configuration directory.
pub fn settings_path(plugin_config_dir: &str) -> (p: String)
    ensures
        p@ == crate::text::path_join(plugin_config_dir@, "profiles.json"@),
{
    crate::text::path_join_exec(plugin_config_dir, "profiles.json")
}

/// `$HOME`, or `/` when it is not set.
pub fn home_dir(home: Option<String>) -> (p: String)
    ensures
        p@ == match home { Some(h) => h@, None => "/"@ },
{
    match home {
        Some(h) => h,
        None => owned("/"),
    }
}

/// `$XDG_CONFIG_HOME`, or `~/.config`.
pub fn xdg_config_home(xdg: Option<String>, home: Option<String>) -> (p: String)
    ensures
        p@ == match xdg {
            Some(x) => x@,
            None => crate::text::path_join(match home { Some(h) => h@, None => "/"@ }, ".config"@),
        },
{
    match xdg {
        Some(x) => x,
        None => {
            let h = home_dir(home);
            crate::text::path_join_exec(h.as_str(), ".config")
        },
    }
}

/// Where profiles.json lives: the directory Herdr hands us, or a fallback
/// when the binary runs outside Herdr.
pub fn plugin_config_dir(plugin_dir: Option<String>, xdg: Option<String>, home: Option<String>) -> (p: String)
    ensures
        p@ == match plugin_dir {
            Some(d) => d@,
            None => crate::text::path_join(
                match xdg {
                    Some(x) => x@,
                    None => crate::text::path_join(match home { Some(h) => h@, None => "/"@ }, ".config"@),
                },
                "herdr-profiles"@,
            ),
        },
{
    match plugin_dir {
        Some(d) => d,
        None => {
            let x = xdg_config_home(xdg, home);
            crate::text::path_join_exec(x.as_str(), "herdr-profiles")
        },
    }
}

} // verus!

verus! {

/// A profile environment value with a leading `~` (alone, or before `/`)
/// replaced by the home directory.
pub open spec fn expanded(value: Seq<char>, home: Seq<char>) -> Seq<char> {
    if value == "~"@ || (value.len() >= 2 && value[0] == '~' && value[1] == '/') {
        home + value.skip(1)
    } else {
        value
    }
}

/// Expands a leading `~` in a profile environment value.
pub fn expand_home(value: &str, home: &str) -> (r: String)
    ensures
        r@ == expanded(value@, home@),
{
    let cs = chars_of(value);
    proof { reveal_strlit("~"); }
    if cs.len() == 1 && cs[0] == '~' || cs.len() >= 2 && cs[0] == '~' && cs[1] == '/' {
        assert(cs.len() == 1 ==> value@ =~= "~"@);
        let mut r = owned(home);
        let rest = crate::text::string_of(&cs.as_slice()[1..cs.len()]);
        r.append(rest.as_str());
        assert(r@ =~= expanded(value@, home@));
        r
    } else {
        assert(value@.len() == 1 && value@ == "~"@ ==> value@[0] == '~');
        owned(value)
    }
}

} // verus!

verus! {

/// A profile as profiles.json stores it: name, label, remote target, remote
/// session and environment.
pub type StoredProfile = (String, Option<String>, Option<String>, Option<String>, Vec<(String, String)>);

/// Every stored profile has a valid name.
pub open spec fn all_named(profiles: Seq<StoredProfile>) -> bool {
    forall|i: int| 0 <= i < profiles.len() ==> valid_name(#[trigger] profiles[i].0@)
}

/// The profile a stored one stands for, once its name is known to be valid.
pub open spec fn stored_matches(p: Profile, s: StoredProfile) -> bool {
    p.name@ == s.0@ && p.label == s.1 && p.remote == s.2 && p.remote_session == s.3 && p.env == s.4
}

impl Settings {
    /// The settings a profiles.json holds. A file with a profile whose name
    /// is not valid is not read at all, so the caller falls back to defaults.
    pub fn from_stored(
        version: u32,
        chooser_on_launch: bool,
        terminal: Option<Vec<String>>,
        last: Option<String>,
        profiles: Vec<StoredProfile>,
    ) -> (r: Option<Settings>)
        ensures
            r is Some <==> all_named(profiles@),
            r matches Some(s) ==> {
                &&& s.version == version
                &&& s.chooser_on_launch == chooser_on_launch
                &&& s.terminal == terminal
                &&& s.last == last
                &&& s.profiles@.len() == profiles@.len()
                &&& forall|i: int| 0 <= i < profiles@.len() ==> stored_matches(#[trigger] s.profiles@[i], profiles@[i])
            },
    {
        let mut out: Vec<Profile> = Vec::new();
        let ghost all = profiles@;
        let mut rest = profiles;
        let n = rest.len();
        let mut i: usize = 0;
        while i < n
            invariant
                n == all.len(),
                all == profiles@,
                i <= n,
                rest@ == all.skip(i as int),
                out@.len() == i,
                forall|j: int| 0 <= j < i ==> valid_name(#[trigger] all[j].0@),
                forall|j: int| 0 <= j < i ==> stored_matches(#[trigger] out@[j], all[j]),
            decreases n - i,
        {
            assert(rest@[0] == all[i as int]);
            let (name, label, remote, session, env) = rest.remove(0);
            assert(rest@ =~= all.skip(i + 1));
            match Profile::from_parts(name.as_str(), label, remote, session, env) {
                Ok(profile) => out.push(profile),
                Err(_) => {
                    assert(!valid_name(all[i as int].0@));
                    assert(!all_named(all));
                    return None;
                },
            }
            i = i + 1;
        }
        Some(Settings { version, chooser_on_launch, terminal, last, profiles: out })
    }
}

} // verus!

verus! {

/// The environment saved for the profile named `name`; none when no saved
/// profile has that name.
pub open spec fn saved_env(settings: Settings, name: Seq<char>) -> Seq<(String, String)> {
    match profile_index(settings.profiles@, name) {
        Some(i) => settings.profiles@[i].env@,
        None => seq![],
    }
}

/// Variables with a leading `~` in each value expanded to `home`.
pub open spec fn expanded_env(env: Seq<(String, String)>, home: Seq<char>) -> Seq<(Seq<char>, Seq<char>)> {
    env.map_values(|p: (String, String)| (p.0@, expanded(p.1@, home)))
}

impl Settings {
    /// Index of the first saved profile named `name`.
    fn position_of(&self, name: &str) -> (r: Option<usize>)
        ensures
            match r {
                Some(i) => profile_index(self.profiles@, name@) == Some(i as int) && i < self.profiles@.len(),
                None => profile_index(self.profiles@, name@) is None,
            },
    {
        let mut i: usize = 0;
        while i < self.profiles.len()
            invariant
                i <= self.profiles@.len(),
                profile_index(self.profiles@, name@) == profile_index_from(self.profiles@, name@, i as int),
            decreases self.profiles@.len() - i,
        {
            if str_eq(self.profiles[i].name.as_str(), name) {
                return Some(i);
            }
            i = i + 1;
        }
        None
    }

    /// The variables a profile's window gets: the environment saved for the
    /// profile named `name`, in order, each value with a leading `~`
    /// expanded to `home`.
    pub fn profile_env(&self, name: &str, home: &str) -> (r: Vec<(String, String)>)
        ensures
            env_view(r@) == expanded_env(saved_env(*self, name@), home@),
    {
        let found = self.position_of(name);
        let mut r: Vec<(String, String)> = Vec::new();
        match found {
            None => {
                assert(env_view(r@) =~= expanded_env(saved_env(*self, name@), home@));
                r
            },
            Some(k) => {
                let env = &self.profiles[k].env;
                assert(saved_env(*self, name@) == env@);
                let mut j: usize = 0;
                while j < env.len()
                    invariant
                        j <= env@.len(),
                        env_view(r@) == expanded_env(env@, home@).take(j as int),
                    decreases env@.len() - j,
                {
                    let ghost before = env_view(r@);
                    r.push((env[j].0.clone(), expand_home(env[j].1.as_str(), home)));
                    assert(env_view(r@) =~= before.push(expanded_env(env@, home@)[j as int]));
                    assert(expanded_env(env@, home@).take(j + 1) =~= expanded_env(env@, home@).take(j as int).push(expanded_env(env@, home@)[j as int]));
                    j = j + 1;
                }
                assert(expanded_env(env@, home@).take(env@.len() as int) =~= expanded_env(env@, home@));
                r
            },
        }
    }
}

} // verus!
