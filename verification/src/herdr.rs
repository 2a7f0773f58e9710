//! The Herdr installation this plugin talks to, and what it reports.

use vstd::prelude::*;
use crate::settings::{default_session, ref_name, valid_name, ProfileName, ProfileRef};
use crate::text::{
    chars_of, ends_with, ends_with_exec, lines, lines_exec, owned, path_join, path_join_exec,
    same_chars, starts_with, starts_with_exec, str_views, string_of, trim, trim_chars, views,
    words, words_exec,
};

verus! {

/// The Herdr binary and its configuration directory.
#[derive(Debug)]
pub struct Herdr {
    bin: String,
    config_dir: String,
}

/// One entry of `herdr session list --json`.
#[derive(Debug, PartialEq, Eq)]
pub struct Session {
    pub name: String,
    pub default: bool,
    pub running: bool,
    pub session_dir: Option<String>,
    pub socket_path: Option<String>,
}

impl Default for Session {
    fn default() -> (s: Session)
        ensures
            s.name@ == Seq::<char>::empty(),
            !s.default,
            !s.running,
            s.session_dir is None,
            s.socket_path is None,
    {
        Session { name: String::new(), default: false, running: false, session_dir: None, socket_path: None }
    }
}

/// Spaces and blocked agents of a session.
#[derive(Clone, Copy, Debug, PartialEq, Eq, Structural)]
pub struct Counts {
    pub spaces: usize,
    pub blocked: usize,
}

/// A `herdr` invocation: its arguments, and the message for a failure that
/// printed nothing.
#[derive(Debug)]
pub struct HerdrCommand {
    pub program: String,
    pub args: Vec<String>,
    pub failure: String,
}

/// The directory that holds a profile's saved session.
pub open spec fn session_dir_of(config_dir: Seq<char>, profile: ProfileRef) -> Seq<char> {
    match profile {
        ProfileRef::Default => config_dir,
        _ => path_join(path_join(config_dir, "sessions"@), ref_name(profile)),
    }
}

impl Herdr {
    pub closed spec fn bin_view(&self) -> Seq<char> {
        self.bin@
    }

    pub closed spec fn config_dir_view(&self) -> Seq<char> {
        self.config_dir@
    }

    /// The installation named by `HERDR_BIN_PATH` (else `herdr` on the path),
    /// configured under `$XDG_CONFIG_HOME/herdr`.
    pub fn from_env(herdr_bin_path: Option<String>, xdg_config_home: &str) -> (h: Herdr)
        ensures
            h.bin_view() == match herdr_bin_path { Some(b) => b@, None => "herdr"@ },
            h.config_dir_view() == path_join(xdg_config_home@, "herdr"@),
    {
        let bin = match herdr_bin_path {
            Some(b) => b,
            None => owned("herdr"),
        };
        Herdr { bin, config_dir: path_join_exec(xdg_config_home, "herdr") }
    }

    pub fn bin(&self) -> (b: &str)
        ensures
            b@ == self.bin_view(),
    {
        self.bin.as_str()
    }

    pub fn config_path(&self) -> (p: String)
        ensures
            p@ == path_join(self.config_dir_view(), "config.toml"@),
    {
        path_join_exec(self.config_dir.as_str(), "config.toml")
    }

    /// Where Herdr keeps a profile's session: its own directory for the
    /// default session, `sessions/<name>` below it for every other.
    pub fn session_dir(&self, profile: &ProfileRef) -> (p: String)
        ensures
            p@ == session_dir_of(self.config_dir_view(), *profile),
    {
        match profile {
            ProfileRef::Default => self.config_dir.clone(),
            _ => {
                let sessions = path_join_exec(self.config_dir.as_str(), "sessions");
                path_join_exec(sessions.as_str(), profile.name())
            },
        }
    }

    /// The session this process runs inside, from `HERDR_SESSION`.
    pub fn current_session(herdr_session: Option<&str>) -> (r: ProfileRef)
        ensures
            match herdr_session {
                Some(s) if valid_name(s@) => r matches ProfileRef::Named(n) && n@ == s@,
                _ => r is Default,
            },
    {
        match herdr_session {
            Some(s) => match ProfileName::parse(s) {
                Ok(n) => ProfileRef::Named(n),
                Err(_) => ProfileRef::Default,
            },
            None => ProfileRef::Default,
        }
    }

    fn invocation(&self, args: Vec<String>, failure: &str) -> (c: HerdrCommand)
        ensures
            c.program@ == self.bin_view(),
            c.args == args,
            c.failure@ == failure@,
    {
        HerdrCommand { program: self.bin.clone(), args, failure: owned(failure) }
    }

    /// `herdr session list --json`.
    pub fn sessions(&self) -> (c: HerdrCommand)
        ensures
            c.program@ == self.bin_view(),
            str_views(c.args@) == seq!["session"@, "list"@, "--json"@],
    {
        let args = vec![owned("session"), owned("list"), owned("--json")];
        assert(str_views(args@) =~= seq!["session"@, "list"@, "--json"@]);
        self.invocation(args, "herdr session list failed")
    }

    /// `herdr session stop <name>`.
    pub fn stop_session(&self, name: &ProfileName) -> (c: HerdrCommand)
        ensures
            c.program@ == self.bin_view(),
            str_views(c.args@) == seq!["session"@, "stop"@, name@],
            c.failure@ == "herdr session stop failed"@,
    {
        let args = vec![owned("session"), owned("stop"), name.to_string()];
        assert(str_views(args@) =~= seq!["session"@, "stop"@, name@]);
        self.invocation(args, "herdr session stop failed")
    }

    /// `herdr session delete <name>`.
    pub fn delete_session(&self, name: &ProfileName) -> (c: HerdrCommand)
        ensures
            c.program@ == self.bin_view(),
            str_views(c.args@) == seq!["session"@, "delete"@, name@],
            c.failure@ == "herdr session delete failed"@,
    {
        let args = vec![owned("session"), owned("delete"), name.to_string()];
        assert(str_views(args@) =~= seq!["session"@, "delete"@, name@]);
        self.invocation(args, "herdr session delete failed")
    }

    /// `herdr server reload-config`.
    pub fn reload_config(&self) -> (c: HerdrCommand)
        ensures
            c.program@ == self.bin_view(),
            str_views(c.args@) == seq!["server"@, "reload-config"@],
    {
        let args = vec![owned("server"), owned("reload-config")];
        assert(str_views(args@) =~= seq!["server"@, "reload-config"@]);
        self.invocation(args, "herdr server reload-config failed")
    }

    /// `herdr --default-config`.
    pub fn default_config(&self) -> (c: HerdrCommand)
        ensures
            c.program@ == self.bin_view(),
            str_views(c.args@) == seq!["--default-config"@],
    {
        let args = vec![owned("--default-config")];
        assert(str_views(args@) =~= seq!["--default-config"@]);
        self.invocation(args, "herdr --default-config failed")
    }
}

/// The error of a failed `herdr` invocation: its trimmed stderr, else its
/// trimmed stdout, else the fallback.
pub open spec fn failure_text(stderr: Seq<char>, stdout: Seq<char>, fallback: Seq<char>) -> Seq<char> {
    if trim(stderr).len() > 0 {
        trim(stderr)
    } else if trim(stdout).len() > 0 {
        trim(stdout)
    } else {
        fallback
    }
}

/// The message reported for a failed `herdr` invocation.
pub fn failure_message(stderr: &str, stdout: &str, fallback: &str) -> (m: String)
    ensures
        m@ == failure_text(stderr@, stdout@, fallback@),
{
    let e = chars_of(stderr);
    let e = trim_chars(e.as_slice());
    if e.len() > 0 {
        return string_of(e.as_slice());
    }
    let o = chars_of(stdout);
    let o = trim_chars(o.as_slice());
    if o.len() > 0 {
        return string_of(o.as_slice());
    }
    owned(fallback)
}

/// Environment variables that make a process think it runs inside Herdr.
pub open spec fn herdr_variable(key: Seq<char>) -> bool {
    starts_with(key, "HERDR_"@)
}

/// Whether a variable is dropped from the environment of processes that must
/// not think they run inside Herdr.
pub fn is_herdr_variable(key: &str) -> (b: bool)
    ensures
        b == herdr_variable(key@),
{
    let k = chars_of(key);
    let p = chars_of("HERDR_");
    starts_with_exec(k.as_slice(), p.as_slice())
}

/// The session an attached client shows, from one line of `ps -eo tty=,args=`.
pub open spec fn attached_session(line: Seq<char>) -> Option<Seq<char>> {
    let f = words(line);
    if f.len() < 2 {
        None
    } else if f[0] == "?"@ || f[0] == "??"@ || f[0] == "-"@ {
        None
    } else if f[1] != "herdr"@ && !ends_with(f[1], "/herdr"@) {
        None
    } else if f.len() == 2 {
        Some(default_session())
    } else if f.len() == 4 && f[2] == "--session"@ {
        Some(f[3])
    } else if f.len() == 5 && f[2] == "session"@ && f[3] == "attach"@ {
        Some(f[4])
    } else if f.len() == 3 && starts_with(f[2], "--session="@) {
        Some(f[2].skip(10))
    } else {
        None
    }
}

fn word_is(w: &Vec<char>, lit: &str) -> (b: bool)
    ensures
        b == (w@ == lit@),
{
    let l = chars_of(lit);
    same_chars(w.as_slice(), l.as_slice())
}

/// The session an attached client shows, from one line of the process list.
/// Clients are `herdr`, `herdr --session <name>` or `herdr session attach <name>`
/// processes that own a terminal; servers run without one.
pub fn attached_session_of(line: &str) -> (r: Option<String>)
    ensures
        opt_seq(r) == attached_session(line@),
{
    let cs = chars_of(line);
    let f = words_exec(cs.as_slice());
    proof {
        assert(views(f@).len() == f@.len());
        assert(forall|i: int| 0 <= i < f@.len() ==> views(f@)[i] == f@[i]@);
    }
    if f.len() < 2 {
        return None;
    }
    if word_is(&f[0], "?") || word_is(&f[0], "??") || word_is(&f[0], "-") {
        return None;
    }
    let suffix = chars_of("/herdr");
    if !word_is(&f[1], "herdr") && !ends_with_exec(f[1].as_slice(), suffix.as_slice()) {
        return None;
    }
    if f.len() == 2 {
        return Some(owned("default"));
    }
    if f.len() == 4 && word_is(&f[2], "--session") {
        return Some(string_of(f[3].as_slice()));
    }
    if f.len() == 5 && word_is(&f[2], "session") && word_is(&f[3], "attach") {
        return Some(string_of(f[4].as_slice()));
    }
    let flag = chars_of("--session=");
    proof { reveal_strlit("--session="); }
    if f.len() == 3 && starts_with_exec(f[2].as_slice(), flag.as_slice()) {
        let w = &f[2];
        return Some(string_of(&w.as_slice()[10..w.len()]));
    }
    None
}

/// The view of an optional string.
pub open spec fn opt_seq(o: Option<String>) -> Option<Seq<char>> {
    match o {
        Some(s) => Some(s@),
        None => None,
    }
}

/// Whether `v` holds a string equal to `s`.
pub fn contains_string(v: &Vec<String>, s: &str) -> (b: bool)
    ensures
        b == str_views(v@).contains(s@),
{
    let mut i: usize = 0;
    while i < v.len()
        invariant
            i <= v@.len(),
            forall|j: int| 0 <= j < i ==> v@[j]@ != s@,
        decreases v@.len() - i,
    {
        if crate::text::str_eq(v[i].as_str(), s) {
            assert(str_views(v@)[i as int] == s@);
            return true;
        }
        i = i + 1;
    }
    assert forall|x: Seq<char>| str_views(v@).contains(x) implies x != s@ by {
        let j = choose|j: int| 0 <= j < str_views(v@).len() && str_views(v@)[j] == x;
    }
    false
}

/// Sessions with a Herdr client attached, from the listing of `ps -eo tty=,args=`:
/// each at most once, in the order of their first line.
pub fn parse_attached_sessions(listing: &str) -> (r: Vec<String>)
    ensures
        forall|x: Seq<char>| str_views(r@).contains(x) <==> exists|i: int|
            0 <= i < lines(listing@).len() && attached_session(#[trigger] lines(listing@)[i]) == Some(x),
        str_views(r@).no_duplicates(),
{
    let cs = chars_of(listing);
    let ls = lines_exec(cs.as_slice());
    let ghost lv = lines(listing@);
    let mut r: Vec<String> = Vec::new();
    let mut i: usize = 0;
    while i < ls.len()
        invariant
            views(ls@) == lv,
            i <= ls@.len(),
            str_views(r@).no_duplicates(),
            forall|x: Seq<char>| str_views(r@).contains(x) <==> exists|j: int|
                0 <= j < i && attached_session(#[trigger] lv[j]) == Some(x),
        decreases ls@.len() - i,
    {
        let line = string_of(ls[i].as_slice());
        assert(lv[i as int] == ls@[i as int]@);
        match attached_session_of(line.as_str()) {
            Some(name) => {
                if !contains_string(&r, name.as_str()) {
                    let ghost before = str_views(r@);
                    r.push(name);
                    assert(str_views(r@) =~= before.push(name@));
                    assert forall|x: Seq<char>| str_views(r@).contains(x) <==> exists|j: int|
                        0 <= j < i + 1 && attached_session(#[trigger] lv[j]) == Some(x) by {
                        if x == name@ {
                            assert(str_views(r@)[before.len() as int] == x);
                        }
                        if before.contains(x) {
                            let k = choose|k: int| 0 <= k < before.len() && before[k] == x;
                            assert(str_views(r@)[k] == x);
                        }
                        if str_views(r@).contains(x) && x != name@ {
                            let k = choose|k: int| 0 <= k < str_views(r@).len() && str_views(r@)[k] == x;
                            assert(before[k] == x);
                        }
                    }
                } else {
                    assert forall|x: Seq<char>| str_views(r@).contains(x) <==> exists|j: int|
                        0 <= j < i + 1 && attached_session(#[trigger] lv[j]) == Some(x) by {
                        if x == name@ {
                            assert(attached_session(lv[i as int]) == Some(x));
                        }
                    }
                }
            },
            None => {
                assert forall|x: Seq<char>| str_views(r@).contains(x) <==> exists|j: int|
                    0 <= j < i + 1 && attached_session(#[trigger] lv[j]) == Some(x) by {
                    if exists|j: int| 0 <= j < i + 1 && attached_session(#[trigger] lv[j]) == Some(x) {
                        let j = choose|j: int| 0 <= j < i + 1 && attached_session(#[trigger] lv[j]) == Some(x);
                        assert(j != i);
                    }
                }
            },
        }
        i = i + 1;
    }
    r
}

/// Herdr's own session, whatever it is called.
pub open spec fn default_session_entry(s: Session) -> bool {
    s.default || s.name@ == default_session()
}

pub fn is_default_session(session: &Session) -> (b: bool)
    ensures
        b == default_session_entry(*session),
{
    session.default || crate::text::str_eq(session.name.as_str(), "default")
}

/// Agents of a live session that wait for the user.
pub open spec fn blocked_count(statuses: Seq<Option<String>>) -> nat
    decreases statuses.len(),
{
    if statuses.len() == 0 {
        0
    } else {
        blocked_count(statuses.drop_last()) + match statuses.last() {
            Some(s) if s@ == "blocked"@ => 1nat,
            _ => 0nat,
        }
    }
}

impl Counts {
    /// The counts of a running session, from the length of its `workspace.list`
    /// and the `agent_status` of every agent of its `agent.list`.
    pub fn from_listing(spaces: usize, agent_statuses: &Vec<Option<String>>) -> (c: Counts)
        ensures
            c.spaces == spaces,
            c.blocked == blocked_count(agent_statuses@),
    {
        let mut blocked: usize = 0;
        let mut i: usize = 0;
        while i < agent_statuses.len()
            invariant
                i <= agent_statuses@.len(),
                blocked == blocked_count(agent_statuses@.take(i as int)),
                blocked <= i,
            decreases agent_statuses@.len() - i,
        {
            assert(agent_statuses@.take(i + 1).drop_last() =~= agent_statuses@.take(i as int));
            match &agent_statuses[i] {
                Some(s) => {
                    if crate::text::str_eq(s.as_str(), "blocked") {
                        blocked = blocked + 1;
                    }
                },
                None => {},
            }
            i = i + 1;
        }
        assert(agent_statuses@.take(agent_statuses@.len() as int) =~= agent_statuses@);
        Counts { spaces, blocked }
    }
}

} // verus!
