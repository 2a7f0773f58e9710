//! The command that opens a profile in a new terminal window.

use vstd::prelude::*;
use crate::herdr::{contains_string, herdr_variable, is_herdr_variable};
use crate::settings::{ref_name, session_args_of, ProfileRef};
use crate::text::{
    chars_of, join, join_exec, owned, replace_all, replace_exec, str_eq, str_views, string_of,
};

verus! {

/// The operating systems a window can be opened on.
#[derive(Clone, Copy, Debug, PartialEq, Eq, Structural)]
pub enum Platform {
    Linux,
    MacOs,
}

impl Platform {
    /// The platform of a target OS name (`std::env::consts::OS`).
    pub fn current(target_os: &str) -> (p: Platform)
        ensures
            p == if target_os@ == "macos"@ { Platform::MacOs } else { Platform::Linux },
    {
        if str_eq(target_os, "macos") {
            Platform::MacOs
        } else {
            Platform::Linux
        }
    }
}

/// Number of terminal emulators the launcher knows.
pub const TERMINAL_COUNT: usize = 10;

/// The binary of the `i`-th known terminal emulator, in order of preference.
pub open spec fn terminal_binary(i: int) -> Seq<char> {
    if i == 0 { "kitty"@ }
    else if i == 1 { "ghostty"@ }
    else if i == 2 { "wezterm"@ }
    else if i == 3 { "alacritty"@ }
    else if i == 4 { "foot"@ }
    else if i == 5 { "gnome-terminal"@ }
    else if i == 6 { "konsole"@ }
    else if i == 7 { "xfce4-terminal"@ }
    else if i == 8 { "x-terminal-emulator"@ }
    else { "xterm"@ }
}

/// The variable a terminal sets in the processes it runs, if it sets one.
pub open spec fn terminal_hint(i: int) -> Option<Seq<char>> {
    if i == 0 { Some("KITTY_WINDOW_ID"@) }
    else if i == 1 { Some("GHOSTTY_RESOURCES_DIR"@) }
    else if i == 2 { Some("WEZTERM_PANE"@) }
    else if i == 3 { Some("ALACRITTY_WINDOW"@) }
    else if i == 4 { Some("FOOT_PID"@) }
    else if i == 5 { Some("GNOME_TERMINAL_SCREEN"@) }
    else if i == 6 { Some("KONSOLE_VERSION"@) }
    else { None }
}

/// The command line that opens a window of the `i`-th terminal titled `t`;
/// the command to run follows it.
pub open spec fn terminal_argv(i: int, t: Seq<char>) -> Seq<Seq<char>> {
    if i == 0 { seq!["kitty"@, "--title"@, t] }
    else if i == 1 { seq!["ghostty"@, "--title="@ + t, "-e"@] }
    else if i == 2 { seq!["wezterm"@, "start"@, "--"@] }
    else if i == 3 { seq!["alacritty"@, "--title"@, t, "-e"@] }
    else if i == 4 { seq!["foot"@, "--title"@, t] }
    else if i == 5 { seq!["gnome-terminal"@, "--window"@, "--title"@, t, "--"@] }
    else if i == 6 { seq!["konsole"@, "-p"@, "tabtitle="@ + t, "-e"@] }
    else if i == 7 { seq!["xfce4-terminal"@, "--title"@, t, "-x"@] }
    else if i == 8 { seq!["x-terminal-emulator"@, "-e"@] }
    else { seq!["xterm"@, "-T"@, t, "-e"@] }
}

fn terminal_binary_exec(i: usize) -> (b: &'static str)
    requires
        i < TERMINAL_COUNT,
    ensures
        b@ == terminal_binary(i as int),
{
    if i == 0 { "kitty" }
    else if i == 1 { "ghostty" }
    else if i == 2 { "wezterm" }
    else if i == 3 { "alacritty" }
    else if i == 4 { "foot" }
    else if i == 5 { "gnome-terminal" }
    else if i == 6 { "konsole" }
    else if i == 7 { "xfce4-terminal" }
    else if i == 8 { "x-terminal-emulator" }
    else { "xterm" }
}

/// The binaries of the terminals the launcher knows, in order of preference.
pub fn terminal_binaries() -> (v: Vec<String>)
    ensures
        v@.len() == TERMINAL_COUNT,
        forall|i: int| 0 <= i < TERMINAL_COUNT ==> #[trigger] v@[i]@ == terminal_binary(i),
{
    let mut v: Vec<String> = Vec::new();
    let mut i: usize = 0;
    while i < TERMINAL_COUNT
        invariant
            i <= TERMINAL_COUNT,
            v@.len() == i,
            forall|j: int| 0 <= j < i ==> #[trigger] v@[j]@ == terminal_binary(j),
        decreases TERMINAL_COUNT - i,
    {
        v.push(owned(terminal_binary_exec(i)));
        i = i + 1;
    }
    v
}

fn terminal_hint_exec(i: usize) -> (h: Option<&'static str>)
    requires
        i < TERMINAL_COUNT,
    ensures
        match h {
            Some(s) => terminal_hint(i as int) == Some(s@),
            None => terminal_hint(i as int) is None,
        },
{
    if i == 0 { Some("KITTY_WINDOW_ID") }
    else if i == 1 { Some("GHOSTTY_RESOURCES_DIR") }
    else if i == 2 { Some("WEZTERM_PANE") }
    else if i == 3 { Some("ALACRITTY_WINDOW") }
    else if i == 4 { Some("FOOT_PID") }
    else if i == 5 { Some("GNOME_TERMINAL_SCREEN") }
    else if i == 6 { Some("KONSOLE_VERSION") }
    else { None }
}

fn concat(a: &str, b: &str) -> (r: String)
    ensures
        r@ == a@ + b@,
{
    let mut r = owned(a);
    r.append(b);
    r
}

fn terminal_argv_exec(i: usize, t: &str) -> (v: Vec<String>)
    requires
        i < TERMINAL_COUNT,
    ensures
        str_views(v@) == terminal_argv(i as int, t@),
{
    let v = if i == 0 {
        vec![owned("kitty"), owned("--title"), owned(t)]
    } else if i == 1 {
        vec![owned("ghostty"), concat("--title=", t), owned("-e")]
    } else if i == 2 {
        vec![owned("wezterm"), owned("start"), owned("--")]
    } else if i == 3 {
        vec![owned("alacritty"), owned("--title"), owned(t), owned("-e")]
    } else if i == 4 {
        vec![owned("foot"), owned("--title"), owned(t)]
    } else if i == 5 {
        vec![owned("gnome-terminal"), owned("--window"), owned("--title"), owned(t), owned("--")]
    } else if i == 6 {
        vec![owned("konsole"), owned("-p"), concat("tabtitle=", t), owned("-e")]
    } else if i == 7 {
        vec![owned("xfce4-terminal"), owned("--title"), owned(t), owned("-x")]
    } else if i == 8 {
        vec![owned("x-terminal-emulator"), owned("-e")]
    } else {
        vec![owned("xterm"), owned("-T"), owned(t), owned("-e")]
    };
    assert(str_views(v@) =~= terminal_argv(i as int, t@));
    v
}

/// The value of an environment variable: that of its first entry.
pub open spec fn env_get(env: Seq<(String, String)>, key: Seq<char>) -> Option<Seq<char>>
    decreases env.len(),
{
    if env.len() == 0 {
        None
    } else if env[0].0@ == key {
        Some(env[0].1@)
    } else {
        env_get(env.drop_first(), key)
    }
}

/// The value of an environment variable.
pub fn env_lookup<'a>(env: &'a Vec<(String, String)>, key: &str) -> (r: Option<&'a str>)
    ensures
        match r {
            Some(v) => env_get(env@, key@) == Some(v@),
            None => env_get(env@, key@) is None,
        },
{
    let mut i: usize = 0;
    assert(env@.skip(0) =~= env@);
    while i < env.len()
        invariant
            i <= env@.len(),
            env_get(env@, key@) == env_get(env@.skip(i as int), key@),
        decreases env@.len() - i,
    {
        assert(env@.skip(i as int).drop_first() =~= env@.skip(i + 1));
        assert(env@.skip(i as int)[0] == env@[i as int]);
        if str_eq(env[i].0.as_str(), key) {
            return Some(env[i].1.as_str());
        }
        i = i + 1;
    }
    None
}

/// The `i`-th terminal is the one that started Herdr: its variable is set,
/// not empty, and its binary is installed.
pub open spec fn hinted(env: Seq<(String, String)>, installed: Seq<Seq<char>>, i: int) -> bool {
    &&& terminal_hint(i) matches Some(h)
    &&& env_get(env, h) matches Some(v)
    &&& v.len() > 0
    &&& installed.contains(terminal_binary(i))
}

/// The first terminal at or after `k` that started Herdr.
pub open spec fn first_hinted(env: Seq<(String, String)>, installed: Seq<Seq<char>>, k: int) -> Option<int>
    decreases TERMINAL_COUNT - k,
{
    if k < 0 || k >= TERMINAL_COUNT {
        None
    } else if hinted(env, installed, k) {
        Some(k)
    } else {
        first_hinted(env, installed, k + 1)
    }
}

/// The first installed terminal at or after `k`.
pub open spec fn first_installed(installed: Seq<Seq<char>>, k: int) -> Option<int>
    decreases TERMINAL_COUNT - k,
{
    if k < 0 || k >= TERMINAL_COUNT {
        None
    } else if installed.contains(terminal_binary(k)) {
        Some(k)
    } else {
        first_installed(installed, k + 1)
    }
}

/// The terminal to open: the one that started Herdr, else the first installed one.
pub open spec fn chosen_terminal(env: Seq<(String, String)>, installed: Seq<Seq<char>>) -> Option<int> {
    match first_hinted(env, installed, 0) {
        Some(i) => Some(i),
        None => first_installed(installed, 0),
    }
}

/// The app that opens windows on macOS.
pub open spec fn macos_app_of(env: Seq<(String, String)>) -> Seq<char> {
    if env_get(env, "TERM_PROGRAM"@) == Some("iTerm.app"@) {
        "iTerm"@
    } else {
        "Terminal"@
    }
}

/// The `osascript` command that runs `command` in a new window of `app`.
pub open spec fn macos_argv_of(command: Seq<Seq<char>>, app: Seq<char>) -> Seq<Seq<char>> {
    let script = replace_all(join(command, " "@), "\""@, "\\\""@);
    seq![
        "osascript"@,
        "-e"@,
        "tell application \""@ + app + "\" to do script \""@ + script + "\""@,
        "-e"@,
        "tell application \""@ + app + "\" to activate"@,
    ]
}

/// Builds the command that opens a profile in a new terminal window.
#[derive(Debug)]
pub struct Launcher {
    pub herdr_bin: String,
    pub terminal_override: Option<Vec<String>>,
    pub env: Vec<(String, String)>,
    pub platform: Platform,
    /// The binaries among `terminal_binaries()` that are installed.
    pub installed: Vec<String>,
    pub exec_prefix: Vec<String>,
}

/// The window title of a profile.
pub open spec fn title_of(target: ProfileRef) -> Seq<char> {
    "herdr · "@ + ref_name(target)
}

/// The command that opens `target` in a new window, if a terminal is known:
/// a configured terminal command (with `{title}` replaced) or, by platform,
/// `osascript` on macOS and the detected terminal on Linux, followed by the
/// Herdr command (behind `exec_prefix`).
pub open spec fn argv_with(
    exec_prefix: Seq<Seq<char>>,
    herdr_bin: Seq<char>,
    terminal_override: Option<Seq<Seq<char>>>,
    env: Seq<(String, String)>,
    platform: Platform,
    installed: Seq<Seq<char>>,
    target: ProfileRef,
) -> Option<Seq<Seq<char>>> {
    let title = title_of(target);
    let herdr = exec_prefix + seq![herdr_bin] + session_args_of(target);
    match terminal_override {
        Some(prefix) if prefix.len() > 0 => Some(
            prefix.map_values(|part: Seq<char>| replace_all(part, "{title}"@, title)) + herdr,
        ),
        _ => match platform {
            Platform::MacOs => Some(macos_argv_of(herdr, macos_app_of(env))),
            Platform::Linux => match chosen_terminal(env, installed) {
                Some(i) => Some(terminal_argv(i, title) + herdr),
                None => None,
            },
        },
    }
}

/// The view of an optional list of strings.
pub open spec fn opt_views(o: Option<Vec<String>>) -> Option<Seq<Seq<char>>> {
    match o {
        Some(v) => Some(str_views(v@)),
        None => None,
    }
}

/// The command that opens `target` with this launcher, if a terminal is known.
pub open spec fn argv_of(l: Launcher, target: ProfileRef) -> Option<Seq<Seq<char>>> {
    argv_with(
        str_views(l.exec_prefix@),
        l.herdr_bin@,
        opt_views(l.terminal_override),
        l.env@,
        l.platform,
        str_views(l.installed@),
        target,
    )
}

fn append_all(v: &mut Vec<String>, more: Vec<String>)
    ensures
        str_views(final(v)@) == str_views(old(v)@) + str_views(more@),
{
    let mut more = more;
    let ghost m = str_views(more@);
    let ghost start = str_views(v@);
    let mut i: usize = 0;
    let n = more.len();
    while i < n
        invariant
            n == more@.len(),
            i <= n,
            str_views(more@) == m,
            str_views(v@) == start + m.take(i as int),
        decreases n - i,
    {
        let s = more[i].clone();
        let ghost before = str_views(v@);
        v.push(s);
        assert(str_views(v@) =~= before.push(more@[i as int]@));
        assert(m[i as int] == more@[i as int]@);
        assert(m.take(i + 1) =~= m.take(i as int).push(m[i as int]));
        assert(str_views(v@) =~= start + m.take(i + 1));
        i = i + 1;
    }
    assert(m.take(n as int) =~= m);
}

impl Launcher {
    pub fn new(
        herdr_bin: &str,
        terminal_override: Option<Vec<String>>,
        env: Vec<(String, String)>,
        platform: Platform,
        installed: Vec<String>,
    ) -> (l: Launcher)
        ensures
            l.herdr_bin@ == herdr_bin@,
            l.terminal_override == terminal_override,
            l.env == env,
            l.platform == platform,
            l.installed == installed,
            l.exec_prefix@.len() == 0,
    {
        Launcher {
            herdr_bin: owned(herdr_bin),
            terminal_override,
            env,
            platform,
            installed,
            exec_prefix: Vec::new(),
        }
    }

    /// Runs Herdr through `<exe> exec <profile> --`, which sets the profile's
    /// environment inside the new window.
    pub fn through_exec(self, exe: &str, target: &ProfileRef) -> (l: Launcher)
        ensures
            str_views(l.exec_prefix@) == seq![exe@, "exec"@, ref_name(*target), "--"@],
            l.herdr_bin == self.herdr_bin,
            l.terminal_override == self.terminal_override,
            l.env == self.env,
            l.platform == self.platform,
            l.installed == self.installed,
    {
        let mut l = self;
        let prefix = vec![owned(exe), owned("exec"), owned(target.name()), owned("--")];
        assert(str_views(prefix@) =~= seq![exe@, "exec"@, ref_name(*target), "--"@]);
        l.exec_prefix = prefix;
        l
    }

    fn macos_app(&self) -> (a: &'static str)
        ensures
            a@ == macos_app_of(self.env@),
    {
        match env_lookup(&self.env, "TERM_PROGRAM") {
            Some(v) => if str_eq(v, "iTerm.app") { "iTerm" } else { "Terminal" },
            None => "Terminal",
        }
    }

    fn detect_terminal(&self) -> (r: Option<usize>)
        ensures
            match r {
                Some(i) => chosen_terminal(self.env@, str_views(self.installed@)) == Some(i as int) && i < TERMINAL_COUNT,
                None => chosen_terminal(self.env@, str_views(self.installed@)) is None,
            },
    {
        let ghost inst = str_views(self.installed@);
        let mut i: usize = 0;
        while i < TERMINAL_COUNT
            invariant
                inst == str_views(self.installed@),
                i <= TERMINAL_COUNT,
                first_hinted(self.env@, inst, 0) == first_hinted(self.env@, inst, i as int),
            decreases TERMINAL_COUNT - i,
        {
            if let Some(h) = terminal_hint_exec(i) {
                if let Some(v) = env_lookup(&self.env, h) {
                    if chars_of(v).len() > 0 && contains_string(&self.installed, terminal_binary_exec(i)) {
                        return Some(i);
                    }
                }
            }
            i = i + 1;
        }
        let mut i: usize = 0;
        while i < TERMINAL_COUNT
            invariant
                inst == str_views(self.installed@),
                first_hinted(self.env@, inst, 0) is None,
                i <= TERMINAL_COUNT,
                first_installed(inst, 0) == first_installed(inst, i as int),
            decreases TERMINAL_COUNT - i,
        {
            if contains_string(&self.installed, terminal_binary_exec(i)) {
                return Some(i);
            }
            i = i + 1;
        }
        None
    }

    /// The command line that opens `target` in a new window, or `None` when
    /// no terminal emulator is known.
    pub fn argv(&self, target: &ProfileRef) -> (r: Option<Vec<String>>)
        ensures
            match r {
                Some(v) => argv_of(*self, *target) == Some(str_views(v@)),
                None => argv_of(*self, *target) is None,
            },
    {
        let title = concat("herdr · ", target.name());
        let mut herdr: Vec<String> = Vec::new();
        append_all(&mut herdr, self.exec_prefix.clone());
        assert(str_views(self.exec_prefix@) =~= str_views(herdr@)) by {
            assert(str_views(Seq::<String>::empty()) =~= Seq::<Seq<char>>::empty());
        }
        herdr.push(self.herdr_bin.clone());
        let ghost h1 = str_views(herdr@);
        append_all(&mut herdr, target.session_args());
        assert(h1 =~= str_views(self.exec_prefix@) + seq![self.herdr_bin@]);
        if let Some(prefix) = &self.terminal_override {
            if prefix.len() > 0 {
                let pat = chars_of("{title}");
                let tc = chars_of(title.as_str());
                proof { reveal_strlit("{title}"); }
                let mut argv: Vec<String> = Vec::new();
                let mut i: usize = 0;
                while i < prefix.len()
                    invariant
                        pat@ == "{title}"@,
                        pat@.len() > 0,
                        tc@ == title@,
                        i <= prefix@.len(),
                        str_views(argv@) == str_views(prefix@).take(i as int).map_values(
                            |part: Seq<char>| replace_all(part, "{title}"@, title@),
                        ),
                    decreases prefix@.len() - i,
                {
                    let part = chars_of(prefix[i].as_str());
                    let replaced = replace_exec(part.as_slice(), pat.as_slice(), tc.as_slice());
                    let ghost before = str_views(argv@);
                    argv.push(string_of(replaced.as_slice()));
                    assert(str_views(argv@) =~= before.push(replace_all(prefix@[i as int]@, "{title}"@, title@)));
                    assert(str_views(prefix@).take(i + 1) =~= str_views(prefix@).take(i as int).push(prefix@[i as int]@));
                    assert(str_views(argv@) =~= str_views(prefix@).take(i + 1).map_values(
                        |part: Seq<char>| replace_all(part, "{title}"@, title@),
                    ));
                    i = i + 1;
                }
                assert(str_views(prefix@).take(prefix@.len() as int) =~= str_views(prefix@));
                let ghost a0 = str_views(argv@);
                append_all(&mut argv, herdr);
                return Some(argv);
            }
        }
        match self.platform {
            Platform::MacOs => Some(macos_argv(&herdr, self.macos_app())),
            Platform::Linux => match self.detect_terminal() {
                Some(i) => {
                    let mut argv = terminal_argv_exec(i, title.as_str());
                    append_all(&mut argv, herdr);
                    Some(argv)
                },
                None => None,
            },
        }
    }
}

/// The `osascript` command that runs `command` in a new window of `app`.
pub fn macos_argv(command: &Vec<String>, app: &str) -> (v: Vec<String>)
    ensures
        str_views(v@) == macos_argv_of(str_views(command@), app@),
{
    let joined = join_exec(command, " ");
    let jc = chars_of(joined.as_str());
    let q = chars_of("\"");
    let esc = chars_of("\\\"");
    proof { reveal_strlit("\""); }
    let script = string_of(replace_exec(jc.as_slice(), q.as_slice(), esc.as_slice()).as_slice());
    let mut first = concat("tell application \"", app);
    first.append("\" to do script \"");
    first.append(script.as_str());
    first.append("\"");
    let mut second = concat("tell application \"", app);
    second.append("\" to activate");
    let v = vec![owned("osascript"), owned("-e"), first, owned("-e"), second];
    assert(str_views(v@) =~= macos_argv_of(str_views(command@), app@));
    v
}

/// Variables that identify the terminal Herdr was started from. A new window
/// must not inherit them: gnome-terminal, for one, tries to attach to the
/// screen named in `GNOME_TERMINAL_SCREEN` and fails once that tab is gone.
pub open spec fn parent_terminal_vars() -> Seq<Seq<char>> {
    seq![
        "GNOME_TERMINAL_SCREEN"@, "GNOME_TERMINAL_SERVICE"@, "KITTY_WINDOW_ID"@, "KITTY_PID"@,
        "KITTY_LISTEN_ON"@, "KITTY_PUBLIC_KEY"@, "WEZTERM_PANE"@, "WEZTERM_UNIX_SOCKET"@,
        "WEZTERM_EXECUTABLE"@, "ALACRITTY_WINDOW"@, "ALACRITTY_SOCKET"@, "ALACRITTY_LOG"@,
        "FOOT_PID"@, "KONSOLE_VERSION"@, "KONSOLE_DBUS_SERVICE"@, "KONSOLE_DBUS_SESSION"@,
        "KONSOLE_DBUS_WINDOW"@, "VTE_VERSION"@, "TERM_SESSION_ID"@, "ITERM_SESSION_ID"@,
        "WINDOWID"@,
    ]
}

/// A variable the new window inherits: neither Herdr's nor the parent terminal's.
pub open spec fn window_variable(key: Seq<char>) -> bool {
    !herdr_variable(key) && !parent_terminal_vars().contains(key)
}

/// Whether a variable is passed on to a new profile window.
pub fn keeps_in_window_env(key: &str) -> (b: bool)
    ensures
        b == window_variable(key@),
{
    let vars = vec![
        owned("GNOME_TERMINAL_SCREEN"), owned("GNOME_TERMINAL_SERVICE"), owned("KITTY_WINDOW_ID"),
        owned("KITTY_PID"), owned("KITTY_LISTEN_ON"), owned("KITTY_PUBLIC_KEY"), owned("WEZTERM_PANE"),
        owned("WEZTERM_UNIX_SOCKET"), owned("WEZTERM_EXECUTABLE"), owned("ALACRITTY_WINDOW"),
        owned("ALACRITTY_SOCKET"), owned("ALACRITTY_LOG"), owned("FOOT_PID"), owned("KONSOLE_VERSION"),
        owned("KONSOLE_DBUS_SERVICE"), owned("KONSOLE_DBUS_SESSION"), owned("KONSOLE_DBUS_WINDOW"),
        owned("VTE_VERSION"), owned("TERM_SESSION_ID"), owned("ITERM_SESSION_ID"), owned("WINDOWID"),
    ];
    assert(str_views(vars@) =~= parent_terminal_vars());
    !is_herdr_variable(key) && !contains_string(&vars, key)
}

} // verus!
