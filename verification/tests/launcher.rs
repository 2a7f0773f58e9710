use herdr_profiles::launcher::{keeps_in_window_env, macos_argv, terminal_binaries, Launcher, Platform};
use herdr_profiles::settings::ProfileRef;

fn env(pairs: &[(&str, &str)]) -> Vec<(String, String)> {
    pairs.iter().map(|(k, v)| ((*k).to_owned(), (*v).to_owned())).collect()
}

fn installed(names: &[&str]) -> Vec<String> {
    names.iter().map(|n| (*n).to_owned()).collect()
}

fn work() -> ProfileRef {
    ProfileRef::parse("work").unwrap()
}

#[test]
fn terminal_that_started_herdr_wins() {
    let launcher = Launcher::new(
        "/opt/herdr",
        None,
        env(&[("GNOME_TERMINAL_SCREEN", "/org/x")]),
        Platform::Linux,
        installed(&["kitty", "gnome-terminal"]),
    );
    assert_eq!(
        launcher.argv(&work()).unwrap(),
        ["gnome-terminal", "--window", "--title", "herdr · work", "--", "/opt/herdr", "--session", "work"]
    );
}

#[test]
fn falls_back_to_path_order() {
    let launcher = Launcher::new("/opt/herdr", None, env(&[]), Platform::Linux, installed(&["xterm", "alacritty"]));
    assert_eq!(launcher.argv(&work()).unwrap()[0], "alacritty");
    let launcher = Launcher::new("/opt/herdr", None, env(&[]), Platform::Linux, installed(&[]));
    assert!(launcher.argv(&work()).is_none());
}

#[test]
fn default_profile_runs_plain_herdr() {
    let launcher = Launcher::new("/opt/herdr", None, env(&[]), Platform::Linux, installed(&["xterm"]));
    assert_eq!(
        launcher.argv(&ProfileRef::Default).unwrap(),
        ["xterm", "-T", "herdr · default", "-e", "/opt/herdr"]
    );
}

#[test]
fn custom_terminal_and_macos() {
    let custom = vec!["footclient".to_owned(), "--title".to_owned(), "{title}".to_owned()];
    let launcher = Launcher::new(
        "/opt/herdr",
        Some(custom),
        env(&[("TERM_PROGRAM", "Apple_Terminal")]),
        Platform::Linux,
        installed(&[]),
    );
    assert_eq!(
        launcher.argv(&work()).unwrap(),
        ["footclient", "--title", "herdr · work", "/opt/herdr", "--session", "work"]
    );
    let launcher = Launcher::new(
        "/opt/herdr",
        None,
        env(&[("TERM_PROGRAM", "Apple_Terminal")]),
        Platform::MacOs,
        installed(&[]),
    );
    let argv = launcher.argv(&work()).unwrap();
    assert_eq!(argv[0], "osascript");
    assert_eq!(argv[2], "tell application \"Terminal\" to do script \"/opt/herdr --session work\"");
}

#[test]
fn profile_env_runs_through_exec() {
    let launcher = Launcher::new("/opt/herdr", None, env(&[]), Platform::Linux, installed(&["xterm"]))
        .through_exec("/opt/herdr-profiles", &work());
    assert_eq!(
        launcher.argv(&work()).unwrap(),
        [
            "xterm", "-T", "herdr · work", "-e", "/opt/herdr-profiles", "exec", "work", "--",
            "/opt/herdr", "--session", "work"
        ]
    );
}

#[test]
fn hinted_terminal_must_be_installed() {
    let launcher = Launcher::new(
        "/opt/herdr",
        None,
        env(&[("KITTY_WINDOW_ID", "3")]),
        Platform::Linux,
        installed(&["foot"]),
    );
    assert_eq!(launcher.argv(&work()).unwrap(), ["foot", "--title", "herdr · work", "/opt/herdr", "--session", "work"]);
    let launcher = Launcher::new(
        "/opt/herdr",
        None,
        env(&[("KITTY_WINDOW_ID", "")]),
        Platform::Linux,
        installed(&["kitty", "foot"]),
    );
    assert_eq!(launcher.argv(&work()).unwrap()[0], "kitty");
}

#[test]
fn empty_custom_terminal_is_ignored_and_iterm_is_recognised() {
    let launcher = Launcher::new(
        "/opt/herdr",
        Some(Vec::new()),
        env(&[("TERM_PROGRAM", "iTerm.app")]),
        Platform::MacOs,
        installed(&[]),
    );
    let argv = launcher.argv(&ProfileRef::Default).unwrap();
    assert_eq!(
        argv,
        [
            "osascript",
            "-e",
            "tell application \"iTerm\" to do script \"/opt/herdr\"",
            "-e",
            "tell application \"iTerm\" to activate"
        ]
    );
}

#[test]
fn macos_script_escapes_quotes() {
    let cmd = vec!["/opt/my \"herdr\"".to_owned(), "--session".to_owned(), "w".to_owned()];
    let argv = macos_argv(&cmd, "Terminal");
    assert_eq!(argv[2], "tell application \"Terminal\" to do script \"/opt/my \\\"herdr\\\" --session w\"");
}

#[test]
fn remote_profile_window() {
    let remote = ProfileRef::Remote {
        name: herdr_profiles::settings::ProfileName::parse("box").unwrap(),
        target: "workbox".to_owned(),
        session: Some("agents".to_owned()),
    };
    let launcher = Launcher::new("herdr", None, env(&[]), Platform::Linux, installed(&["wezterm"]));
    assert_eq!(
        launcher.argv(&remote).unwrap(),
        ["wezterm", "start", "--", "herdr", "--remote", "workbox", "--session", "agents"]
    );
}

#[test]
fn window_env_keeps_only_neutral_variables() {
    assert!(!keeps_in_window_env("GNOME_TERMINAL_SCREEN"));
    assert!(!keeps_in_window_env("HERDR_PROBE"));
    assert!(keeps_in_window_env("PATH"));
    assert_eq!(terminal_binaries().len(), 10);
    assert_eq!(Platform::current("macos"), Platform::MacOs);
    assert_eq!(Platform::current("linux"), Platform::Linux);
}
