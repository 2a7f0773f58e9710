use herdr_profiles::herdr::{
    attached_session_of, failure_message, is_default_session, is_herdr_variable,
    parse_attached_sessions, Counts, Herdr, Session,
};
use herdr_profiles::settings::{ProfileName, ProfileRef};

#[test]
fn detects_attached_clients_from_process_listing() {
    let listing = "\
?        /home/alice/.local/bin/herdr server
pts/24   /home/alice/.local/bin/herdr --session personal
pts/3    herdr
pts/5    /usr/bin/herdr session attach study
pts/6    herdr --session=work
pts/7    /usr/bin/herdr plugin list
ttys001  /usr/local/bin/herdr --session mac
";
    let attached = parse_attached_sessions(listing);
    let mut names: Vec<&str> = attached.iter().map(String::as_str).collect();
    names.sort_unstable();
    assert_eq!(names, ["default", "mac", "personal", "study", "work"]);
}

#[test]
fn session_dirs_follow_herdr_layout() {
    let herdr = Herdr::from_env(Some("herdr".to_owned()), "/cfg");
    assert_eq!(herdr.session_dir(&ProfileRef::Default), "/cfg/herdr");
    let work = ProfileRef::parse("work").unwrap();
    assert_eq!(herdr.session_dir(&work), "/cfg/herdr/sessions/work");
    assert_eq!(herdr.config_path(), "/cfg/herdr/config.toml");
}

#[test]
fn attached_listing_reports_each_session_once() {
    let listing = "pts/1 herdr --session work\npts/2 herdr --session work\npts/3 herdr\n";
    let attached = parse_attached_sessions(listing);
    assert_eq!(attached.len(), 2);
    assert!(attached.contains(&"work".to_owned()));
    assert!(attached.contains(&"default".to_owned()));
}

#[test]
fn attached_session_rejects_servers_and_other_programs() {
    assert_eq!(attached_session_of("?  herdr --session x"), None);
    assert_eq!(attached_session_of("-  herdr"), None);
    assert_eq!(attached_session_of("pts/1 herdr-profiles --session x"), None);
    assert_eq!(attached_session_of("pts/1 /bin/herdr --session"), None);
    assert_eq!(attached_session_of("pts/1"), None);
    assert_eq!(attached_session_of("pts/1 /bin/herdr --session=a"), Some("a".to_owned()));
}

#[test]
fn remote_profiles_keep_their_session_under_sessions() {
    let herdr = Herdr::from_env(None, "/home/a/.config");
    assert_eq!(herdr.bin(), "herdr");
    let remote = ProfileRef::Remote {
        name: ProfileName::parse("box").unwrap(),
        target: "workbox".to_owned(),
        session: None,
    };
    assert_eq!(herdr.session_dir(&remote), "/home/a/.config/herdr/sessions/box");
}

#[test]
fn commands_name_the_session() {
    let herdr = Herdr::from_env(Some("/opt/herdr".to_owned()), "/cfg");
    let name = ProfileName::parse("work").unwrap();
    let stop = herdr.stop_session(&name);
    assert_eq!(stop.program, "/opt/herdr");
    assert_eq!(stop.args, ["session", "stop", "work"]);
    assert_eq!(herdr.delete_session(&name).args, ["session", "delete", "work"]);
    assert_eq!(herdr.sessions().args, ["session", "list", "--json"]);
    assert_eq!(herdr.reload_config().args, ["server", "reload-config"]);
    assert_eq!(herdr.default_config().args, ["--default-config"]);
}

#[test]
fn failure_prefers_stderr_then_stdout() {
    assert_eq!(failure_message("  boom \n", "out", "fallback"), "boom");
    assert_eq!(failure_message(" \n", " out ", "fallback"), "out");
    assert_eq!(failure_message("", "", "fallback"), "fallback");
}

#[test]
fn current_session_is_named_or_default() {
    assert_eq!(Herdr::current_session(Some("work")), ProfileRef::parse("work").unwrap());
    assert_eq!(Herdr::current_session(Some("default")), ProfileRef::Default);
    assert_eq!(Herdr::current_session(Some("bad name")), ProfileRef::Default);
    assert_eq!(Herdr::current_session(None), ProfileRef::Default);
}

#[test]
fn herdr_variables_and_default_sessions() {
    assert!(is_herdr_variable("HERDR_SOCKET_PATH"));
    assert!(!is_herdr_variable("PATH"));
    let named_default = Session { name: "default".to_owned(), ..Session::default() };
    let flagged = Session { name: "main".to_owned(), default: true, ..Session::default() };
    let other = Session { name: "work".to_owned(), ..Session::default() };
    assert!(is_default_session(&named_default));
    assert!(is_default_session(&flagged));
    assert!(!is_default_session(&other));
}

#[test]
fn live_counts_count_blocked_agents() {
    let statuses = vec![
        Some("blocked".to_owned()),
        Some("working".to_owned()),
        None,
        Some("blocked".to_owned()),
    ];
    assert_eq!(Counts::from_listing(3, &statuses), Counts { spaces: 3, blocked: 2 });
}
