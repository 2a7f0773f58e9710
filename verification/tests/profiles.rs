use herdr_profiles::herdr::{Herdr, Session};
use herdr_profiles::launcher::Platform;
use herdr_profiles::profiles::{ProfileRow, ProfileStore, StoreError};
use herdr_profiles::settings::{NameError, ProfileName, ProfileRef, Settings};

fn store() -> ProfileStore {
    let herdr = Herdr::from_env(Some("/opt/herdr".to_owned()), "/tmp/cfg");
    ProfileStore::load(herdr, "/tmp/cfg/profiles.json".to_owned(), Settings::default(), ProfileRef::Default)
}

/// Fills the counts the way the chooser does, with the saved space counts
/// given by name; no session is reachable over its socket.
fn counted(mut rows: Vec<ProfileRow>, saved: &[(&str, usize)]) -> Vec<ProfileRow> {
    for row in rows.iter_mut() {
        let n = saved.iter().find(|(name, _)| *name == row.name()).map_or(0, |(_, n)| *n);
        row.fill_counts(true, None, n);
    }
    rows
}

#[test]
fn rows_merge_saved_profiles_with_sessions() {
    let mut store = store();
    store.add("work", Some("Work".into()), None, None).unwrap();
    store.add("box", None, Some("workbox".into()), Some("agents".into())).unwrap();
    let sessions = vec![
        Session { name: "default".into(), default: true, running: true, ..Session::default() },
        Session { name: "study".into(), session_dir: Some("/tmp/x/study".into()), ..Session::default() },
    ];
    let attached = vec!["study".to_owned()];
    let rows = counted(store.rows_with(&sessions, &attached), &[("study", 2)]);
    let names: Vec<&str> = rows.iter().map(ProfileRow::name).collect();
    assert_eq!(names, ["default", "work", "box", "study"]);
    assert!(rows[0].protected && rows[0].running && rows[0].current);
    assert_eq!(
        (rows[0].state(), rows[1].state(), rows[2].state(), rows[3].state()),
        ("running", "stopped", "remote", "open")
    );
    assert_eq!((rows[1].label.as_str(), rows[1].protected), ("Work", false));
    assert_eq!(rows[2].remote.as_deref(), Some("workbox/agents"));
    assert_eq!((rows[3].spaces, rows[3].running), (2, false));
    let attached = vec!["workbox#agents".to_owned()];
    assert_eq!(store.rows_with(&sessions, &attached)[2].state(), "open");
}

#[test]
fn add_validates_and_rejects_duplicates() {
    let mut store = store();
    store.add("work", None, None, None).unwrap();
    assert!(store.add("work", None, None, None).is_err());
    assert!(store.add("bad name", None, None, None).is_err());
    assert!(store.add("default", None, None, None).is_err());
    assert_eq!(store.settings().profiles.len(), 1);
    assert_eq!(store.settings().profiles[0].label(), "work");
}

#[test]
fn remove_and_stop_rules() {
    let mut store = store();
    store.add("work", None, None, None).unwrap();
    store.add("box", None, Some("workbox".into()), None).unwrap();
    let work = ProfileRef::parse("work").unwrap();
    let remote = store.resolve("box").unwrap();
    assert_eq!(remote.session_args(), ["--remote", "workbox"]);
    assert!(store.stop(&remote).is_err());
    let removal = store.remove_with(&remote, &Vec::new()).unwrap();
    assert!(!removal.delete_session);
    store.forget(&removal.name);
    let running = vec![Session { name: "work".into(), running: true, ..Session::default() }];
    assert!(store.remove_with(&work, &running).is_err());
    assert!(store.remove_with(&ProfileRef::Default, &Vec::new()).is_err());
    assert!(store.stop(&ProfileRef::Default).is_err());
    let removal = store.remove_with(&work, &Vec::new()).unwrap();
    assert!(removal.delete_session);
    store.forget(&removal.name);
    assert!(store.settings().profiles.is_empty());
}

#[test]
fn store_errors_read_as_the_command_line_prints_them() {
    let mut store = store();
    store.add("work", None, None, None).unwrap();
    let dup = store.add("work", None, None, None).unwrap_err();
    assert_eq!(dup, StoreError::Exists("work".to_owned()));
    assert_eq!(dup.message(), "profile 'work' already exists");
    let bad = store.add("default", None, None, None).unwrap_err();
    assert_eq!(bad, StoreError::Name(NameError::Reserved));
    assert_eq!(bad.message(), "'default' is the launcher session, pick another name");
    assert_eq!(store.add("", None, None, None).unwrap_err().message(), "profile name cannot be empty");
    let running = vec![Session { name: "work".into(), running: true, ..Session::default() }];
    let work = ProfileRef::parse("work").unwrap();
    assert_eq!(
        store.remove_with(&work, &running).unwrap_err().message(),
        "profile 'work' is running; stop it first"
    );
    assert_eq!(
        store.remove_with(&ProfileRef::Default, &Vec::new()).unwrap_err().message(),
        "the default profile cannot be deleted"
    );
    assert_eq!(
        store.stop(&ProfileRef::Default).unwrap_err().message(),
        "the default profile is Herdr itself; use `herdr server stop`"
    );
    store.add("box", None, Some("workbox".into()), None).unwrap();
    let remote = store.resolve("box").unwrap();
    assert_eq!(store.stop(&remote).unwrap_err().message(), "'workbox' is a remote host; stop the session there");
    assert_eq!(store.stop(&work).unwrap(), ProfileName::parse("work").unwrap());
}

#[test]
fn add_keeps_only_meaningful_labels_and_remotes() {
    let mut store = store();
    store.add("a", Some("".into()), Some("".into()), Some("s".into())).unwrap();
    store.add("b", Some("b".into()), None, Some("s".into())).unwrap();
    store.add("c", Some("Cee".into()), Some("host".into()), Some("".into())).unwrap();
    let ps = &store.settings().profiles;
    assert_eq!((ps[0].label.as_deref(), ps[0].remote.as_deref(), ps[0].remote_session.as_deref()), (None, None, None));
    assert_eq!((ps[1].label.as_deref(), ps[1].remote_session.as_deref()), (None, None));
    assert_eq!((ps[2].label.as_deref(), ps[2].remote.as_deref(), ps[2].remote_session.as_deref()), (Some("Cee"), Some("host"), None));
}

#[test]
fn open_refuses_a_profile_open_elsewhere() {
    let mut store = store();
    store.add("work", None, None, None).unwrap();
    let work = ProfileRef::parse("work").unwrap();
    let attached = vec!["work".to_owned()];
    let err = store.open(&work, &attached, Vec::new(), Platform::Linux, vec!["xterm".to_owned()], "/opt/herdr-profiles").unwrap_err();
    assert_eq!(err.message(), "'work' is already open in another window");
    let attached = vec!["default".to_owned()];
    let err = store.open(&ProfileRef::Default, &attached, Vec::new(), Platform::Linux, vec!["xterm".to_owned()], "/opt/herdr-profiles").unwrap_err();
    assert_eq!(err.message(), "'default' is this window");
    let argv = store.open(&work, &attached, Vec::new(), Platform::Linux, vec!["xterm".to_owned()], "/opt/herdr-profiles").unwrap();
    assert_eq!(argv, ["xterm", "-T", "herdr · work", "-e", "/opt/herdr", "--session", "work"]);
    let err = store.open(&work, &attached, Vec::new(), Platform::Linux, Vec::new(), "/opt/herdr-profiles").unwrap_err();
    assert_eq!(err.message(), "no terminal emulator found; set \"terminal\" in /tmp/cfg/profiles.json");
}

#[test]
fn opening_remembers_the_profile_and_forgetting_clears_it() {
    let mut store = store();
    store.add("work", None, None, None).unwrap();
    let work = ProfileRef::parse("work").unwrap();
    store.mark_opened(&work);
    assert_eq!(store.settings().last.as_deref(), Some("work"));
    store.forget(&ProfileName::parse("work").unwrap());
    assert_eq!(store.settings().last, None);
    assert!(store.settings().profiles.is_empty());
}

#[test]
fn resolve_prefers_saved_profiles() {
    let mut store = store();
    store.add("box", Some("Box".into()), Some("host".into()), Some("s".into())).unwrap();
    assert_eq!(store.resolve("default").unwrap(), ProfileRef::Default);
    assert_eq!(store.resolve("plain").unwrap(), ProfileRef::parse("plain").unwrap());
    assert_eq!(store.resolve("box").unwrap().attach_key(), "host#s");
    assert!(store.resolve("a b").is_err());
}

#[test]
fn adopted_sessions_are_sorted_and_not_duplicated() {
    let mut store = store();
    store.add("mid", None, None, None).unwrap();
    let sessions = vec![
        Session { name: "zeta".into(), ..Session::default() },
        Session { name: "mid".into(), running: true, ..Session::default() },
        Session { name: "alpha".into(), ..Session::default() },
        Session { name: "bad name".into(), ..Session::default() },
        Session { name: "main".into(), default: true, ..Session::default() },
    ];
    let rows = store.rows_with(&sessions, &Vec::new());
    let names: Vec<&str> = rows.iter().map(ProfileRow::name).collect();
    assert_eq!(names, ["default", "mid", "alpha", "zeta"]);
    assert!(rows[1].running);
    assert_eq!(rows[1].session_dir, "/tmp/cfg/herdr/sessions/mid");
    assert_eq!(rows[1].socket_path, "/tmp/cfg/herdr/sessions/mid/herdr.sock");
    assert_eq!(rows[0].session_dir, "/tmp/cfg/herdr");
}

#[test]
fn profile_with_env_opens_through_exec() {
    let env = vec![("REGION".to_owned(), "us-east5".to_owned())];
    let stored = vec![
        ("vertex".to_owned(), None, None, None, env),
        ("plain".to_owned(), None, None, None, Vec::new()),
    ];
    let settings = Settings::from_stored(1, true, None, None, stored).unwrap();
    let herdr = Herdr::from_env(Some("/opt/herdr".to_owned()), "/tmp/cfg");
    let store = ProfileStore::load(herdr, "/tmp/cfg/profiles.json".to_owned(), settings, ProfileRef::Default);
    let vertex = ProfileRef::parse("vertex").unwrap();
    assert!(store.runs_through_exec(&vertex));
    let argv = store
        .open(&vertex, &Vec::new(), Vec::new(), Platform::Linux, vec!["xterm".to_owned()], "/opt/herdr-profiles")
        .unwrap();
    assert_eq!(
        argv,
        [
            "xterm", "-T", "herdr · vertex", "-e", "/opt/herdr-profiles", "exec", "vertex", "--",
            "/opt/herdr", "--session", "vertex"
        ]
    );
    let plain = ProfileRef::parse("plain").unwrap();
    assert!(!store.runs_through_exec(&plain));
    let argv = store
        .open(&plain, &Vec::new(), Vec::new(), Platform::Linux, vec!["xterm".to_owned()], "/opt/herdr-profiles")
        .unwrap();
    assert_eq!(argv, ["xterm", "-T", "herdr · plain", "-e", "/opt/herdr", "--session", "plain"]);
}

#[test]
fn forgetting_keeps_other_profiles_and_their_env() {
    let env = vec![("REGION".to_owned(), "us-east5".to_owned())];
    let stored = vec![
        ("a".to_owned(), None, None, None, Vec::new()),
        ("b".to_owned(), None, None, None, env),
    ];
    let settings = Settings::from_stored(1, true, None, None, stored).unwrap();
    let herdr = Herdr::from_env(None, "/tmp/cfg");
    let mut store = ProfileStore::load(herdr, "/p".to_owned(), settings, ProfileRef::Default);
    store.forget(&ProfileName::parse("a").unwrap());
    assert_eq!(store.settings().profiles.len(), 1);
    assert_eq!(store.settings().profiles[0].env, [("REGION".to_owned(), "us-east5".to_owned())]);
}
