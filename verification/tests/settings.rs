use herdr_profiles::settings::{
    expand_home, home_dir, plugin_config_dir, remote_attach_key, settings_path, xdg_config_home, NameError,
    Profile, ProfileName, ProfileRef, Settings,
};

#[test]
fn accepts_valid_names() {
    for name in ["work", "personal-dev", "study.2026", "a_b", &"x".repeat(64)] {
        assert!(name.parse::<ProfileName>().is_ok(), "{name}");
    }
}

#[test]
fn rejects_invalid_names() {
    for name in ["", ".", "..", "default", "has space", "ünïcode", &"x".repeat(65), "a/b"] {
        assert!(name.parse::<ProfileName>().is_err(), "{name}");
    }
}

#[test]
fn profile_ref_parses_default_and_named() {
    assert_eq!(ProfileRef::parse("default").unwrap(), ProfileRef::Default);
    assert_eq!(ProfileRef::parse("work").unwrap().name(), "work");
    assert!(ProfileRef::Default.session_args().is_empty());
    assert_eq!(ProfileRef::parse("work").unwrap().session_args(), ["--session", "work"]);
}

#[test]
fn remote_profile_args_and_attach_key() {
    let profile = Profile {
        name: "box".parse().unwrap(),
        label: None,
        remote: Some("workbox".into()),
        remote_session: Some("agents".into()),
        env: Vec::new(),
    };
    let remote = profile.to_ref();
    assert_eq!(remote.name(), "box");
    assert_eq!(remote.session_args(), ["--remote", "workbox", "--session", "agents"]);
    assert_eq!(remote.attach_key(), "workbox#agents");
    let plain = Profile { remote_session: None, ..profile }.to_ref();
    assert_eq!(plain.session_args(), ["--remote", "workbox"]);
    assert_eq!(plain.attach_key(), "workbox#default");
}

#[test]
fn name_errors_say_which_rule_broke() {
    assert_eq!(ProfileName::parse(""), Err(NameError::Empty));
    assert_eq!(ProfileName::parse(".."), Err(NameError::Dots));
    assert_eq!(ProfileName::parse("default"), Err(NameError::Reserved));
    assert_eq!(ProfileName::parse("a b"), Err(NameError::BadCharacters));
    assert_eq!(NameError::BadCharacters.message(), "use only ASCII letters, numbers, '.', '_' and '-' (max 64)");
    assert_eq!(ProfileRef::parse("a/b"), Err(NameError::BadCharacters));
}

#[test]
fn profile_labels_and_lookup() {
    let mut settings = Settings::default();
    assert_eq!(settings.version, 1);
    assert!(settings.chooser_on_launch);
    let work = ProfileName::parse("work").unwrap();
    assert!(settings.profile(&work).is_none());
    settings.profiles.push(Profile { name: work.clone(), label: Some("Work".into()), remote: None, remote_session: None, env: Vec::new() });
    settings.profiles.push(Profile { name: work.clone(), label: Some("Second".into()), remote: None, remote_session: None, env: Vec::new() });
    assert_eq!(settings.profile(&work).unwrap().label(), "Work");
    assert_eq!(settings.profiles[0].to_ref(), ProfileRef::Named(work));
    assert!(Profile::from_parts("bad name", None, None, None, Vec::new()).is_err());
    assert_eq!(Profile::from_parts("ok", None, None, None, Vec::new()).unwrap().label(), "ok");
}

#[test]
fn paths_follow_the_environment() {
    assert_eq!(home_dir(None), "/");
    assert_eq!(xdg_config_home(None, Some("/home/a".to_owned())), "/home/a/.config");
    assert_eq!(xdg_config_home(Some("/x".to_owned()), Some("/home/a".to_owned())), "/x");
    assert_eq!(plugin_config_dir(None, None, None), "/.config/herdr-profiles");
    assert_eq!(plugin_config_dir(Some("/p".to_owned()), None, None), "/p");
    assert_eq!(settings_path("/p"), "/p/profiles.json");
    assert_eq!(remote_attach_key("host", None), "host#default");
}

#[test]
fn references_compare_by_what_they_name() {
    let a = ProfileRef::parse("work").unwrap();
    assert!(a.same_as(&ProfileRef::parse("work").unwrap()));
    assert!(!a.same_as(&ProfileRef::Default));
    assert!(ProfileRef::Default.is_default());
    assert_eq!(ProfileRef::Default.attach_key(), "default");
}

#[test]
fn settings_ignore_invalid_profile_names() {
    let stored = vec![("bad name".to_owned(), None, None, None, Vec::new())];
    assert!(Settings::from_stored(1, true, None, None, stored).unwrap_or_default().profiles.is_empty());
}

#[test]
fn stored_settings_keep_every_field() {
    let good = vec![("work".to_owned(), Some("Work".to_owned()), None, None, vec![("A".to_owned(), "~/a".to_owned())])];
    let s = Settings::from_stored(1, false, None, Some("work".to_owned()), good).unwrap();
    assert!(!s.chooser_on_launch);
    assert_eq!(s.profiles[0].label(), "Work");
    assert_eq!(s.last.as_deref(), Some("work"));
    let bad = vec![
        ("work".to_owned(), None, None, None, Vec::new()),
        ("bad name".to_owned(), None, None, None, Vec::new()),
    ];
    assert!(Settings::from_stored(1, true, None, None, bad).is_none());
}

#[test]
fn leading_tilde_is_expanded() {
    assert_eq!(expand_home("~/.config-vertex", "/home/a"), "/home/a/.config-vertex");
    assert_eq!(expand_home("~", "/home/a"), "/home/a");
    assert_eq!(expand_home("~bob/x", "/home/a"), "~bob/x");
    assert_eq!(expand_home("us-east5", "/home/a"), "us-east5");
    assert_eq!(expand_home("a~/b", "/home/a"), "a~/b");
}

#[test]
fn profile_env_is_the_saved_one_expanded() {
    let env = vec![
        ("CONFIG_DIR".to_owned(), "~/.config-vertex".to_owned()),
        ("REGION".to_owned(), "us-east5".to_owned()),
    ];
    let stored = vec![
        ("plain".to_owned(), None, None, None, Vec::new()),
        ("vertex".to_owned(), None, None, None, env),
    ];
    let s = Settings::from_stored(1, true, None, None, stored).unwrap();
    assert_eq!(
        s.profile_env("vertex", "/home/a"),
        [
            ("CONFIG_DIR".to_owned(), "/home/a/.config-vertex".to_owned()),
            ("REGION".to_owned(), "us-east5".to_owned())
        ]
    );
    assert!(s.profile_env("plain", "/home/a").is_empty());
    assert!(s.profile_env("missing", "/home/a").is_empty());
    let copy = s.profiles[1].clone();
    assert_eq!(copy, s.profiles[1]);
}
