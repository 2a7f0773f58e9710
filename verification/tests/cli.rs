use herdr_profiles::cli::{list_line, setup_plan, SetupPlan};
use herdr_profiles::keybinding::{apply, status, KeyCombo};
use herdr_profiles::profiles::ProfileRow;
use herdr_profiles::settings::ProfileRef;

const DEFAULTS: &str = "# previous_tab = \"prefix+p\"\n";

fn bind(key: &str, lines: &[&str]) -> SetupPlan {
    SetupPlan::Bind {
        key: KeyCombo::parse(key).unwrap(),
        lines: lines.iter().map(|l| (*l).to_owned()).collect(),
    }
}

#[test]
fn setup_binds_the_first_free_key() {
    let st = status("x = \"prefix+a\"\n", "/cfg/config.toml", DEFAULTS);
    assert_eq!(
        setup_plan(&st, None, false, false),
        bind(
            "prefix+u",
            &[
                "herdr-profiles: bound the profile chooser to prefix+u in /cfg/config.toml",
                "herdr-profiles: change it any time with `s` inside the popup, or: herdr plugin action invoke herdr-profiles.setup",
            ]
        )
    );
    assert_eq!(setup_plan(&st, None, true, false), SetupPlan::Print);
}

#[test]
fn setup_reports_an_existing_binding() {
    let config = apply("", &KeyCombo::parse("prefix+i").unwrap());
    let st = status(&config, "/cfg/config.toml", DEFAULTS);
    assert_eq!(
        setup_plan(&st, None, false, false),
        SetupPlan::Report("herdr-profiles: already bound to prefix+i (managed)".to_owned())
    );
}

#[test]
fn setup_refuses_taken_and_malformed_keys() {
    let st = status("", "/cfg/config.toml", DEFAULTS);
    assert_eq!(
        setup_plan(&st, Some("prefix+p"), false, false),
        SetupPlan::Fail("prefix+p is already used by a Herdr default binding; pass --force to bind it anyway".to_owned())
    );
    assert_eq!(
        setup_plan(&st, Some("prefix+p"), false, true),
        bind("prefix+p", &["herdr-profiles: bound to prefix+p (/cfg/config.toml)"])
    );
    assert_eq!(
        setup_plan(&st, Some("p"), false, false),
        SetupPlan::Fail("key must look like prefix+a, ctrl+alt+p or prefix+shift+f2 (a modifier plus one key)".to_owned())
    );
}

#[test]
fn setup_without_a_free_key_fails() {
    let mut config = String::new();
    for k in herdr_profiles::keybinding::candidate_keys() {
        config.push_str(&format!("\"{k}\"\n"));
    }
    let st = status(&config, "/c", "");
    assert_eq!(
        setup_plan(&st, None, false, false),
        SetupPlan::Fail("no free key found; run: herdr-profiles setup --key <key>".to_owned())
    );
}

#[test]
fn list_lines_align_name_state_and_spaces() {
    let mut row = ProfileRow {
        id: ProfileRef::parse("work").unwrap(),
        name: "work".to_owned(),
        label: "Work".to_owned(),
        running: true,
        attached: false,
        session_dir: String::new(),
        socket_path: String::new(),
        current: false,
        protected: false,
        spaces: 1,
        blocked: 0,
        remote: None,
    };
    assert_eq!(list_line(&row), "work                 running  1 space");
    row.spaces = 3;
    row.current = true;
    row.attached = true;
    assert_eq!(list_line(&row), "work                 open     3 spaces  (this window)");
}
