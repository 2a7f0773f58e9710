use herdr_profiles::keybinding::{
    apply, candidate_keys, key_line_exec, manual_binding, quoted_keys_exec, split_block, status,
    valid_key_exec, KeyCombo, KeyError, Source, Status,
};

const DEFAULTS: &str = "# previous_tab = \"prefix+p\"\n# help = \"prefix+?\"\n";
const BLOCK_START: &str =
    "# >>> herdr-profiles managed keybinding (edit with: herdr-profiles setup) >>>";

fn key(s: &str) -> KeyCombo {
    s.parse().unwrap()
}

fn owner<'a>(st: &'a Status, k: &str) -> Option<&'a str> {
    st.used.iter().find(|(key, _)| key == k).map(|(_, o)| o.as_str())
}

#[test]
fn block_is_appended_then_replaced() {
    let before = "onboarding = false\n[theme]\nname = \"gruvbox\"\n";
    let config = apply(before, &key("prefix+a"));
    assert!(config.starts_with(&format!(
        "onboarding = false\n[theme]\nname = \"gruvbox\"\n\n{BLOCK_START}"
    )));
    assert!(
        config.contains("key = \"prefix+a\"") && config.contains("command = \"herdr-profiles.choose\"")
    );

    let config = apply(&config, &key("prefix+u"));
    assert_eq!(config.matches(BLOCK_START).count(), 1);
    assert!(!config.contains("\"prefix+a\"") && config.contains("\"prefix+u\""));
    let (rest, managed) = split_block(&config);
    assert_eq!(managed.as_deref(), Some("prefix+u"));
    assert!(!rest.contains("keys.command") && rest.contains("gruvbox"));
}

#[test]
fn missing_config_is_created() {
    assert!(apply("", &key("prefix+a")).starts_with(BLOCK_START));
}

#[test]
fn status_reports_manual_managed_and_used_keys() {
    let config = "[[keys.command]]\nkey = \"prefix+p\"\ntype = \"plugin_action\"\ncommand = \"herdr-profiles.choose\"\n";
    let found = status(config, "/cfg/config.toml", DEFAULTS);
    let binding = found.binding.as_ref().unwrap();
    assert_eq!((binding.key.as_str(), binding.source), ("prefix+p", Source::Manual));
    assert!(owner(&found, "prefix+p").is_none());
    assert_eq!(owner(&found, "prefix+?"), Some("a Herdr default binding"));

    let config = apply(
        "[[keys.command]]\nkey = \"prefix+a\"\ncommand = \"other.plugin.thing\"\n",
        &key("prefix+u"),
    );
    let found = status(&config, "/cfg/config.toml", DEFAULTS);
    assert_eq!(found.binding.as_ref().unwrap().source, Source::Managed);
    assert_eq!(owner(&found, "prefix+a"), Some("your config.toml"));
    assert_eq!(found.free_key().unwrap().as_str(), "prefix+u");
    assert_eq!(found.config, "/cfg/config.toml");
}

#[test]
fn free_key_skips_taken_candidates() {
    let mut status = Status { binding: None, config: String::new(), used: Vec::new() };
    assert_eq!(status.free_key().unwrap().as_str(), "prefix+a");
    for candidate in candidate_keys() {
        status.used.push((candidate, "taken".to_owned()));
    }
    assert!(status.free_key().is_none());
}

#[test]
fn validates_key_syntax() {
    for ok in ["prefix+a", "prefix+shift+a", "ctrl+alt+p", "prefix+f2", "prefix+minus", "cmd+k"] {
        assert!(ok.parse::<KeyCombo>().is_ok(), "{ok}");
    }
    for bad in ["", "a", "prefix", "prefix+", "prefix+A", "prefix+ab", "prefix a", "super+a"] {
        assert!(bad.parse::<KeyCombo>().is_err(), "{bad}");
    }
}

#[test]
fn key_error_names_the_syntax() {
    assert_eq!(
        KeyCombo::parse("nope").unwrap_err().message(),
        "key must look like prefix+a, ctrl+alt+p or prefix+shift+f2 (a modifier plus one key)"
    );
    assert_eq!(KeyCombo::parse("nope"), Err(KeyError::Syntax));
    assert_eq!(key("alt+f12").to_string(), "alt+f12");
}

#[test]
fn owner_of_reports_who_uses_a_key() {
    let found = status("x = \"ctrl+q\"\n", "/c", DEFAULTS);
    assert_eq!(found.owner_of(&key("ctrl+q")), Some("your config.toml"));
    assert_eq!(found.owner_of(&key("prefix+p")), Some("a Herdr default binding"));
    assert_eq!(found.owner_of(&key("prefix+z")), None);
    assert!(found.binding.is_none());
}

#[test]
fn config_keys_win_over_defaults() {
    let found = status("bind = \"prefix+p\"\n", "/c", DEFAULTS);
    assert_eq!(found.owner_of(&key("prefix+p")), Some("your config.toml"));
}

#[test]
fn manual_binding_only_reads_its_own_table() {
    let config = "[[keys.command]]\nkey = \"prefix+x\"\ncommand = \"other\"\n[[keys.command]]\nkey = \"prefix+m\"\ncommand = \"herdr-profiles.choose\"\n[[keys.command]]\nkey = \"prefix+z\"\n";
    assert_eq!(manual_binding(config).as_deref(), Some("prefix+m"));
    assert_eq!(manual_binding("key = \"prefix+q\"\n"), None);
}

#[test]
fn unterminated_block_is_left_alone() {
    let config = format!("a = 1\n{BLOCK_START}\nkey = \"prefix+a\"\n");
    let (rest, managed) = split_block(&config);
    assert_eq!(rest, config);
    assert_eq!(managed, None);
}

#[test]
fn source_names() {
    assert_eq!(Source::Managed.name(), "managed");
    assert_eq!(Source::Manual.name(), "manual");
}

fn chars(s: &str) -> Vec<char> {
    s.chars().collect()
}

const SAMPLES: &[&str] = &[
    "", "a", "prefix", "prefix+", "prefix+a", "prefix+A", "prefix+ab", "prefix a", "super+a",
    "prefix+shift+a", "ctrl+alt+p", "prefix+f2", "prefix+f12", "prefix+f123", "prefix+minus",
    "cmd+k", "ctrl+", "+a", "prefix++a", "prefix+enter", "prefix+enters", "shift+bracketleft",
    "alt+backslash", "ctrl+alt+shift+cmd+prefix+0", "prefix+é", "prefix+a\n", "Prefix+a",
    "prefix+space", "prefix+f", "prefix+f0", "ctrl+ctrl+z",
];

#[test]
fn key_syntax_matches_herdr_pattern() {
    let pattern = [
        r"^(?:(?:ctrl|alt|shift|cmd|prefix)\+)+",
        r"(?:[a-z0-9]|f[0-9]{1,2}|enter|tab|esc|left|right|up|down|space|minus|comma|plus|",
        r"backtick|ampersand|period|slash|semicolon|equal|backslash|bracketleft|bracketright)$",
    ]
    .concat();
    let re = regex_lite::Regex::new(&pattern).unwrap();
    for s in SAMPLES {
        assert_eq!(valid_key_exec(&chars(s)), re.is_match(s), "{s:?}");
    }
}

const TEXTS: &[&str] = &[
    "",
    "key = \"prefix+a\"",
    "  key=\"ctrl+x\"\nkey = \"b\"",
    "x\n\t key  =  \"a b\" rest",
    "keys = \"a\"\nkey = \"\"\nkey = \"c\"",
    "a = \"prefix+a\" b = \"ctrl+alt+x\" \"shift+\" \"cmd+k k\" \"alt+q\"",
    "\"prefix+a\"\"prefix+b\"",
    "[[keys.command]]\nkey = \"prefix+p\"\ncommand = \"herdr-profiles.choose\"\n",
    "# previous_tab = \"prefix+p\"\n# help = \"prefix+?\"\n",
    "\"ctrl+\u{00e9}\" \"prefix+\u{3000}x\" \r\nkey = \"z\"\r\n",
    "key = \"x\ny\"\nkey = \"ok\"",
];

#[test]
fn key_lines_match_herdr_pattern() {
    let re = regex_lite::Regex::new(r#"(?m)^\s*key\s*=\s*"([^"]+)""#).unwrap();
    for t in TEXTS {
        let expected = re.captures(t).map(|c| chars(&c[1]));
        assert_eq!(key_line_exec(&chars(t)), expected, "{t:?}");
    }
}

#[test]
fn quoted_keys_match_herdr_pattern() {
    let re = regex_lite::Regex::new(r#""((?:ctrl|alt|shift|cmd|prefix)\+[^"\s]+)""#).unwrap();
    for t in TEXTS {
        let expected: Vec<Vec<char>> = re.captures_iter(t).map(|c| chars(&c[1])).collect();
        assert_eq!(quoted_keys_exec(&chars(t)), expected, "{t:?}");
    }
}
