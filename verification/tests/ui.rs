use herdr_profiles::herdr::{Herdr, Session};
use herdr_profiles::keybinding::KeyCombo;
use herdr_profiles::profiles::{ProfileRow, ProfileStore, StoreError};
use herdr_profiles::settings::{ProfileRef, Settings};
use herdr_profiles::theme::Rgb;
use herdr_profiles::ui::{
    confirm_line, confirmed, decimal_string, fit, layout_line, pad, parse_background_reply,
    prompt_line, prompt_step, row_span, screen_size, span_look, Action, Attr, Chooser, Key,
    Message, PromptStep, Span, Style,
};

#[test]
fn parses_background_reply() {
    assert_eq!(parse_background_reply(b"\x1b]11;rgb:2828/2828/2828\x1b\\"), Some(Rgb { r: 40, g: 40, b: 40 }));
    assert_eq!(parse_background_reply(b"\x1b]11;rgb:ff/ee/dd\x07"), Some(Rgb { r: 255, g: 238, b: 221 }));
    assert_eq!(parse_background_reply(b"j"), None);
}

#[test]
fn pad_and_fit_respect_character_widths() {
    assert_eq!(pad("ab", 4), "ab  ");
    assert_eq!(pad("abcdef", 4), "abcd");
    assert_eq!(fit("▸ été", 3), "▸ é");
}

#[test]
fn background_reply_edge_cases() {
    // Noise before the reply, a `+` sign, and text after the terminator.
    assert_eq!(parse_background_reply(b"xx\xff\x1b]11;rgb:+f/0a/FF\x07rest"), Some(Rgb { r: 15, g: 10, b: 255 }));
    // Only two channels.
    assert_eq!(parse_background_reply(b"\x1b]11;rgb:ff/ee\x07"), None);
    // A channel with one digit.
    assert_eq!(parse_background_reply(b"\x1b]11;rgb:f/ee/dd\x07"), None);
    // A non-hex channel.
    assert_eq!(parse_background_reply(b"\x1b]11;rgb:zz/ee/dd"), None);
    // A fourth channel is ignored; no terminator is needed.
    assert_eq!(parse_background_reply(b"\x1b]11;rgb:01/02/03/zz"), Some(Rgb { r: 1, g: 2, b: 3 }));
    // A multi-byte character where a digit should be.
    assert_eq!(parse_background_reply("\x1b]11;rgb:é1/02/03".as_bytes()), None);
}

fn row(name: &str, running: bool) -> ProfileRow {
    ProfileRow {
        id: if name == "default" { ProfileRef::Default } else { ProfileRef::parse(name).unwrap() },
        name: name.to_owned(),
        label: name.to_owned(),
        running,
        attached: false,
        session_dir: String::new(),
        socket_path: String::new(),
        current: false,
        protected: name == "default",
        spaces: 0,
        blocked: 0,
        remote: None,
    }
}

fn chooser(names: &[(&str, bool)]) -> Chooser {
    let mut c = Chooser::new();
    let rows = names.iter().map(|(n, r)| row(n, *r)).collect();
    c.refresh(rows, None, None, None, "/cfg/config.toml", "");
    c
}

#[test]
fn keys_move_and_wrap() {
    let mut c = chooser(&[("default", true), ("work", false), ("study", false)]);
    assert_eq!(c.handle(Key::Down), Action::Stay);
    assert_eq!(c.selected, 1);
    c.handle(Key::Char('j'));
    c.handle(Key::Char('j'));
    assert_eq!(c.selected, 0);
    c.handle(Key::Up);
    assert_eq!(c.selected, 2);
    c.handle(Key::Char('k'));
    assert_eq!(c.selected, 1);
    assert_eq!(c.handle(Key::Char('3')), Action::Open);
    assert_eq!(c.selected, 2);
    assert_eq!(c.handle(Key::Char('4')), Action::Stay);
    assert_eq!(c.selected, 2);
    assert_eq!(c.handle(Key::Enter), Action::Open);
    assert_eq!(c.handle(Key::Esc), Action::Exit);
    assert_eq!(c.handle(Key::Char('q')), Action::Exit);
    assert_eq!(c.handle(Key::Char('s')), Action::SetHotkey);
    assert_eq!(c.handle(Key::Char('n')), Action::Create);
    assert_eq!(c.handle(Key::Char('x')), Action::Stop);
    assert_eq!(c.handle(Key::Char('d')), Action::Delete);
    assert_eq!(c.handle(Key::Char('?')), Action::Stay);
    c.error("boom".to_owned());
    assert_eq!(c.handle(Key::Char('r')), Action::Refresh);
    assert_eq!(c.message, None);
}

#[test]
fn moving_without_rows_does_nothing() {
    let mut c = Chooser::new();
    assert_eq!(c.handle(Key::Down), Action::Stay);
    assert_eq!(c.handle(Key::Char('k')), Action::Stay);
    assert_eq!(c.handle(Key::Char('1')), Action::Stay);
    assert_eq!(c.selected, 0);
    assert!(c.selected_row().is_none());
}

#[test]
fn down_then_up_returns_to_the_same_row() {
    let mut c = chooser(&[("default", true), ("work", false), ("study", false)]);
    for start in 0..3 {
        c.selected = start;
        c.handle(Key::Down);
        c.handle(Key::Up);
        assert_eq!(c.selected, start);
    }
}

#[test]
fn refresh_selects_the_wanted_row_and_stays_in_range() {
    let mut c = chooser(&[("default", true), ("work", false), ("study", false)]);
    c.selected = 2;
    c.refresh(vec![row("default", true), row("work", false)], None, None, None, "/c", "");
    assert_eq!(c.selected, 1);
    c.refresh(vec![row("default", true), row("work", false)], Some("default"), Some("work"), None, "/c", "");
    assert_eq!(c.selected, 0);
    c.refresh(vec![row("default", true), row("work", false)], None, Some("work"), None, "/c", "");
    assert_eq!(c.selected, 1);
    c.refresh(vec![row("default", true), row("work", false)], Some("gone"), None, None, "/c", "");
    assert_eq!(c.selected, 1);
    c.refresh(Vec::new(), None, None, None, "/c", "");
    assert_eq!(c.selected, 0);
}

#[test]
fn refresh_reads_the_hotkey() {
    let mut c = Chooser::new();
    c.refresh(Vec::new(), None, None, Some("a = \"prefix+a\"\n"), "/c", "");
    assert_eq!(c.hotkey_initial(), "");
    let config = herdr_profiles::keybinding::apply("", &"prefix+u".parse().unwrap());
    c.refresh(Vec::new(), None, None, Some(&config), "/c", "");
    assert_eq!(c.hotkey_initial(), "prefix+u");
    let (key, question) = c.hotkey_request("prefix+a").unwrap();
    assert_eq!(key.as_str(), "prefix+a");
    assert_eq!(question, None);
    c.refresh(Vec::new(), None, None, Some(&format!("x = \"prefix+a\"\n{config}")), "/c", "");
    let (_, question) = c.hotkey_request("prefix+a").unwrap();
    assert_eq!(question.as_deref(), Some("prefix+a is used by your config.toml. Bind anyway?"));
    assert!(c.hotkey_request("prefix+").is_none());
    assert_eq!(
        c.message,
        Some(Message::Error(
            "key must look like prefix+a, ctrl+alt+p or prefix+shift+f2 (a modifier plus one key)".to_owned()
        ))
    );
    c.hotkey_set(&KeyCombo::parse("prefix+a").unwrap(), Ok(()));
    assert_eq!(c.message, Some(Message::Info("Hotkey set to prefix+a. Config reloaded.".to_owned())));
}

#[test]
fn stop_and_delete_explain_refusals() {
    let mut rows = vec![row("default", true), row("work", false), row("study", true), row("here", true), row("other", true)];
    rows[3].current = true;
    rows[4].attached = true;
    rows[1].spaces = 3;
    let mut c = Chooser::new();
    c.refresh(rows, None, None, None, "/c", "");
    let expect_stop = [
        Err("The default profile is Herdr itself; stop it with `herdr server stop`."),
        Err("'work' is not running."),
        Ok("Stop 'study' and its agents?"),
        Err("That is this window. Use ctrl+b q to detach or herdr session stop."),
        Err("'other' is open in another window; close it there first."),
    ];
    for (i, expected) in expect_stop.iter().enumerate() {
        c.selected = i;
        c.message = None;
        let q = c.stop_selected();
        match expected {
            Ok(question) => {
                assert_eq!(q.as_deref(), Some(*question));
                assert_eq!(c.message, None);
            }
            Err(error) => {
                assert_eq!(q, None);
                assert_eq!(c.message, Some(Message::Error((*error).to_owned())));
            }
        }
    }
    c.selected = 0;
    assert_eq!(c.delete_selected(), None);
    assert_eq!(c.message, Some(Message::Error("The default profile cannot be deleted.".to_owned())));
    c.selected = 2;
    assert_eq!(c.delete_selected(), None);
    assert_eq!(c.message, Some(Message::Error("Stop 'study' before deleting it.".to_owned())));
    c.selected = 1;
    c.message = None;
    assert_eq!(c.delete_selected().as_deref(), Some("Delete 'work' and its 3 saved spaces?"));
    c.stopped("study", Ok(()));
    assert_eq!(c.message, Some(Message::Info("Stopped 'study'.".to_owned())));
    c.deleted("work", Err("herdr session delete failed".to_owned()));
    assert_eq!(c.message, Some(Message::Error("herdr session delete failed".to_owned())));
    c.deleted("work", Ok(()));
    assert_eq!(c.message, Some(Message::Info("Deleted 'work'.".to_owned())));
    c.selected = 9;
    assert_eq!(c.stop_selected(), None);
}

#[test]
fn created_and_opened_report_outcomes() {
    let mut c = Chooser::new();
    c.created("work", &Ok(()));
    assert_eq!(c.message, Some(Message::Info("Created 'work'. Press enter to open it.".to_owned())));
    c.created("work", &Err(StoreError::Exists("work".to_owned())));
    assert_eq!(c.message, Some(Message::Error("profile 'work' already exists".to_owned())));
    assert!(!c.opened(Err("'work' is this window".to_owned())));
    assert_eq!(c.message, Some(Message::Error("'work' is this window".to_owned())));
    assert!(c.opened(Ok(())));
}

#[test]
fn prompt_edits_and_answers() {
    let mut text = String::from(" ab");
    assert_eq!(prompt_step(&mut text, Key::Char('c')), PromptStep::Editing);
    assert_eq!(text, " abc");
    assert_eq!(prompt_step(&mut text, Key::Backspace), PromptStep::Editing);
    assert_eq!(text, " ab");
    assert_eq!(prompt_step(&mut text, Key::Up), PromptStep::Editing);
    assert_eq!(prompt_step(&mut text, Key::Char(' ')), PromptStep::Editing);
    assert_eq!(prompt_step(&mut text, Key::Enter), PromptStep::Done("ab".to_owned()));
    assert_eq!(prompt_step(&mut text, Key::Esc), PromptStep::Cancel);
    let mut long = "é".repeat(64);
    prompt_step(&mut long, Key::Char('x'));
    assert_eq!(long.chars().count(), 64);
    let mut empty = String::new();
    prompt_step(&mut empty, Key::Backspace);
    assert_eq!(empty, "");
    assert_eq!(prompt_line("New profile name:", "wo"), "New profile name: wo");
    assert_eq!(confirm_line("Stop 'a' and its agents?"), "Stop 'a' and its agents? [y/N]");
    assert!(confirmed(Key::Char('y')) && confirmed(Key::Char('Y')));
    assert!(!confirmed(Key::Char('n')) && !confirmed(Key::Enter));
}

fn texts(line: &[Span]) -> Vec<(&str, Style)> {
    line.iter().map(|s| (s.text.as_str(), s.style)).collect()
}

#[test]
fn frame_lays_out_header_rows_and_footer() {
    let mut c = chooser(&[("default", true), ("work", false)]);
    c.rows[1].spaces = 1;
    c.info("hello".to_owned());
    let f = c.frame(None, 6, 80);
    assert_eq!(f.lines.len(), 5);
    assert_eq!(f.cursor, None);
    let head = texts(&f.lines[0]);
    assert_eq!(head[0], (" Profiles", Style::Bold));
    assert_eq!(head[1].0.len(), 80 - 63);
    assert_eq!(head[2], ("enter open  n new  x stop  d delete  s hotkey  q close", Style::Dim));
    assert_eq!(texts(&f.lines[1]), [(" hotkey: none (press s to set one)", Style::Dim)]);
    // Two rows fit on six lines; the second is the last one shown.
    let first = texts(&f.lines[2]);
    assert_eq!(first[0].1, Style::Selected);
    assert_eq!(first[0].0.chars().count(), 80);
    assert!(first[0].0.starts_with(" ▸ default                running  0 spaces  "));
    assert_eq!(texts(&f.lines[3])[0].1, Style::Normal);
    assert_eq!(texts(&f.lines[4]), [(" hello", Style::Dim)]);
    let f = c.frame(Some("Hotkey: ab"), 8, 30);
    assert_eq!(f.lines.len(), 7);
    assert_eq!(f.cursor, Some((11, 6)));
    assert_eq!(texts(&f.lines[6]), [(" Hotkey: ab", Style::Normal)]);
    assert_eq!(texts(&f.lines[3])[0].0, "   work                   stop");
}

#[test]
fn empty_chooser_invites_a_new_profile() {
    let c = Chooser::new();
    let f = c.frame(None, 6, 66);
    assert_eq!(texts(&f.lines[2]), [("  No profiles yet. Press n to create one.", Style::Dim)]);
    assert_eq!(texts(&f.lines[4]), [("", Style::Normal)]);
}

#[test]
fn rows_show_state_counts_and_this_window() {
    let mut r = row("work", true);
    r.label = "Work".to_owned();
    r.spaces = 2;
    r.blocked = 1;
    r.current = true;
    let span = row_span(&r, false, 90);
    assert_eq!(span.style, Style::Bold);
    assert_eq!(span.text.chars().count(), 90);
    assert!(span.text.starts_with("   Work (work)            running  2 spaces    ● 1 blocked  (this window)"));
    let span = row_span(&row("x", false), true, 10);
    assert_eq!(span.text, " ▸ x      ");
    assert_eq!(span.style, Style::Selected);
}

#[test]
fn lines_are_cut_to_the_screen() {
    let line = vec![
        Span { text: "abc".to_owned(), style: Style::Bold },
        Span { text: "défgh".to_owned(), style: Style::Dim },
        Span { text: "zz".to_owned(), style: Style::Normal },
    ];
    let (pieces, fill) = layout_line(&line, 6);
    assert_eq!(pieces, [("abc".to_owned(), Style::Bold), ("déf".to_owned(), Style::Dim)]);
    assert_eq!(fill, 0);
    let (pieces, fill) = layout_line(&line, 20);
    assert_eq!(pieces.len(), 3);
    assert_eq!(fill, 10);
    let (pieces, fill) = layout_line(&Vec::new(), 20);
    assert!(pieces.is_empty());
    assert_eq!(fill, 20);
}

#[test]
fn styles_and_screen_size() {
    assert_eq!(span_look(Style::Selected, true), (true, Some(Attr::Bold)));
    assert_eq!(span_look(Style::Selected, false), (false, Some(Attr::Reverse)));
    assert_eq!(span_look(Style::Dim, true), (false, Some(Attr::Dim)));
    assert_eq!(span_look(Style::Normal, false), (false, None));
    assert_eq!(screen_size(None), (16, 66));
    assert_eq!(screen_size(Some((10, 3))), (6, 20));
    assert_eq!(screen_size(Some((100, 40))), (40, 100));
    assert_eq!(decimal_string(1204), "1204");
}

#[test]
fn chooser_over_store_rows() {
    let herdr = Herdr::from_env(None, "/tmp/cfg");
    let mut store = ProfileStore::load(herdr, "/tmp/p.json".to_owned(), Settings::default(), ProfileRef::Default);
    store.add("work", None, None, None).unwrap();
    let rows = store.rows_with(&vec![Session { name: "default".into(), default: true, running: true, ..Session::default() }], &Vec::new());
    let mut c = Chooser::new();
    c.refresh(rows, None, Some("work"), None, "/c", "");
    assert_eq!(c.selected_row().unwrap().name(), "work");
}
