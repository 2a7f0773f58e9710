use herdr_profiles::popup::{next_attempt, should_open_on_startup, Attempt, Entrypoint};
use herdr_profiles::settings::{Profile, ProfileName, ProfileRef, Settings};
use herdr_profiles::socket::Error;

fn api(code: &str, message: &str) -> Error {
    Error::Api { code: code.into(), message: message.into() }
}

/// Tries to open the popup up to `max(retries, 1)` times the way the command
/// line does, with no delay; returns the outcome and the number of calls.
fn open_with(retries: u32, mut call: impl FnMut() -> Result<(), Error>) -> (Result<(), String>, u32) {
    let mut calls = 0;
    let mut attempt = 1;
    loop {
        calls += 1;
        let outcome = call();
        match next_attempt(attempt, retries, &outcome) {
            Attempt::Opened => return (Ok(()), calls),
            Attempt::Failed | Attempt::WaitThenFail => {
                return (Err(outcome.unwrap_err().message()), calls)
            }
            Attempt::Retry => attempt += 1,
        }
    }
}

#[test]
fn retries_ui_busy_and_io_errors_only() {
    let mut n = 0;
    let (result, calls) = open_with(5, || {
        n += 1;
        if n < 3 {
            Err(api("ui_busy", "popup panes can only open from the normal workspace view"))
        } else {
            Ok(())
        }
    });
    assert!(result.is_ok());
    assert_eq!(calls, 3);

    let (result, calls) = open_with(5, || Err(api("plugin_pane_open_failed", "nope")));
    assert!(result.unwrap_err().contains("nope"));
    assert_eq!(calls, 1);

    let (result, calls) = open_with(3, || Err(Error::Io("no socket".to_owned())));
    assert!(result.is_err());
    assert_eq!(calls, 3);

    let (result, _) = open_with(1, || Err(api("plugin_pane_open_failed", "popup already open")));
    assert!(result.is_ok());
}

#[test]
fn startup_gating() {
    let mut settings = Settings::default();
    let work = ProfileRef::parse("work").unwrap();
    assert!(!should_open_on_startup(&settings, &ProfileRef::Default));
    settings.profiles.push(Profile {
        name: ProfileName::parse("work").unwrap(),
        label: None,
        remote: None,
        remote_session: None,
        env: Vec::new(),
    });
    assert!(should_open_on_startup(&settings, &ProfileRef::Default));
    assert!(!should_open_on_startup(&settings, &work));
    settings.chooser_on_launch = false;
    assert!(!should_open_on_startup(&settings, &ProfileRef::Default));
}

#[test]
fn zero_retries_still_tries_once() {
    assert_eq!(next_attempt(1, 0, &Err(api("ui_busy", "busy"))), Attempt::WaitThenFail);
    assert_eq!(next_attempt(1, 1, &Err(api("ui_busy", "busy"))), Attempt::Failed);
    assert_eq!(next_attempt(1, 2, &Err(Error::Protocol("bad".to_owned()))), Attempt::Failed);
    assert_eq!(next_attempt(2, 2, &Ok(())), Attempt::Opened);
}

#[test]
fn entrypoints() {
    assert_eq!(Entrypoint::from_setup_flag(true), Entrypoint::Setup);
    assert_eq!(Entrypoint::from_setup_flag(false).id(), "chooser");
    assert_eq!(Entrypoint::Setup.id(), "setup");
}

#[test]
fn socket_errors_read_as_herdr_prints_them() {
    let busy = api("ui_busy", "busy");
    assert_eq!(busy.code(), Some("ui_busy"));
    assert!(busy.is_transient());
    assert_eq!(busy.message(), "ui_busy: busy");
    let io = Error::Io("connection refused".to_owned());
    assert!(io.is_transient());
    assert_eq!(io.code(), None);
    assert_eq!(io.message(), "herdr socket: connection refused");
    let bad = Error::Protocol("eof".to_owned());
    assert!(!bad.is_transient());
    assert_eq!(bad.message(), "unexpected reply from herdr: eof");
    assert!(!api("other", "x").is_transient());
}
