//! The decisions of the command line: what `setup` does with the keybinding
//! status, and how `list` prints a profile.

use vstd::prelude::*;
use crate::keybinding::{free_from, candidates, owner_in, unique_keys, valid_key, KeyCombo, Source, Status};
use crate::profiles::{state_of, ProfileRow};
use crate::text::owned;
use crate::ui::{decimal, decimal_string, left_aligned, align_left};

verus! {

/// What `setup` does.
#[derive(Debug, PartialEq, Eq)]
pub enum SetupPlan {
    /// Print the status.
    Print,
    /// Bind the chooser to `key`, reload Herdr's config, then print `lines`.
    Bind { key: KeyCombo, lines: Vec<String> },
    /// Print `line` and change nothing.
    Report(String),
    /// Fail with this message.
    Fail(String),
}

/// The line `setup` prints after binding `key` that was asked for.
pub open spec fn bound_line(key: Seq<char>, config: Seq<char>) -> Seq<char> {
    "herdr-profiles: bound to "@ + key + " ("@ + config + ")"@
}

/// The line `setup` prints when a binding exists and no key was asked for.
pub open spec fn already_line(key: Seq<char>, source: Source) -> Seq<char> {
    "herdr-profiles: already bound to "@ + key + " ("@
        + (match source { Source::Managed => "managed"@, Source::Manual => "manual"@ }) + ")"@
}

/// The lines `setup` prints after binding a free key on its own.
pub open spec fn chosen_lines(key: Seq<char>, config: Seq<char>) -> Seq<Seq<char>> {
    seq![
        "herdr-profiles: bound the profile chooser to "@ + key + " in "@ + config,
        "herdr-profiles: change it any time with `s` inside the popup, or: herdr plugin action invoke herdr-profiles.setup"@,
    ]
}

/// The refusal of a key someone else uses.
pub open spec fn taken_line(key: Seq<char>, owner: Seq<char>) -> Seq<char> {
    key + " is already used by "@ + owner + "; pass --force to bind it anyway"@
}

/// What `setup` does with the status of Herdr's config: print it when asked;
/// bind the key asked for, unless it is not a key, or someone else uses it
/// and `force` is not given; else report an existing binding, or bind the
/// first free candidate key.
pub fn setup_plan(status: &Status, key: Option<&str>, print: bool, force: bool) -> (p: SetupPlan)
    requires
        unique_keys(status.used@),
    ensures
        print ==> p == SetupPlan::Print,
        !print && key is Some ==> {
            let k = key.unwrap()@;
            if !valid_key(k) {
                p matches SetupPlan::Fail(m)
                    && m@ == "key must look like prefix+a, ctrl+alt+p or prefix+shift+f2 (a modifier plus one key)"@
            } else if owner_in(status.used@, k) is Some && !force {
                p matches SetupPlan::Fail(m) && m@ == taken_line(k, owner_in(status.used@, k).unwrap())
            } else {
                p matches SetupPlan::Bind { key: b, lines } && b@ == k
                    && crate::text::str_views(lines@) == seq![bound_line(k, status.config@)]
            }
        },
        !print && key is None ==> match status.binding {
            Some(b) => p matches SetupPlan::Report(m) && m@ == already_line(b.key@, b.source),
            None => match free_from(status.used@, 0) {
                Some(i) => p matches SetupPlan::Bind { key: b, lines } && b@ == candidates()[i]
                    && crate::text::str_views(lines@) == chosen_lines(candidates()[i], status.config@),
                None => p matches SetupPlan::Fail(m)
                    && m@ == "no free key found; run: herdr-profiles setup --key <key>"@,
            },
        },
{
    if print {
        return SetupPlan::Print;
    }
    match key {
        Some(k) => {
            let combo = match KeyCombo::parse(k) {
                Ok(c) => c,
                Err(e) => return SetupPlan::Fail(e.message()),
            };
            if let Some(owner) = status.owner_of(&combo) {
                if !force {
                    let mut m = owned(k);
                    m.append(" is already used by ");
                    m.append(owner);
                    m.append("; pass --force to bind it anyway");
                    return SetupPlan::Fail(m);
                }
            }
            let mut line = owned("herdr-profiles: bound to ");
            line.append(k);
            line.append(" (");
            line.append(status.config.as_str());
            line.append(")");
            let lines = vec![line];
            assert(crate::text::str_views(lines@) =~= seq![bound_line(k@, status.config@)]);
            SetupPlan::Bind { key: combo, lines }
        },
        None => match &status.binding {
            Some(b) => {
                let mut m = owned("herdr-profiles: already bound to ");
                m.append(b.key.as_str());
                m.append(" (");
                m.append(b.source.name());
                m.append(")");
                SetupPlan::Report(m)
            },
            None => match status.free_key() {
                Some(k) => {
                    let mut first = owned("herdr-profiles: bound the profile chooser to ");
                    first.append(k.as_str());
                    first.append(" in ");
                    first.append(status.config.as_str());
                    let lines = vec![
                        first,
                        owned("herdr-profiles: change it any time with `s` inside the popup, or: herdr plugin action invoke herdr-profiles.setup"),
                    ];
                    proof { assert(k@ == candidates()[free_from(status.used@, 0).unwrap()]); }
                    assert(crate::text::str_views(lines@) =~= chosen_lines(k@, status.config@));
                    SetupPlan::Bind { key: k, lines }
                },
                None => SetupPlan::Fail(owned("no free key found; run: herdr-profiles setup --key <key>")),
            },
        },
    }
}

/// The line `list` prints for a profile.
pub open spec fn list_text(row: ProfileRow) -> Seq<char> {
    left_aligned(row.name@, 20) + " "@ + left_aligned(state_of(row.attached, row.running, row.remote is Some), 8)
        + " "@ + decimal(row.spaces as nat) + " space"@ + (if row.spaces == 1 { ""@ } else { "s"@ })
        + (if row.current { "  (this window)"@ } else { ""@ })
}

/// The line `list` prints for a profile: name, state, saved spaces, and
/// whether it is this window.
pub fn list_line(row: &ProfileRow) -> (s: String)
    ensures
        s@ == list_text(*row),
{
    let mut s = align_left(row.name(), 20);
    s.append(" ");
    s.append(align_left(row.state(), 8).as_str());
    s.append(" ");
    s.append(decimal_string(row.spaces).as_str());
    s.append(" space");
    s.append(if row.spaces == 1 { "" } else { "s" });
    s.append(if row.current { "  (this window)" } else { "" });
    proof { reveal_strlit(""); }
    assert(s@ =~= list_text(*row));
    s
}

} // verus!
