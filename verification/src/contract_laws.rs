//! What the operations are for, stated over all inputs in plain terms: the
//! command each terminal runs, which names are profile names, how forgetting
//! keeps the order, which row is this window, and which overrides a theme
//! mode sees.

use vstd::prelude::*;
use crate::launcher::{argv_with, chosen_terminal, terminal_binary, terminal_hint, Platform};
use crate::profiles::{row_matches, without_name, ProfileRow, ProfileStore};
use crate::herdr::Session;
use crate::settings::{opt_view, ref_name, session_args_of, valid_name, Profile, ProfileRef};
use crate::theme::{resolved, Appearance, ThemeConfig};

verus! {

/// On Linux without a configured terminal, the window command is the chosen
/// terminal's own argument list, titled `herdr · <name>`, followed by the
/// Herdr command.
pub proof fn law_terminal_window_commands(
    exec_prefix: Seq<Seq<char>>,
    herdr_bin: Seq<char>,
    terminal_override: Option<Seq<Seq<char>>>,
    env: Seq<(String, String)>,
    installed: Seq<Seq<char>>,
    target: ProfileRef,
)
    requires
        terminal_override matches Some(p) ==> p.len() == 0,
    ensures
        ({
            let t = "herdr · "@ + ref_name(target);
            let herdr = exec_prefix + seq![herdr_bin] + session_args_of(target);
            let argv = argv_with(exec_prefix, herdr_bin, terminal_override, env, Platform::Linux, installed, target);
            &&& chosen_terminal(env, installed) is None ==> argv is None
            &&& chosen_terminal(env, installed) == Some(0int) ==> argv == Some(seq!["kitty"@, "--title"@, t] + herdr)
            &&& chosen_terminal(env, installed) == Some(1int) ==> argv == Some(seq!["ghostty"@, "--title="@ + t, "-e"@] + herdr)
            &&& chosen_terminal(env, installed) == Some(2int) ==> argv == Some(seq!["wezterm"@, "start"@, "--"@] + herdr)
            &&& chosen_terminal(env, installed) == Some(3int) ==> argv == Some(seq!["alacritty"@, "--title"@, t, "-e"@] + herdr)
            &&& chosen_terminal(env, installed) == Some(4int) ==> argv == Some(seq!["foot"@, "--title"@, t] + herdr)
            &&& chosen_terminal(env, installed) == Some(5int) ==> argv == Some(seq!["gnome-terminal"@, "--window"@, "--title"@, t, "--"@] + herdr)
            &&& chosen_terminal(env, installed) == Some(6int) ==> argv == Some(seq!["konsole"@, "-p"@, "tabtitle="@ + t, "-e"@] + herdr)
            &&& chosen_terminal(env, installed) == Some(7int) ==> argv == Some(seq!["xfce4-terminal"@, "--title"@, t, "-x"@] + herdr)
            &&& chosen_terminal(env, installed) == Some(8int) ==> argv == Some(seq!["x-terminal-emulator"@, "-e"@] + herdr)
            &&& chosen_terminal(env, installed) == Some(9int) ==> argv == Some(seq!["xterm"@, "-T"@, t, "-e"@] + herdr)
        }),
{
}

/// The terminals the launcher knows, in order of preference, with the
/// variable each sets in the processes it runs.
pub proof fn law_known_terminals()
    ensures
        terminal_binary(0) == "kitty"@ && terminal_hint(0) == Some("KITTY_WINDOW_ID"@),
        terminal_binary(1) == "ghostty"@ && terminal_hint(1) == Some("GHOSTTY_RESOURCES_DIR"@),
        terminal_binary(2) == "wezterm"@ && terminal_hint(2) == Some("WEZTERM_PANE"@),
        terminal_binary(3) == "alacritty"@ && terminal_hint(3) == Some("ALACRITTY_WINDOW"@),
        terminal_binary(4) == "foot"@ && terminal_hint(4) == Some("FOOT_PID"@),
        terminal_binary(5) == "gnome-terminal"@ && terminal_hint(5) == Some("GNOME_TERMINAL_SCREEN"@),
        terminal_binary(6) == "konsole"@ && terminal_hint(6) == Some("KONSOLE_VERSION"@),
        terminal_binary(7) == "xfce4-terminal"@ && terminal_hint(7) is None,
        terminal_binary(8) == "x-terminal-emulator"@ && terminal_hint(8) is None,
        terminal_binary(9) == "xterm"@ && terminal_hint(9) is None,
{
}

/// Profile names are exactly Herdr's session names: one to 64 ASCII letters
/// of either case, digits, `.`, `_` and `-`, other than `.`, `..` and
/// `default`.
pub proof fn law_profile_names(s: Seq<char>)
    ensures
        valid_name(s) <==> {
            &&& 0 < s.len() <= 64
            &&& forall|i: int| 0 <= i < s.len() ==> {
                let c = #[trigger] s[i];
                ||| 'a' <= c <= 'z'
                ||| 'A' <= c <= 'Z'
                ||| '0' <= c <= '9'
                ||| c == '.'
                ||| c == '_'
                ||| c == '-'
            }
            &&& s != "."@
            &&& s != ".."@
            &&& s != "default"@
        },
{
    reveal_strlit(".");
    reveal_strlit("..");
    reveal_strlit("default");
}

/// Forgetting a name keeps every other profile, in its order: the result is
/// the profiles whose name differs.
pub proof fn law_forget_keeps_order(ps: Seq<Profile>, name: Seq<char>)
    ensures
        without_name(ps, name) == ps.filter(|p: Profile| p.name@ != name),
    decreases ps.len(),
{
    reveal(Seq::filter);
    if ps.len() > 0 {
        law_forget_keeps_order(ps.drop_last(), name);
    }
}

/// Forgetting a name no profile has changes nothing.
pub proof fn law_forget_absent_name(ps: Seq<Profile>, name: Seq<char>)
    requires
        forall|i: int| 0 <= i < ps.len() ==> #[trigger] ps[i].name@ != name,
    ensures
        without_name(ps, name) == ps,
    decreases ps.len(),
{
    if ps.len() > 0 {
        law_forget_absent_name(ps.drop_last(), name);
        assert(ps.drop_last().push(ps.last()) =~= ps);
    }
}

/// A row is marked as this window exactly when its profile is the one this
/// process runs in: the default session for the default session, the same
/// name for a named profile, and the same name, host and remote session for
/// a remote one.
pub proof fn law_row_is_this_window(
    store: ProfileStore,
    sessions: Seq<Session>,
    attached: Seq<Seq<char>>,
    id: ProfileRef,
    row: ProfileRow,
)
    requires
        row_matches(store, sessions, attached, id, row),
    ensures
        row.current == match (id, store.current) {
            (ProfileRef::Default, ProfileRef::Default) => true,
            (ProfileRef::Named(a), ProfileRef::Named(b)) => a@ == b@,
            (
                ProfileRef::Remote { name: n1, target: t1, session: s1 },
                ProfileRef::Remote { name: n2, target: t2, session: s2 },
            ) => n1@ == n2@ && t1@ == t2@ && opt_view(s1) == opt_view(s2),
            _ => false,
        },
{
}

/// Two themes that differ only in their dark-mode overrides.
pub open spec fn differ_in_dark(a: ThemeConfig, b: ThemeConfig) -> bool {
    &&& a.name == b.name
    &&& a.auto_switch == b.auto_switch
    &&& a.dark_name == b.dark_name
    &&& a.light_name == b.light_name
    &&& a.custom matches Some(ca)
    &&& b.custom matches Some(cb)
    &&& ca.base == cb.base
    &&& ca.light == cb.light
}

/// Two themes that differ only in their light-mode overrides.
pub open spec fn differ_in_light(a: ThemeConfig, b: ThemeConfig) -> bool {
    &&& a.name == b.name
    &&& a.auto_switch == b.auto_switch
    &&& a.dark_name == b.dark_name
    &&& a.light_name == b.light_name
    &&& a.custom matches Some(ca)
    &&& b.custom matches Some(cb)
    &&& ca.base == cb.base
    &&& ca.dark == cb.dark
}

/// In light appearance the dark-mode overrides have no effect, and in dark
/// or unknown appearance the light-mode ones have none; without
/// `auto_switch`, neither has any.
pub proof fn law_mode_overrides_stay_in_their_mode(a: ThemeConfig, b: ThemeConfig, appearance: Option<Appearance>)
    ensures
        differ_in_dark(a, b) && appearance == Some(Appearance::Light) ==> resolved(a, appearance) == resolved(b, appearance),
        differ_in_light(a, b) && appearance != Some(Appearance::Light) ==> resolved(a, appearance) == resolved(b, appearance),
        differ_in_dark(a, b) && !a.auto_switch ==> resolved(a, appearance) == resolved(b, appearance),
        differ_in_light(a, b) && !a.auto_switch ==> resolved(a, appearance) == resolved(b, appearance),
{
}

} // verus!
