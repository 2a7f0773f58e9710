//! Properties that hold across calls: of the chooser's selection and screen,
//! of saved profiles, of the free hotkey, and of the theme fallback.

use vstd::prelude::*;
use crate::keybinding::{candidates, free_from, owner_in};
use crate::profiles::{exec_prefix, without_name, ProfileRow};
use crate::settings::{
    default_session, profile_index, profile_index_from, ref_name, saved_env, valid_name, Profile,
    ProfileRef, Settings,
};
use crate::theme::{builtin_of, resolved, Appearance, ThemeConfig};
use crate::ui::{
    fill_from, fit_lines, frame_lines, key_effect, layout_from, next_index, position, prev_index,
    reselected, Chooser, Key, Style,
};

verus! {

/// Whatever key is pressed, a selection within the rows stays within them.
pub proof fn law_selection_stays_in_rows(count: nat, selected: nat, key: Key)
    requires
        selected < count,
    ensures
        key_effect(count, selected, key).0 < count,
{
    vstd::arithmetic::div_mod::lemma_mod_pos_bound((selected + 1) as int, count as int);
    vstd::arithmetic::div_mod::lemma_mod_pos_bound((selected + count - 1) as int, count as int);
}

/// Moving down and then up (or up and then down) comes back to the same row.
pub proof fn law_down_then_up_returns(count: nat, selected: nat)
    requires
        selected < count,
    ensures
        prev_index(next_index(selected, count), count) == selected,
        next_index(prev_index(selected, count), count) == selected,
{
    let c = count as int;
    let s = selected as int;
    let n = next_index(selected, count) as int;
    let p = prev_index(selected, count) as int;
    vstd::arithmetic::div_mod::lemma_mod_pos_bound(s + 1, c);
    vstd::arithmetic::div_mod::lemma_mod_pos_bound(s + c - 1, c);
    if s + 1 < c {
        vstd::arithmetic::div_mod::lemma_small_mod((s + 1) as nat, count);
        assert(n == s + 1);
        vstd::arithmetic::div_mod::lemma_mod_add_multiples_vanish(s, c);
        vstd::arithmetic::div_mod::lemma_small_mod(selected, count);
    } else {
        vstd::arithmetic::div_mod::lemma_mod_self_0(c);
        assert(n == 0);
        vstd::arithmetic::div_mod::lemma_small_mod((c - 1) as nat, count);
    }
    if s > 0 {
        vstd::arithmetic::div_mod::lemma_mod_add_multiples_vanish(s - 1, c);
        vstd::arithmetic::div_mod::lemma_small_mod((s - 1) as nat, count);
        assert(p == s - 1);
        vstd::arithmetic::div_mod::lemma_small_mod(selected, count);
    } else {
        vstd::arithmetic::div_mod::lemma_small_mod((c - 1) as nat, count);
        assert(p == c - 1);
        vstd::arithmetic::div_mod::lemma_mod_self_0(c);
    }
}

/// New rows keep the selection within them; when the profile asked for is
/// among them, it is the one selected (the first row of that name).
pub proof fn law_refresh_selects_within_rows(rows: Seq<ProfileRow>, wanted: Option<Seq<char>>, selected: nat)
    ensures
        rows.len() == 0 ==> reselected(rows, wanted, selected) == 0,
        rows.len() > 0 ==> reselected(rows, wanted, selected) < rows.len(),
        forall|w: Seq<char>| wanted == Some(w) && #[trigger] position(rows, w) is Some ==> reselected(rows, wanted, selected)
            == position(rows, w).unwrap() && rows[position(rows, w).unwrap()].name@ == w,
{
    if let Some(w) = wanted {
        lemma_position_from(rows, w, 0);
    }
}

proof fn lemma_position_from(rows: Seq<ProfileRow>, name: Seq<char>, k: int)
    requires
        0 <= k,
    ensures
        crate::ui::position_from(rows, name, k) matches Some(i) ==> k <= i < rows.len() && rows[i].name@ == name,
    decreases rows.len() - k,
{
    if k < rows.len() && rows[k].name@ != name {
        lemma_position_from(rows, name, k + 1);
    }
}

/// The chooser's screen has one line for every row of the terminal but the
/// last, and the last but one is the prompt or message.
pub proof fn law_frame_height(c: Chooser, prompt: Option<Seq<char>>, rows: nat, cols: nat)
    requires
        rows >= 2,
    ensures
        frame_lines(c, prompt, rows, cols).len() == rows - 1,
        frame_lines(c, prompt, rows, cols)[rows - 2] == seq![crate::ui::footer_of(prompt, c.message)],
{
    let content = crate::ui::content(c, rows, cols);
    assert(fit_lines(content, (rows - 1) as nat).len() == rows - 1);
}

/// The total width of pieces of text.
pub open spec fn width_of(pieces: Seq<(Seq<char>, Style)>) -> nat
    decreases pieces.len(),
{
    if pieces.len() == 0 { 0 } else { pieces[0].0.len() + width_of(pieces.skip(1)) }
}

/// A drawn line covers the screen's width exactly: the pieces that fit and
/// the blank columns after them add up to the number of columns.
pub proof fn law_line_fills_width(parts: Seq<(Seq<char>, Style)>, cols: nat, used: nat)
    requires
        used <= cols,
    ensures
        used + width_of(layout_from(parts, cols, used)) + fill_from(parts, cols, used) == cols,
    decreases parts.len(),
{
    if parts.len() > 0 {
        let t = crate::ui::fit_text(parts[0].0, crate::ui::room(cols, used));
        let first = seq![(t, parts[0].1)];
        assert(first.skip(1) =~= Seq::<(Seq<char>, Style)>::empty());
        assert(width_of(first.skip(1)) == 0);
        assert(width_of(first) == t.len());
        assert(t.len() <= crate::ui::room(cols, used));
        if used + t.len() >= cols {
        } else {
            law_line_fills_width(parts.skip(1), cols, used + t.len());
            let rest = layout_from(parts.skip(1), cols, used + t.len());
            assert((first + rest).skip(1) =~= rest);
        }
    }
}

/// A profile just saved is found by its name, at the end of the profiles;
/// so saving the same name again is refused.
pub proof fn law_saved_profile_is_found(before: Seq<Profile>, p: Profile)
    requires
        profile_index(before, p.name@) is None,
    ensures
        profile_index(before.push(p), p.name@) == Some(before.len() as int),
{
    crate::settings::lemma_profile_index_from(before, p.name@, 0);
    lemma_index_after_push(before, p, 0);
}

proof fn lemma_index_after_push(before: Seq<Profile>, p: Profile, k: int)
    requires
        0 <= k <= before.len(),
        forall|j: int| k <= j < before.len() ==> before[j].name@ != p.name@,
    ensures
        profile_index_from(before.push(p), p.name@, k) == Some(before.len() as int),
    decreases before.len() - k,
{
    if k < before.len() {
        lemma_index_after_push(before, p, k + 1);
    }
}

/// After a profile is forgotten, no saved profile has its name.
pub proof fn law_forgotten_profile_is_gone(ps: Seq<Profile>, name: Seq<char>)
    ensures
        profile_index(without_name(ps, name), name) is None,
{
    lemma_without_name(ps, name);
    crate::settings::lemma_profile_index_from(without_name(ps, name), name, 0);
}

proof fn lemma_without_name(ps: Seq<Profile>, name: Seq<char>)
    ensures
        forall|j: int| 0 <= j < without_name(ps, name).len() ==> #[trigger] without_name(ps, name)[j].name@ != name,
    decreases ps.len(),
{
    if ps.len() > 0 {
        lemma_without_name(ps.drop_last(), name);
    }
}

/// A reference parsed from a name gives that name back.
pub proof fn law_parsed_ref_keeps_name(name: Seq<char>, r: ProfileRef)
    requires
        (name == default_session() && r == ProfileRef::Default)
            || (r matches ProfileRef::Named(n) && n@ == name && valid_name(name)),
    ensures
        ref_name(r) == name,
{
}

/// The key `setup` picks on its own is one that nothing uses, and every
/// candidate before it is taken.
pub proof fn law_free_key_is_unused(used: Seq<(String, String)>)
    ensures
        free_from(used, 0) matches Some(i) ==> 0 <= i < candidates().len()
            && owner_in(used, candidates()[i]) is None
            && forall|j: int| 0 <= j < i ==> owner_in(used, #[trigger] candidates()[j]) is Some,
{
    lemma_free_from(used, 0);
}

proof fn lemma_free_from(used: Seq<(String, String)>, k: int)
    requires
        0 <= k,
    ensures
        free_from(used, k) matches Some(i) ==> k <= i < candidates().len()
            && owner_in(used, candidates()[i]) is None
            && forall|j: int| k <= j < i ==> owner_in(used, #[trigger] candidates()[j]) is Some,
    decreases candidates().len() - k,
{
    if k < candidates().len() && owner_in(used, candidates()[k]) is Some {
        lemma_free_from(used, k + 1);
    }
}

/// A theme without overrides whose name is missing or not a built-in one
/// gets the catppuccin palette.
pub proof fn law_unknown_theme_is_catppuccin(t: ThemeConfig, appearance: Option<Appearance>)
    requires
        !t.auto_switch,
        t.custom is None,
        t.name matches Some(n) ==> builtin_of(n@) is None,
    ensures
        builtin_of("catppuccin"@) is Some,
        resolved(t, appearance) == builtin_of("catppuccin"@).unwrap(),
{
    let c = "catppuccin"@;
    reveal_strlit("catppuccin");
    assert(crate::theme::all_ascii(c));
    assert(c.map_values(|ch: char| crate::theme::ascii_lower(ch)) =~= c);
    assert(crate::theme::dashed(c) =~= c);
}

/// A profile with a saved environment opens its window through
/// `<exe> exec <name> --`, and the name handed to `exec` finds that same
/// environment in the same settings.
pub proof fn law_saved_env_reaches_window(settings: Settings, target: ProfileRef, exe: Seq<char>)
    requires
        saved_env(settings, ref_name(target)).len() > 0,
    ensures
        exec_prefix(settings, target, exe) == seq![exe, "exec"@, ref_name(target), "--"@],
        saved_env(settings, exec_prefix(settings, target, exe)[2]) == saved_env(settings, ref_name(target)),
{
}

} // verus!
