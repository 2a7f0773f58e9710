//! The chooser popup's logic: what it shows and what each key does. Drawing
//! and reading keys happen around it.

use vstd::prelude::*;
use crate::keybinding::{KeyCombo, Status};
use crate::profiles::{state_of, ProfileRow};
use crate::theme::Rgb;
use crate::text::{chars_of, owned, string_of};

verus! {

/// `n` spaces.
pub open spec fn spaces(n: nat) -> Seq<char> {
    Seq::new(n, |i: int| ' ')
}

/// The first `width` characters of `text`.
pub open spec fn fit_text(text: Seq<char>, width: nat) -> Seq<char> {
    if text.len() <= width { text } else { text.take(width as int) }
}

/// `text` cut or filled with spaces to exactly `width` characters.
pub open spec fn pad_text(text: Seq<char>, width: nat) -> Seq<char> {
    if text.len() >= width { fit_text(text, width) } else { text + spaces((width - text.len()) as nat) }
}

/// `text` filled with spaces to at least `width` characters (`{:<width}`).
pub open spec fn left_aligned(text: Seq<char>, width: nat) -> Seq<char> {
    if text.len() >= width { text } else { text + spaces((width - text.len()) as nat) }
}

fn push_spaces(s: &mut String, n: usize)
    ensures
        final(s)@ == old(s)@ + spaces(n as nat),
{
    let mut i: usize = 0;
    while i < n
        invariant
            i <= n,
            s@ == old(s)@ + spaces(i as nat),
        decreases n - i,
    {
        s.append(" ");
        assert(spaces((i + 1) as nat) =~= spaces(i as nat) + " "@) by {
            reveal_strlit(" ");
        }
        i = i + 1;
    }
}

/// The first `width` characters of `text`.
pub fn fit(text: &str, width: usize) -> (r: String)
    ensures
        r@ == fit_text(text@, width as nat),
{
    let cs = chars_of(text);
    if cs.len() <= width {
        owned(text)
    } else {
        string_of(&cs.as_slice()[0..width])
    }
}

/// `text` cut or filled with spaces to exactly `width` characters.
pub fn pad(text: &str, width: usize) -> (r: String)
    ensures
        r@ == pad_text(text@, width as nat),
        r@.len() == width,
{
    let len = chars_of(text).len();
    if len >= width {
        fit(text, width)
    } else {
        let mut r = owned(text);
        push_spaces(&mut r, width - len);
        r
    }
}

/// `text` filled with spaces to at least `width` characters.
pub fn align_left(text: &str, width: usize) -> (r: String)
    ensures
        r@ == left_aligned(text@, width as nat),
{
    let len = chars_of(text).len();
    let mut r = owned(text);
    if len < width {
        push_spaces(&mut r, width - len);
    } else {
        assert(r@ == left_aligned(text@, width as nat));
    }
    r
}

/// The decimal digits of `n`.
pub open spec fn decimal(n: nat) -> Seq<char>
    decreases n,
{
    if n < 10 {
        seq![digit_char(n)]
    } else {
        decimal(n / 10) + seq![digit_char(n % 10)]
    }
}

/// The digit character of a value below ten.
pub open spec fn digit_char(d: nat) -> char {
    if d == 0 { '0' } else if d == 1 { '1' } else if d == 2 { '2' } else if d == 3 { '3' }
    else if d == 4 { '4' } else if d == 5 { '5' } else if d == 6 { '6' } else if d == 7 { '7' }
    else if d == 8 { '8' } else { '9' }
}

fn digit_exec(d: usize) -> (c: char)
    requires
        d < 10,
    ensures
        c == digit_char(d as nat),
{
    if d == 0 { '0' } else if d == 1 { '1' } else if d == 2 { '2' } else if d == 3 { '3' }
    else if d == 4 { '4' } else if d == 5 { '5' } else if d == 6 { '6' } else if d == 7 { '7' }
    else if d == 8 { '8' } else { '9' }
}

/// `n` written in decimal.
pub fn decimal_string(n: usize) -> (s: String)
    ensures
        s@ == decimal(n as nat),
    decreases n,
{
    if n < 10 {
        let v = vec![digit_exec(n)];
        let s = string_of(v.as_slice());
        assert(s@ =~= decimal(n as nat));
        s
    } else {
        let mut s = decimal_string(n / 10);
        let v = vec![digit_exec(n % 10)];
        let t = string_of(v.as_slice());
        s.append(t.as_str());
        assert(s@ =~= decimal(n as nat));
        s
    }
}

} // verus!

verus! {

/// How a piece of text is drawn.
#[derive(Clone, Copy, Debug, PartialEq, Eq, Structural)]
pub enum Style {
    Normal,
    Bold,
    Dim,
    Selected,
}

/// A piece of a line.
#[derive(Debug, PartialEq, Eq)]
pub struct Span {
    pub text: String,
    pub style: Style,
}

/// A piece of a line, as text and style.
pub open spec fn span_view(s: Span) -> (Seq<char>, Style) {
    (s.text@, s.style)
}

/// A line, as pieces of text and style.
pub open spec fn line_view(l: Vec<Span>) -> Seq<(Seq<char>, Style)> {
    l@.map_values(|s: Span| span_view(s))
}

/// The message at the bottom of the chooser.
#[derive(Debug, PartialEq, Eq)]
pub enum Message {
    Info(String),
    Error(String),
}

/// A screen of lines, and where the cursor shows (for a prompt).
#[derive(Debug)]
pub struct Frame {
    pub lines: Vec<Vec<Span>>,
    pub cursor: Option<(u16, u16)>,
}

/// The keys the chooser knows.
pub open spec fn hint() -> Seq<char> {
    "enter open  n new  x stop  d delete  s hotkey  q close"@
}

/// The label of a row: its label, with its name when that differs.
pub open spec fn row_label_text(row: ProfileRow) -> Seq<char> {
    if row.label@ == row.name@ { row.label@ } else { row.label@ + " ("@ + row.name@ + ")"@ }
}

/// `1 space`, `2 spaces`.
pub open spec fn spaces_text(n: nat) -> Seq<char> {
    decimal(n) + " space"@ + if n == 1 { ""@ } else { "s"@ }
}

/// The text of one row of the chooser, before it is fitted to the width.
pub open spec fn row_text(row: ProfileRow, selected: bool) -> Seq<char> {
    " "@ + (if selected { "▸"@ } else { " "@ }) + " "@ + pad_text(row_label_text(row), 22) + " "@
        + left_aligned(state_of(row.attached, row.running, row.remote is Some), 8) + " "@
        + left_aligned(spaces_text(row.spaces as nat), 10)
        + (if row.blocked > 0 { "  ● "@ + decimal(row.blocked as nat) + " blocked"@ } else { ""@ })
        + (if row.current { "  (this window)"@ } else { ""@ })
}

/// The style of one row: selected, running, or plain.
pub open spec fn row_style(row: ProfileRow, selected: bool) -> Style {
    if selected { Style::Selected } else if row.running { Style::Bold } else { Style::Normal }
}

/// One row of the chooser, fitted to `width`.
pub fn row_span(row: &ProfileRow, selected: bool, width: usize) -> (s: Span)
    ensures
        s.text@ == pad_text(row_text(*row, selected), width as nat),
        s.text@.len() == width,
        s.style == row_style(*row, selected),
{
    let label = if crate::text::str_eq(row.label.as_str(), row.name.as_str()) {
        row.label.clone()
    } else {
        let mut l = row.label.clone();
        l.append(" (");
        l.append(row.name.as_str());
        l.append(")");
        l
    };
    let mut spaces = decimal_string(row.spaces);
    spaces.append(" space");
    spaces.append(if row.spaces == 1 { "" } else { "s" });
    let blocked = if row.blocked > 0 {
        let mut b = owned("  ● ");
        b.append(decimal_string(row.blocked).as_str());
        b.append(" blocked");
        b
    } else {
        String::new()
    };
    let mut text = owned(" ");
    text.append(if selected { "▸" } else { " " });
    text.append(" ");
    text.append(pad(label.as_str(), 22).as_str());
    text.append(" ");
    text.append(align_left(row.state(), 8).as_str());
    text.append(" ");
    text.append(align_left(spaces.as_str(), 10).as_str());
    text.append(blocked.as_str());
    text.append(if row.current { "  (this window)" } else { "" });
    proof { reveal_strlit(""); }
    assert(text@ =~= row_text(*row, selected));
    let style = if selected {
        Style::Selected
    } else if row.running {
        Style::Bold
    } else {
        Style::Normal
    };
    Span { text: pad(text.as_str(), width), style }
}

} // verus!

verus! {

/// The chooser's state: its rows, the selected one, the message at the
/// bottom and the keybinding status it shows.
#[derive(Debug)]
pub struct Chooser {
    pub rows: Vec<ProfileRow>,
    pub selected: usize,
    pub message: Option<Message>,
    pub binding: Option<Status>,
}

/// Spaces between the title and the key hints.
pub open spec fn gap(cols: nat) -> nat {
    if cols > 63 + 1 { (cols - 63) as nat } else { 1 }
}

/// Number of rows of profiles that fit on a screen of `rows` lines.
pub open spec fn visible(rows: nat) -> nat {
    if rows > 4 + 1 { (rows - 4) as nat } else { 1 }
}

/// The first profile shown, so that the selected one is visible.
pub open spec fn first_shown(selected: nat, rows: nat) -> nat {
    if selected >= visible(rows) - 1 { (selected - (visible(rows) - 1)) as nat } else { 0 }
}

/// How many profiles are shown.
pub open spec fn shown_count(len: nat, first: nat, vis: nat) -> nat {
    if first >= len { 0 } else if len - first < vis { (len - first) as nat } else { vis }
}

/// The line that names the chooser's key.
pub open spec fn hotkey_text(binding: Option<Status>) -> Seq<char> {
    match binding {
        Some(st) => match st.binding {
            Some(b) => " hotkey: "@ + b.key@,
            None => " hotkey: none (press s to set one)"@,
        },
        None => " hotkey: none (press s to set one)"@,
    }
}

/// The last line but one: the prompt, else the message.
pub open spec fn footer_of(prompt: Option<Seq<char>>, message: Option<Message>) -> (Seq<char>, Style) {
    match prompt {
        Some(p) => (" "@ + p, Style::Normal),
        None => match message {
            Some(Message::Info(t)) => (" "@ + t@, Style::Dim),
            Some(Message::Error(t)) => (" "@ + t@, Style::Bold),
            None => (""@, Style::Normal),
        },
    }
}

/// The title line: the chooser's name and its key hints.
pub open spec fn head_line(cols: nat) -> Seq<(Seq<char>, Style)> {
    seq![(" Profiles"@, Style::Bold), (spaces(gap(cols)), Style::Normal), (hint(), Style::Dim)]
}

/// The notice shown when there is no profile at all.
pub open spec fn empty_lines(c: Chooser) -> Seq<Seq<(Seq<char>, Style)>> {
    if c.rows@.len() == 0 {
        seq![seq![("  No profiles yet. Press n to create one."@, Style::Dim)]]
    } else {
        seq![]
    }
}

/// The lines of the profiles that fit on the screen.
pub open spec fn shown_lines(c: Chooser, rows: nat, cols: nat) -> Seq<Seq<(Seq<char>, Style)>> {
    let first = first_shown(c.selected as nat, rows);
    let n = shown_count(c.rows@.len(), first, visible(rows));
    Seq::new(n, |j: int| seq![(
        pad_text(row_text(c.rows@[first + j], first + j == c.selected), cols),
        row_style(c.rows@[first + j], first + j == c.selected),
    )])
}

/// The lines above the footer, before they are fitted to the screen.
pub open spec fn content(c: Chooser, rows: nat, cols: nat) -> Seq<Seq<(Seq<char>, Style)>> {
    seq![head_line(cols), seq![(hotkey_text(c.binding), Style::Dim)]] + empty_lines(c) + shown_lines(c, rows, cols)
}

/// `lines` cut or filled with empty lines to exactly `n` lines.
pub open spec fn fit_lines(lines: Seq<Seq<(Seq<char>, Style)>>, n: nat) -> Seq<Seq<(Seq<char>, Style)>> {
    if lines.len() >= n {
        lines.take(n as int)
    } else {
        lines + Seq::new((n - lines.len()) as nat, |i: int| Seq::<(Seq<char>, Style)>::empty())
    }
}

/// The chooser's screen of `rows` lines and `cols` columns: title and key
/// hints, the hotkey, the visible profiles, and the prompt or message on the
/// last line but one.
pub open spec fn frame_lines(c: Chooser, prompt: Option<Seq<char>>, rows: nat, cols: nat) -> Seq<Seq<(Seq<char>, Style)>> {
    fit_lines(content(c, rows, cols), (rows - 1) as nat).update(rows - 2, seq![footer_of(prompt, c.message)])
}

/// A line of pieces built from `(text, style)` pairs.
fn line_of(parts: Vec<(String, Style)>) -> (l: Vec<Span>)
    ensures
        line_view(l) == parts@.map_values(|p: (String, Style)| (p.0@, p.1)),
{
    let mut l: Vec<Span> = Vec::new();
    let mut parts = parts;
    let ghost all = parts@;
    let mut i: usize = 0;
    let n = parts.len();
    while i < n
        invariant
            n == all.len(),
            i <= n,
            parts@ == all.skip(i as int),
            line_view(l) == all.take(i as int).map_values(|p: (String, Style)| (p.0@, p.1)),
        decreases n - i,
    {
        let (t, st) = parts.remove(0);
        let ghost before = line_view(l);
        l.push(Span { text: t, style: st });
        assert(line_view(l) =~= before.push((all[i as int].0@, all[i as int].1)));
        assert(all.take(i + 1) =~= all.take(i as int).push(all[i as int]));
        assert(parts@ =~= all.skip(i + 1));
        i = i + 1;
    }
    assert(all.take(n as int) =~= all);
    l
}

impl Chooser {
    pub fn new() -> (c: Chooser)
        ensures
            c.rows@.len() == 0,
            c.selected == 0,
            c.message is None,
            c.binding is None,
    {
        Chooser { rows: Vec::new(), selected: 0, message: None, binding: None }
    }

    /// The chooser on a screen of `rows` lines and `cols` columns.
    pub fn frame(&self, prompt: Option<&str>, rows: usize, cols: usize) -> (f: Frame)
        requires
            rows >= 2,
        ensures
            f.lines@.map_values(|l: Vec<Span>| line_view(l)) == frame_lines(
                *self,
                match prompt { Some(p) => Some(p@), None => None },
                rows as nat,
                cols as nat,
            ),
            f.cursor == match prompt {
                Some(p) => Some((((p@.len() + 1) % 65536) as u16, ((rows - 2) % 65536) as u16)),
                None => None,
            },
    {
        let ghost target = content(*self, rows as nat, cols as nat);
        let mut lines: Vec<Vec<Span>> = Vec::new();
        let g: usize = if cols > 64 { cols - 63 } else { 1 };
        let mut gs = String::new();
        push_spaces(&mut gs, g);
        let head = line_of(vec![(owned(" Profiles"), Style::Bold), (gs, Style::Normal),
            (owned("enter open  n new  x stop  d delete  s hotkey  q close"), Style::Dim)]);
        assert(line_view(head) =~= head_line(cols as nat));
        lines.push(head);
        let hot = match &self.binding {
            Some(st) => match &st.binding {
                Some(b) => {
                    let mut h = owned(" hotkey: ");
                    h.append(b.key.as_str());
                    h
                },
                None => owned(" hotkey: none (press s to set one)"),
            },
            None => owned(" hotkey: none (press s to set one)"),
        };
        let hot_line = line_of(vec![(hot, Style::Dim)]);
        assert(line_view(hot_line) =~= seq![(hotkey_text(self.binding), Style::Dim)]);
        lines.push(hot_line);
        if self.rows.len() == 0 {
            let e = line_of(vec![(owned("  No profiles yet. Press n to create one."), Style::Dim)]);
            assert(line_view(e) =~= seq![("  No profiles yet. Press n to create one."@, Style::Dim)]);
            lines.push(e);
        }
        let vis: usize = if rows > 5 { rows - 4 } else { 1 };
        let first: usize = if self.selected >= vis - 1 { self.selected - (vis - 1) } else { 0 };
        let count: usize = if first >= self.rows.len() {
            0
        } else if self.rows.len() - first < vis {
            self.rows.len() - first
        } else {
            vis
        };
        let ghost pre_len = lines@.len();
        let ghost shown = shown_lines(*self, rows as nat, cols as nat);
        assert(pre_len == 2 + empty_lines(*self).len());
        assert(target =~= (seq![head_line(cols as nat), seq![(hotkey_text(self.binding), Style::Dim)]] + empty_lines(*self)) + shown);
        assert(lines@.map_values(|l: Vec<Span>| line_view(l)) =~= target.take(pre_len as int));
        let mut j: usize = 0;
        while j < count
            invariant
                target == content(*self, rows as nat, cols as nat),
                shown == shown_lines(*self, rows as nat, cols as nat),
                target.len() == pre_len + shown.len(),
                forall|m: int| 0 <= m < shown.len() ==> target[pre_len + m] == #[trigger] shown[m],
                first == first_shown(self.selected as nat, rows as nat),
                count == shown_count(self.rows@.len(), first as nat, visible(rows as nat)),
                pre_len == target.len() - count,
                j <= count,
                lines@.len() == pre_len + j,
                lines@.map_values(|l: Vec<Span>| line_view(l)) =~= target.take(pre_len + j),
            decreases count - j,
        {
            let idx = first + j;
            let sp = row_span(&self.rows[idx], idx == self.selected, cols);
            let ghost before = lines@.map_values(|l: Vec<Span>| line_view(l));
            let rl = line_of(vec![(sp.text, sp.style)]);
            assert(line_view(rl) =~= shown[j as int]);
            assert(shown[j as int] == target[pre_len + j]);
            lines.push(rl);
            assert(lines@.map_values(|l: Vec<Span>| line_view(l)) =~= before.push(target[pre_len + j]));
            assert(target.take(pre_len + j + 1) =~= target.take(pre_len + j).push(target[pre_len + j]));
            j = j + 1;
        }
        assert(lines@.map_values(|l: Vec<Span>| line_view(l)) =~= target);
        while lines.len() < rows - 1
            invariant
                rows >= 2,
                target == content(*self, rows as nat, cols as nat),
                target.len() <= lines@.len(),
                lines@.len() == target.len() || lines@.len() <= rows - 1,
                lines@.map_values(|l: Vec<Span>| line_view(l)) =~= target + Seq::new(
                    (lines@.len() - target.len()) as nat,
                    |i: int| Seq::<(Seq<char>, Style)>::empty(),
                ),
            decreases rows - 1 - lines@.len(),
        {
            let ghost before = lines@.map_values(|l: Vec<Span>| line_view(l));
            let e: Vec<Span> = Vec::new();
            assert(line_view(e) =~= Seq::<(Seq<char>, Style)>::empty());
            lines.push(e);
            assert(lines@.map_values(|l: Vec<Span>| line_view(l)) =~= before.push(Seq::<(Seq<char>, Style)>::empty()));
        }
        let ghost padded = lines@.map_values(|l: Vec<Span>| line_view(l));
        let ghost fit_target = fit_lines(target, (rows - 1) as nat);
        lines.truncate(rows - 1);
        proof {
            if target.len() >= rows - 1 {
                assert(lines@.len() == target.len() || lines@.len() == rows - 1);
                assert(padded =~= target);
            } else {
                assert(lines@.len() == rows - 1);
            }
        }
        assert(lines@.map_values(|l: Vec<Span>| line_view(l)) =~= fit_target);
        let mut cursor: Option<(u16, u16)> = None;
        let ghost want = footer_of(match prompt { Some(p) => Some(p@), None => None }, self.message);
        let footer = match prompt {
            Some(p) => {
                let n = chars_of(p).len();
                let col = (n % 65536) as u16;
                let col = if col == 65535 { 0 } else { col + 1 };
                assert(col == ((p@.len() + 1) % 65536) as u16);
                cursor = Some((col, ((rows - 2) % 65536) as u16));
                let mut t = owned(" ");
                t.append(p);
                (t, Style::Normal)
            },
            None => match &self.message {
                Some(Message::Info(t)) => {
                    let mut s = owned(" ");
                    s.append(t.as_str());
                    (s, Style::Dim)
                },
                Some(Message::Error(t)) => {
                    let mut s = owned(" ");
                    s.append(t.as_str());
                    (s, Style::Bold)
                },
                None => {
                    proof { reveal_strlit(""); }
                    (String::new(), Style::Normal)
                },
            },
        };
        assert((footer.0@, footer.1) == want);
        let fl = line_of(vec![footer]);
        assert(line_view(fl) =~= seq![want]);
        let ghost fitted = lines@.map_values(|l: Vec<Span>| line_view(l));
        lines[rows - 2] = fl;
        assert(lines@.map_values(|l: Vec<Span>| line_view(l)) =~= fitted.update(rows - 2, seq![want]));
        Frame { lines, cursor }
    }
}

} // verus!

verus! {

/// A key the chooser reacts to.
#[derive(Clone, Copy, Debug, PartialEq, Eq, Structural)]
pub enum Key {
    Up,
    Down,
    Enter,
    Esc,
    Backspace,
    Char(char),
}

/// What the chooser asks for after a key.
#[derive(Clone, Copy, Debug, PartialEq, Eq, Structural)]
pub enum Action {
    /// Close the popup.
    Exit,
    /// Open the selected profile.
    Open,
    /// Read the profiles again.
    Refresh,
    /// Ask for a new hotkey.
    SetHotkey,
    /// Ask for the name of a new profile.
    Create,
    /// Stop the selected profile.
    Stop,
    /// Delete the selected profile.
    Delete,
    /// Nothing to do.
    Stay,
}

/// The selection one row down, wrapping around.
pub open spec fn next_index(selected: nat, count: nat) -> nat {
    (((selected + 1) as int) % (count as int)) as nat
}

/// The selection one row up, wrapping around.
pub open spec fn prev_index(selected: nat, count: nat) -> nat {
    (((selected + count - 1) as int) % (count as int)) as nat
}

/// The new selection and the action for `key`, with `count` rows and row
/// `selected` selected.
pub open spec fn key_effect(count: nat, selected: nat, key: Key) -> (nat, Action) {
    match key {
        Key::Esc => (selected, Action::Exit),
        Key::Down => if count > 0 { (next_index(selected, count), Action::Stay) } else { (selected, Action::Stay) },
        Key::Up => if count > 0 { (prev_index(selected, count), Action::Stay) } else { (selected, Action::Stay) },
        Key::Enter => (selected, Action::Open),
        Key::Backspace => (selected, Action::Stay),
        Key::Char(c) => if c == 'q' {
            (selected, Action::Exit)
        } else if c == 'j' && count > 0 {
            (next_index(selected, count), Action::Stay)
        } else if c == 'k' && count > 0 {
            (prev_index(selected, count), Action::Stay)
        } else if '1' <= c && c <= '9' && (c as int - '1' as int) < count {
            ((c as int - '1' as int) as nat, Action::Open)
        } else if c == 'r' {
            (selected, Action::Refresh)
        } else if c == 's' {
            (selected, Action::SetHotkey)
        } else if c == 'n' {
            (selected, Action::Create)
        } else if c == 'x' {
            (selected, Action::Stop)
        } else if c == 'd' {
            (selected, Action::Delete)
        } else {
            (selected, Action::Stay)
        },
    }
}

fn next_exec(selected: usize, count: usize) -> (r: usize)
    requires
        count > 0,
    ensures
        r == next_index(selected as nat, count as nat),
        r < count,
{
    let m = selected % count;
    proof {
        vstd::arithmetic::div_mod::lemma_add_mod_noop_right(1, selected as int, count as int);
    }
    (m + 1) % count
}

fn prev_exec(selected: usize, count: usize) -> (r: usize)
    requires
        count > 0,
    ensures
        r == prev_index(selected as nat, count as nat),
        r < count,
{
    let m = selected % count;
    proof {
        vstd::arithmetic::div_mod::lemma_add_mod_noop_right(count - 1, selected as int, count as int);
        assert(((selected + count - 1) as int) % (count as int) == ((m + (count - 1)) as int) % (count as int));
    }
    if m == 0 {
        proof { vstd::arithmetic::div_mod::lemma_small_mod((count - 1) as nat, count as nat); }
        count - 1
    } else {
        proof {
            vstd::arithmetic::div_mod::lemma_mod_add_multiples_vanish(m - 1, count as int);
            vstd::arithmetic::div_mod::lemma_small_mod((m - 1) as nat, count as nat);
        }
        m - 1
    }
}

} // verus!

verus! {

/// Index of the first row at or after `k` named `name`.
pub open spec fn position_from(rows: Seq<ProfileRow>, name: Seq<char>, k: int) -> Option<int>
    decreases rows.len() - k,
{
    if k < 0 || k >= rows.len() {
        None
    } else if rows[k].name@ == name {
        Some(k)
    } else {
        position_from(rows, name, k + 1)
    }
}

/// Index of the first row named `name`.
pub open spec fn position(rows: Seq<ProfileRow>, name: Seq<char>) -> Option<int> {
    position_from(rows, name, 0)
}

/// The selection after new rows arrive: the row named `wanted` when there is
/// one, else the old selection, kept within the rows.
pub open spec fn reselected(rows: Seq<ProfileRow>, wanted: Option<Seq<char>>, selected: nat) -> nat {
    let s = match wanted {
        Some(w) => match position(rows, w) {
            Some(i) => i as nat,
            None => selected,
        },
        None => selected,
    };
    if rows.len() == 0 { 0 } else if s > rows.len() - 1 { (rows.len() - 1) as nat } else { s }
}

fn position_exec(rows: &Vec<ProfileRow>, name: &str) -> (r: Option<usize>)
    ensures
        match r {
            Some(i) => position(rows@, name@) == Some(i as int),
            None => position(rows@, name@) is None,
        },
{
    let mut i: usize = 0;
    while i < rows.len()
        invariant
            i <= rows@.len(),
            position(rows@, name@) == position_from(rows@, name@, i as int),
        decreases rows@.len() - i,
    {
        if crate::text::str_eq(rows[i].name.as_str(), name) {
            return Some(i);
        }
        i = i + 1;
    }
    None
}

impl Chooser {
    /// The chooser's own invariant: the status it holds lists each used key once.
    pub open spec fn wf(&self) -> bool {
        self.binding matches Some(st) ==> crate::keybinding::unique_keys(st.used@)
    }

    /// Moves the selection or asks for an action, as `key` says.
    pub fn handle(&mut self, key: Key) -> (a: Action)
        ensures
            (final(self).selected as nat, a) == key_effect(old(self).rows@.len(), old(self).selected as nat, key),
            final(self).rows == old(self).rows,
            final(self).binding == old(self).binding,
            final(self).message == if a == Action::Refresh { None } else { old(self).message },
    {
        let count = self.rows.len();
        match key {
            Key::Esc => Action::Exit,
            Key::Down => {
                if count > 0 {
                    self.selected = next_exec(self.selected, count);
                }
                Action::Stay
            },
            Key::Up => {
                if count > 0 {
                    self.selected = prev_exec(self.selected, count);
                }
                Action::Stay
            },
            Key::Enter => Action::Open,
            Key::Backspace => Action::Stay,
            Key::Char(c) => {
                if c == 'q' {
                    Action::Exit
                } else if c == 'j' && count > 0 {
                    self.selected = next_exec(self.selected, count);
                    Action::Stay
                } else if c == 'k' && count > 0 {
                    self.selected = prev_exec(self.selected, count);
                    Action::Stay
                } else if '1' <= c && c <= '9' && ((c as u32 - '1' as u32) as usize) < count {
                    self.selected = (c as u32 - '1' as u32) as usize;
                    Action::Open
                } else if c == 'r' {
                    self.message = None;
                    Action::Refresh
                } else if c == 's' {
                    Action::SetHotkey
                } else if c == 'n' {
                    Action::Create
                } else if c == 'x' {
                    Action::Stop
                } else if c == 'd' {
                    Action::Delete
                } else {
                    Action::Stay
                }
            },
        }
    }

    /// Takes new rows: selects the row named `select`, else the one named
    /// `last` (the profile opened last), else keeps the selection within the
    /// rows; and reads the hotkey status from the text of Herdr's config
    /// (`None` when it could not be read) and of its default config.
    pub fn refresh(
        &mut self,
        rows: Vec<ProfileRow>,
        select: Option<&str>,
        last: Option<&str>,
        config: Option<&str>,
        config_path: &str,
        defaults: &str,
    )
        ensures
            final(self).rows == rows,
            final(self).selected as nat == reselected(
                rows@,
                match select {
                    Some(s) => Some(s@),
                    None => match last {
                        Some(l) => Some(l@),
                        None => None,
                    },
                },
                old(self).selected as nat,
            ),
            final(self).message == old(self).message,
            match config {
                Some(c) => final(self).binding matches Some(st)
                    && crate::keybinding::binding_view(st.binding) == crate::keybinding::binding_text(c@)
                    && st.config@ == config_path@
                    && forall|k: Seq<char>| crate::keybinding::owner_in(st.used@, k)
                        == crate::keybinding::status_owner(c@, defaults@, k),
                None => final(self).binding is None,
            },
            final(self).wf(),
    {
        let wanted = match select {
            Some(s) => Some(s),
            None => last,
        };
        let ghost want = match select {
            Some(s) => Some(s@),
            None => match last {
                Some(l) => Some(l@),
                None => None,
            },
        };
        assert(want == match wanted { Some(w) => Some(w@), None => None::<Seq<char>> });
        let found = match wanted {
            Some(w) => position_exec(&rows, w),
            None => None,
        };
        assert(match found {
            Some(i) => want matches Some(w) && position(rows@, w) == Some(i as int),
            None => match want { Some(w) => position(rows@, w) is None, None => true },
        });
        let mut s = match found {
            Some(i) => i,
            None => self.selected,
        };
        if rows.len() == 0 {
            s = 0;
        } else if s > rows.len() - 1 {
            s = rows.len() - 1;
        }
        self.rows = rows;
        self.selected = s;
        self.binding = match config {
            Some(c) => Some(crate::keybinding::status(c, config_path, defaults)),
            None => None,
        };
    }

    /// Shows `text` as information.
    pub fn info(&mut self, text: String)
        ensures
            final(self).message == Some(Message::Info(text)),
            final(self).rows == old(self).rows,
            final(self).selected == old(self).selected,
            final(self).binding == old(self).binding,
    {
        self.message = Some(Message::Info(text));
    }

    /// Shows `text` as an error.
    pub fn error(&mut self, text: String)
        ensures
            final(self).message == Some(Message::Error(text)),
            final(self).rows == old(self).rows,
            final(self).selected == old(self).selected,
            final(self).binding == old(self).binding,
    {
        self.message = Some(Message::Error(text));
    }

    /// The selected row, if any.
    pub fn selected_row(&self) -> (r: Option<&ProfileRow>)
        ensures
            match r {
                Some(row) => self.selected < self.rows@.len() && *row == self.rows@[self.selected as int],
                None => self.selected >= self.rows@.len(),
            },
    {
        if self.selected < self.rows.len() {
            Some(&self.rows[self.selected])
        } else {
            None
        }
    }
}

} // verus!

verus! {

fn joined(a: &str, b: &str, c: &str) -> (r: String)
    ensures
        r@ == a@ + b@ + c@,
{
    let mut r = owned(a);
    r.append(b);
    r.append(c);
    r
}

/// Why the selected row cannot be stopped, if it cannot.
pub open spec fn stop_refusal(row: ProfileRow) -> Option<Seq<char>> {
    if row.protected {
        Some("The default profile is Herdr itself; stop it with `herdr server stop`."@)
    } else if !row.running {
        Some("'"@ + row.name@ + "' is not running."@)
    } else if row.current {
        Some("That is this window. Use ctrl+b q to detach or herdr session stop."@)
    } else if row.attached {
        Some("'"@ + row.name@ + "' is open in another window; close it there first."@)
    } else {
        None
    }
}

/// Why the selected row cannot be deleted, if it cannot.
pub open spec fn delete_refusal(row: ProfileRow) -> Option<Seq<char>> {
    if row.protected {
        Some("The default profile cannot be deleted."@)
    } else if row.running {
        Some("Stop '"@ + row.name@ + "' before deleting it."@)
    } else {
        None
    }
}

/// The question asked before stopping a profile.
pub open spec fn stop_question(name: Seq<char>) -> Seq<char> {
    "Stop '"@ + name + "' and its agents?"@
}

/// The question asked before deleting a profile.
pub open spec fn delete_question(name: Seq<char>, spaces: nat) -> Seq<char> {
    "Delete '"@ + name + "' and its "@ + decimal(spaces) + " saved spaces?"@
}

/// What a request on the selected row does to the chooser: with no row
/// selected nothing; when `refusal` says no, that error shows; else the
/// question is asked and nothing changes yet.
pub open spec fn request_outcome(
    c: Chooser,
    after: Chooser,
    q: Option<String>,
    refusal: spec_fn(ProfileRow) -> Option<Seq<char>>,
    question: spec_fn(ProfileRow) -> Seq<char>,
) -> bool {
    &&& after.rows == c.rows
    &&& after.selected == c.selected
    &&& after.binding == c.binding
    &&& if c.selected >= c.rows@.len() {
        q is None && after.message == c.message
    } else {
        let row = c.rows@[c.selected as int];
        match refusal(row) {
            Some(e) => q is None && (after.message matches Some(Message::Error(t)) && t@ == e),
            None => after.message == c.message && (q matches Some(t) && t@ == question(row)),
        }
    }
}

/// The message after an operation on profile `name`: `done` when it
/// succeeded, else the error it failed with.
pub open spec fn outcome_message(outcome: Result<(), String>, done: Seq<char>, m: Option<Message>) -> bool {
    match outcome {
        Ok(()) => m matches Some(Message::Info(t)) && t@ == done,
        Err(e) => m == Some(Message::Error(e)),
    }
}

impl Chooser {
    /// Checks that the selected profile may be stopped. Returns the question
    /// to confirm, or shows why not.
    pub fn stop_selected(&mut self) -> (q: Option<String>)
        ensures
            request_outcome(*old(self), *final(self), q, |r: ProfileRow| stop_refusal(r), |r: ProfileRow| stop_question(r.name@)),
    {
        if self.selected >= self.rows.len() {
            return None;
        }
        let row = &self.rows[self.selected];
        let name = row.name.as_str();
        let refusal = if row.protected {
            Some(owned("The default profile is Herdr itself; stop it with `herdr server stop`."))
        } else if !row.running {
            Some(joined("'", name, "' is not running."))
        } else if row.current {
            Some(owned("That is this window. Use ctrl+b q to detach or herdr session stop."))
        } else if row.attached {
            Some(joined("'", name, "' is open in another window; close it there first."))
        } else {
            None
        };
        match refusal {
            Some(e) => {
                self.message = Some(Message::Error(e));
                None
            },
            None => Some(joined("Stop '", name, "' and its agents?")),
        }
    }

    /// Checks that the selected profile may be deleted. Returns the question
    /// to confirm, or shows why not.
    pub fn delete_selected(&mut self) -> (q: Option<String>)
        ensures
            request_outcome(*old(self), *final(self), q, |r: ProfileRow| delete_refusal(r), |r: ProfileRow| delete_question(r.name@, r.spaces as nat)),
    {
        if self.selected >= self.rows.len() {
            return None;
        }
        let row = &self.rows[self.selected];
        let name = row.name.as_str();
        if row.protected {
            self.message = Some(Message::Error(owned("The default profile cannot be deleted.")));
            None
        } else if row.running {
            self.message = Some(Message::Error(joined("Stop '", name, "' before deleting it.")));
            None
        } else {
            let mut q = joined("Delete '", name, "' and its ");
            q.append(decimal_string(row.spaces).as_str());
            q.append(" saved spaces?");
            Some(q)
        }
    }

    /// Reports a stop of profile `name`.
    pub fn stopped(&mut self, name: &str, outcome: Result<(), String>)
        ensures
            outcome_message(outcome, "Stopped '"@ + name@ + "'."@, final(self).message),
            final(self).rows == old(self).rows,
            final(self).selected == old(self).selected,
            final(self).binding == old(self).binding,
    {
        match outcome {
            Ok(()) => self.message = Some(Message::Info(joined("Stopped '", name, "'."))),
            Err(e) => self.message = Some(Message::Error(e)),
        }
    }

    /// Reports a deletion of profile `name`.
    pub fn deleted(&mut self, name: &str, outcome: Result<(), String>)
        ensures
            outcome_message(outcome, "Deleted '"@ + name@ + "'."@, final(self).message),
            final(self).rows == old(self).rows,
            final(self).selected == old(self).selected,
            final(self).binding == old(self).binding,
    {
        match outcome {
            Ok(()) => self.message = Some(Message::Info(joined("Deleted '", name, "'."))),
            Err(e) => self.message = Some(Message::Error(e)),
        }
    }

    /// Reports the creation of profile `name`.
    pub fn created(&mut self, name: &str, outcome: &Result<(), crate::profiles::StoreError>)
        ensures
            match outcome {
                Ok(()) => final(self).message matches Some(Message::Info(t))
                    && t@ == "Created '"@ + name@ + "'. Press enter to open it."@,
                Err(e) => final(self).message matches Some(Message::Error(t))
                    && t@ == crate::profiles::store_error_text(*e),
            },
            final(self).rows == old(self).rows,
            final(self).selected == old(self).selected,
            final(self).binding == old(self).binding,
    {
        match outcome {
            Ok(()) => self.message = Some(Message::Info(joined("Created '", name, "'. Press enter to open it."))),
            Err(e) => self.message = Some(Message::Error(e.message())),
        }
    }

    /// Reports the attempt to open the selected profile: on success the
    /// chooser closes; else the error shows and it stays.
    pub fn opened(&mut self, outcome: Result<(), String>) -> (exit: bool)
        ensures
            exit == outcome is Ok,
            match outcome {
                Ok(()) => final(self).message == old(self).message,
                Err(e) => final(self).message == Some(Message::Error(e)),
            },
            final(self).rows == old(self).rows,
            final(self).selected == old(self).selected,
            final(self).binding == old(self).binding,
    {
        match outcome {
            Ok(()) => true,
            Err(e) => {
                self.message = Some(Message::Error(e));
                false
            },
        }
    }
}

} // verus!

verus! {

/// The hotkey a status shows, if one is bound.
pub open spec fn bound_key(binding: Option<Status>) -> Option<Seq<char>> {
    match binding {
        Some(st) => match st.binding {
            Some(b) => Some(b.key@),
            None => None,
        },
        None => None,
    }
}

/// The question asked before taking a key someone else uses.
pub open spec fn taken_question(key: Seq<char>, owner: Seq<char>) -> Seq<char> {
    key + " is used by "@ + owner + ". Bind anyway?"@
}

/// The error shown for a key that does not follow Herdr's syntax.
pub open spec fn key_error_text() -> Seq<char> {
    "key must look like prefix+a, ctrl+alt+p or prefix+shift+f2 (a modifier plus one key)"@
}

/// One step of editing the text of a prompt.
#[derive(Debug, PartialEq, Eq)]
pub enum PromptStep {
    /// The prompt was dismissed.
    Cancel,
    /// The prompt was answered with this text, trimmed.
    Done(String),
    /// The text was edited, or left alone.
    Editing,
}

/// The most characters a prompt takes.
pub const PROMPT_LIMIT: usize = 64;

/// The text of a prompt after `key`.
pub open spec fn edited(text: Seq<char>, key: Key) -> Seq<char> {
    match key {
        Key::Backspace => if text.len() > 0 { text.drop_last() } else { text },
        Key::Char(c) => if text.len() < PROMPT_LIMIT { text.push(c) } else { text },
        _ => text,
    }
}

/// Applies `key` to the text of a prompt: escape cancels, enter answers
/// with the trimmed text, backspace removes the last character, and a
/// character is added while the text is shorter than the limit.
pub fn prompt_step(text: &mut String, key: Key) -> (r: PromptStep)
    ensures
        match key {
            Key::Esc => r == PromptStep::Cancel,
            Key::Enter => r matches PromptStep::Done(t) && t@ == crate::text::trim(old(text)@),
            _ => r == PromptStep::Editing,
        },
        final(text)@ == edited(old(text)@, key),
{
    match key {
        Key::Esc => PromptStep::Cancel,
        Key::Enter => {
            let cs = chars_of(text.as_str());
            let t = crate::text::trim_chars(cs.as_slice());
            PromptStep::Done(string_of(t.as_slice()))
        },
        Key::Backspace => {
            let cs = chars_of(text.as_str());
            if cs.len() > 0 {
                let shorter = string_of(&cs.as_slice()[0..cs.len() - 1]);
                assert(shorter@ =~= old(text)@.drop_last());
                *text = shorter;
            }
            PromptStep::Editing
        },
        Key::Char(c) => {
            let cs = chars_of(text.as_str());
            if cs.len() < PROMPT_LIMIT {
                let mut longer = cs;
                longer.push(c);
                *text = string_of(longer.as_slice());
            }
            PromptStep::Editing
        },
        _ => PromptStep::Editing,
    }
}

/// The footer of a prompt: its label and the text typed so far.
pub fn prompt_line(label: &str, text: &str) -> (r: String)
    ensures
        r@ == label@ + " "@ + text@,
{
    joined(label, " ", text)
}

/// The footer of a yes/no question.
pub fn confirm_line(question: &str) -> (r: String)
    ensures
        r@ == question@ + " [y/N]"@,
{
    let mut r = owned(question);
    r.append(" [y/N]");
    r
}

/// Whether `key` answers a yes/no question with yes.
pub fn confirmed(key: Key) -> (b: bool)
    ensures
        b == (key == Key::Char('y') || key == Key::Char('Y')),
{
    match key {
        Key::Char(c) => c == 'y' || c == 'Y',
        _ => false,
    }
}

impl Chooser {
    /// The text the hotkey prompt starts with: the bound key, if any.
    pub fn hotkey_initial(&self) -> (r: String)
        ensures
            r@ == match bound_key(self.binding) {
                Some(k) => k,
                None => ""@,
            },
    {
        proof { reveal_strlit(""); }
        match &self.binding {
            Some(st) => match &st.binding {
                Some(b) => b.key.clone(),
                None => String::new(),
            },
            None => String::new(),
        }
    }

    /// Checks the hotkey typed into the prompt. Shows an error for one that
    /// is not a key; else returns it, with the question to confirm when
    /// something else uses it.
    pub fn hotkey_request(&mut self, input: &str) -> (r: Option<(KeyCombo, Option<String>)>)
        requires
            old(self).wf(),
        ensures
            final(self).rows == old(self).rows,
            final(self).selected == old(self).selected,
            final(self).binding == old(self).binding,
            !crate::keybinding::valid_key(input@) ==> r is None
                && (final(self).message matches Some(Message::Error(t)) && t@ == key_error_text()),
            crate::keybinding::valid_key(input@) ==> final(self).message == old(self).message
                && (r matches Some((k, q)) && k@ == input@ && match old(self).binding {
                    Some(st) => match crate::keybinding::owner_in(st.used@, input@) {
                        Some(o) => q matches Some(t) && t@ == taken_question(input@, o),
                        None => q is None,
                    },
                    None => q is None,
                }),
    {
        let key = match KeyCombo::parse(input) {
            Ok(k) => k,
            Err(e) => {
                self.message = Some(Message::Error(e.message()));
                return None;
            },
        };
        let question = match &self.binding {
            Some(st) => match st.owner_of(&key) {
                Some(owner) => {
                    let mut q = joined(key.as_str(), " is used by ", owner);
                    q.append(". Bind anyway?");
                    Some(q)
                },
                None => None,
            },
            None => None,
        };
        Some((key, question))
    }

    /// Reports setting the hotkey to `key`.
    pub fn hotkey_set(&mut self, key: &KeyCombo, outcome: Result<(), String>)
        ensures
            outcome_message(outcome, "Hotkey set to "@ + key@ + ". Config reloaded."@, final(self).message),
            final(self).rows == old(self).rows,
            final(self).selected == old(self).selected,
            final(self).binding == old(self).binding,
    {
        match outcome {
            Ok(()) => self.message = Some(Message::Info(joined("Hotkey set to ", key.as_str(), ". Config reloaded."))),
            Err(e) => self.message = Some(Message::Error(e)),
        }
    }
}

} // verus!

verus! {

/// Bytes read as Latin-1 characters: ASCII stays itself and no other byte
/// becomes an ASCII character.
pub open spec fn latin1(data: Seq<u8>) -> Seq<char> {
    data.map_values(|b: u8| b as char)
}

/// What a terminal's answer to an OSC 11 query starts with.
pub open spec fn reply_start() -> Seq<char> {
    seq!['\x1b', ']', '1', '1', ';', 'r', 'g', 'b', ':']
}

/// Index of the first BEL or ESC at or after `k`, else the length.
pub open spec fn reply_end_from(s: Seq<char>, k: int) -> int
    decreases s.len() - k,
{
    if k < 0 || k >= s.len() {
        s.len() as int
    } else if s[k] == '\x07' || s[k] == '\x1b' {
        k
    } else {
        reply_end_from(s, k + 1)
    }
}

/// A color channel: the first two characters of `part` read as a hex
/// number (`u8::from_str_radix(.., 16)`, which takes a leading `+`).
pub open spec fn channel(part: Seq<char>) -> Option<u8> {
    if part.len() < 2 {
        None
    } else if part[0] == '+' {
        crate::theme::hex_val(part[1])
    } else {
        match (crate::theme::hex_val(part[0]), crate::theme::hex_val(part[1])) {
            (Some(a), Some(b)) => Some((a * 16 + b) as u8),
            _ => None,
        }
    }
}

/// The background color in a terminal's answer to an OSC 11 query, as in
/// `ESC ] 11 ; rgb:2828/2828/2828 ESC \`: the first two hex digits of each of
/// the first three channels.
pub open spec fn background_reply(data: Seq<u8>) -> Option<Rgb> {
    let t = latin1(data);
    match crate::text::find(t, reply_start()) {
        None => None,
        Some(i) => {
            let rest = t.skip(i + reply_start().len());
            let parts = crate::text::split_char(rest.take(reply_end_from(rest, 0)), '/');
            if parts.len() >= 3 && channel(parts[0]) is Some && channel(parts[1]) is Some
                && channel(parts[2]) is Some {
                Some(Rgb {
                    r: channel(parts[0]).unwrap(),
                    g: channel(parts[1]).unwrap(),
                    b: channel(parts[2]).unwrap(),
                })
            } else {
                None
            }
        },
    }
}

fn latin1_exec(data: &[u8]) -> (r: Vec<char>)
    ensures
        r@ == latin1(data@),
{
    let mut r: Vec<char> = Vec::new();
    let mut i: usize = 0;
    while i < data.len()
        invariant
            i <= data@.len(),
            r@ == latin1(data@.take(i as int)),
        decreases data@.len() - i,
    {
        r.push(data[i] as char);
        assert(latin1(data@.take(i + 1)) =~= latin1(data@.take(i as int)).push(data@[i as int] as char));
        i = i + 1;
    }
    assert(data@.take(data@.len() as int) =~= data@);
    r
}

fn reply_end(s: &[char]) -> (e: usize)
    ensures
        e as int == reply_end_from(s@, 0),
        e <= s@.len(),
{
    let mut k: usize = 0;
    while k < s.len()
        invariant
            k <= s@.len(),
            reply_end_from(s@, 0) == reply_end_from(s@, k as int),
        decreases s@.len() - k,
    {
        if s[k] == '\x07' || s[k] == '\x1b' {
            return k;
        }
        k = k + 1;
    }
    k
}

fn channel_exec(part: &[char]) -> (r: Option<u8>)
    ensures
        r == channel(part@),
{
    if part.len() < 2 {
        None
    } else if part[0] == '+' {
        crate::theme::hex_digit(part[1])
    } else {
        match (crate::theme::hex_digit(part[0]), crate::theme::hex_digit(part[1])) {
            (Some(a), Some(b)) => Some(a * 16 + b),
            _ => None,
        }
    }
}

/// The background color in a terminal's answer to an OSC 11 query.
pub fn parse_background_reply(data: &[u8]) -> (r: Option<Rgb>)
    ensures
        r == background_reply(data@),
{
    let t = latin1_exec(data);
    let start = vec!['\x1b', ']', '1', '1', ';', 'r', 'g', 'b', ':'];
    assert(start@ == reply_start());
    let i = match crate::text::find_exec(t.as_slice(), start.as_slice(), 0) {
        Some(i) => i,
        None => return None,
    };
    proof { crate::text::lemma_find_from(t@, start@, 0); }
    assert(crate::text::occurs_at(t@, start@, i as int));
    assert(i + start@.len() <= t@.len());
    let tl = t.len();
    let sl = start.len();
    let rest = &t.as_slice()[i + sl..tl];
    assert(rest@ == t@.skip(i + reply_start().len()));
    let e = reply_end(rest);
    let parts = crate::text::split_char_exec(&rest[0..e], '/');
    assert(rest@.subrange(0, e as int) == rest@.take(e as int));
    if parts.len() < 3 {
        return None;
    }
    assert(parts@[0]@ == crate::text::views(parts@)[0]);
    assert(parts@[1]@ == crate::text::views(parts@)[1]);
    assert(parts@[2]@ == crate::text::views(parts@)[2]);
    let r = channel_exec(parts[0].as_slice());
    let g = channel_exec(parts[1].as_slice());
    let b = channel_exec(parts[2].as_slice());
    match (r, g, b) {
        (Some(r), Some(g), Some(b)) => Some(Rgb { r, g, b }),
        _ => None,
    }
}

} // verus!

verus! {

/// Columns left after `used` of `cols`.
pub open spec fn room(cols: nat, used: nat) -> nat {
    if used >= cols { 0 } else { (cols - used) as nat }
}

/// The pieces of a line drawn on `cols` columns, `used` of them already
/// taken: each piece cut to the room left, stopping once the line is full.
pub open spec fn layout_from(parts: Seq<(Seq<char>, Style)>, cols: nat, used: nat) -> Seq<(Seq<char>, Style)>
    decreases parts.len(),
{
    if parts.len() == 0 {
        seq![]
    } else {
        let t = fit_text(parts[0].0, room(cols, used));
        if used + t.len() >= cols {
            seq![(t, parts[0].1)]
        } else {
            seq![(t, parts[0].1)] + layout_from(parts.skip(1), cols, used + t.len())
        }
    }
}

/// The blank columns left at the end of such a line.
pub open spec fn fill_from(parts: Seq<(Seq<char>, Style)>, cols: nat, used: nat) -> nat
    decreases parts.len(),
{
    if parts.len() == 0 {
        room(cols, used)
    } else {
        let t = fit_text(parts[0].0, room(cols, used));
        if used + t.len() >= cols {
            0
        } else {
            fill_from(parts.skip(1), cols, used + t.len())
        }
    }
}

/// How a line of a frame is drawn on `cols` columns: the text of each piece
/// that fits, and the number of blank columns after them.
pub fn layout_line(line: &Vec<Span>, cols: usize) -> (r: (Vec<(String, Style)>, usize))
    ensures
        r.0@.map_values(|p: (String, Style)| (p.0@, p.1)) == layout_from(line_view(*line), cols as nat, 0),
        r.1 == fill_from(line_view(*line), cols as nat, 0),
{
    let ghost parts = line_view(*line);
    let mut out: Vec<(String, Style)> = Vec::new();
    let mut used: usize = 0;
    let mut i: usize = 0;
    assert(parts.skip(0) =~= parts);
    assert(out@.map_values(|p: (String, Style)| (p.0@, p.1)) =~= Seq::<(Seq<char>, Style)>::empty());
    while i < line.len()
        invariant
            parts == line_view(*line),
            i <= line@.len(),
            used <= cols,
            layout_from(parts, cols as nat, 0) == out@.map_values(|p: (String, Style)| (p.0@, p.1))
                + layout_from(parts.skip(i as int), cols as nat, used as nat),
            fill_from(parts, cols as nat, 0) == fill_from(parts.skip(i as int), cols as nat, used as nat),
        decreases line@.len() - i,
    {
        let ghost rest = parts.skip(i as int);
        assert(rest[0] == span_view(line@[i as int]));
        assert(rest.skip(1) =~= parts.skip(i + 1));
        let left: usize = if used >= cols { 0 } else { cols - used };
        let text = fit(line[i].text.as_str(), left);
        let n = chars_of(text.as_str()).len();
        let ghost before = out@.map_values(|p: (String, Style)| (p.0@, p.1));
        out.push((text, line[i].style));
        assert(out@.map_values(|p: (String, Style)| (p.0@, p.1)) =~= before.push((text@, line@[i as int].style)));
        if used + n >= cols {
            assert(layout_from(parts, cols as nat, 0) =~= out@.map_values(|p: (String, Style)| (p.0@, p.1)));
            return (out, 0);
        }
        assert(before + layout_from(rest, cols as nat, used as nat)
            =~= out@.map_values(|p: (String, Style)| (p.0@, p.1)) + layout_from(parts.skip(i + 1), cols as nat, (used + n) as nat));
        used = used + n;
        i = i + 1;
    }
    assert(parts.skip(i as int) =~= Seq::<(Seq<char>, Style)>::empty());
    assert(layout_from(parts, cols as nat, 0) =~= out@.map_values(|p: (String, Style)| (p.0@, p.1)));
    (out, cols - used)
}

/// An attribute a piece of text is drawn with.
#[derive(Clone, Copy, Debug, PartialEq, Eq, Structural)]
pub enum Attr {
    Bold,
    Reverse,
    Dim,
}

/// How a style is drawn: whether on the highlight colors (when the theme has
/// a highlight for the active row), and with which attribute. Without such a
/// highlight, the selected row is drawn in reverse video.
pub fn span_look(style: Style, highlight: bool) -> (r: (bool, Option<Attr>))
    ensures
        r == match style {
            Style::Selected => if highlight { (true, Some(Attr::Bold)) } else { (false, Some(Attr::Reverse)) },
            Style::Bold => (false, Some(Attr::Bold)),
            Style::Dim => (false, Some(Attr::Dim)),
            Style::Normal => (false, None),
        },
{
    match style {
        Style::Selected => if highlight { (true, Some(Attr::Bold)) } else { (false, Some(Attr::Reverse)) },
        Style::Bold => (false, Some(Attr::Bold)),
        Style::Dim => (false, Some(Attr::Dim)),
        Style::Normal => (false, None),
    }
}

/// The screen the chooser draws on, as `(rows, cols)`, from the terminal's
/// `(cols, rows)` when known: at least 6 rows and 20 columns, and 16 by 66
/// when the size is unknown.
pub fn screen_size(terminal: Option<(u16, u16)>) -> (r: (usize, usize))
    ensures
        ({
            let (c, w) = match terminal { Some(t) => t, None => (66u16, 16u16) };
            r == (if w < 6 { 6usize } else { w as usize }, if c < 20 { 20usize } else { c as usize })
        }),
{
    let (cols, rows) = match terminal {
        Some(t) => t,
        None => (66u16, 16u16),
    };
    (if rows < 6 { 6 } else { rows as usize }, if cols < 20 { 20 } else { cols as usize })
}

} // verus!

verus! {

/// A key event as the terminal reports it.
#[derive(Clone, Copy, Debug, PartialEq, Eq, Structural)]
pub enum RawKey {
    Up,
    Down,
    Enter,
    Esc,
    Backspace,
    Char(char),
    /// Any other key.
    Other,
}

/// The chooser's key for a key press (`press`: a press, not a release or a
/// repeat) with `control` held: ctrl+c is escape, other control chords and
/// other keys are ignored.
pub fn key_from(raw: RawKey, control: bool, press: bool) -> (k: Option<Key>)
    ensures
        k == if !press {
            None
        } else {
            match raw {
                RawKey::Up => Some(Key::Up),
                RawKey::Down => Some(Key::Down),
                RawKey::Enter => Some(Key::Enter),
                RawKey::Esc => Some(Key::Esc),
                RawKey::Backspace => Some(Key::Backspace),
                RawKey::Char(c) => if control {
                    if c == 'c' { Some(Key::Esc) } else { None }
                } else {
                    Some(Key::Char(c))
                },
                RawKey::Other => None,
            }
        },
{
    if !press {
        return None;
    }
    match raw {
        RawKey::Up => Some(Key::Up),
        RawKey::Down => Some(Key::Down),
        RawKey::Enter => Some(Key::Enter),
        RawKey::Esc => Some(Key::Esc),
        RawKey::Backspace => Some(Key::Backspace),
        RawKey::Char(c) => if control {
            if c == 'c' { Some(Key::Esc) } else { None }
        } else {
            Some(Key::Char(c))
        },
        RawKey::Other => None,
    }
}

} // verus!
