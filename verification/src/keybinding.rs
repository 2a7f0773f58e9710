//! The chooser's keybinding in Herdr's config.toml: reading which key opens
//! the popup, which keys are taken, and rewriting the block this plugin owns.
//!
//! The patterns Herdr's key syntax and config lines follow are matched here
//! by hand, character by character, each against a statement of the pattern.

use vstd::prelude::*;
use crate::settings::opt_view;
use crate::text::{
    chars_of, find, find_exec, lemma_find_from, lemma_rfind_from,
    next_char, next_char_from, occurs_at, occurs_at_exec, owned, rfind, rfind_exec, str_views,
    string_of, trim_end_char, trim_end_char_exec, trim_start_char, trim_start_char_exec, views,
};

verus! {

/// White space as the config patterns understand it: ASCII only.
pub open spec fn ascii_ws(c: char) -> bool {
    ('\t' <= c && c <= '\r') || c == ' '
}

/// Index of the first character at or after `k` that is not ASCII white space.
pub open spec fn skip_ascii_ws(s: Seq<char>, k: int) -> int
    decreases s.len() - k,
{
    if k < 0 || k >= s.len() {
        k
    } else if ascii_ws(s[k]) {
        skip_ascii_ws(s, k + 1)
    } else {
        k
    }
}

pub proof fn lemma_skip_ascii_ws(s: Seq<char>, k: int)
    requires
        0 <= k <= s.len(),
    ensures
        k <= skip_ascii_ws(s, k) <= s.len(),
        forall|j: int| k <= j < skip_ascii_ws(s, k) ==> ascii_ws(#[trigger] s[j]),
        skip_ascii_ws(s, k) < s.len() ==> !ascii_ws(s[skip_ascii_ws(s, k)]),
    decreases s.len() - k,
{
    if k < s.len() && ascii_ws(s[k]) {
        lemma_skip_ascii_ws(s, k + 1);
    }
}

fn skip_ascii_ws_exec(s: &[char], k: usize) -> (r: usize)
    requires
        k <= s@.len(),
    ensures
        r == skip_ascii_ws(s@, k as int),
        k <= r <= s@.len(),
{
    proof { lemma_skip_ascii_ws(s@, k as int); }
    let mut i = k;
    while i < s.len() && (('\t' <= s[i] && s[i] <= '\r') || s[i] == ' ')
        invariant
            k <= i <= s@.len(),
            skip_ascii_ws(s@, k as int) == skip_ascii_ws(s@, i as int),
        decreases s@.len() - i,
    {
        i = i + 1;
    }
    i
}

/// The value of a `key = "..."` line starting at `p`: optional white space,
/// `key`, optional white space, `=`, optional white space, then a non-empty
/// quoted string.
pub open spec fn key_line_at(s: Seq<char>, p: int) -> Option<Seq<char>> {
    let q = skip_ascii_ws(s, p);
    if !occurs_at(s, "key"@, q) {
        None
    } else {
        let r = skip_ascii_ws(s, q + 3);
        if r < 0 || r >= s.len() || s[r] != '=' {
            None
        } else {
            let t = skip_ascii_ws(s, r + 1);
            if t < 0 || t >= s.len() || s[t] != '"' {
                None
            } else {
                let e = next_char_from(s, '"', t + 1);
                if e >= s.len() || e <= t + 1 {
                    None
                } else {
                    Some(s.subrange(t + 1, e))
                }
            }
        }
    }
}

/// `p` is where a line starts.
pub open spec fn line_start(s: Seq<char>, p: int) -> bool {
    p == 0 || (0 < p <= s.len() && s[p - 1] == '\n')
}

/// The value of the first `key = "..."` line that starts at or after `k`.
pub open spec fn key_line_from(s: Seq<char>, k: int) -> Option<Seq<char>>
    decreases s.len() + 1 - k,
{
    if k < 0 || k > s.len() {
        None
    } else if line_start(s, k) && key_line_at(s, k) is Some {
        key_line_at(s, k)
    } else {
        key_line_from(s, k + 1)
    }
}

/// The value of the first `key = "..."` line of `s`
/// (the pattern `(?m)^\s*key\s*=\s*"([^"]+)"`).
pub open spec fn key_line(s: Seq<char>) -> Option<Seq<char>> {
    key_line_from(s, 0)
}

fn key_line_at_exec(s: &[char], p: usize) -> (r: Option<(usize, usize)>)
    requires
        p <= s@.len(),
    ensures
        match r {
            Some((a, b)) => a <= b <= s@.len() && key_line_at(s@, p as int) == Some(s@.subrange(a as int, b as int)),
            None => key_line_at(s@, p as int) is None,
        },
{
    let n = s.len();
    let q = skip_ascii_ws_exec(s, p);
    let kw = chars_of("key");
    proof { reveal_strlit("key"); }
    if !occurs_at_exec(s, kw.as_slice(), q) {
        return None;
    }
    let r = skip_ascii_ws_exec(s, q + 3);
    if r >= s.len() || s[r] != '=' {
        return None;
    }
    let t = skip_ascii_ws_exec(s, r + 1);
    if t >= s.len() || s[t] != '"' {
        return None;
    }
    let e = next_char(s, '"', t + 1);
    if e >= s.len() || e <= t + 1 {
        return None;
    }
    Some((t + 1, e))
}

/// The value of the first `key = "..."` line of `s`.
pub fn key_line_exec(s: &[char]) -> (r: Option<Vec<char>>)
    ensures
        match r {
            Some(v) => key_line(s@) == Some(v@),
            None => key_line(s@) is None,
        },
{
    let mut k: usize = 0;
    loop
        invariant
            k <= s@.len(),
            key_line(s@) == key_line_from(s@, k as int),
        decreases s@.len() - k,
    {
        if k == 0 || s[k - 1] == '\n' {
            if let Some((a, b)) = key_line_at_exec(s, k) {
                return Some(vstd::slice::slice_to_vec(&s[a..b]));
            }
        }
        if k == s.len() {
            assert(key_line_from(s@, k + 1) is None);
            return None;
        }
        k = k + 1;
    }
}

/// Length of the modifier and its `+` at `k`, or 0 when there is none.
pub open spec fn mod_len_at(s: Seq<char>, k: int) -> int {
    if occurs_at(s, "ctrl+"@, k) {
        5
    } else if occurs_at(s, "alt+"@, k) {
        4
    } else if occurs_at(s, "shift+"@, k) {
        6
    } else if occurs_at(s, "cmd+"@, k) {
        4
    } else if occurs_at(s, "prefix+"@, k) {
        7
    } else {
        0
    }
}

fn mod_len_exec(s: &[char], k: usize) -> (r: usize)
    ensures
        r == mod_len_at(s@, k as int),
{
    proof {
        reveal_strlit("ctrl+");
        reveal_strlit("alt+");
        reveal_strlit("shift+");
        reveal_strlit("cmd+");
        reveal_strlit("prefix+");
    }
    if occurs_at_exec(s, chars_of("ctrl+").as_slice(), k) {
        5
    } else if occurs_at_exec(s, chars_of("alt+").as_slice(), k) {
        4
    } else if occurs_at_exec(s, chars_of("shift+").as_slice(), k) {
        6
    } else if occurs_at_exec(s, chars_of("cmd+").as_slice(), k) {
        4
    } else if occurs_at_exec(s, chars_of("prefix+").as_slice(), k) {
        7
    } else {
        0
    }
}

/// Index of the first `"` or ASCII white space at or after `k`, or the length.
pub open spec fn next_stop(s: Seq<char>, k: int) -> int
    decreases s.len() - k,
{
    if k < 0 || k >= s.len() {
        k
    } else if s[k] == '"' || ascii_ws(s[k]) {
        k
    } else {
        next_stop(s, k + 1)
    }
}

pub proof fn lemma_next_stop(s: Seq<char>, k: int)
    requires
        0 <= k <= s.len(),
    ensures
        k <= next_stop(s, k) <= s.len(),
    decreases s.len() - k,
{
    if k < s.len() && !(s[k] == '"' || ascii_ws(s[k])) {
        lemma_next_stop(s, k + 1);
    }
}

/// Where a quoted key such as `"prefix+a"` that starts at `i` ends (its
/// closing quote): a quote, a modifier and `+`, then at least one character
/// that is neither a quote nor white space, up to a closing quote.
pub open spec fn quoted_at(s: Seq<char>, i: int) -> Option<int> {
    if 0 <= i < s.len() && s[i] == '"' && mod_len_at(s, i + 1) > 0 {
        let j = i + 1 + mod_len_at(s, i + 1);
        let e = next_stop(s, j);
        if e > j && e < s.len() && s[e] == '"' {
            Some(e)
        } else {
            None
        }
    } else {
        None
    }
}

/// The quoted keys of `s` from index `k` on, left to right, without overlap.
pub open spec fn quoted_from(s: Seq<char>, k: int) -> Seq<Seq<char>>
    decreases s.len() - k,
{
    if k < 0 || k >= s.len() {
        seq![]
    } else {
        match quoted_at(s, k) {
            Some(e) => if k < e < s.len() {
                seq![s.subrange(k + 1, e)] + quoted_from(s, e + 1)
            } else {
                seq![]
            },
            None => quoted_from(s, k + 1),
        }
    }
}

/// Every quoted key of `s`
/// (the pattern `"((?:ctrl|alt|shift|cmd|prefix)\+[^"\s]+)"`, all matches).
pub open spec fn quoted_keys(s: Seq<char>) -> Seq<Seq<char>> {
    quoted_from(s, 0)
}

fn quoted_at_exec(s: &[char], i: usize) -> (r: Option<usize>)
    requires
        i < s@.len(),
    ensures
        match r {
            Some(e) => quoted_at(s@, i as int) == Some(e as int),
            None => quoted_at(s@, i as int) is None,
        },
{
    let n = s.len();
    if s[i] != '"' {
        return None;
    }
    proof {
        reveal_strlit("ctrl+");
        reveal_strlit("alt+");
        reveal_strlit("shift+");
        reveal_strlit("cmd+");
        reveal_strlit("prefix+");
    }
    let m = mod_len_exec(s, i + 1);
    if m == 0 {
        return None;
    }
    let j = i + 1 + m;
    proof {
        if mod_len_at(s@, i + 1) > 0 {
            assert(j <= s@.len());
        }
        lemma_next_stop(s@, j as int);
    }
    let mut e = j;
    while e < s.len() && !(s[e] == '"' || ('\t' <= s[e] && s[e] <= '\r') || s[e] == ' ')
        invariant
            j <= e <= s@.len(),
            next_stop(s@, j as int) == next_stop(s@, e as int),
        decreases s@.len() - e,
    {
        e = e + 1;
    }
    if e > j && e < s.len() && s[e] == '"' {
        Some(e)
    } else {
        None
    }
}

/// Every quoted key of `s`, left to right.
pub fn quoted_keys_exec(s: &[char]) -> (r: Vec<Vec<char>>)
    ensures
        views(r@) == quoted_keys(s@),
{
    let mut r: Vec<Vec<char>> = Vec::new();
    let mut k: usize = 0;
    while k < s.len()
        invariant
            k <= s@.len(),
            quoted_keys(s@) == views(r@) + quoted_from(s@, k as int),
        decreases s@.len() - k,
    {
        match quoted_at_exec(s, k) {
            Some(e) => {
                let ghost before = views(r@);
                r.push(vstd::slice::slice_to_vec(&s[k + 1..e]));
                assert(views(r@) =~= before.push(s@.subrange(k + 1, e as int)));
                assert(before + quoted_from(s@, k as int) =~= views(r@) + quoted_from(s@, e + 1));
                k = e + 1;
            },
            None => {
                k = k + 1;
            },
        }
    }
    assert(views(r@) + quoted_from(s@, k as int) =~= views(r@));
    r
}


/// A key character: lowercase ASCII letter or digit.
pub open spec fn lower_or_digit(c: char) -> bool {
    ('a' <= c && c <= 'z') || ('0' <= c && c <= '9')
}

/// The named keys of Herdr's key syntax.
pub open spec fn named_key(s: Seq<char>) -> bool {
    ||| s == "enter"@ ||| s == "tab"@ ||| s == "esc"@ ||| s == "left"@ ||| s == "right"@
    ||| s == "up"@ ||| s == "down"@ ||| s == "space"@ ||| s == "minus"@ ||| s == "comma"@
    ||| s == "plus"@ ||| s == "backtick"@ ||| s == "ampersand"@ ||| s == "period"@
    ||| s == "slash"@ ||| s == "semicolon"@ ||| s == "equal"@ ||| s == "backslash"@
    ||| s == "bracketleft"@ ||| s == "bracketright"@
}

/// Every character of `s` is a lowercase ASCII letter (true of every named key).
pub open spec fn all_lower(s: Seq<char>) -> bool {
    forall|i: int| 0 <= i < s.len() ==> 'a' <= #[trigger] s[i] && s[i] <= 'z'
}

/// The key after the modifiers: a letter or digit, `f` and one or two
/// digits, or a named key.
pub open spec fn key_name(s: Seq<char>) -> bool {
    ||| (s.len() == 1 && lower_or_digit(s[0]))
    ||| (2 <= s.len() <= 3 && s[0] == 'f' && forall|i: int| 1 <= i < s.len() ==> '0' <= #[trigger] s[i] && s[i] <= '9')
    ||| (all_lower(s) && named_key(s))
}

/// From `k` on, `s` is one or more modifiers, each followed by `+`, then a key.
pub open spec fn valid_key_from(s: Seq<char>, k: int) -> bool
    decreases s.len() - k,
{
    let m = mod_len_at(s, k);
    &&& 0 <= k
    &&& m > 0
    &&& k + m <= s.len()
    &&& (key_name(s.skip(k + m)) || valid_key_from(s, k + m))
}

/// Herdr's key syntax: `prefix+a`, `ctrl+alt+p`, `prefix+shift+f2`
/// (the pattern `^(?:(?:ctrl|alt|shift|cmd|prefix)\+)+(?:[a-z0-9]|f[0-9]{1,2}|enter|...)$`).
pub open spec fn valid_key(s: Seq<char>) -> bool {
    valid_key_from(s, 0)
}

fn all_lower_exec(s: &[char]) -> (b: bool)
    ensures
        b == all_lower(s@),
{
    let mut i: usize = 0;
    while i < s.len()
        invariant
            i <= s@.len(),
            forall|j: int| 0 <= j < i ==> 'a' <= #[trigger] s@[j] && s@[j] <= 'z',
        decreases s@.len() - i,
    {
        if !('a' <= s[i] && s[i] <= 'z') {
            return false;
        }
        i = i + 1;
    }
    true
}

fn is_lit(s: &[char], lit: &str) -> (b: bool)
    ensures
        b == (s@ == lit@),
{
    let l = chars_of(lit);
    crate::text::same_chars(s, l.as_slice())
}

fn named_key_exec(s: &[char]) -> (b: bool)
    ensures
        b == named_key(s@),
{
    is_lit(s, "enter") || is_lit(s, "tab") || is_lit(s, "esc") || is_lit(s, "left") || is_lit(s, "right")
        || is_lit(s, "up") || is_lit(s, "down") || is_lit(s, "space") || is_lit(s, "minus")
        || is_lit(s, "comma") || is_lit(s, "plus") || is_lit(s, "backtick") || is_lit(s, "ampersand")
        || is_lit(s, "period") || is_lit(s, "slash") || is_lit(s, "semicolon") || is_lit(s, "equal")
        || is_lit(s, "backslash") || is_lit(s, "bracketleft") || is_lit(s, "bracketright")
}

fn key_name_exec(s: &[char]) -> (b: bool)
    ensures
        b == key_name(s@),
{
    let n = s.len();
    if n == 1 && (('a' <= s[0] && s[0] <= 'z') || ('0' <= s[0] && s[0] <= '9')) {
        return true;
    }
    if 2 <= n && n <= 3 && s[0] == 'f' && '0' <= s[1] && s[1] <= '9' && (n == 2 || ('0' <= s[2] && s[2] <= '9')) {
        return true;
    }
    let r = all_lower_exec(s) && named_key_exec(s);
    proof {
        if 2 <= n && n <= 3 && s@[0] == 'f' && (forall|i: int| 1 <= i < s@.len() ==> '0' <= #[trigger] s@[i] && s@[i] <= '9') {
            assert('0' <= s@[1] && s@[1] <= '9');
            if n == 3 {
                assert('0' <= s@[2] && s@[2] <= '9');
            }
        }
    }
    r
}

/// Whether `s` follows Herdr's key syntax.
pub fn valid_key_exec(s: &[char]) -> (b: bool)
    ensures
        b == valid_key(s@),
{
    let n = s.len();
    let mut k: usize = 0;
    loop
        invariant
            n == s@.len(),
            k <= s@.len(),
            valid_key(s@) == valid_key_from(s@, k as int),
        decreases s@.len() - k,
    {
        let m = mod_len_exec(s, k);
        proof {
            reveal_strlit("ctrl+");
            reveal_strlit("alt+");
            reveal_strlit("shift+");
            reveal_strlit("cmd+");
            reveal_strlit("prefix+");
        }
        if m == 0 {
            return false;
        }
        let rest = &s[k + m..n];
        assert(rest@ == s@.skip(k + m));
        if key_name_exec(rest) {
            return true;
        }
        k = k + m;
    }
}

/// Why a key was refused.
#[derive(Clone, Copy, Debug, PartialEq, Eq, Structural)]
pub enum KeyError {
    Syntax,
}

impl KeyError {
    /// The message shown to the user.
    pub fn message(&self) -> (m: String)
        ensures
            m@ == "key must look like prefix+a, ctrl+alt+p or prefix+shift+f2 (a modifier plus one key)"@,
    {
        owned("key must look like prefix+a, ctrl+alt+p or prefix+shift+f2 (a modifier plus one key)")
    }
}

/// A Herdr key string such as `prefix+a`, validated against Herdr's syntax.
#[derive(Debug, PartialEq, Eq)]
pub struct KeyCombo(String);

impl KeyCombo {
    /// Every key follows Herdr's key syntax.
    #[verifier::type_invariant]
    spec fn follows_syntax(self) -> bool {
        valid_key(self.0@)
    }
}

impl View for KeyCombo {
    type V = Seq<char>;

    closed spec fn view(&self) -> Seq<char> {
        self.0@
    }
}

impl Clone for KeyCombo {
    fn clone(&self) -> (r: KeyCombo)
        ensures
            r == *self,
    {
        proof { use_type_invariant(self); }
        KeyCombo(self.0.clone())
    }
}

impl KeyCombo {
    /// The key, which follows Herdr's key syntax.
    pub fn as_str(&self) -> (s: &str)
        ensures
            s@ == self@,
            valid_key(s@),
    {
        proof { use_type_invariant(self); }
        self.0.as_str()
    }

    /// Accepts `key` when it follows Herdr's key syntax.
    pub fn parse(key: &str) -> (r: Result<KeyCombo, KeyError>)
        ensures
            r matches Ok(k) ==> k@ == key@,
            r is Ok <==> valid_key(key@),
    {
        let cs = chars_of(key);
        if !valid_key_exec(cs.as_slice()) {
            return Err(KeyError::Syntax);
        }
        Ok(KeyCombo(owned(key)))
    }

    /// The key as an owned string.
    pub fn to_string(&self) -> (s: String)
        ensures
            s@ == self@,
            valid_key(s@),
    {
        proof { use_type_invariant(self); }
        self.0.clone()
    }
}

impl std::str::FromStr for KeyCombo {
    type Err = KeyError;

    fn from_str(key: &str) -> (r: Result<KeyCombo, KeyError>)
        ensures
            r matches Ok(k) ==> k@ == key@,
            r matches Err(e) ==> e == KeyError::Syntax,
            r is Ok <==> valid_key(key@),
    {
        KeyCombo::parse(key)
    }
}


/// The plugin action the chooser's key runs.
pub const ACTION: &'static str = "herdr-profiles.choose";

/// First line of the block this plugin writes into config.toml.
pub open spec fn block_start() -> Seq<char> {
    "# >>> herdr-profiles managed keybinding (edit with: herdr-profiles setup) >>>"@
}

/// Last line of the block this plugin writes into config.toml.
pub open spec fn block_end() -> Seq<char> {
    "# <<< herdr-profiles managed keybinding <<<"@
}

/// The block text between the first line and the key.
pub open spec fn block_head() -> Seq<char> {
    "\n[[keys.command]]\nkey = \""@
}

/// The block text between the key and the last line.
pub open spec fn block_tail() -> Seq<char> {
    "\"\ntype = \"plugin_action\"\ncommand = \"herdr-profiles.choose\"\ndescription = \"choose profile\"\n"@
}

/// The block that binds `key` to the chooser.
pub open spec fn managed_text(key: Seq<char>) -> Seq<char> {
    block_start() + block_head() + key + block_tail() + block_end() + "\n"@
}

/// The config split into everything outside the block and the key inside it.
pub open spec fn split_text(config: Seq<char>) -> (Seq<char>, Option<Seq<char>>) {
    match find(config, block_start()) {
        None => (config, None),
        Some(start) => match find(config.skip(start), block_end()) {
            None => (config, None),
            Some(e) => {
                let end = start + e + block_end().len();
                (
                    config.take(start) + trim_start_char(config.skip(end), '\n'),
                    key_line(config.subrange(start, end)),
                )
            },
        },
    }
}

/// The key of a `[[keys.command]]` table, written by hand, that runs the
/// chooser's action.
pub open spec fn manual_text(config: Seq<char>) -> Option<Seq<char>> {
    match find(config, "\"herdr-profiles.choose\""@) {
        None => None,
        Some(at) => {
            let table_start = match rfind(config.take(at), "[[keys.command]]"@) {
                Some(i) => i,
                None => 0,
            };
            let table_end = match find(config.skip(at), "[["@) {
                Some(n) => at + n,
                None => config.len() as int,
            };
            key_line(config.subrange(table_start, table_end))
        },
    }
}

/// The block that binds `key` to the chooser.
pub fn managed_block(key: &KeyCombo) -> (b: String)
    ensures
        b@ == managed_text(key@),
{
    let mut b = owned("# >>> herdr-profiles managed keybinding (edit with: herdr-profiles setup) >>>");
    b.append("\n[[keys.command]]\nkey = \"");
    b.append(key.as_str());
    b.append("\"\ntype = \"plugin_action\"\ncommand = \"herdr-profiles.choose\"\ndescription = \"choose profile\"\n");
    b.append("# <<< herdr-profiles managed keybinding <<<");
    b.append("\n");
    b
}

/// Splits the config into everything outside our block and the key inside it.
pub fn split_block(config: &str) -> (r: (String, Option<String>))
    ensures
        r.0@ == split_text(config@).0,
        opt_view(r.1) == split_text(config@).1,
{
    let c = chars_of(config);
    let st = chars_of("# >>> herdr-profiles managed keybinding (edit with: herdr-profiles setup) >>>");
    let en = chars_of("# <<< herdr-profiles managed keybinding <<<");
    let n = c.len();
    match find_exec(c.as_slice(), st.as_slice(), 0) {
        None => (owned(config), None),
        Some(start) => {
            proof { lemma_find_from(c@, st@, 0); }
            let tail = &c.as_slice()[start..n];
            assert(tail@ == c@.skip(start as int));
            match find_exec(tail, en.as_slice(), 0) {
                None => (owned(config), None),
                Some(e) => {
                    proof { lemma_find_from(tail@, en@, 0); }
                    let end = start + e + en.len();
                    let inner = &c.as_slice()[start..end];
                    assert(inner@ == c@.subrange(start as int, end as int));
                    let key = match key_line_exec(inner) {
                        Some(k) => Some(string_of(k.as_slice())),
                        None => None,
                    };
                    let after = &c.as_slice()[end..n];
                    assert(after@ == c@.skip(end as int));
                    let after = trim_start_char_exec(after, '\n');
                    let mut rest = string_of(&c.as_slice()[0..start]);
                    let after_s = string_of(after.as_slice());
                    rest.append(after_s.as_str());
                    (rest, key)
                },
            }
        },
    }
}

/// Finds a `[[keys.command]]` the user wrote by hand for our action.
pub fn manual_binding(config: &str) -> (r: Option<String>)
    ensures
        opt_view(r) == manual_text(config@),
{
    let c = chars_of(config);
    let n = c.len();
    let action = chars_of("\"herdr-profiles.choose\"");
    let at = match find_exec(c.as_slice(), action.as_slice(), 0) {
        Some(at) => at,
        None => return None,
    };
    proof { lemma_find_from(c@, action@, 0); }
    let table = chars_of("[[keys.command]]");
    let before = &c.as_slice()[0..at];
    assert(before@ == c@.take(at as int));
    let table_start = match rfind_exec(before, table.as_slice()) {
        Some(i) => i,
        None => 0,
    };
    proof {
        lemma_rfind_from(before@, table@, before@.len() - table@.len());
    }
    let open = chars_of("[[");
    let from_at = &c.as_slice()[at..n];
    assert(from_at@ == c@.skip(at as int));
    let table_end = match find_exec(from_at, open.as_slice(), 0) {
        Some(next) => {
            proof { lemma_find_from(from_at@, open@, 0); }
            at + next
        },
        None => n,
    };
    let region = &c.as_slice()[table_start..table_end];
    assert(region@ == c@.subrange(table_start as int, table_end as int));
    match key_line_exec(region) {
        Some(k) => Some(string_of(k.as_slice())),
        None => None,
    }
}

} // verus!

verus! {

/// Whether a key binding was written by this plugin or by hand.
#[derive(Clone, Copy, Debug, PartialEq, Eq, Structural)]
pub enum Source {
    Managed,
    Manual,
}

impl Source {
    /// `managed` or `manual`.
    pub fn name(&self) -> (s: &'static str)
        ensures
            s@ == match self { Source::Managed => "managed"@, Source::Manual => "manual"@ },
    {
        match self {
            Source::Managed => "managed",
            Source::Manual => "manual",
        }
    }
}

/// The key that opens the chooser, and where it was bound. The key is
/// reported as the config spells it: a binding written by hand need not
/// follow Herdr's key syntax, so it is not a `KeyCombo`.
#[derive(Debug, PartialEq, Eq)]
pub struct Binding {
    pub key: String,
    pub source: Source,
}

/// Who uses a key: Herdr's defaults.
pub open spec fn default_owner() -> Seq<char> {
    "a Herdr default binding"@
}

/// Who uses a key: the user's config.
pub open spec fn config_owner() -> Seq<char> {
    "your config.toml"@
}

/// Keys of `used` occur at most once.
pub open spec fn unique_keys(used: Seq<(String, String)>) -> bool {
    forall|i: int, j: int| 0 <= i < used.len() && 0 <= j < used.len() && i != j ==> used[i].0@ != used[j].0@
}

/// What `used` says of `key`: who uses it.
pub open spec fn owner_in(used: Seq<(String, String)>, key: Seq<char>) -> Option<Seq<char>> {
    if exists|i: int| 0 <= i < used.len() && used[i].0@ == key {
        Some(used[choose|i: int| 0 <= i < used.len() && used[i].0@ == key].1@)
    } else {
        None
    }
}

/// Who uses `key` according to the config (outside our block) and Herdr's defaults.
pub open spec fn used_owner(config: Seq<char>, defaults: Seq<char>, key: Seq<char>) -> Option<Seq<char>> {
    if quoted_keys(config).contains(key) {
        Some(config_owner())
    } else if quoted_keys(defaults).contains(key) {
        Some(default_owner())
    } else {
        None
    }
}

/// The chooser binding of a config: a hand-written one first, else our block's.
pub open spec fn binding_text(config: Seq<char>) -> Option<(Seq<char>, Source)> {
    let (rest, managed) = split_text(config);
    match manual_text(rest) {
        Some(m) => Some((m, Source::Manual)),
        None => match managed {
            Some(k) => Some((k, Source::Managed)),
            None => None,
        },
    }
}

/// Who uses `key`, other than the chooser binding itself.
pub open spec fn status_owner(config: Seq<char>, defaults: Seq<char>, key: Seq<char>) -> Option<Seq<char>> {
    match binding_text(config) {
        Some((b, _)) if b == key => None,
        _ => used_owner(split_text(config).0, defaults, key),
    }
}

pub proof fn lemma_owner_at(used: Seq<(String, String)>, key: Seq<char>, i: int)
    requires
        unique_keys(used),
        0 <= i < used.len(),
        used[i].0@ == key,
    ensures
        owner_in(used, key) == Some(used[i].1@),
{
    let j = choose|j: int| 0 <= j < used.len() && used[j].0@ == key;
    assert(j == i);
}

pub proof fn lemma_push_contains(s: Seq<Seq<char>>, x: Seq<char>, k: Seq<char>)
    ensures
        s.push(x).contains(k) <==> (s.contains(k) || x == k),
{
    if s.push(x).contains(k) && x != k {
        let j = choose|j: int| 0 <= j < s.push(x).len() && s.push(x)[j] == k;
        assert(s[j] == k);
    }
    if s.contains(k) {
        let j = choose|j: int| 0 <= j < s.len() && s[j] == k;
        assert(s.push(x)[j] == k);
    }
    if x == k {
        assert(s.push(x)[s.len() as int] == k);
    }
}

/// Sets who uses `key`.
fn set_owner(used: &mut Vec<(String, String)>, key: &[char], owner: &str)
    requires
        unique_keys(old(used)@),
    ensures
        unique_keys(final(used)@),
        owner_in(final(used)@, key@) == Some(owner@),
        forall|k: Seq<char>| k != key@ ==> owner_in(final(used)@, k) == owner_in(old(used)@, k),
{
    let key_s = string_of(key);
    let mut i: usize = 0;
    while i < used.len()
        invariant
            key_s@ == key@,
            used@ == old(used)@,
            unique_keys(used@),
            i <= used@.len(),
            forall|j: int| 0 <= j < i ==> used@[j].0@ != key@,
        decreases used@.len() - i,
    {
        if crate::text::str_eq(used[i].0.as_str(), key_s.as_str()) {
            let ghost before = used@;
            let k = used[i].0.clone();
            used.set(i, (k, owned(owner)));
            assert forall|a: int| 0 <= a < used@.len() implies used@[a].0@ == before[a].0@ by {}
            assert(unique_keys(used@));
            proof { lemma_owner_at(used@, key@, i as int); }
            assert forall|k2: Seq<char>| k2 != key@ implies owner_in(used@, k2) == owner_in(before, k2) by {
                if exists|j: int| 0 <= j < used@.len() && used@[j].0@ == k2 {
                    let j = choose|j: int| 0 <= j < used@.len() && used@[j].0@ == k2;
                    lemma_owner_at(used@, k2, j);
                    lemma_owner_at(before, k2, j);
                } else {
                    assert forall|j: int| 0 <= j < before.len() implies before[j].0@ != k2 by {
                        assert(used@[j].0@ == before[j].0@);
                    }
                }
            }
            return;
        }
        i = i + 1;
    }
    let ghost before = used@;
    used.push((key_s, owned(owner)));
    let n = used.len() - 1;
    assert(unique_keys(used@)) by {
        assert forall|a: int, b: int| 0 <= a < used@.len() && 0 <= b < used@.len() && a != b implies used@[a].0@ != used@[b].0@ by {
            if a < n && b < n {
                assert(used@[a] == before[a] && used@[b] == before[b]);
            }
        }
    }
    proof { lemma_owner_at(used@, key@, n as int); }
    assert forall|k2: Seq<char>| k2 != key@ implies owner_in(used@, k2) == owner_in(before, k2) by {
        if exists|j: int| 0 <= j < used@.len() && used@[j].0@ == k2 {
            let j = choose|j: int| 0 <= j < used@.len() && used@[j].0@ == k2;
            assert(j < before.len());
            assert(used@[j] == before[j]);
            lemma_owner_at(used@, k2, j);
            lemma_owner_at(before, k2, j);
        } else {
            assert forall|j: int| 0 <= j < before.len() implies before[j].0@ != k2 by {
                assert(used@[j] == before[j]);
            }
        }
    }
}

/// Every key already taken, and by whom: the config's own quoted keys win
/// over Herdr's defaults.
pub fn used_keys(config: &str, defaults: &str) -> (used: Vec<(String, String)>)
    ensures
        unique_keys(used@),
        forall|k: Seq<char>| owner_in(used@, k) == used_owner(config@, defaults@, k),
{
    let mut used: Vec<(String, String)> = Vec::new();
    let d = chars_of(defaults);
    let dk = quoted_keys_exec(d.as_slice());
    let mut i: usize = 0;
    while i < dk.len()
        invariant
            i <= dk@.len(),
            views(dk@) == quoted_keys(defaults@),
            unique_keys(used@),
            forall|k: Seq<char>| owner_in(used@, k) == if views(dk@).take(i as int).contains(k) {
                Some(default_owner())
            } else {
                None
            },
        decreases dk@.len() - i,
    {
        set_owner(&mut used, dk[i].as_slice(), "a Herdr default binding");
        assert forall|k: Seq<char>| owner_in(used@, k) == if views(dk@).take(i + 1).contains(k) {
            Some(default_owner())
        } else {
            None
        } by {
            assert(views(dk@).take(i + 1) =~= views(dk@).take(i as int).push(dk@[i as int]@));
            lemma_push_contains(views(dk@).take(i as int), dk@[i as int]@, k);
        }
        i = i + 1;
    }
    assert(views(dk@).take(dk@.len() as int) =~= views(dk@));
    let c = chars_of(config);
    let ck = quoted_keys_exec(c.as_slice());
    let mut i: usize = 0;
    while i < ck.len()
        invariant
            i <= ck@.len(),
            views(ck@) == quoted_keys(config@),
            views(dk@) == quoted_keys(defaults@),
            unique_keys(used@),
            forall|k: Seq<char>| owner_in(used@, k) == if views(ck@).take(i as int).contains(k) {
                Some(config_owner())
            } else if views(dk@).contains(k) {
                Some(default_owner())
            } else {
                None
            },
        decreases ck@.len() - i,
    {
        set_owner(&mut used, ck[i].as_slice(), "your config.toml");
        assert forall|k: Seq<char>| owner_in(used@, k) == if views(ck@).take(i + 1).contains(k) {
            Some(config_owner())
        } else if views(dk@).contains(k) {
            Some(default_owner())
        } else {
            None
        } by {
            assert(views(ck@).take(i + 1) =~= views(ck@).take(i as int).push(ck@[i as int]@));
            lemma_push_contains(views(ck@).take(i as int), ck@[i as int]@, k);
        }
        i = i + 1;
    }
    assert(views(ck@).take(ck@.len() as int) =~= views(ck@));
    used
}

/// Drops `key` from `used`.
fn remove_owner(used: &mut Vec<(String, String)>, key: &str)
    requires
        unique_keys(old(used)@),
    ensures
        unique_keys(final(used)@),
        owner_in(final(used)@, key@) is None,
        forall|k: Seq<char>| k != key@ ==> owner_in(final(used)@, k) == owner_in(old(used)@, k),
{
    let mut i: usize = 0;
    while i < used.len()
        invariant
            used@ == old(used)@,
            unique_keys(used@),
            i <= used@.len(),
            forall|j: int| 0 <= j < i ==> used@[j].0@ != key@,
        decreases used@.len() - i,
    {
        if crate::text::str_eq(used[i].0.as_str(), key) {
            let ghost before = used@;
            used.remove(i);
            assert forall|j: int| 0 <= j < used@.len() implies used@[j] == if j < i { before[j] } else { before[j + 1] } by {}
            assert(unique_keys(used@)) by {
                assert forall|a: int, b: int| 0 <= a < used@.len() && 0 <= b < used@.len() && a != b implies used@[a].0@ != used@[b].0@ by {
                    let a2 = if a < i { a } else { a + 1 };
                    let b2 = if b < i { b } else { b + 1 };
                    assert(used@[a] == before[a2] && used@[b] == before[b2]);
                }
            }
            assert forall|j: int| 0 <= j < used@.len() implies used@[j].0@ != key@ by {
                let j2 = if j < i { j } else { j + 1 };
                assert(used@[j] == before[j2]);
            }
            assert forall|k2: Seq<char>| k2 != key@ implies owner_in(used@, k2) == owner_in(before, k2) by {
                if exists|j: int| 0 <= j < used@.len() && used@[j].0@ == k2 {
                    let j = choose|j: int| 0 <= j < used@.len() && used@[j].0@ == k2;
                    let j2 = if j < i { j } else { j + 1 };
                    assert(used@[j] == before[j2]);
                    lemma_owner_at(used@, k2, j);
                    lemma_owner_at(before, k2, j2);
                } else {
                    assert forall|j: int| 0 <= j < before.len() implies before[j].0@ != k2 by {
                        if j < i {
                            assert(used@[j] == before[j]);
                        } else if j > i {
                            assert(used@[j - 1] == before[j]);
                        }
                    }
                }
            }
            return;
        }
        i = i + 1;
    }
}

/// The current chooser binding plus every other key already taken.
#[derive(Debug)]
pub struct Status {
    pub binding: Option<Binding>,
    pub config: String,
    pub used: Vec<(String, String)>,
}

/// The chooser binding of a status, as text.
pub open spec fn binding_view(b: Option<Binding>) -> Option<(Seq<char>, Source)> {
    match b {
        Some(b) => Some((b.key@, b.source)),
        None => None,
    }
}

/// The binding and used keys of a config (whose path is `config_path`),
/// given the text of Herdr's default config.
pub fn status(config: &str, config_path: &str, defaults: &str) -> (st: Status)
    ensures
        binding_view(st.binding) == binding_text(config@),
        st.config@ == config_path@,
        unique_keys(st.used@),
        forall|k: Seq<char>| owner_in(st.used@, k) == status_owner(config@, defaults@, k),
{
    let (rest, managed) = split_block(config);
    let binding = match manual_binding(rest.as_str()) {
        Some(m) => Some(Binding { key: m, source: Source::Manual }),
        None => match managed {
            Some(k) => Some(Binding { key: k, source: Source::Managed }),
            None => None,
        },
    };
    let mut used = used_keys(rest.as_str(), defaults);
    if let Some(b) = &binding {
        remove_owner(&mut used, b.key.as_str());
    }
    Status { binding, config: owned(config_path), used }
}

/// The key Herdr's chooser is offered on, in order of preference.
pub open spec fn candidates() -> Seq<Seq<char>> {
    seq![
        "prefix+a"@, "prefix+u"@, "prefix+f"@, "prefix+i"@, "prefix+y"@,
        "prefix+m"@, "prefix+d"@, "prefix+t"@, "prefix+shift+a"@, "prefix+shift+u"@,
    ]
}

/// The candidate keys, as strings.
pub fn candidate_keys() -> (v: Vec<String>)
    ensures
        str_views(v@) == candidates(),
{
    let v = vec![
        owned("prefix+a"), owned("prefix+u"), owned("prefix+f"), owned("prefix+i"), owned("prefix+y"),
        owned("prefix+m"), owned("prefix+d"), owned("prefix+t"), owned("prefix+shift+a"),
        owned("prefix+shift+u"),
    ];
    assert(str_views(v@) =~= candidates());
    v
}

/// Index of the first candidate at or after `k` that `used` does not list.
pub open spec fn free_from(used: Seq<(String, String)>, k: int) -> Option<int>
    decreases candidates().len() - k,
{
    if k < 0 || k >= candidates().len() {
        None
    } else if owner_in(used, candidates()[k]) is None {
        Some(k)
    } else {
        free_from(used, k + 1)
    }
}

/// `s` starts with no modifier but `prefix+`, at `k`.
proof fn lemma_prefix_mod(s: Seq<char>, k: int)
    requires
        0 <= k,
        k + 7 <= s.len(),
        s.subrange(k, k + 7) == "prefix+"@,
    ensures
        mod_len_at(s, k) == 7,
{
    reveal_strlit("prefix+");
    reveal_strlit("ctrl+");
    reveal_strlit("alt+");
    reveal_strlit("shift+");
    reveal_strlit("cmd+");
    assert(s[k] == 'p') by { assert(s.subrange(k, k + 7)[0] == s[k]); }
    assert(s.subrange(k, k + 5)[0] == s[k]);
    assert(s.subrange(k, k + 4)[0] == s[k]);
    assert(s.subrange(k, k + 6)[0] == s[k]);
}

/// `shift+` at `k`.
proof fn lemma_shift_mod(s: Seq<char>, k: int)
    requires
        0 <= k,
        k + 6 <= s.len(),
        s.subrange(k, k + 6) == "shift+"@,
    ensures
        mod_len_at(s, k) == 6,
{
    reveal_strlit("ctrl+");
    reveal_strlit("alt+");
    reveal_strlit("shift+");
    assert(s[k] == 's') by { assert(s.subrange(k, k + 6)[0] == s[k]); }
    assert(s.subrange(k, k + 5)[0] == s[k]);
    assert(s.subrange(k, k + 4)[0] == s[k]);
}

/// `prefix+` and one lowercase letter is a valid key.
proof fn lemma_prefix_letter(c: char)
    requires
        'a' <= c <= 'z',
    ensures
        valid_key("prefix+"@ + seq![c]),
{
    let s = "prefix+"@ + seq![c];
    reveal_strlit("prefix+");
    assert(s.subrange(0, 7) =~= "prefix+"@);
    lemma_prefix_mod(s, 0);
    assert(s.skip(7) =~= seq![c]);
}

/// `prefix+shift+` and one lowercase letter is a valid key.
proof fn lemma_prefix_shift_letter(c: char)
    requires
        'a' <= c <= 'z',
    ensures
        valid_key("prefix+"@ + "shift+"@ + seq![c]),
{
    let s = "prefix+"@ + "shift+"@ + seq![c];
    reveal_strlit("prefix+");
    reveal_strlit("shift+");
    assert(s.subrange(0, 7) =~= "prefix+"@);
    lemma_prefix_mod(s, 0);
    assert(s.subrange(7, 13) =~= "shift+"@);
    lemma_shift_mod(s, 7);
    assert(s.skip(13) =~= seq![c]);
    assert(valid_key_from(s, 7));
    let t = s.skip(7);
    assert(t[5] == '+');
    assert(!key_name(t));
}

/// Every candidate key follows Herdr's key syntax.
proof fn lemma_candidates_valid()
    ensures
        forall|i: int| 0 <= i < candidates().len() ==> valid_key(#[trigger] candidates()[i]),
{
    reveal_strlit("prefix+");
    reveal_strlit("shift+");
    reveal_strlit("prefix+a");
    reveal_strlit("prefix+u");
    reveal_strlit("prefix+f");
    reveal_strlit("prefix+i");
    reveal_strlit("prefix+y");
    reveal_strlit("prefix+m");
    reveal_strlit("prefix+d");
    reveal_strlit("prefix+t");
    reveal_strlit("prefix+shift+a");
    reveal_strlit("prefix+shift+u");
    lemma_prefix_letter('a');
    assert("prefix+a"@ =~= "prefix+"@ + seq!['a']);
    lemma_prefix_letter('u');
    assert("prefix+u"@ =~= "prefix+"@ + seq!['u']);
    lemma_prefix_letter('f');
    assert("prefix+f"@ =~= "prefix+"@ + seq!['f']);
    lemma_prefix_letter('i');
    assert("prefix+i"@ =~= "prefix+"@ + seq!['i']);
    lemma_prefix_letter('y');
    assert("prefix+y"@ =~= "prefix+"@ + seq!['y']);
    lemma_prefix_letter('m');
    assert("prefix+m"@ =~= "prefix+"@ + seq!['m']);
    lemma_prefix_letter('d');
    assert("prefix+d"@ =~= "prefix+"@ + seq!['d']);
    lemma_prefix_letter('t');
    assert("prefix+t"@ =~= "prefix+"@ + seq!['t']);
    lemma_prefix_shift_letter('a');
    assert("prefix+shift+a"@ =~= "prefix+"@ + "shift+"@ + seq!['a']);
    lemma_prefix_shift_letter('u');
    assert("prefix+shift+u"@ =~= "prefix+"@ + "shift+"@ + seq!['u']);
}

/// Who uses `key` according to `used`.
pub fn lookup_owner<'a>(used: &'a Vec<(String, String)>, key: &str) -> (r: Option<&'a str>)
    requires
        unique_keys(used@),
    ensures
        match r {
            Some(o) => owner_in(used@, key@) == Some(o@),
            None => owner_in(used@, key@) is None,
        },
{
    let mut i: usize = 0;
    while i < used.len()
        invariant
            unique_keys(used@),
            i <= used@.len(),
            forall|j: int| 0 <= j < i ==> used@[j].0@ != key@,
        decreases used@.len() - i,
    {
        if crate::text::str_eq(used[i].0.as_str(), key) {
            proof { lemma_owner_at(used@, key@, i as int); }
            return Some(used[i].1.as_str());
        }
        i = i + 1;
    }
    None
}

impl Status {
    /// Who already uses `key`.
    pub fn owner_of(&self, key: &KeyCombo) -> (r: Option<&str>)
        requires
            unique_keys(self.used@),
        ensures
            match r {
                Some(o) => owner_in(self.used@, key@) == Some(o@),
                None => owner_in(self.used@, key@) is None,
            },
    {
        lookup_owner(&self.used, key.as_str())
    }

    /// The first candidate key nobody uses.
    pub fn free_key(&self) -> (r: Option<KeyCombo>)
        requires
            unique_keys(self.used@),
        ensures
            match free_from(self.used@, 0) {
                Some(i) => r matches Some(k) && k@ == candidates()[i],
                None => r is None,
            },
    {
        let cands = candidate_keys();
        let mut i: usize = 0;
        while i < cands.len()
            invariant
                i <= cands@.len(),
                str_views(cands@) == candidates(),
                unique_keys(self.used@),
                free_from(self.used@, 0) == free_from(self.used@, i as int),
            decreases cands@.len() - i,
        {
            assert(cands@[i as int]@ == candidates()[i as int]);
            proof { lemma_candidates_valid(); }
            if lookup_owner(&self.used, cands[i].as_str()).is_none() {
                return Some(KeyCombo(cands[i].clone()));
            }
            i = i + 1;
        }
        None
    }
}

/// The config with our block rewritten, or appended, so that it binds `key`.
pub open spec fn applied_text(config: Seq<char>, key: Seq<char>) -> Seq<char> {
    let rest = trim_end_char(split_text(config).0, '\n');
    rest + (if rest.len() == 0 { ""@ } else { "\n\n"@ }) + managed_text(key)
}

/// Rewrites (or appends) our fenced block so it binds `key`; returns the new
/// config text. Unless the text outside the old block holds a block start of
/// its own, reading the new text back gives the key and the rest as written,
/// and applying the same key again changes nothing.
pub fn apply(config: &str, key: &KeyCombo) -> (out: String)
    ensures
        out@ == applied_text(config@, key@),
        !crate::text::contains(split_text(config@).0, block_start()) ==> ({
            let rest = trim_end_char(split_text(config@).0, '\n');
            &&& split_text(out@) == (rest + crate::keybinding_laws::separator(rest), Some(key@))
            &&& applied_text(out@, key@) == out@
        }),
{
    proof {
        use_type_invariant(key);
        if !crate::text::contains(split_text(config@).0, block_start()) {
            crate::keybinding_laws::law_split_after_apply(config@, key@);
            crate::keybinding_laws::law_apply_replaces(config@, key@, key@);
        }
    }
    let (rest, _) = split_block(config);
    let rc = chars_of(rest.as_str());
    let trimmed = trim_end_char_exec(rc.as_slice(), '\n');
    let mut out = string_of(trimmed.as_slice());
    if trimmed.len() > 0 {
        out.append("\n\n");
    } else {
        out.append("");
    }
    let block = managed_block(key);
    out.append(block.as_str());
    out
}

} // verus!
