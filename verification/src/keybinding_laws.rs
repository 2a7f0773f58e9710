//! What rewriting the managed block guarantees.

use vstd::prelude::*;
use crate::keybinding::{
    applied_text, binding_text, block_end, block_head, block_start, block_tail, key_line,
    key_line_at, key_line_from, key_name, line_start, lower_or_digit, managed_text, manual_text,
    mod_len_at, skip_ascii_ws, split_text, valid_key, valid_key_from, Source,
};
use crate::text::{
    contains, find, lacks_from, lemma_find_first, lemma_find_from, lemma_lacks,
    lemma_trim_end_char, lemma_trim_end_char_padded, next_char_from, occurs_at, trim_end_char,
    trim_start_char,
};

verus! {

/// A character of a valid key: lowercase letter, digit or `+`.
pub open spec fn key_char(c: char) -> bool {
    lower_or_digit(c) || c == '+'
}

spec fn key_chars_from(s: Seq<char>, k: int) -> bool
    decreases s.len() - k,
{
    if k < 0 || k >= s.len() {
        true
    } else {
        key_char(s[k]) && key_chars_from(s, k + 1)
    }
}

proof fn lemma_key_chars_from(s: Seq<char>, k: int)
    requires
        0 <= k,
        key_chars_from(s, k),
    ensures
        forall|i: int| k <= i < s.len() ==> key_char(s[i]),
    decreases s.len() - k,
{
    if k < s.len() {
        lemma_key_chars_from(s, k + 1);
    }
}

proof fn lemma_literal_key_chars(s: Seq<char>, lit: Seq<char>, k: int)
    requires
        occurs_at(s, lit, k),
        key_chars_from(lit, 0),
    ensures
        forall|i: int| k <= i < k + lit.len() ==> key_char(s[i]),
{
    lemma_key_chars_from(lit, 0);
    assert forall|i: int| k <= i < k + lit.len() implies key_char(s[i]) by {
        assert(s.subrange(k, k + lit.len())[i - k] == s[i]);
    }
}

proof fn lemma_modifier_chars(s: Seq<char>, k: int)
    requires
        mod_len_at(s, k) > 0,
    ensures
        forall|i: int| k <= i < k + mod_len_at(s, k) ==> key_char(s[i]),
{
    reveal_strlit("ctrl+");
    reveal_strlit("alt+");
    reveal_strlit("shift+");
    reveal_strlit("cmd+");
    reveal_strlit("prefix+");
    reveal_with_fuel(key_chars_from, 8);
    if occurs_at(s, "ctrl+"@, k) {
        lemma_literal_key_chars(s, "ctrl+"@, k);
    } else if occurs_at(s, "alt+"@, k) {
        lemma_literal_key_chars(s, "alt+"@, k);
    } else if occurs_at(s, "shift+"@, k) {
        lemma_literal_key_chars(s, "shift+"@, k);
    } else if occurs_at(s, "cmd+"@, k) {
        lemma_literal_key_chars(s, "cmd+"@, k);
    } else {
        lemma_literal_key_chars(s, "prefix+"@, k);
    }
}

proof fn lemma_valid_key_from_chars(s: Seq<char>, k: int)
    requires
        valid_key_from(s, k),
    ensures
        forall|i: int| k <= i < s.len() ==> key_char(s[i]),
        k < s.len(),
    decreases s.len() - k,
{
    let m = mod_len_at(s, k);
    lemma_modifier_chars(s, k);
    if key_name(s.skip(k + m)) {
        let t = s.skip(k + m);
        assert forall|i: int| k + m <= i < s.len() implies key_char(s[i]) by {
            assert(t[i - k - m] == s[i]);
        }
    } else {
        lemma_valid_key_from_chars(s, k + m);
    }
}

/// A valid key is made of lowercase letters, digits and `+`, and is not empty.
pub proof fn lemma_valid_key_chars(key: Seq<char>)
    requires
        valid_key(key),
    ensures
        key.len() > 0,
        forall|i: int| 0 <= i < key.len() ==> key_char(key[i]),
{
    lemma_valid_key_from_chars(key, 0);
}


/// The block without its final line break.
pub open spec fn block_text(key: Seq<char>) -> Seq<char> {
    block_start() + block_head() + key + block_tail() + block_end()
}

proof fn lemma_block_literals()
    ensures
        block_start().len() == 77,
        block_end().len() == 43,
        block_head().len() == 25,
        block_tail().len() == 90,
        block_start()[0] == '#',
        block_start()[2] == '>',
        block_end()[2] == '<',
        block_end()[0] == '#',
        forall|i: int| 0 <= i < 77 ==> block_start()[i] != '\n',
        forall|i: int| 1 <= i < 77 ==> block_start()[i] != '#',
        forall|i: int| 0 <= i < 25 ==> block_head()[i] != '#',
        forall|i: int| 0 <= i < 90 ==> block_tail()[i] != '#',
        forall|i: int| 1 <= i < 17 ==> block_head()[i] != '\n',
        block_head()[0] == '\n',
        block_head()[1] == '[',
        block_head()[17] == '\n',
        block_head()[18] == 'k',
        block_head()[19] == 'e',
        block_head()[20] == 'y',
        block_head()[21] == ' ',
        block_head()[22] == '=',
        block_head()[23] == ' ',
        block_head()[24] == '"',
        block_tail()[0] == '"',
{
    reveal_strlit("# >>> herdr-profiles managed keybinding (edit with: herdr-profiles setup) >>>");
    reveal_strlit("# <<< herdr-profiles managed keybinding <<<");
    reveal_strlit("\n[[keys.command]]\nkey = \"");
    reveal_strlit("\"\ntype = \"plugin_action\"\ncommand = \"herdr-profiles.choose\"\ndescription = \"choose profile\"\n");
    assert(lacks_from(block_start(), '\n', 0)) by {
        reveal_with_fuel(lacks_from, 80);
    }
    lemma_lacks(block_start(), '\n', 0);
    assert(lacks_from(block_start(), '#', 1)) by {
        reveal_with_fuel(lacks_from, 80);
    }
    lemma_lacks(block_start(), '#', 1);
    assert(lacks_from(block_head(), '#', 0)) by {
        reveal_with_fuel(lacks_from, 30);
    }
    lemma_lacks(block_head(), '#', 0);
    assert(lacks_from(block_tail(), '#', 0)) by {
        reveal_with_fuel(lacks_from, 95);
    }
    lemma_lacks(block_tail(), '#', 0);
    let h = block_head().subrange(1, 17);
    assert(lacks_from(h, '\n', 0)) by {
        reveal_with_fuel(lacks_from, 20);
    }
    lemma_lacks(h, '\n', 0);
    assert forall|i: int| 1 <= i < 17 implies block_head()[i] != '\n' by {
        assert(h[i - 1] == block_head()[i]);
    }
}


/// The separator `apply` puts before the block.
pub open spec fn separator(rest: Seq<char>) -> Seq<char> {
    if rest.len() == 0 { ""@ } else { "\n\n"@ }
}

proof fn lemma_start_found(r: Seq<char>, key: Seq<char>)
    requires
        forall|j: int| !occurs_at(r, block_start(), j),
    ensures
        find(r + separator(r) + managed_text(key), block_start()) == Some((r.len() + separator(r).len()) as int),
{
    lemma_block_literals();
    reveal_strlit("\n\n");
    reveal_strlit("");
    let sep = separator(r);
    let n = r + sep + managed_text(key);
    let p: int = (r.len() + sep.len()) as int;
    assert(n.subrange(p, p + 77) =~= block_start());
    assert forall|j: int| 0 <= j < p implies !occurs_at(n, block_start(), j) by {
        if occurs_at(n, block_start(), j) {
            if j + 77 <= r.len() {
                assert(r.subrange(j, j + 77) =~= n.subrange(j, j + 77));
                assert(occurs_at(r, block_start(), j));
            } else {
                let m = if j <= r.len() { r.len() as int } else { j };
                assert(n[m] == '\n');
                assert(n.subrange(j, j + 77)[m - j] == n[m]);
            }
        }
    }
    lemma_find_first(n, block_start(), p);
}

proof fn lemma_end_found(key: Seq<char>)
    requires
        valid_key(key),
    ensures
        find(managed_text(key), block_end()) == Some((102 + key.len() + 90) as int),
{
    lemma_block_literals();
    lemma_valid_key_chars(key);
    let b = managed_text(key);
    let e: int = (102 + key.len() + 90) as int;
    assert(b.subrange(e, e + 43) =~= block_end());
    assert forall|j: int| 0 <= j < e implies !occurs_at(b, block_end(), j) by {
        if occurs_at(b, block_end(), j) {
            assert(b.subrange(j, j + 43)[0] == b[j]);
            assert(b[j] == '#');
            assert(b.subrange(j, j + 43)[2] == b[j + 2]);
            if j == 0 {
                assert(b[2] == '>');
            } else if j < 77 {
                assert(b[j] == block_start()[j]);
            } else if j < 102 {
                assert(b[j] == block_head()[j - 77]);
            } else if j < 102 + key.len() {
                assert(b[j] == key[j - 102]);
                assert(key_char(key[j - 102]));
            } else {
                assert(b[j] == block_tail()[j - 102 - key.len()]);
            }
        }
    }
    lemma_find_first(b, block_end(), e);
}

proof fn lemma_key_line_skips(t: Seq<char>, k: int, l: int)
    requires
        0 <= k <= l <= t.len(),
        forall|j: int| k <= j < l ==> !(line_start(t, j) && key_line_at(t, j) is Some),
    ensures
        key_line_from(t, k) == key_line_from(t, l),
    decreases l - k,
{
    if k < l {
        lemma_key_line_skips(t, k + 1, l);
    }
}

proof fn lemma_block_key_line(key: Seq<char>)
    requires
        valid_key(key),
    ensures
        key_line(block_text(key)) == Some(key),
{
    lemma_block_literals();
    lemma_valid_key_chars(key);
    reveal_strlit("key");
    let t = block_text(key);
    let l = 95;
    assert forall|j: int| 0 <= j < l implies !(line_start(t, j) && key_line_at(t, j) is Some) by {
        if j == 0 {
            assert(skip_ascii_ws(t, 0) == 0);
            assert(t.subrange(0, 3)[0] == t[0]);
        } else if j < 78 {
            assert(t[j - 1] == block_start()[j - 1]);
        } else if j == 78 {
            assert(t[78] == '[');
            assert(skip_ascii_ws(t, 78) == 78);
            assert(t.subrange(78, 81)[0] == t[78]);
        } else {
            assert(t[j - 1] == block_head()[j - 78]);
        }
    }
    lemma_key_line_skips(t, 0, l);
    assert(t[94] == '\n');
    assert(skip_ascii_ws(t, 95) == 95);
    assert(t.subrange(95, 98) =~= "key"@);
    assert(skip_ascii_ws(t, 99) == 99);
    assert(skip_ascii_ws(t, 98) == 99);
    assert(skip_ascii_ws(t, 101) == 101);
    assert(skip_ascii_ws(t, 100) == 101);
    let e: int = (102 + key.len()) as int;
    assert(t[e] == '"');
    assert forall|j: int| 102 <= j < e implies t[j] != '"' by {
        assert(t[j] == key[j - 102]);
    }
    lemma_next_quote(t, 102, e);
    assert(t.subrange(102, e) =~= key);
    assert(key_line_at(t, 95) == Some(key));
    assert(line_start(t, 95));
}

proof fn lemma_next_quote(t: Seq<char>, k: int, e: int)
    requires
        0 <= k <= e < t.len(),
        t[e] == '"',
        forall|j: int| k <= j < e ==> t[j] != '"',
    ensures
        next_char_from(t, '"', k) == e,
    decreases e - k,
{
    if k < e {
        lemma_next_quote(t, k + 1, e);
    }
}

/// Writing the block and splitting it off again gives back the key that was
/// written and the rest of the config as `apply` left it: the block is
/// found, and found once, whenever the text outside the old block held no
/// block start of its own.
pub proof fn law_split_after_apply(config: Seq<char>, key: Seq<char>)
    requires
        valid_key(key),
        !contains(split_text(config).0, block_start()),
    ensures
        ({
            let rest = trim_end_char(split_text(config).0, '\n');
            split_text(applied_text(config, key)) == (rest + separator(rest), Some(key))
        }),
{
    let old_rest = split_text(config).0;
    let r = trim_end_char(old_rest, '\n');
    lemma_trim_end_char(old_rest, '\n');
    lemma_find_from(old_rest, block_start(), 0);
    assert forall|j: int| !occurs_at(r, block_start(), j) by {
        if occurs_at(r, block_start(), j) {
            assert(r.subrange(j, j + block_start().len()) =~= old_rest.subrange(j, j + block_start().len()));
            assert(occurs_at(old_rest, block_start(), j));
        }
    }
    lemma_split_applied(r, key);
}

proof fn lemma_split_applied(r: Seq<char>, key: Seq<char>)
    requires
        valid_key(key),
        forall|j: int| !occurs_at(r, block_start(), j),
    ensures
        split_text(r + separator(r) + managed_text(key)) == (r + separator(r), Some(key)),
{
    lemma_block_literals();
    lemma_start_found(r, key);
    lemma_end_found(key);
    lemma_block_key_line(key);
    reveal_strlit("# >>> herdr-profiles managed keybinding (edit with: herdr-profiles setup) >>>");
    reveal_strlit("# <<< herdr-profiles managed keybinding <<<");
    reveal_strlit("\n\n");
    reveal_strlit("");
    reveal_strlit("\n");
    let sep = separator(r);
    let n = r + sep + managed_text(key);
    let p: int = (r.len() + sep.len()) as int;
    assert(n.skip(p) =~= managed_text(key));
    let end: int = p + 102 + key.len() + 90 + 43;
    assert(n.subrange(p, end) =~= block_text(key));
    assert(n.take(p) =~= r + sep);
    assert(n.skip(end) =~= "\n"@);
    assert(trim_start_char("\n"@, '\n') =~= ""@) by {
        reveal_with_fuel(trim_start_char, 3);
        assert("\n"@.drop_first() =~= ""@);
        assert(trim_start_char(""@, '\n') =~= ""@);
    }
    assert(n.take(p) + trim_start_char(n.skip(end), '\n') =~= r + sep);
}

/// Applying twice is applying once: the second block replaces the first.
pub proof fn law_apply_replaces(config: Seq<char>, k1: Seq<char>, k2: Seq<char>)
    requires
        valid_key(k1),
        valid_key(k2),
        !contains(split_text(config).0, block_start()),
    ensures
        applied_text(applied_text(config, k1), k2) == applied_text(config, k2),
{
    law_split_after_apply(config, k1);
    let r = trim_end_char(split_text(config).0, '\n');
    lemma_trim_end_char(split_text(config).0, '\n');
    reveal_strlit("\n\n");
    reveal_strlit("");
    if r.len() == 0 {
        assert(r + separator(r) =~= r);
        assert(trim_end_char(r, '\n') == r);
    } else {
        assert(separator(r) =~= Seq::new(2, |i: int| '\n'));
        lemma_trim_end_char_padded(r, '\n', 2);
    }
}

/// After the block is written, the chooser is bound to its key unless a
/// binding written by hand outside the block takes precedence.
pub proof fn law_status_after_apply(config: Seq<char>, key: Seq<char>)
    requires
        valid_key(key),
        !contains(split_text(config).0, block_start()),
    ensures
        ({
            let rest = trim_end_char(split_text(config).0, '\n');
            binding_text(applied_text(config, key)) == match manual_text(rest + separator(rest)) {
                Some(m) => Some((m, Source::Manual)),
                None => Some((key, Source::Managed)),
            }
        }),
{
    law_split_after_apply(config, key);
}

} // verus!
