//! Character-level helpers shared by the parsers and formatters of the library.
//!
//! Every operation is stated over `Seq<char>`, the view of `str` and `String`,
//! and implemented over `&[char]`.

use vstd::prelude::*;

verus! {

/// `String::push`: appends one character.
#[verifier::external_body]
fn push_char(s: &mut String, c: char)
    ensures
        final(s)@ == old(s)@.push(c),
{
    s.push(c);
}

/// The characters of `s`, in order.
pub fn chars_of(s: &str) -> (v: Vec<char>)
    ensures
        v@ == s@,
{
    let mut v: Vec<char> = Vec::new();
    for c in it: s.chars()
        invariant
            v@ == it.seq().take(it.index() as int),
    {
        v.push(c);
    }
    v
}

/// A `String` holding exactly the characters of `cs`.
pub fn string_of(cs: &[char]) -> (s: String)
    ensures
        s@ == cs@,
{
    let mut s = String::new();
    let mut i: usize = 0;
    while i < cs.len()
        invariant
            i <= cs@.len(),
            s@ == cs@.take(i as int),
        decreases cs@.len() - i,
    {
        push_char(&mut s, cs[i]);
        assert(cs@.take(i as int).push(cs@[i as int]) =~= cs@.take(i + 1));
        i = i + 1;
    }
    assert(cs@.take(cs@.len() as int) =~= cs@);
    s
}

/// A `String` holding the characters of a literal.
pub fn owned(s: &str) -> (r: String)
    ensures
        r@ == s@,
{
    s.to_owned()
}

/// Character-wise equality of two sequences.
pub fn same_chars(a: &[char], b: &[char]) -> (r: bool)
    ensures
        r == (a@ == b@),
{
    if a.len() != b.len() {
        return false;
    }
    let mut i: usize = 0;
    while i < a.len()
        invariant
            a@.len() == b@.len(),
            i <= a@.len(),
            forall|j: int| 0 <= j < i ==> a@[j] == b@[j],
        decreases a@.len() - i,
    {
        if a[i] != b[i] {
            return false;
        }
        i = i + 1;
    }
    assert(a@ =~= b@);
    true
}

/// Equality of two strings by their characters.
pub fn str_eq(a: &str, b: &str) -> (r: bool)
    ensures
        r == (a@ == b@),
{
    let av = chars_of(a);
    let bv = chars_of(b);
    same_chars(av.as_slice(), bv.as_slice())
}

/// `char::is_whitespace`: the Unicode `White_Space` property.
pub open spec fn is_ws(c: char) -> bool {
    ||| ('\t' <= c && c <= '\r')
    ||| c == ' '
    ||| c == '\u{85}'
    ||| c == '\u{a0}'
    ||| c == '\u{1680}'
    ||| ('\u{2000}' <= c && c <= '\u{200a}')
    ||| c == '\u{2028}'
    ||| c == '\u{2029}'
    ||| c == '\u{202f}'
    ||| c == '\u{205f}'
    ||| c == '\u{3000}'
}

/// Whether `c` is Unicode white space.
pub fn is_whitespace(c: char) -> (r: bool)
    ensures
        r == is_ws(c),
{
    ('\t' <= c && c <= '\r') || c == ' ' || c == '\u{85}' || c == '\u{a0}' || c == '\u{1680}'
        || ('\u{2000}' <= c && c <= '\u{200a}') || c == '\u{2028}' || c == '\u{2029}'
        || c == '\u{202f}' || c == '\u{205f}' || c == '\u{3000}'
}

/// Index of the first non-white-space character at or after `k`, or the length.
pub open spec fn skip_ws_from(s: Seq<char>, k: int) -> int
    decreases s.len() - k,
{
    if k < 0 || k >= s.len() {
        k
    } else if is_ws(s[k]) {
        skip_ws_from(s, k + 1)
    } else {
        k
    }
}

/// One past the last non-white-space character before `k`, or 0.
pub open spec fn back_ws_from(s: Seq<char>, k: int) -> int
    decreases k,
{
    if k <= 0 || k > s.len() {
        k
    } else if is_ws(s[k - 1]) {
        back_ws_from(s, k - 1)
    } else {
        k
    }
}

/// `str::trim_start`.
pub open spec fn trim_start(s: Seq<char>) -> Seq<char> {
    s.skip(skip_ws_from(s, 0))
}

/// `str::trim_end`.
pub open spec fn trim_end(s: Seq<char>) -> Seq<char> {
    s.take(back_ws_from(s, s.len() as int))
}

/// `str::trim`.
pub open spec fn trim(s: Seq<char>) -> Seq<char> {
    trim_end(trim_start(s))
}

pub proof fn lemma_skip_ws_bounds(s: Seq<char>, k: int)
    requires
        0 <= k <= s.len(),
    ensures
        k <= skip_ws_from(s, k) <= s.len(),
        forall|j: int| k <= j < skip_ws_from(s, k) ==> is_ws(#[trigger] s[j]),
        skip_ws_from(s, k) < s.len() ==> !is_ws(s[skip_ws_from(s, k)]),
    decreases s.len() - k,
{
    if k < s.len() && is_ws(s[k]) {
        lemma_skip_ws_bounds(s, k + 1);
    }
}

pub proof fn lemma_back_ws_bounds(s: Seq<char>, k: int)
    requires
        0 <= k <= s.len(),
    ensures
        0 <= back_ws_from(s, k) <= k,
        forall|j: int| back_ws_from(s, k) <= j < k ==> is_ws(#[trigger] s[j]),
        back_ws_from(s, k) > 0 ==> !is_ws(s[back_ws_from(s, k) - 1]),
    decreases k,
{
    if k > 0 && is_ws(s[k - 1]) {
        lemma_back_ws_bounds(s, k - 1);
    }
}

/// Index of the first non-white-space character of `s` at or after `k`.
pub fn skip_ws(s: &[char], k: usize) -> (r: usize)
    requires
        k <= s@.len(),
    ensures
        r == skip_ws_from(s@, k as int),
        k <= r <= s@.len(),
{
    let mut i = k;
    proof { lemma_skip_ws_bounds(s@, k as int); }
    while i < s.len() && is_whitespace(s[i])
        invariant
            k <= i <= s@.len(),
            skip_ws_from(s@, k as int) == skip_ws_from(s@, i as int),
        decreases s@.len() - i,
    {
        i = i + 1;
    }
    i
}

/// One past the last non-white-space character of `s` before `k`.
pub fn back_ws(s: &[char], k: usize) -> (r: usize)
    requires
        k <= s@.len(),
    ensures
        r == back_ws_from(s@, k as int),
        r <= k,
{
    let mut i = k;
    proof { lemma_back_ws_bounds(s@, k as int); }
    while i > 0 && is_whitespace(s[i - 1])
        invariant
            i <= k <= s@.len(),
            back_ws_from(s@, k as int) == back_ws_from(s@, i as int),
        decreases i,
    {
        i = i - 1;
    }
    i
}

/// `str::trim` over characters.
pub fn trim_chars(s: &[char]) -> (r: Vec<char>)
    ensures
        r@ == trim(s@),
{
    let a = skip_ws(s, 0);
    let t = &s[a..s.len()];
    assert(t@ == s@.skip(a as int));
    let b = back_ws(t, t.len());
    let r = vstd::slice::slice_to_vec(&t[0..b]);
    r
}


/// `p` occurs in `s` starting at index `i`.
pub open spec fn occurs_at(s: Seq<char>, p: Seq<char>, i: int) -> bool {
    0 <= i && i + p.len() <= s.len() && s.subrange(i, i + p.len()) == p
}

/// `str::find` restricted to matches starting at or after `k`.
pub open spec fn find_from(s: Seq<char>, p: Seq<char>, k: int) -> Option<int>
    decreases s.len() + 1 - k,
{
    if k < 0 || k + p.len() > s.len() {
        None
    } else if occurs_at(s, p, k) {
        Some(k)
    } else {
        find_from(s, p, k + 1)
    }
}

/// `str::find`: the index of the first occurrence of `p` in `s`.
pub open spec fn find(s: Seq<char>, p: Seq<char>) -> Option<int> {
    find_from(s, p, 0)
}

/// `str::contains`.
pub open spec fn contains(s: Seq<char>, p: Seq<char>) -> bool {
    find(s, p) is Some
}

/// `str::rfind` restricted to matches starting at or before `k`.
pub open spec fn rfind_from(s: Seq<char>, p: Seq<char>, k: int) -> Option<int>
    decreases k + 1,
{
    if k < 0 {
        None
    } else if occurs_at(s, p, k) {
        Some(k)
    } else {
        rfind_from(s, p, k - 1)
    }
}

/// `str::rfind`: the index of the last occurrence of `p` in `s`.
pub open spec fn rfind(s: Seq<char>, p: Seq<char>) -> Option<int> {
    rfind_from(s, p, s.len() - p.len())
}

pub proof fn lemma_find_from(s: Seq<char>, p: Seq<char>, k: int)
    requires
        0 <= k,
    ensures
        find_from(s, p, k) matches Some(i) ==> k <= i && occurs_at(s, p, i) && forall|j: int|
            k <= j < i ==> !occurs_at(s, p, j),
        find_from(s, p, k) is None ==> forall|j: int| k <= j ==> !occurs_at(s, p, j),
    decreases s.len() + 1 - k,
{
    if k + p.len() <= s.len() && !occurs_at(s, p, k) {
        lemma_find_from(s, p, k + 1);
    }
}

pub proof fn lemma_rfind_from(s: Seq<char>, p: Seq<char>, k: int)
    ensures
        rfind_from(s, p, k) matches Some(i) ==> i <= k && occurs_at(s, p, i) && forall|j: int|
            i < j <= k ==> !occurs_at(s, p, j),
        rfind_from(s, p, k) is None ==> forall|j: int| j <= k ==> !occurs_at(s, p, j),
    decreases k + 1,
{
    if k >= 0 && !occurs_at(s, p, k) {
        lemma_rfind_from(s, p, k - 1);
    }
}

/// Whether `p` occurs in `s` at index `i`.
pub fn occurs_at_exec(s: &[char], p: &[char], i: usize) -> (r: bool)
    ensures
        r == occurs_at(s@, p@, i as int),
{
    if i > s.len() || p.len() > s.len() - i {
        return false;
    }
    assert(i + p@.len() <= s@.len());
    let mut j: usize = 0;
    while j < p.len()
        invariant
            i + p@.len() <= s@.len() <= usize::MAX,
            j <= p@.len(),
            forall|m: int| 0 <= m < j ==> s@[i + m] == p@[m],
        decreases p@.len() - j,
    {
        if s[i + j] != p[j] {
            assert(s@.subrange(i as int, i + p@.len())[j as int] != p@[j as int]);
            return false;
        }
        j = j + 1;
    }
    assert(s@.subrange(i as int, i + p@.len()) =~= p@);
    true
}

/// The first occurrence of `p` in `s` at or after `k`.
pub fn find_exec(s: &[char], p: &[char], k: usize) -> (r: Option<usize>)
    ensures
        r matches Some(i) ==> find_from(s@, p@, k as int) == Some(i as int),
        r is None ==> find_from(s@, p@, k as int) is None,
{
    if p.len() > s.len() || k > s.len() - p.len() {
        return None;
    }
    let mut i = k;
    loop
        invariant
            p@.len() <= s@.len(),
            k <= i <= s@.len() - p@.len(),
            find_from(s@, p@, k as int) == find_from(s@, p@, i as int),
        decreases s@.len() - i,
    {
        if occurs_at_exec(s, p, i) {
            return Some(i);
        }
        if i == s.len() - p.len() {
            assert(find_from(s@, p@, i + 1) is None);
            return None;
        }
        i = i + 1;
    }
}

/// The last occurrence of `p` in `s`.
pub fn rfind_exec(s: &[char], p: &[char]) -> (r: Option<usize>)
    ensures
        r matches Some(i) ==> rfind(s@, p@) == Some(i as int),
        r is None ==> rfind(s@, p@) is None,
{
    if p.len() > s.len() {
        return None;
    }
    let mut i = s.len() - p.len();
    loop
        invariant
            p@.len() <= s@.len(),
            i <= s@.len() - p@.len(),
            rfind(s@, p@) == rfind_from(s@, p@, i as int),
        decreases i,
    {
        if occurs_at_exec(s, p, i) {
            return Some(i);
        }
        if i == 0 {
            assert(rfind_from(s@, p@, -1) is None);
            return None;
        }
        i = i - 1;
    }
}

/// `str::starts_with`.
pub open spec fn starts_with(s: Seq<char>, p: Seq<char>) -> bool {
    occurs_at(s, p, 0)
}

/// `str::ends_with`.
pub open spec fn ends_with(s: Seq<char>, p: Seq<char>) -> bool {
    occurs_at(s, p, s.len() - p.len())
}

/// `str::trim_start_matches` with a single character.
pub open spec fn trim_start_char(s: Seq<char>, c: char) -> Seq<char>
    decreases s.len(),
{
    if s.len() > 0 && s[0] == c {
        trim_start_char(s.drop_first(), c)
    } else {
        s
    }
}

/// `str::trim_end_matches` with a single character.
pub open spec fn trim_end_char(s: Seq<char>, c: char) -> Seq<char>
    decreases s.len(),
{
    if s.len() > 0 && s.last() == c {
        trim_end_char(s.drop_last(), c)
    } else {
        s
    }
}

/// Removes every leading `c`.
pub fn trim_start_char_exec(s: &[char], c: char) -> (r: Vec<char>)
    ensures
        r@ == trim_start_char(s@, c),
{
    let mut i: usize = 0;
    assert(s@.skip(0) =~= s@);
    while i < s.len() && s[i] == c
        invariant
            i <= s@.len(),
            trim_start_char(s@, c) == trim_start_char(s@.skip(i as int), c),
        decreases s@.len() - i,
    {
        assert(s@.skip(i as int).drop_first() =~= s@.skip(i + 1));
        i = i + 1;
    }
    vstd::slice::slice_to_vec(&s[i..s.len()])
}

/// Removes every trailing `c`.
pub fn trim_end_char_exec(s: &[char], c: char) -> (r: Vec<char>)
    ensures
        r@ == trim_end_char(s@, c),
{
    let mut i: usize = s.len();
    assert(s@.take(s@.len() as int) =~= s@);
    while i > 0 && s[i - 1] == c
        invariant
            i <= s@.len(),
            trim_end_char(s@, c) == trim_end_char(s@.take(i as int), c),
        decreases i,
    {
        assert(s@.take(i as int).drop_last() =~= s@.take(i - 1));
        i = i - 1;
    }
    vstd::slice::slice_to_vec(&s[0..i])
}

/// `str::replace` for a non-empty pattern: every non-overlapping occurrence,
/// taken from the left, is replaced.
pub open spec fn replace_all(s: Seq<char>, p: Seq<char>, r: Seq<char>) -> Seq<char>
    decreases s.len(),
{
    if p.len() == 0 {
        s
    } else {
        match find(s, p) {
            None => s,
            Some(i) => if 0 <= i && i + p.len() <= s.len() {
                s.take(i) + r + replace_all(s.skip(i + p.len()), p, r)
            } else {
                s
            },
        }
    }
}

/// Replaces every occurrence of a non-empty `p` in `s` by `r`.
pub fn replace_exec(s: &[char], p: &[char], r: &[char]) -> (out: Vec<char>)
    requires
        p@.len() > 0,
    ensures
        out@ == replace_all(s@, p@, r@),
{
    let mut out: Vec<char> = Vec::new();
    let mut k: usize = 0;
    assert(s@.skip(0) =~= s@);
    assert(out@ + replace_all(s@, p@, r@) =~= replace_all(s@, p@, r@));
    loop
        invariant
            p@.len() > 0,
            k <= s@.len(),
            replace_all(s@, p@, r@) == out@ + replace_all(s@.skip(k as int), p@, r@),
        decreases s@.len() - k,
    {
        let rest = &s[k..s.len()];
        assert(rest@ == s@.skip(k as int));
        match find_exec(rest, p, 0) {
            None => {
                let mut j = k;
                while j < s.len()
                    invariant
                        k <= j <= s@.len(),
                        replace_all(s@, p@, r@) == out@ + s@.subrange(j as int, s@.len() as int),
                    decreases s@.len() - j,
                {
                    assert(s@.subrange(j as int, s@.len() as int) =~= seq![s@[j as int]] + s@.subrange(j + 1, s@.len() as int));
                    out.push(s[j]);
                    j = j + 1;
                }
                assert(s@.subrange(s@.len() as int, s@.len() as int) =~= Seq::<char>::empty());
                assert(out@ =~= out@ + Seq::<char>::empty());
                return out;
            },
            Some(i) => {
                proof { lemma_find_from(rest@, p@, 0); }
                let ghost before = out@;
                let mut j: usize = 0;
                while j < i
                    invariant
                        i + p@.len() <= rest@.len(),
                        j <= i,
                        out@ == before + rest@.take(j as int),
                    decreases i - j,
                {
                    assert(rest@.take(j + 1) =~= rest@.take(j as int).push(rest@[j as int]));
                    out.push(rest[j]);
                    j = j + 1;
                }
                let mut m: usize = 0;
                while m < r.len()
                    invariant
                        m <= r@.len(),
                        out@ == before + rest@.take(i as int) + r@.take(m as int),
                    decreases r@.len() - m,
                {
                    assert(r@.take(m + 1) =~= r@.take(m as int).push(r@[m as int]));
                    out.push(r[m]);
                    m = m + 1;
                }
                assert(r@.take(r@.len() as int) =~= r@);
                assert(rest@.skip(i + p@.len()) =~= s@.skip(k + i + p@.len()));
                assert(replace_all(rest@, p@, r@) == rest@.take(i as int) + r@ + replace_all(rest@.skip(i + p@.len()), p@, r@));
                assert(out@ + replace_all(s@.skip(k + i + p@.len()), p@, r@) =~= before + (rest@.take(i as int) + r@ + replace_all(rest@.skip(i + p@.len()), p@, r@)));
                k = k + i + p.len();
            },
        }
    }
}


/// The character sequences held by a vector of character vectors.
pub open spec fn views(v: Seq<Vec<char>>) -> Seq<Seq<char>> {
    v.map_values(|x: Vec<char>| x@)
}

/// The character sequences held by a vector of strings.
pub open spec fn str_views(v: Seq<String>) -> Seq<Seq<char>> {
    v.map_values(|x: String| x@)
}

/// Index of the first `c` in `s` at or after `k`, or the length.
pub open spec fn next_char_from(s: Seq<char>, c: char, k: int) -> int
    decreases s.len() - k,
{
    if k < 0 || k >= s.len() {
        k
    } else if s[k] == c {
        k
    } else {
        next_char_from(s, c, k + 1)
    }
}

pub proof fn lemma_next_char(s: Seq<char>, c: char, k: int)
    requires
        0 <= k <= s.len(),
    ensures
        k <= next_char_from(s, c, k) <= s.len(),
        forall|j: int| k <= j < next_char_from(s, c, k) ==> #[trigger] s[j] != c,
        next_char_from(s, c, k) < s.len() ==> s[next_char_from(s, c, k)] == c,
    decreases s.len() - k,
{
    if k < s.len() && s[k] != c {
        lemma_next_char(s, c, k + 1);
    }
}

/// Index of the first `c` in `s` at or after `k`, or the length.
pub fn next_char(s: &[char], c: char, k: usize) -> (r: usize)
    requires
        k <= s@.len(),
    ensures
        r == next_char_from(s@, c, k as int),
        k <= r <= s@.len(),
{
    proof { lemma_next_char(s@, c, k as int); }
    let mut i = k;
    while i < s.len() && s[i] != c
        invariant
            k <= i <= s@.len(),
            next_char_from(s@, c, k as int) == next_char_from(s@, c, i as int),
        decreases s@.len() - i,
    {
        i = i + 1;
    }
    i
}

/// `str::split` on a character, from index `k` on.
pub open spec fn split_from(s: Seq<char>, c: char, k: int) -> Seq<Seq<char>>
    decreases s.len() - k,
{
    if k < 0 || k > s.len() {
        seq![]
    } else {
        let e = next_char_from(s, c, k);
        if e >= s.len() || e < k {
            seq![s.subrange(k, s.len() as int)]
        } else {
            seq![s.subrange(k, e)] + split_from(s, c, e + 1)
        }
    }
}

/// `str::split` on a character: the pieces between the separators.
pub open spec fn split_char(s: Seq<char>, c: char) -> Seq<Seq<char>> {
    split_from(s, c, 0)
}

/// Splits `s` at every `c`.
pub fn split_char_exec(s: &[char], c: char) -> (r: Vec<Vec<char>>)
    ensures
        views(r@) == split_char(s@, c),
{
    let mut r: Vec<Vec<char>> = Vec::new();
    let mut k: usize = 0;
    loop
        invariant
            k <= s@.len(),
            split_char(s@, c) == views(r@) + split_from(s@, c, k as int),
        decreases s@.len() - k,
    {
        let e = next_char(s, c, k);
        let piece = vstd::slice::slice_to_vec(&s[k..e]);
        let ghost old_r = views(r@);
        r.push(piece);
        assert(views(r@) =~= old_r.push(s@.subrange(k as int, e as int)));
        if e >= s.len() {
            assert(split_from(s@, c, k as int) == seq![s@.subrange(k as int, s@.len() as int)]);
            assert(views(r@) =~= old_r + split_from(s@, c, k as int));
            return r;
        }
        assert(old_r + split_from(s@, c, k as int) =~= views(r@) + split_from(s@, c, e + 1));
        k = e + 1;
    }
}

/// `[T]::join` for character sequences.
pub open spec fn join(parts: Seq<Seq<char>>, sep: Seq<char>) -> Seq<char>
    decreases parts.len(),
{
    if parts.len() == 0 {
        seq![]
    } else if parts.len() == 1 {
        parts[0]
    } else {
        join(parts.drop_last(), sep) + sep + parts.last()
    }
}

/// Joins strings with a separator.
pub fn join_exec(parts: &Vec<String>, sep: &str) -> (r: String)
    ensures
        r@ == join(str_views(parts@), sep@),
{
    let mut r = String::new();
    let mut i: usize = 0;
    while i < parts.len()
        invariant
            i <= parts@.len(),
            r@ == join(str_views(parts@).take(i as int), sep@),
        decreases parts@.len() - i,
    {
        assert(str_views(parts@).take(i + 1).drop_last() =~= str_views(parts@).take(i as int));
        if i > 0 {
            r.append(sep);
        }
        r.append(parts[i].as_str());
        i = i + 1;
    }
    assert(str_views(parts@).take(parts@.len() as int) =~= str_views(parts@));
    r
}

/// Index of the first white-space character at or after `k`, or the length.
pub open spec fn next_ws_from(s: Seq<char>, k: int) -> int
    decreases s.len() - k,
{
    if k < 0 || k >= s.len() {
        k
    } else if is_ws(s[k]) {
        k
    } else {
        next_ws_from(s, k + 1)
    }
}

pub proof fn lemma_next_ws(s: Seq<char>, k: int)
    requires
        0 <= k <= s.len(),
    ensures
        k <= next_ws_from(s, k) <= s.len(),
        forall|j: int| k <= j < next_ws_from(s, k) ==> !is_ws(#[trigger] s[j]),
        next_ws_from(s, k) < s.len() ==> is_ws(s[next_ws_from(s, k)]),
    decreases s.len() - k,
{
    if k < s.len() && !is_ws(s[k]) {
        lemma_next_ws(s, k + 1);
    }
}

/// `str::split_whitespace`, from index `k` on.
pub open spec fn words_from(s: Seq<char>, k: int) -> Seq<Seq<char>>
    decreases s.len() - k,
{
    if k < 0 || k > s.len() {
        seq![]
    } else {
        let a = skip_ws_from(s, k);
        if a >= s.len() || a < k {
            seq![]
        } else {
            let b = next_ws_from(s, a);
            if b <= a || b > s.len() {
                seq![]
            } else {
                seq![s.subrange(a, b)] + words_from(s, b)
            }
        }
    }
}

/// `str::split_whitespace`: the maximal runs of non-white-space characters.
pub open spec fn words(s: Seq<char>) -> Seq<Seq<char>> {
    words_from(s, 0)
}

/// Splits `s` into its white-space separated words.
pub fn words_exec(s: &[char]) -> (r: Vec<Vec<char>>)
    ensures
        views(r@) == words(s@),
{
    let mut r: Vec<Vec<char>> = Vec::new();
    let mut k: usize = 0;
    loop
        invariant
            k <= s@.len(),
            words(s@) == views(r@) + words_from(s@, k as int),
        decreases s@.len() - k,
    {
        let a = skip_ws(s, k);
        if a >= s.len() {
            assert(words_from(s@, k as int) == Seq::<Seq<char>>::empty());
            assert(views(r@) + Seq::<Seq<char>>::empty() =~= views(r@));
            return r;
        }
        proof { lemma_next_ws(s@, a as int); lemma_skip_ws_bounds(s@, k as int); }
        let mut b = a;
        while b < s.len() && !is_whitespace(s[b])
            invariant
                a <= b <= s@.len(),
                next_ws_from(s@, a as int) == next_ws_from(s@, b as int),
            decreases s@.len() - b,
        {
            b = b + 1;
        }
        let ghost old_r = views(r@);
        r.push(vstd::slice::slice_to_vec(&s[a..b]));
        assert(views(r@) =~= old_r.push(s@.subrange(a as int, b as int)));
        assert(old_r + words_from(s@, k as int) =~= views(r@) + words_from(s@, b as int));
        k = b;
    }
}

/// A line without its `\r` before the `\n` that ended it.
pub open spec fn strip_cr(t: Seq<char>) -> Seq<char> {
    if t.len() > 0 && t.last() == '\r' {
        t.drop_last()
    } else {
        t
    }
}

/// `str::lines`, from index `k` on.
pub open spec fn lines_from(s: Seq<char>, k: int) -> Seq<Seq<char>>
    decreases s.len() - k,
{
    if k < 0 || k >= s.len() {
        seq![]
    } else {
        let e = next_char_from(s, '\n', k);
        if e >= s.len() || e < k {
            seq![s.subrange(k, s.len() as int)]
        } else {
            seq![strip_cr(s.subrange(k, e))] + lines_from(s, e + 1)
        }
    }
}

/// `str::lines`: lines end at `\n` or `\r\n`; a final line ending adds no empty line.
pub open spec fn lines(s: Seq<char>) -> Seq<Seq<char>> {
    lines_from(s, 0)
}

/// The lines of `s`.
pub fn lines_exec(s: &[char]) -> (r: Vec<Vec<char>>)
    ensures
        views(r@) == lines(s@),
{
    let mut r: Vec<Vec<char>> = Vec::new();
    let mut k: usize = 0;
    loop
        invariant
            k <= s@.len(),
            lines(s@) == views(r@) + lines_from(s@, k as int),
        decreases s@.len() - k,
    {
        if k >= s.len() {
            assert(views(r@) + lines_from(s@, k as int) =~= views(r@));
            return r;
        }
        let e = next_char(s, '\n', k);
        let ghost old_r = views(r@);
        if e >= s.len() {
            r.push(vstd::slice::slice_to_vec(&s[k..e]));
            assert(views(r@) =~= old_r + lines_from(s@, k as int));
            return r;
        }
        let mut end = e;
        if end > k && s[end - 1] == '\r' {
            end = end - 1;
        }
        assert(s@.subrange(k as int, end as int) =~= strip_cr(s@.subrange(k as int, e as int)));
        r.push(vstd::slice::slice_to_vec(&s[k..end]));
        assert(views(r@) =~= old_r.push(strip_cr(s@.subrange(k as int, e as int))));
        assert(old_r + lines_from(s@, k as int) =~= views(r@) + lines_from(s@, e + 1));
        k = e + 1;
    }
}

/// Whether `s` starts with `p`.
pub fn starts_with_exec(s: &[char], p: &[char]) -> (r: bool)
    ensures
        r == starts_with(s@, p@),
{
    occurs_at_exec(s, p, 0)
}

/// Whether `s` ends with `p`.
pub fn ends_with_exec(s: &[char], p: &[char]) -> (r: bool)
    ensures
        r == ends_with(s@, p@),
{
    if p.len() > s.len() {
        return false;
    }
    occurs_at_exec(s, p, s.len() - p.len())
}


/// `Path::join` of a relative component that holds no `/`: a separator is
/// added unless the base is empty or already ends with one.
pub open spec fn path_join(base: Seq<char>, part: Seq<char>) -> Seq<char> {
    if base.len() == 0 || base.last() == '/' {
        base + part
    } else {
        base + "/"@ + part
    }
}

/// Joins a relative path component onto a base path.
pub fn path_join_exec(base: &str, part: &str) -> (r: String)
    ensures
        r@ == path_join(base@, part@),
{
    let b = chars_of(base);
    let mut r = owned(base);
    if b.len() > 0 && b[b.len() - 1] != '/' {
        r.append("/");
    }
    r.append(part);
    r
}


/// `s` holds no `c` from index `k` on.
pub open spec fn lacks_from(s: Seq<char>, c: char, k: int) -> bool
    decreases s.len() - k,
{
    if k < 0 || k >= s.len() {
        true
    } else {
        s[k] != c && lacks_from(s, c, k + 1)
    }
}

pub proof fn lemma_lacks(s: Seq<char>, c: char, k: int)
    requires
        0 <= k,
        lacks_from(s, c, k),
    ensures
        forall|i: int| k <= i < s.len() ==> s[i] != c,
    decreases s.len() - k,
{
    if k < s.len() {
        lemma_lacks(s, c, k + 1);
    }
}

/// An occurrence with none before it is the one `find` reports.
pub proof fn lemma_find_first(s: Seq<char>, p: Seq<char>, i: int)
    requires
        occurs_at(s, p, i),
        forall|j: int| 0 <= j < i ==> !occurs_at(s, p, j),
    ensures
        find(s, p) == Some(i),
{
    lemma_find_first_from(s, p, i, 0);
}

proof fn lemma_find_first_from(s: Seq<char>, p: Seq<char>, i: int, k: int)
    requires
        0 <= k <= i,
        occurs_at(s, p, i),
        forall|j: int| k <= j < i ==> !occurs_at(s, p, j),
    ensures
        find_from(s, p, k) == Some(i),
    decreases i - k,
{
    if k < i {
        lemma_find_first_from(s, p, i, k + 1);
    }
}

/// Trimming trailing `c` keeps a prefix that does not end with `c`.
pub proof fn lemma_trim_end_char(s: Seq<char>, c: char)
    ensures
        trim_end_char(s, c).len() <= s.len(),
        trim_end_char(s, c) == s.take(trim_end_char(s, c).len() as int),
        trim_end_char(s, c).len() > 0 ==> trim_end_char(s, c).last() != c,
        forall|i: int| trim_end_char(s, c).len() <= i < s.len() ==> s[i] == c,
    decreases s.len(),
{
    if s.len() > 0 && s.last() == c {
        lemma_trim_end_char(s.drop_last(), c);
        let r = trim_end_char(s.drop_last(), c);
        assert(s.drop_last().take(r.len() as int) =~= s.take(r.len() as int));
        assert forall|i: int| r.len() <= i < s.len() implies s[i] == c by {
            if i < s.len() - 1 {
                assert(s.drop_last()[i] == s[i]);
            }
        }
    } else {
        assert(s.take(s.len() as int) =~= s);
    }
}

/// Trailing `c` added to a text that does not end with one are trimmed again.
pub proof fn lemma_trim_end_char_padded(r: Seq<char>, c: char, n: nat)
    requires
        r.len() > 0 ==> r.last() != c,
    ensures
        trim_end_char(r + Seq::new(n, |i: int| c), c) == r,
    decreases n,
{
    let t = r + Seq::new(n, |i: int| c);
    if n == 0 {
        assert(t =~= r);
    } else {
        assert(t.drop_last() =~= r + Seq::new((n - 1) as nat, |i: int| c));
        lemma_trim_end_char_padded(r, c, (n - 1) as nat);
    }
}


/// Lexicographic order of character sequences, as `String`'s `Ord` orders them.
pub open spec fn lex_le(a: Seq<char>, b: Seq<char>) -> bool
    decreases a.len(),
{
    if a.len() == 0 {
        true
    } else if b.len() == 0 {
        false
    } else if a[0] != b[0] {
        a[0] < b[0]
    } else {
        lex_le(a.drop_first(), b.drop_first())
    }
}

pub proof fn lemma_lex_total(a: Seq<char>, b: Seq<char>)
    ensures
        lex_le(a, b) || lex_le(b, a),
    decreases a.len(),
{
    if a.len() > 0 && b.len() > 0 && a[0] == b[0] {
        lemma_lex_total(a.drop_first(), b.drop_first());
    }
}

pub proof fn lemma_lex_trans(a: Seq<char>, b: Seq<char>, c: Seq<char>)
    requires
        lex_le(a, b),
        lex_le(b, c),
    ensures
        lex_le(a, c),
    decreases a.len(),
{
    if a.len() > 0 && b.len() > 0 && c.len() > 0 && a[0] == b[0] && b[0] == c[0] {
        lemma_lex_trans(a.drop_first(), b.drop_first(), c.drop_first());
    }
}

/// Whether `a` sorts before or equal to `b`.
pub fn lex_le_exec(a: &[char], b: &[char]) -> (r: bool)
    ensures
        r == lex_le(a@, b@),
{
    let mut i: usize = 0;
    assert(a@.skip(0) =~= a@ && b@.skip(0) =~= b@);
    loop
        invariant
            i <= a@.len(),
            i <= b@.len(),
            lex_le(a@, b@) == lex_le(a@.skip(i as int), b@.skip(i as int)),
        decreases a@.len() - i,
    {
        if i == a.len() {
            return true;
        }
        if i == b.len() {
            return false;
        }
        if a[i] != b[i] {
            return a[i] < b[i];
        }
        assert(a@.skip(i as int).drop_first() =~= a@.skip(i + 1));
        assert(b@.skip(i as int).drop_first() =~= b@.skip(i + 1));
        i = i + 1;
    }
}

} // verus!
