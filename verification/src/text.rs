//! Character classification, ASCII case folding, and whitespace trimming,
//! specified over sequences of characters.

use vstd::prelude::*;

verus! {

/// The Unicode `White_Space` set, written out: the characters that are
/// stripped from the ends of header names and values.
pub open spec fn is_space(c: char) -> bool {
    ||| c == ' '
    ||| c == '\t'
    ||| c == '\n'
    ||| c == '\u{0b}'
    ||| c == '\u{0c}'
    ||| c == '\r'
    ||| c == '\u{85}'
    ||| c == '\u{a0}'
    ||| c == '\u{1680}'
    ||| ('\u{2000}' <= c && c <= '\u{200a}')
    ||| c == '\u{2028}'
    ||| c == '\u{2029}'
    ||| c == '\u{202f}'
    ||| c == '\u{205f}'
    ||| c == '\u{3000}'
}

/// Runtime test for `is_space`.
pub fn is_space_char(c: char) -> (r: bool)
    ensures
        r == is_space(c),
{
    c == ' ' || c == '\t' || c == '\n' || c == '\u{0b}' || c == '\u{0c}' || c == '\r'
        || c == '\u{85}' || c == '\u{a0}' || c == '\u{1680}'
        || ('\u{2000}' <= c && c <= '\u{200a}')
        || c == '\u{2028}' || c == '\u{2029}' || c == '\u{202f}' || c == '\u{205f}'
        || c == '\u{3000}'
}

/// ASCII lowercasing of one character; all other characters are unchanged.
pub open spec fn lower_char(c: char) -> char {
    if 'A' <= c && c <= 'Z' {
        (c as u8 + 0x20) as char
    } else {
        c
    }
}

/// ASCII lowercasing of a whole sequence.
pub open spec fn lower(s: Seq<char>) -> Seq<char> {
    s.map_values(|c: char| lower_char(c))
}

/// Runtime ASCII lowercasing, matching `lower_char`.
pub fn lower_char_exec(c: char) -> (r: char)
    ensures
        r == lower_char(c),
{
    if 'A' <= c && c <= 'Z' {
        (c as u8 + 0x20) as char
    } else {
        c
    }
}

/// Case-insensitive match of `s` against an all-lowercase word `t`:
/// true exactly when lowercasing `s` yields `t`.
pub fn eq_lowered(s: &str, t: &str) -> (r: bool)
    ensures
        r == (lower(s@) == t@),
{
    let n: usize = s.unicode_len();
    if n != t.unicode_len() {
        assert(lower(s@).len() != t@.len());
        return false;
    }
    let mut i: usize = 0;
    while i < n
        invariant
            n == s@.len(),
            n == t@.len(),
            0 <= i <= n,
            forall|k: int| 0 <= k < i ==> lower(s@)[k] == t@[k],
        decreases n - i,
    {
        if lower_char_exec(s.get_char(i)) != t.get_char(i) {
            assert(lower(s@)[i as int] != t@[i as int]);
            return false;
        }
        i += 1;
    }
    assert(lower(s@) =~= t@);
    true
}

/// What remains of `s` after the leading whitespace is removed.
pub open spec fn trim_start(s: Seq<char>) -> Seq<char>
    decreases s.len(),
{
    if s.len() > 0 && is_space(s[0]) {
        trim_start(s.subrange(1, s.len() as int))
    } else {
        s
    }
}

/// What remains of `s` after the trailing whitespace is removed.
pub open spec fn trim_end(s: Seq<char>) -> Seq<char>
    decreases s.len(),
{
    if s.len() > 0 && is_space(s[s.len() - 1]) {
        trim_end(s.subrange(0, s.len() - 1))
    } else {
        s
    }
}

/// `s` with whitespace removed from both ends.
pub open spec fn trim(s: Seq<char>) -> Seq<char> {
    trim_end(trim_start(s))
}

/// If the first `i` characters are whitespace and the character at `i`
/// (when there is one) is not, trimming the start keeps exactly `s[i..]`.
proof fn lemma_trim_start_skip(s: Seq<char>, i: int)
    requires
        0 <= i <= s.len(),
        forall|k: int| 0 <= k < i ==> is_space(s[k]),
        i == s.len() || !is_space(s[i]),
    ensures
        trim_start(s) == s.subrange(i, s.len() as int),
    decreases i,
{
    if i == 0 {
        assert(s.subrange(0, s.len() as int) =~= s);
    } else {
        assert(is_space(s[0]));
        let s1 = s.subrange(1, s.len() as int);
        lemma_trim_start_skip(s1, i - 1);
        assert(s1.subrange(i - 1, s1.len() as int) =~= s.subrange(i, s.len() as int));
    }
}

/// If everything from `j` on is whitespace and the character before `j`
/// (when there is one) is not, trimming the end keeps exactly `s[..j]`.
proof fn lemma_trim_end_skip(s: Seq<char>, j: int)
    requires
        0 <= j <= s.len(),
        forall|k: int| j <= k < s.len() ==> is_space(s[k]),
        j == 0 || !is_space(s[j - 1]),
    ensures
        trim_end(s) == s.subrange(0, j),
    decreases s.len(),
{
    if j == s.len() {
        assert(s.subrange(0, j) =~= s);
    } else {
        assert(is_space(s[s.len() - 1]));
        let s1 = s.subrange(0, s.len() - 1);
        lemma_trim_end_skip(s1, j);
        assert(s1.subrange(0, j) =~= s.subrange(0, j));
    }
}

/// A non-empty start-trimmed sequence begins with a non-space character.
proof fn lemma_trim_start_first(s: Seq<char>)
    requires
        trim_start(s).len() > 0,
    ensures
        !is_space(trim_start(s)[0]),
    decreases s.len(),
{
    if s.len() > 0 && is_space(s[0]) {
        lemma_trim_start_first(s.subrange(1, s.len() as int));
    }
}

/// A non-empty end-trimmed sequence ends with a non-space character.
proof fn lemma_trim_end_last(s: Seq<char>)
    requires
        trim_end(s).len() > 0,
    ensures
        !is_space(trim_end(s)[trim_end(s).len() - 1]),
    decreases s.len(),
{
    if s.len() > 0 && is_space(s[s.len() - 1]) {
        lemma_trim_end_last(s.subrange(0, s.len() - 1));
    }
}

/// Trimming the end of a sequence that starts with a non-space character
/// keeps that first character.
proof fn lemma_trim_end_keeps_first(s: Seq<char>)
    requires
        s.len() > 0,
        !is_space(s[0]),
    ensures
        trim_end(s).len() > 0,
        trim_end(s)[0] == s[0],
    decreases s.len(),
{
    if is_space(s[s.len() - 1]) {
        lemma_trim_end_keeps_first(s.subrange(0, s.len() - 1));
    }
}

/// A trimmed sequence, when non-empty, starts and ends with non-space
/// characters.
pub proof fn lemma_trim_bounds(s: Seq<char>)
    requires
        trim(s).len() > 0,
    ensures
        !is_space(trim(s)[0]),
        !is_space(trim(s)[trim(s).len() - 1]),
{
    let ts = trim_start(s);
    assert(ts.len() > 0) by {
        if ts.len() == 0 {
            assert(trim_end(ts) =~= ts);
        }
    }
    lemma_trim_start_first(s);
    lemma_trim_end_keeps_first(ts);
    lemma_trim_end_last(ts);
}

/// Trimming is idempotent.
pub proof fn lemma_trim_idempotent(s: Seq<char>)
    ensures
        trim(trim(s)) == trim(s),
{
    let t = trim(s);
    if t.len() == 0 {
        assert(trim_start(t) == t);
        assert(trim_end(t) == t);
    } else {
        lemma_trim_bounds(s);
        assert(trim_start(t) == t);
        assert(trim_end(t) == t);
    }
}

/// Trimming preserves the absence of a character: if `c` occurs nowhere
/// in `s`, it occurs nowhere in the trimmed sequence either.
pub proof fn lemma_trim_keeps_absence(s: Seq<char>, c: char)
    requires
        forall|k: int| 0 <= k < s.len() ==> s[k] != c,
    ensures
        forall|k: int| 0 <= k < trim(s).len() ==> trim(s)[k] != c,
{
    lemma_trim_start_keeps_absence(s, c);
    lemma_trim_end_keeps_absence(trim_start(s), c);
}

proof fn lemma_trim_start_keeps_absence(s: Seq<char>, c: char)
    requires
        forall|k: int| 0 <= k < s.len() ==> s[k] != c,
    ensures
        forall|k: int| 0 <= k < trim_start(s).len() ==> trim_start(s)[k] != c,
    decreases s.len(),
{
    if s.len() > 0 && is_space(s[0]) {
        let s1 = s.subrange(1, s.len() as int);
        assert(forall|k: int| 0 <= k < s1.len() ==> s1[k] == s[k + 1]);
        lemma_trim_start_keeps_absence(s1, c);
        assert(trim_start(s) == trim_start(s1));
    }
}

proof fn lemma_trim_end_keeps_absence(s: Seq<char>, c: char)
    requires
        forall|k: int| 0 <= k < s.len() ==> s[k] != c,
    ensures
        forall|k: int| 0 <= k < trim_end(s).len() ==> trim_end(s)[k] != c,
    decreases s.len(),
{
    if s.len() > 0 && is_space(s[s.len() - 1]) {
        let s1 = s.subrange(0, s.len() - 1);
        assert(forall|k: int| 0 <= k < s1.len() ==> s1[k] == s[k]);
        lemma_trim_end_keeps_absence(s1, c);
        assert(trim_end(s) == trim_end(s1));
    }
}

/// Leading whitespace does not change the trimmed value.
pub proof fn lemma_trim_drop_leading_space(c: char, v: Seq<char>)
    requires
        is_space(c),
    ensures
        trim(seq![c] + v) == trim(v),
{
    let s = seq![c] + v;
    assert(s.len() == v.len() + 1);
    assert(s[0] == c);
    assert(s.subrange(1, s.len() as int) =~= v);
    assert(trim_start(s) == trim_start(v));
}

/// Runtime trimming: removes leading and trailing whitespace, matching
/// the `trim` specification.
pub fn trim_str(s: &str) -> (t: String)
    ensures
        t@ == trim(s@),
{
    let n: usize = s.unicode_len();
    let mut i: usize = 0;
    while i < n && is_space_char(s.get_char(i))
        invariant
            n == s@.len(),
            0 <= i <= n,
            forall|k: int| 0 <= k < i ==> is_space(s@[k]),
        decreases n - i,
    {
        i += 1;
    }
    let mut j: usize = n;
    while j > i && is_space_char(s.get_char(j - 1))
        invariant
            n == s@.len(),
            i <= j <= n,
            forall|k: int| j <= k < n ==> is_space(s@[k]),
        decreases j,
    {
        j -= 1;
    }
    proof {
        lemma_trim_start_skip(s@, i as int);
        let mid = s@.subrange(i as int, n as int);
        lemma_trim_end_skip(mid, j - i);
        assert(mid.subrange(0, j - i) =~= s@.subrange(i as int, j as int));
    }
    let t = s.substring_char(i, j);
    t.to_owned()
}

} // verus!
