//! Character-level scanning primitives shared by the tokenizer, the
//! variable extractor and the two translators.
//!
//! All executable code here works on `Vec<char>` (sequences of scalar
//! values, never raw bytes), so every pass stays correct under multi-byte
//! text.  The spec functions mirror each scan one character at a time.

use vstd::prelude::*;
use vstd::std_specs::iter::IteratorSpec;

verus! {

broadcast use vstd::string::group_string_axioms;

/// An ASCII letter.
pub open spec fn is_ascii_alpha(c: char) -> bool {
    ('a' <= c && c <= 'z') || ('A' <= c && c <= 'Z')
}

/// An ASCII decimal digit.
pub open spec fn is_ascii_digit_char(c: char) -> bool {
    '0' <= c && c <= '9'
}

/// An ASCII letter or digit.
pub open spec fn is_ascii_alnum(c: char) -> bool {
    is_ascii_alpha(c) || is_ascii_digit_char(c)
}

/// A character that may start a variable name: a letter or an underscore.
pub open spec fn is_ident_start(c: char) -> bool {
    is_ascii_alpha(c) || c == '_'
}

/// A character that may continue a variable name.
pub open spec fn is_ident_char(c: char) -> bool {
    is_ascii_alnum(c) || c == '_'
}

/// Unicode whitespace (the White_Space class): the characters that split
/// unquoted tokens.
pub open spec fn is_space_char(c: char) -> bool {
    c == ' ' || c == '\t' || c == '\n' || c == '\r' || c == '\x0b' || c == '\x0c' || c == '\u{85}'
        || c == '\u{a0}' || c == '\u{1680}' || ('\u{2000}' <= c && c <= '\u{200a}') || c
        == '\u{2028}' || c == '\u{2029}' || c == '\u{202f}' || c == '\u{205f}' || c == '\u{3000}'
}

/// Exec mirror of [`is_ascii_alpha`].
pub fn ascii_alpha(c: char) -> (r: bool)
    ensures
        r == is_ascii_alpha(c),
{
    ('a' <= c && c <= 'z') || ('A' <= c && c <= 'Z')
}

/// Exec mirror of [`is_ascii_digit_char`].
pub fn ascii_digit(c: char) -> (r: bool)
    ensures
        r == is_ascii_digit_char(c),
{
    '0' <= c && c <= '9'
}

/// Exec mirror of [`is_ascii_alnum`].
pub fn ascii_alnum(c: char) -> (r: bool)
    ensures
        r == is_ascii_alnum(c),
{
    ascii_alpha(c) || ascii_digit(c)
}

/// Exec mirror of [`is_ident_start`].
pub fn ident_start(c: char) -> (r: bool)
    ensures
        r == is_ident_start(c),
{
    ascii_alpha(c) || c == '_'
}

/// Exec mirror of [`is_ident_char`].
pub fn ident_char(c: char) -> (r: bool)
    ensures
        r == is_ident_char(c),
{
    ascii_alpha(c) || ascii_digit(c) || c == '_'
}

/// Exec mirror of [`is_space_char`].
pub fn space_char(c: char) -> (r: bool)
    ensures
        r == is_space_char(c),
{
    c == ' ' || c == '\t' || c == '\n' || c == '\r' || c == '\x0b' || c == '\x0c' || c == '\u{85}'
        || c == '\u{a0}' || c == '\u{1680}' || ('\u{2000}' <= c && c <= '\u{200a}') || c
        == '\u{2028}' || c == '\u{2029}' || c == '\u{202f}' || c == '\u{205f}' || c == '\u{3000}'
}

/// Collects the scalar values of a string slice into a vector.
pub fn str_to_chars(s: &str) -> (r: Vec<char>)
    ensures
        r@ == s@,
{
    let mut it = s.chars();
    let mut v: Vec<char> = Vec::new();
    loop
        invariant
            it.obeys_prophetic_iter_laws(),
            it.decrease() is Some,
            s@ == v@ + it.remaining(),
        ensures
            v@ == s@,
        decreases it.decrease()->0,
    {
        match it.next() {
            Option::Some(c) => {
                v.push(c);
            },
            Option::None => {
                proof {
                    assert(it.remaining().len() == 0);
                    assert(v@ =~= s@);
                }
                break ;
            },
        }
    }
    v
}

/// Relies on `String::from_iter`: the returned string holds exactly the
/// characters of the vector, in order.
#[verifier::external_body]
pub(crate) fn chars_to_string(v: &Vec<char>) -> (r: String)
    ensures
        r@ == v@,
{
    String::from_iter(v.iter().copied())
}

/// A valid variable name: non-empty, first character a letter or
/// underscore, all characters letters, digits or underscores.
pub open spec fn spec_valid_var_name(s: Seq<char>) -> bool {
    s.len() > 0 && is_ident_start(s[0]) && (forall|i: int| 0 <= i < s.len() ==> is_ident_char(s[i]))
}

/// A parameter-expansion operator character inside a braced variable
/// reference: everything from the first of these on is dropped.
pub open spec fn is_expansion_op(c: char) -> bool {
    c == ':' || c == '-' || c == '+' || c == '='
}

/// Exec mirror of [`is_expansion_op`].
pub fn expansion_op(c: char) -> (r: bool)
    ensures
        r == is_expansion_op(c),
{
    c == ':' || c == '-' || c == '+' || c == '='
}

/// The first position at or after `i` holding `c`, if any.
pub open spec fn find_char(s: Seq<char>, c: char, i: int) -> Option<int>
    decreases s.len() - i,
{
    if 0 <= i < s.len() {
        if s[i] == c {
            Option::Some(i)
        } else {
            find_char(s, c, i + 1)
        }
    } else {
        Option::None
    }
}

/// Bounds and characterization of [`find_char`].
pub proof fn lemma_find_char(s: Seq<char>, c: char, i: int)
    requires
        0 <= i,
    ensures
        find_char(s, c, i) matches Option::Some(j) ==> i <= j < s.len() && s[j] == c && (forall|
            k: int,
        |
            i <= k < j ==> s[k] != c),
        find_char(s, c, i) is None ==> (forall|k: int| i <= k < s.len() ==> s[k] != c),
    decreases s.len() - i,
{
    if 0 <= i < s.len() && s[i] != c {
        lemma_find_char(s, c, i + 1);
    }
}

/// Whether position `i` of a scan is protected by the mask `m`: text
/// inserted by an earlier pipeline phase, which a later phase must copy
/// unchanged and never re-interpret as live syntax.
pub open spec fn prot(m: Seq<bool>, i: int) -> bool {
    0 <= i < m.len() && m[i]
}

/// Whether every position in `[a, b)` is unprotected.
pub open spec fn range_free(m: Seq<bool>, a: int, b: int) -> bool {
    forall|k: int| a <= k < b ==> !prot(m, k)
}

/// Exec mirror of [`range_free`].
pub fn range_free_exec(m: &Vec<bool>, a: usize, b: usize) -> (r: bool)
    requires
        a <= b <= m@.len(),
    ensures
        r == range_free(m@, a as int, b as int),
{
    let mut j: usize = a;
    while j < b
        invariant
            a <= j <= b <= m@.len(),
            forall|k: int| a <= k < j ==> !prot(m@, k),
        decreases b - j,
    {
        if m[j] {
            assert(prot(m@, j as int));
            return false;
        }
        j += 1;
    }
    true
}

/// A mask of `n` unprotected positions.
pub fn false_mask(n: usize) -> (r: Vec<bool>)
    ensures
        r@.len() == n,
        forall|i: int| 0 <= i < n ==> r@[i] == false,
{
    let mut m: Vec<bool> = Vec::new();
    let mut j: usize = 0;
    while j < n
        invariant
            0 <= j <= n,
            m@.len() == j,
            forall|i: int| 0 <= i < j ==> m@[i] == false,
        decreases n - j,
    {
        m.push(false);
        j += 1;
    }
    m
}

/// Append `n` copies of `b` to the mask `out`.
pub fn push_bools(out: &mut Vec<bool>, b: bool, n: usize) -> (nothing: ())
    ensures
        final (out)@.len() == old(out)@.len() + n,
        forall|i: int| 0 <= i < old(out)@.len() ==> final (out)@[i] == old(out)@[i],
        forall|i: int| old(out)@.len() <= i < final (out)@.len() ==> final (out)@[i] == b,
{
    let mut j: usize = 0;
    while j < n
        invariant
            0 <= j <= n,
            out@.len() == old(out)@.len() + j,
            forall|i: int| 0 <= i < old(out)@.len() ==> out@[i] == old(out)@[i],
            forall|i: int| old(out)@.len() <= i < out@.len() ==> out@[i] == b,
        decreases n - j,
    {
        out.push(b);
        j += 1;
    }
}

/// The first position at or after `i` holding `c`, scanning only
/// unprotected text: a protected position ends the search unsuccessfully,
/// so a match never rests on inserted text.
pub open spec fn find_char_free(s: Seq<char>, m: Seq<bool>, c: char, i: int) -> Option<int>
    decreases s.len() - i,
{
    if 0 <= i < s.len() {
        if prot(m, i) {
            Option::None
        } else if s[i] == c {
            Option::Some(i)
        } else {
            find_char_free(s, m, c, i + 1)
        }
    } else {
        Option::None
    }
}

/// Bounds and characterization of [`find_char_free`].
pub proof fn lemma_find_char_free(s: Seq<char>, m: Seq<bool>, c: char, i: int)
    requires
        0 <= i,
    ensures
        find_char_free(s, m, c, i) matches Option::Some(j) ==> i <= j < s.len() && s[j] == c
            && range_free(m, i, j + 1) && (forall|k: int| i <= k < j ==> s[k] != c),
        find_char_free(s, m, c, i) is None ==> (forall|k: int|
            i <= k < s.len() && range_free(m, i, k + 1) ==> s[k] != c),
    decreases s.len() - i,
{
    if 0 <= i < s.len() && !prot(m, i) && s[i] != c {
        lemma_find_char_free(s, m, c, i + 1);
    }
}

/// Exec mirror of [`find_char_free`].
pub fn find_char_free_exec(v: &Vec<char>, m: &Vec<bool>, c: char, i: usize) -> (r: Option<usize>)
    requires
        i <= v@.len(),
        m@.len() == v@.len(),
    ensures
        match r {
            Option::Some(j) => find_char_free(v@, m@, c, i as int) == Option::Some(j as int) && i
                <= j < v@.len(),
            Option::None => find_char_free(v@, m@, c, i as int) is None,
        },
{
    let n = v.len();
    let mut j: usize = i;
    while j < n
        invariant
            i <= j <= v@.len(),
            n == v@.len() == m@.len(),
            find_char_free(v@, m@, c, i as int) == find_char_free(v@, m@, c, j as int),
        decreases v@.len() - j,
    {
        if m[j] {
            assert(prot(m@, j as int));
            return Option::None;
        }
        if v[j] == c {
            return Option::Some(j);
        }
        j += 1;
    }
    Option::None
}

/// The end of the unprotected identifier-character run that starts at
/// `i`: the first position at or after `i` that is protected or whose
/// character cannot continue a name.
pub open spec fn ident_run_end_free(s: Seq<char>, m: Seq<bool>, i: int) -> int
    decreases s.len() - i,
{
    if 0 <= i < s.len() && !prot(m, i) && is_ident_char(s[i]) {
        ident_run_end_free(s, m, i + 1)
    } else {
        i
    }
}

/// Bounds and characterization of [`ident_run_end_free`].
pub proof fn lemma_ident_run_end_free(s: Seq<char>, m: Seq<bool>, i: int)
    requires
        0 <= i <= s.len(),
    ensures
        i <= ident_run_end_free(s, m, i) <= s.len(),
        forall|k: int| i <= k < ident_run_end_free(s, m, i) ==> is_ident_char(s[k]),
        forall|k: int| i <= k < ident_run_end_free(s, m, i) ==> !prot(m, k),
    decreases s.len() - i,
{
    if 0 <= i < s.len() && !prot(m, i) && is_ident_char(s[i]) {
        lemma_ident_run_end_free(s, m, i + 1);
    }
}

/// Exec mirror of [`ident_run_end_free`].
pub fn ident_run_end_free_exec(v: &Vec<char>, m: &Vec<bool>, i: usize) -> (r: usize)
    requires
        i <= v@.len(),
        m@.len() == v@.len(),
    ensures
        r == ident_run_end_free(v@, m@, i as int),
        i <= r <= v@.len(),
{
    proof {
        lemma_ident_run_end_free(v@, m@, i as int);
    }
    let n = v.len();
    let mut j: usize = i;
    while j < n && !m[j] && ident_char(v[j])
        invariant
            i <= j <= v@.len(),
            n == v@.len() == m@.len(),
            ident_run_end_free(v@, m@, i as int) == ident_run_end_free(v@, m@, j as int),
        decreases v@.len() - j,
    {
        j += 1;
    }
    j
}

/// The end of the identifier-character run that starts at `i`: the first
/// position at or after `i` whose character cannot continue a name.
pub open spec fn ident_run_end(s: Seq<char>, i: int) -> int
    decreases s.len() - i,
{
    if 0 <= i < s.len() && is_ident_char(s[i]) {
        ident_run_end(s, i + 1)
    } else {
        i
    }
}

/// Bounds and characterization of [`ident_run_end`].
pub proof fn lemma_ident_run_end(s: Seq<char>, i: int)
    requires
        0 <= i <= s.len(),
    ensures
        i <= ident_run_end(s, i) <= s.len(),
        forall|k: int| i <= k < ident_run_end(s, i) ==> is_ident_char(s[k]),
        ident_run_end(s, i) < s.len() ==> !is_ident_char(s[ident_run_end(s, i)]),
    decreases s.len() - i,
{
    if 0 <= i < s.len() && is_ident_char(s[i]) {
        lemma_ident_run_end(s, i + 1);
    }
}

/// Exec mirror of [`ident_run_end`].
pub fn ident_run_end_exec(v: &Vec<char>, i: usize) -> (r: usize)
    requires
        i <= v@.len(),
    ensures
        r == ident_run_end(v@, i as int),
        i <= r <= v@.len(),
{
    proof {
        lemma_ident_run_end(v@, i as int);
    }
    let n = v.len();
    let mut j: usize = i;
    while j < n && ident_char(v[j])
        invariant
            i <= j <= v@.len(),
            n == v@.len(),
            ident_run_end(v@, i as int) == ident_run_end(v@, j as int),
        decreases v@.len() - j,
    {
        j += 1;
    }
    j
}

/// Exec mirror of [`find_char`].
pub fn find_char_exec(v: &Vec<char>, c: char, i: usize) -> (r: Option<usize>)
    requires
        i <= v@.len(),
    ensures
        match r {
            Option::Some(j) => find_char(v@, c, i as int) == Option::Some(j as int) && i <= j
                < v@.len(),
            Option::None => find_char(v@, c, i as int) is None,
        },
{
    let n = v.len();
    let mut j: usize = i;
    while j < n
        invariant
            i <= j <= v@.len(),
            n == v@.len(),
            find_char(v@, c, i as int) == find_char(v@, c, j as int),
        decreases v@.len() - j,
    {
        if v[j] == c {
            return Option::Some(j);
        }
        j += 1;
    }
    Option::None
}

/// The first position in `[from, to)` holding a parameter-expansion
/// operator, or `to` when there is none.
pub open spec fn cut_end(s: Seq<char>, from: int, to: int) -> int
    decreases to - from,
{
    if 0 <= from < to <= s.len() {
        if is_expansion_op(s[from]) {
            from
        } else {
            cut_end(s, from + 1, to)
        }
    } else {
        to
    }
}

/// Bounds and characterization of [`cut_end`].
pub proof fn lemma_cut_end(s: Seq<char>, from: int, to: int)
    requires
        0 <= from <= to <= s.len(),
    ensures
        from <= cut_end(s, from, to) <= to,
        forall|k: int| from <= k < cut_end(s, from, to) ==> !is_expansion_op(s[k]),
        cut_end(s, from, to) < to ==> is_expansion_op(s[cut_end(s, from, to)]),
    decreases to - from,
{
    if 0 <= from < to <= s.len() && !is_expansion_op(s[from]) {
        lemma_cut_end(s, from + 1, to)
    }
}

/// Exec mirror of [`cut_end`].
pub fn cut_end_exec(v: &Vec<char>, from: usize, to: usize) -> (r: usize)
    requires
        from <= to <= v@.len(),
    ensures
        r == cut_end(v@, from as int, to as int),
        from <= r <= to,
{
    proof {
        lemma_cut_end(v@, from as int, to as int);
    }
    let mut j: usize = from;
    while j < to
        invariant
            from <= j <= to <= v@.len(),
            cut_end(v@, from as int, to as int) == cut_end(v@, j as int, to as int),
        decreases to - j,
    {
        if expansion_op(v[j]) {
            return j;
        }
        j += 1;
    }
    j
}

/// Whether `v[from..to]` is a valid variable name (exec check against
/// [`spec_valid_var_name`] of the subrange).
pub fn valid_name_range(v: &Vec<char>, from: usize, to: usize) -> (r: bool)
    requires
        from <= to <= v@.len(),
    ensures
        r == spec_valid_var_name(v@.subrange(from as int, to as int)),
{
    let ghost sub = v@.subrange(from as int, to as int);
    if from == to {
        return false;
    }
    if !ident_start(v[from]) {
        proof {
            assert(sub[0] == v@[from as int]);
        }
        return false;
    }
    let mut j: usize = from;
    while j < to
        invariant
            from <= j <= to <= v@.len(),
            sub == v@.subrange(from as int, to as int),
            forall|k: int| from <= k < j ==> is_ident_char(v@[k]),
        decreases to - j,
    {
        if !ident_char(v[j]) {
            proof {
                assert(sub[j - from] == v@[j as int]);
            }
            return false;
        }
        j += 1;
    }
    proof {
        assert(sub.len() > 0);
        assert(sub[0] == v@[from as int]);
        assert forall|k: int| 0 <= k < sub.len() implies is_ident_char(sub[k]) by {
            assert(sub[k] == v@[from + k]);
        }
    }
    true
}

/// Whether two character vectors hold the same characters.
pub fn chars_eq(a: &Vec<char>, b: &Vec<char>) -> (r: bool)
    ensures
        r == (a@ == b@),
{
    if a.len() != b.len() {
        return false;
    }
    let n = a.len();
    let mut j: usize = 0;
    while j < n
        invariant
            0 <= j <= n,
            n == a@.len() == b@.len(),
            forall|k: int| 0 <= k < j ==> a@[k] == b@[k],
        decreases n - j,
    {
        if a[j] != b[j] {
            return false;
        }
        j += 1;
    }
    proof {
        assert(a@ =~= b@);
    }
    true
}

/// Append every character of `src` to `out`.
pub fn push_all(out: &mut Vec<char>, src: &Vec<char>) -> (nothing: ())
    ensures
        final (out)@ == old(out)@ + src@,
{
    let mut j: usize = 0;
    while j < src.len()
        invariant
            0 <= j <= src@.len(),
            out@ == old(out)@ + src@.take(j as int),
        decreases src@.len() - j,
    {
        out.push(src[j]);
        proof {
            assert(old(out)@ + src@.take(j as int) + seq![src@[j as int]] =~= old(out)@
                + src@.take(j + 1));
        }
        j += 1;
    }
    proof {
        assert(src@.take(src@.len() as int) =~= src@);
    }
}

/// Append `src[from..to]` to `out`.
pub fn push_range(out: &mut Vec<char>, src: &Vec<char>, from: usize, to: usize) -> (nothing: ())
    requires
        from <= to <= src@.len(),
    ensures
        final (out)@ == old(out)@ + src@.subrange(from as int, to as int),
{
    let mut j: usize = from;
    while j < to
        invariant
            from <= j <= to <= src@.len(),
            out@ == old(out)@ + src@.subrange(from as int, j as int),
        decreases to - j,
    {
        out.push(src[j]);
        proof {
            assert(old(out)@ + src@.subrange(from as int, j as int) + seq![src@[j as int]]
                =~= old(out)@ + src@.subrange(from as int, j + 1));
        }
        j += 1;
    }
}

/// Append every character of the string slice `s` to `out`.
pub fn append_str(out: &mut Vec<char>, s: &str) -> (nothing: ())
    ensures
        final (out)@ == old(out)@ + s@,
{
    let chars = str_to_chars(s);
    push_all(out, &chars);
}

/// One step of left-to-right, non-overlapping replacement of `pat` by
/// `rep`, starting at position `i`: a match consumes the pattern and emits
/// the replacement, anything else is copied.  An empty pattern never
/// matches, so the scan then copies the text unchanged.
pub open spec fn spec_replace_all_from(s: Seq<char>, pat: Seq<char>, rep: Seq<char>, i: int) -> Seq<
    char,
>
    decreases s.len() - i,
{
    if !(0 <= i < s.len()) {
        Seq::empty()
    } else if pat.len() > 0 && match_at(s, pat, i) {
        rep + spec_replace_all_from(s, pat, rep, i + pat.len() as int)
    } else {
        seq![s[i]] + spec_replace_all_from(s, pat, rep, i + 1)
    }
}

/// Every occurrence of `pat` in `s` replaced by `rep`, left to right,
/// non-overlapping, blind to quoting.
pub open spec fn spec_replace_all(s: Seq<char>, pat: Seq<char>, rep: Seq<char>) -> Seq<char> {
    spec_replace_all_from(s, pat, rep, 0)
}

/// The first position at or after `i` where `pat` occurs in `s`, if any.
pub open spec fn find_sub(s: Seq<char>, pat: Seq<char>, i: int) -> Option<int>
    decreases s.len() - i,
{
    if !(0 <= i && i + pat.len() <= s.len()) {
        Option::None
    } else if match_at(s, pat, i) {
        Option::Some(i)
    } else if i < s.len() {
        find_sub(s, pat, i + 1)
    } else {
        Option::None
    }
}

/// `s` with the first occurrence of `pat` (if any) replaced by `rep`.
pub open spec fn spec_replace_first(s: Seq<char>, pat: Seq<char>, rep: Seq<char>) -> Seq<char> {
    match find_sub(s, pat, 0) {
        Option::Some(k) => s.subrange(0, k) + rep + s.subrange(k + pat.len() as int, s.len() as int),
        Option::None => s,
    }
}

/// The last position at or before `i` holding `c`, if any.
pub open spec fn rfind_char_from(s: Seq<char>, c: char, i: int) -> Option<int>
    decreases i,
{
    if !(0 <= i < s.len()) {
        Option::None
    } else if s[i] == c {
        Option::Some(i)
    } else if i == 0 {
        Option::None
    } else {
        rfind_char_from(s, c, i - 1)
    }
}

/// Exec mirror of [`rfind_char_from`] started at the end of `v`.
pub fn rfind_char_exec(v: &Vec<char>, c: char) -> (r: Option<usize>)
    ensures
        match r {
            Option::Some(j) => rfind_char_from(v@, c, v@.len() - 1) == Option::Some(j as int) && j
                < v@.len(),
            Option::None => rfind_char_from(v@, c, v@.len() - 1) is None,
        },
{
    let n = v.len();
    if n == 0 {
        return Option::None;
    }
    let mut j: usize = n - 1;
    loop
        invariant
            0 <= j < n,
            n == v@.len(),
            rfind_char_from(v@, c, n - 1) == rfind_char_from(v@, c, j as int),
        decreases j,
    {
        if v[j] == c {
            return Option::Some(j);
        }
        if j == 0 {
            return Option::None;
        }
        j -= 1;
    }
}

/// Exec mirror of [`spec_replace_all`] over character vectors.
pub fn replace_all_chars(v: &Vec<char>, pat: &Vec<char>, rep: &Vec<char>) -> (r: Vec<char>)
    ensures
        r@ == spec_replace_all(v@, pat@, rep@),
{
    let n = v.len();
    let mut out: Vec<char> = Vec::new();
    let mut i: usize = 0;
    while i < n
        invariant
            0 <= i <= v@.len(),
            n == v@.len(),
            spec_replace_all(v@, pat@, rep@) == out@ + spec_replace_all_from(
                v@,
                pat@,
                rep@,
                i as int,
            ),
        decreases v@.len() - i,
    {
        let ghost pre = out@;
        if pat.len() > 0 && match_at_exec(v, pat, i) {
            push_all(&mut out, rep);
            proof {
                assert(pre + (rep@ + spec_replace_all_from(v@, pat@, rep@, i + pat@.len())) =~= out@
                    + spec_replace_all_from(v@, pat@, rep@, i + pat@.len()));
            }
            i += pat.len();
        } else {
            out.push(v[i]);
            proof {
                assert(pre + (seq![v@[i as int]] + spec_replace_all_from(v@, pat@, rep@, i + 1))
                    =~= out@ + spec_replace_all_from(v@, pat@, rep@, i + 1));
            }
            i += 1;
        }
    }
    proof {
        assert(out@ + spec_replace_all_from(v@, pat@, rep@, i as int) =~= out@);
    }
    out
}

/// Whether `pat` occurs in `s` at position `i`.
pub open spec fn match_at(s: Seq<char>, pat: Seq<char>, i: int) -> bool {
    0 <= i && i + pat.len() <= s.len() && s.subrange(i, i + pat.len() as int) == pat
}

/// Whether `pat` occurs anywhere in `s`.
pub open spec fn spec_contains(s: Seq<char>, pat: Seq<char>) -> bool {
    exists|i: int| match_at(s, pat, i)
}

/// Whether `pat` occurs in `s` at position `i` (exec).
pub fn match_at_exec(s: &Vec<char>, pat: &Vec<char>, i: usize) -> (r: bool)
    requires
        i <= s@.len(),
    ensures
        r == match_at(s@, pat@, i as int),
{
    let n = s.len();
    if pat.len() > n - i {
        assert(!match_at(s@, pat@, i as int));
        return false;
    }
    let mut j: usize = 0;
    while j < pat.len()
        invariant
            0 <= j <= pat@.len(),
            i + pat@.len() <= s@.len(),
            n == s@.len(),
            forall|k: int| 0 <= k < j ==> s@[i + k] == pat@[k],
        decreases pat@.len() - j,
    {
        if s[i + j] != pat[j] {
            proof {
                assert(s@.subrange(i as int, i + pat@.len() as int)[j as int] != pat@[j as int]);
            }
            return false;
        }
        j += 1;
    }
    proof {
        assert(s@.subrange(i as int, i + pat@.len() as int) =~= pat@);
    }
    true
}

/// Whether `pat` occurs anywhere in `s` (exec).
pub fn contains_sub(s: &Vec<char>, pat: &Vec<char>) -> (r: bool)
    ensures
        r == spec_contains(s@, pat@),
{
    if pat.len() == 0 {
        proof {
            assert(s@.subrange(0, 0) =~= pat@);
            assert(match_at(s@, pat@, 0));
        }
        return true;
    }
    let n = s.len();
    let mut i: usize = 0;
    while i < n
        invariant
            0 <= i <= s@.len(),
            n == s@.len(),
            forall|k: int| 0 <= k < i ==> !match_at(s@, pat@, k),
        decreases s@.len() - i,
    {
        if match_at_exec(s, pat, i) {
            return true;
        }
        i += 1;
    }
    proof {
        assert forall|k: int| !match_at(s@, pat@, k) by {
            if 0 <= k && k + pat@.len() <= s@.len() {
                assert(k < i);
            }
        }
    }
    false
}

} // verus!
