//! The forward (POSIX to PowerShell) and reverse translators, with the
//! dollar-sign disambiguator and the quote-aware operator replacer.

use vstd::prelude::*;

use crate::shell::bash;
use crate::shell::command_map;
use crate::shell::text;

verus! {

/// The PowerShell accessor that replaces the positional parameter `$N` for
/// `N` in `1..=9`: the argument-array index character for `N - 1`.
pub open spec fn digit_index_char(d: char) -> char {
    if d == '1' {
        '0'
    } else if d == '2' {
        '1'
    } else if d == '3' {
        '2'
    } else if d == '4' {
        '3'
    } else if d == '5' {
        '4'
    } else if d == '6' {
        '5'
    } else if d == '7' {
        '6'
    } else if d == '8' {
        '7'
    } else {
        '8'
    }
}

/// Exec mirror of [`digit_index_char`].
fn digit_before(d: char) -> (r: char)
    requires
        text::is_ascii_digit_char(d),
        d != '0',
    ensures
        r == digit_index_char(d),
{
    if d == '1' {
        '0'
    } else if d == '2' {
        '1'
    } else if d == '3' {
        '2'
    } else if d == '4' {
        '3'
    } else if d == '5' {
        '4'
    } else if d == '6' {
        '5'
    } else if d == '7' {
        '6'
    } else if d == '8' {
        '7'
    } else {
        '8'
    }
}

/// One left-to-right pass classifying every `$` from position `i` on.
/// The scan carries both quote flags — never both true, since a quote
/// character flips exactly one of them: `'` only outside double quotes,
/// `"` only outside single quotes — and a protection mask `m` marking
/// text inserted by an earlier pipeline phase, which is copied unchanged
/// and never read as live syntax.  Inside single quotes everything is
/// literal; inside double quotes classification applies as usual.
/// Otherwise the character after a `$` decides what is emitted and how
/// far the scan advances, and every character a classification consumes
/// must be unprotected.  A `$` that ends the input, or is followed by
/// nothing recognized, is a literal dollar sign.
pub open spec fn spec_dollar_masked(
    s: Seq<char>,
    m: Seq<bool>,
    i: int,
    in_sq: bool,
    in_dq: bool,
) -> Seq<char>
    decreases s.len() - i,
        via spec_dollar_masked_decreases
{
    if !(0 <= i < s.len()) {
        Seq::empty()
    } else if text::prot(m, i) {
        seq![s[i]] + spec_dollar_masked(s, m, i + 1, in_sq, in_dq)
    } else {
        let c = s[i];
        if c == '\'' && !in_dq {
            seq![c] + spec_dollar_masked(s, m, i + 1, !in_sq, in_dq)
        } else if c == '"' && !in_sq {
            seq![c] + spec_dollar_masked(s, m, i + 1, in_sq, !in_dq)
        } else if in_sq {
            seq![c] + spec_dollar_masked(s, m, i + 1, in_sq, in_dq)
        } else if c == '$' && i + 1 < s.len() && !text::prot(m, i + 1) {
            let nx = s[i + 1];
            if nx == '(' {
                // subshell: both dialects accept `$(`, pass through
                seq!['$'] + spec_dollar_masked(s, m, i + 1, in_sq, in_dq)
            } else if nx == '{' {
                match text::find_char_free(s, m, '}', i + 2) {
                    Option::Some(j) => {
                        let k = text::cut_end(s, i + 2, j);
                        if text::spec_valid_var_name(s.subrange(i + 2, k)) {
                            "$env:"@ + s.subrange(i + 2, k) + spec_dollar_masked(
                                s,
                                m,
                                j + 1,
                                in_sq,
                                in_dq,
                            )
                        } else {
                            seq!['$', '{'] + s.subrange(i + 2, j) + seq!['}']
                                + spec_dollar_masked(s, m, j + 1, in_sq, in_dq)
                        }
                    },
                    Option::None => seq!['$'] + spec_dollar_masked(s, m, i + 1, in_sq, in_dq),
                }
            } else if nx == '?' {
                "$LASTEXITCODE"@ + spec_dollar_masked(s, m, i + 2, in_sq, in_dq)
            } else if nx == '$' {
                "$PID"@ + spec_dollar_masked(s, m, i + 2, in_sq, in_dq)
            } else if nx == '!' {
                "<# $! not supported #>"@ + spec_dollar_masked(s, m, i + 2, in_sq, in_dq)
            } else if nx == '#' {
                "$args.Count"@ + spec_dollar_masked(s, m, i + 2, in_sq, in_dq)
            } else if nx == '@' || nx == '*' {
                "$args"@ + spec_dollar_masked(s, m, i + 2, in_sq, in_dq)
            } else if text::is_ascii_digit_char(nx) {
                (if nx == '0' {
                    "$MyInvocation.MyCommand.Name"@
                } else {
                    "$args["@ + seq![digit_index_char(nx)] + "]"@
                }) + spec_dollar_masked(s, m, i + 2, in_sq, in_dq)
            } else if nx == '_' && (i + 2 >= s.len() || text::prot(m, i + 2)
                || !text::is_ascii_alnum(s[i + 2])) {
                "$_"@ + spec_dollar_masked(s, m, i + 2, in_sq, in_dq)
            } else if text::is_ident_start(nx) {
                let end = text::ident_run_end_free(s, m, i + 1);
                "$env:"@ + s.subrange(i + 1, end) + spec_dollar_masked(s, m, end, in_sq, in_dq)
            } else {
                seq!['$'] + spec_dollar_masked(s, m, i + 1, in_sq, in_dq)
            }
        } else {
            seq![c] + spec_dollar_masked(s, m, i + 1, in_sq, in_dq)
        }
    }
}

#[via_fn]
proof fn spec_dollar_masked_decreases(s: Seq<char>, m: Seq<bool>, i: int, in_sq: bool, in_dq: bool) {
    if 0 <= i < s.len() {
        text::lemma_find_char_free(s, m, '}', i + 2);
        if i + 1 <= s.len() {
            text::lemma_ident_run_end_free(s, m, i + 1);
        }
    }
}

/// What [`convert_dollar_signs`] returns: the disambiguator run over the
/// whole string from the unquoted state, with no position protected.
pub open spec fn spec_convert_dollar_signs(s: Seq<char>) -> Seq<char> {
    spec_dollar_masked(s, Seq::new(s.len(), |i: int| false), 0, false, false)
}

/// Exec mirror of [`spec_dollar_masked`] over a character vector and its
/// protection mask.
#[verifier::rlimit(60)]
fn convert_dollar_masked(chars: &Vec<char>, m: &Vec<bool>) -> (r: Vec<char>)
    requires
        m@.len() == chars@.len(),
    ensures
        r@ == spec_dollar_masked(chars@, m@, 0, false, false),
{
    let n = chars.len();
    let mut out: Vec<char> = Vec::new();
    let mut in_sq: bool = false;
    let mut in_dq: bool = false;
    let mut i: usize = 0;
    while i < n
        invariant
            0 <= i <= n,
            n == chars@.len() == m@.len(),
            spec_dollar_masked(chars@, m@, 0, false, false) == out@ + spec_dollar_masked(
                chars@,
                m@,
                i as int,
                in_sq,
                in_dq,
            ),
        decreases n - i,
    {
        let ghost pre = out@;
        let ghost i0 = i as int;
        let ghost sq0 = in_sq;
        let ghost dq0 = in_dq;
        let c = chars[i];
        if m[i] {
            out.push(c);
            i += 1;
        } else if c == '\'' && !in_dq {
            out.push(c);
            in_sq = !in_sq;
            i += 1;
        } else if c == '"' && !in_sq {
            out.push(c);
            in_dq = !in_dq;
            i += 1;
        } else if in_sq {
            out.push(c);
            i += 1;
        } else if c == '$' && i + 1 < n && !m[i + 1] {
            let nx = chars[i + 1];
            if nx == '(' {
                out.push('$');
                i += 1;
            } else if nx == '{' {
                match text::find_char_free_exec(chars, m, '}', i + 2) {
                    Option::Some(j) => {
                        proof {
                            text::lemma_find_char_free(chars@, m@, '}', i + 2);
                        }
                        let k = text::cut_end_exec(chars, i + 2, j);
                        if text::valid_name_range(chars, i + 2, k) {
                            text::append_str(&mut out, "$env:");
                            text::push_range(&mut out, chars, i + 2, k);
                        } else {
                            out.push('$');
                            out.push('{');
                            text::push_range(&mut out, chars, i + 2, j);
                            out.push('}');
                        }
                        i = j + 1;
                    },
                    Option::None => {
                        out.push('$');
                        i += 1;
                    },
                }
            } else if nx == '?' {
                text::append_str(&mut out, "$LASTEXITCODE");
                i += 2;
            } else if nx == '$' {
                text::append_str(&mut out, "$PID");
                i += 2;
            } else if nx == '!' {
                text::append_str(&mut out, "<# $! not supported #>");
                i += 2;
            } else if nx == '#' {
                text::append_str(&mut out, "$args.Count");
                i += 2;
            } else if nx == '@' || nx == '*' {
                text::append_str(&mut out, "$args");
                i += 2;
            } else if text::ascii_digit(nx) {
                if nx == '0' {
                    text::append_str(&mut out, "$MyInvocation.MyCommand.Name");
                } else {
                    text::append_str(&mut out, "$args[");
                    out.push(digit_before(nx));
                    text::append_str(&mut out, "]");
                }
                i += 2;
            } else if nx == '_' && (i + 2 >= n || m[i + 2] || !text::ascii_alnum(chars[i + 2])) {
                text::append_str(&mut out, "$_");
                i += 2;
            } else if text::ident_start(nx) {
                let end = text::ident_run_end_free_exec(chars, m, i + 1);
                text::append_str(&mut out, "$env:");
                text::push_range(&mut out, chars, i + 1, end);
                proof {
                    text::lemma_ident_run_end_free(chars@, m@, i + 1);
                    assert(end > i);
                }
                i = end;
            } else {
                out.push('$');
                i += 1;
            }
        } else {
            out.push(c);
            i += 1;
        }
        proof {
            assert(out@ + spec_dollar_masked(chars@, m@, i as int, in_sq, in_dq) =~= pre
                + spec_dollar_masked(chars@, m@, i0, sq0, dq0));
        }
    }
    proof {
        assert(out@ + spec_dollar_masked(chars@, m@, i as int, in_sq, in_dq) =~= out@);
    }
    out
}

/// Context-aware conversion of dollar-sign expressions to the target
/// dialect: one pass over the scalar values of `input`, tracking both
/// quote states and classifying each `$` by what follows it, per
/// [`spec_dollar_masked`] with nothing protected.
pub fn convert_dollar_signs(input: &str) -> (r: String)
    ensures
        r@ == spec_convert_dollar_signs(input@),
{
    let chars = text::str_to_chars(input);
    let m = text::false_mask(chars.len());
    let out = convert_dollar_masked(&chars, &m);
    proof {
        assert(m@ =~= Seq::new(input@.len(), |i: int| false));
    }
    text::chars_to_string(&out)
}

/// The quote-aware replacer from position `i` on, with the two quote
/// states: a quote character toggles its state (each blind inside the
/// other) and is copied; a match of `pat` is recognized only outside both
/// quote states and is replaced by `rep`, the scan resuming after the
/// matched region of the source; everything else is copied.  An empty
/// `pat` never matches.
pub open spec fn spec_replace_outside_from(
    s: Seq<char>,
    pat: Seq<char>,
    rep: Seq<char>,
    i: int,
    in_sq: bool,
    in_dq: bool,
) -> Seq<char>
    decreases s.len() - i,
{
    if !(0 <= i < s.len()) {
        Seq::empty()
    } else {
        let c = s[i];
        if c == '\'' && !in_dq {
            seq![c] + spec_replace_outside_from(s, pat, rep, i + 1, !in_sq, in_dq)
        } else if c == '"' && !in_sq {
            seq![c] + spec_replace_outside_from(s, pat, rep, i + 1, in_sq, !in_dq)
        } else if !in_sq && !in_dq && pat.len() > 0 && text::match_at(s, pat, i) {
            rep + spec_replace_outside_from(s, pat, rep, i + pat.len() as int, in_sq, in_dq)
        } else {
            seq![c] + spec_replace_outside_from(s, pat, rep, i + 1, in_sq, in_dq)
        }
    }
}

/// What [`replace_outside_quotes`] returns: the replacer run over the
/// whole string from the unquoted state.
pub open spec fn spec_replace_outside_quotes(s: Seq<char>, pat: Seq<char>, rep: Seq<char>) -> Seq<
    char,
> {
    spec_replace_outside_from(s, pat, rep, 0, false, false)
}

/// Exec mirror of [`spec_replace_outside_quotes`] over character vectors.
fn replace_outside_chars(v: &Vec<char>, pat: &Vec<char>, rep: &Vec<char>) -> (r: Vec<char>)
    ensures
        r@ == spec_replace_outside_quotes(v@, pat@, rep@),
{
    let n = v.len();
    let mut out: Vec<char> = Vec::new();
    let mut in_sq: bool = false;
    let mut in_dq: bool = false;
    let mut i: usize = 0;
    while i < n
        invariant
            0 <= i <= n,
            n == v@.len(),
            spec_replace_outside_quotes(v@, pat@, rep@) == out@ + spec_replace_outside_from(
                v@,
                pat@,
                rep@,
                i as int,
                in_sq,
                in_dq,
            ),
        decreases n - i,
    {
        let ghost pre = out@;
        let ghost i0 = i as int;
        let ghost sq0 = in_sq;
        let ghost dq0 = in_dq;
        let c = v[i];
        if c == '\'' && !in_dq {
            out.push(c);
            in_sq = !in_sq;
            i += 1;
        } else if c == '"' && !in_sq {
            out.push(c);
            in_dq = !in_dq;
            i += 1;
        } else if !in_sq && !in_dq && pat.len() > 0 && text::match_at_exec(v, pat, i) {
            text::push_all(&mut out, rep);
            i += pat.len();
        } else {
            out.push(c);
            i += 1;
        }
        proof {
            assert(out@ + spec_replace_outside_from(v@, pat@, rep@, i as int, in_sq, in_dq)
                =~= pre + spec_replace_outside_from(v@, pat@, rep@, i0, sq0, dq0));
        }
    }
    proof {
        assert(out@ + spec_replace_outside_from(v@, pat@, rep@, i as int, in_sq, in_dq) =~= out@);
    }
    out
}

/// Replace occurrences of `from` with `to` only where they stand outside
/// single- and double-quoted spans, so string literals such as
/// `"a && b"` are never mutated.  Matches are found left to right,
/// non-overlapping, byte-for-byte; the quote spans are tracked exactly as
/// the tokenizer tracks them, re-scanned for this pass.
pub fn replace_outside_quotes(input: &str, from: &str, to: &str) -> (r: String)
    ensures
        r@ == spec_replace_outside_quotes(input@, from@, to@),
{
    let v = text::str_to_chars(input);
    let pat = text::str_to_chars(from);
    let rep = text::str_to_chars(to);
    let out = replace_outside_chars(&v, &pat, &rep);
    text::chars_to_string(&out)
}

/// The first token of `s` with any path-style prefix removed: the part
/// after the last `/`, or the whole token when there is none.
pub open spec fn spec_strip_path(t: Seq<char>) -> Seq<char> {
    match text::rfind_char_from(t, '/', t.len() - 1) {
        Option::Some(k) => t.subrange(k + 1, t.len() as int),
        Option::None => t,
    }
}

/// The command-name rewrite: when the first token of `s`, its path-style
/// prefix stripped, is in the command table, the first occurrence of that
/// token in `s` is replaced by the mapped PowerShell name; otherwise `s`
/// is unchanged.
pub open spec fn spec_rewrite_first_command(s: Seq<char>) -> Seq<char> {
    let toks = bash::spec_tokenize(s);
    if toks.len() == 0 {
        s
    } else {
        match command_map::spec_command_lookup(spec_strip_path(toks[0])) {
            Option::Some(ps) => text::spec_replace_first(s, toks[0], ps),
            Option::None => s,
        }
    }
}

/// Look the stripped command name up in the command table.
fn lookup_command(map: &Vec<(String, String)>, name: &Vec<char>) -> (r: Option<String>)
    requires
        command_map::is_command_table(map@),
    ensures
        match r {
            Option::Some(v) => command_map::spec_command_lookup(name@) == Option::Some(v@),
            Option::None => command_map::spec_command_lookup(name@) is None,
        },
{
    let n = map.len();
    let mut j: usize = 0;
    while j < n
        invariant
            0 <= j <= n,
            n == map@.len(),
            command_map::is_command_table(map@),
            command_map::spec_command_lookup(name@) == command_map::spec_command_lookup_from(
                name@,
                j as int,
            ),
        decreases n - j,
    {
        let key_chars = text::str_to_chars(map[j].0.as_str());
        if text::chars_eq(&key_chars, name) {
            return Option::Some(map[j].1.clone());
        }
        j += 1;
    }
    Option::None
}

/// The quote-aware replacer over a masked string, from position `i` on:
/// like [`spec_replace_outside_from`], but a protected position is
/// copied with its mark, affects no quote state, and can be no part of a
/// match.  The result pairs the rewritten text with its mask, in which
/// every replacement span is protected: later phases copy what this
/// phase inserted.
pub open spec fn spec_replace_outside_masked(
    s: Seq<char>,
    m: Seq<bool>,
    pat: Seq<char>,
    rep: Seq<char>,
    i: int,
    in_sq: bool,
    in_dq: bool,
) -> (Seq<char>, Seq<bool>)
    decreases s.len() - i,
{
    if !(0 <= i < s.len()) {
        (Seq::empty(), Seq::empty())
    } else if text::prot(m, i) {
        let rest = spec_replace_outside_masked(s, m, pat, rep, i + 1, in_sq, in_dq);
        (seq![s[i]] + rest.0, seq![true] + rest.1)
    } else {
        let c = s[i];
        if c == '\'' && !in_dq {
            let rest = spec_replace_outside_masked(s, m, pat, rep, i + 1, !in_sq, in_dq);
            (seq![c] + rest.0, seq![false] + rest.1)
        } else if c == '"' && !in_sq {
            let rest = spec_replace_outside_masked(s, m, pat, rep, i + 1, in_sq, !in_dq);
            (seq![c] + rest.0, seq![false] + rest.1)
        } else if !in_sq && !in_dq && pat.len() > 0 && text::match_at(s, pat, i)
            && text::range_free(m, i, i + pat.len() as int) {
            let rest = spec_replace_outside_masked(
                s,
                m,
                pat,
                rep,
                i + pat.len() as int,
                in_sq,
                in_dq,
            );
            (rep + rest.0, Seq::new(rep.len(), |k: int| true) + rest.1)
        } else {
            let rest = spec_replace_outside_masked(s, m, pat, rep, i + 1, in_sq, in_dq);
            (seq![c] + rest.0, seq![false] + rest.1)
        }
    }
}

/// Exec mirror of [`spec_replace_outside_masked`].
fn replace_outside_masked(v: &Vec<char>, m: &Vec<bool>, pat: &Vec<char>, rep: &Vec<char>) -> (r: (
    Vec<char>,
    Vec<bool>,
))
    requires
        m@.len() == v@.len(),
    ensures
        r.0@ == spec_replace_outside_masked(v@, m@, pat@, rep@, 0, false, false).0,
        r.1@ == spec_replace_outside_masked(v@, m@, pat@, rep@, 0, false, false).1,
        r.1@.len() == r.0@.len(),
{
    let n = v.len();
    let mut out: Vec<char> = Vec::new();
    let mut outm: Vec<bool> = Vec::new();
    let mut in_sq: bool = false;
    let mut in_dq: bool = false;
    let mut i: usize = 0;
    while i < n
        invariant
            0 <= i <= n,
            n == v@.len() == m@.len(),
            outm@.len() == out@.len(),
            spec_replace_outside_masked(v@, m@, pat@, rep@, 0, false, false).0 == out@
                + spec_replace_outside_masked(v@, m@, pat@, rep@, i as int, in_sq, in_dq).0,
            spec_replace_outside_masked(v@, m@, pat@, rep@, 0, false, false).1 == outm@
                + spec_replace_outside_masked(v@, m@, pat@, rep@, i as int, in_sq, in_dq).1,
        decreases n - i,
    {
        let ghost pre = out@;
        let ghost prem = outm@;
        let ghost i0 = i as int;
        let ghost sq0 = in_sq;
        let ghost dq0 = in_dq;
        let c = v[i];
        if m[i] {
            out.push(c);
            outm.push(true);
            i += 1;
        } else if c == '\'' && !in_dq {
            out.push(c);
            outm.push(false);
            in_sq = !in_sq;
            i += 1;
        } else if c == '"' && !in_sq {
            out.push(c);
            outm.push(false);
            in_dq = !in_dq;
            i += 1;
        } else if !in_sq && !in_dq && pat.len() > 0 && text::match_at_exec(v, pat, i)
            && text::range_free_exec(m, i, i + pat.len()) {
            text::push_all(&mut out, rep);
            text::push_bools(&mut outm, true, rep.len());
            proof {
                assert(outm@ =~= prem + Seq::new(rep@.len(), |k: int| true));
            }
            i += pat.len();
        } else {
            out.push(c);
            outm.push(false);
            i += 1;
        }
        proof {
            assert(out@ + spec_replace_outside_masked(
                v@,
                m@,
                pat@,
                rep@,
                i as int,
                in_sq,
                in_dq,
            ).0 =~= pre + spec_replace_outside_masked(v@, m@, pat@, rep@, i0, sq0, dq0).0);
            assert(outm@ + spec_replace_outside_masked(
                v@,
                m@,
                pat@,
                rep@,
                i as int,
                in_sq,
                in_dq,
            ).1 =~= prem + spec_replace_outside_masked(v@, m@, pat@, rep@, i0, sq0, dq0).1);
        }
    }
    proof {
        assert(out@ + spec_replace_outside_masked(v@, m@, pat@, rep@, i as int, in_sq, in_dq).0
            =~= out@);
        assert(outm@ + spec_replace_outside_masked(v@, m@, pat@, rep@, i as int, in_sq, in_dq).1
            =~= outm@);
    }
    (out, outm)
}

/// The mask of [`text::spec_replace_first`]'s result: the replacement
/// span is protected, everything else is not.
pub open spec fn spec_replace_first_mask(s: Seq<char>, pat: Seq<char>, rep: Seq<char>) -> Seq<
    bool,
> {
    match text::find_sub(s, pat, 0) {
        Option::Some(k) => Seq::new(k as nat, |j: int| false) + Seq::new(rep.len(), |j: int| true)
            + Seq::new((s.len() - k - pat.len()) as nat, |j: int| false),
        Option::None => Seq::new(s.len(), |j: int| false),
    }
}

/// Exec mirror of [`text::spec_replace_first`] that also returns the
/// mask protecting the inserted replacement.
fn replace_first_masked(v: &Vec<char>, pat: &Vec<char>, rep: &Vec<char>) -> (r: (Vec<char>, Vec<
    bool,
>))
    requires
        pat@.len() >= 1,
    ensures
        r.0@ == text::spec_replace_first(v@, pat@, rep@),
        r.1@ == spec_replace_first_mask(v@, pat@, rep@),
        r.1@.len() == r.0@.len(),
{
    let n = v.len();
    let mut i: usize = 0;
    while i < n && pat.len() <= n - i
        invariant
            0 <= i <= v@.len(),
            n == v@.len(),
            pat@.len() >= 1,
            text::find_sub(v@, pat@, 0) == text::find_sub(v@, pat@, i as int),
        decreases v@.len() - i,
    {
        if text::match_at_exec(v, pat, i) {
            let mut out: Vec<char> = Vec::new();
            text::push_range(&mut out, v, 0, i);
            text::push_all(&mut out, rep);
            text::push_range(&mut out, v, i + pat.len(), n);
            let mut outm: Vec<bool> = Vec::new();
            text::push_bools(&mut outm, false, i);
            text::push_bools(&mut outm, true, rep.len());
            text::push_bools(&mut outm, false, n - i - pat.len());
            proof {
                assert(v@.subrange(0, i as int) + rep@ + v@.subrange(
                    i + pat@.len(),
                    v@.len() as int,
                ) =~= out@);
                assert(outm@ =~= spec_replace_first_mask(v@, pat@, rep@));
            }
            return (out, outm);
        }
        i += 1;
    }
    let mut out: Vec<char> = Vec::new();
    text::push_range(&mut out, v, 0, n);
    let m = text::false_mask(n);
    proof {
        assert(out@ =~= v@);
        assert(m@ =~= spec_replace_first_mask(v@, pat@, rep@));
    }
    (out, m)
}

/// What [`from_bash`] returns: the three-phase pipeline.  First the
/// command-name rewrite; then, for the two operator-table entries whose
/// spellings differ between the dialects, the quote-aware replacement in
/// table order; last the dollar-sign disambiguator.  The spans that the
/// first two phases insert are carried as protected text, so a later
/// phase never re-interprets what an earlier one produced as new
/// operator or variable syntax.
pub open spec fn spec_from_bash(s: Seq<char>) -> Seq<char> {
    let s1 = spec_rewrite_first_command(s);
    let m1 = spec_from_bash_phase1_mask(s);
    let sm2 = spec_replace_outside_masked(s1, m1, "2>&1"@, "*>&1"@, 0, false, false);
    let sm3 = spec_replace_outside_masked(sm2.0, sm2.1, "/dev/null"@, "$null"@, 0, false, false);
    spec_dollar_masked(sm3.0, sm3.1, 0, false, false)
}

/// The protection mask after the command-name rewrite: the inserted
/// PowerShell command name, when the table matched, and nothing else.
pub open spec fn spec_from_bash_phase1_mask(s: Seq<char>) -> Seq<bool> {
    let toks = bash::spec_tokenize(s);
    if toks.len() == 0 {
        Seq::new(s.len(), |j: int| false)
    } else {
        match command_map::spec_command_lookup(spec_strip_path(toks[0])) {
            Option::Some(ps) => spec_replace_first_mask(s, toks[0], ps),
            Option::None => Seq::new(s.len(), |j: int| false),
        }
    }
}

/// Convert a POSIX-dialect command string to its PowerShell equivalent:
/// rewrite the leading command name through the command table, rewrite
/// the differing control operators outside quotes, then classify and
/// rewrite every dollar-sign expression.  Text that the first two phases
/// insert is protected: the later phases copy it unchanged rather than
/// read it as new operator or variable syntax.
pub fn from_bash(bash_cmd: &str) -> (r: String)
    ensures
        r@ == spec_from_bash(bash_cmd@),
{
    let src = text::str_to_chars(bash_cmd);
    let toks = bash::tokenize(bash_cmd);
    let s1: Vec<char>;
    let m1: Vec<bool>;
    if toks.len() > 0 {
        let first_chars = text::str_to_chars(toks[0].as_str());
        proof {
            assert(toks.deep_view()[0] == toks@[0]@);
            assert(first_chars@ == bash::spec_tokenize(bash_cmd@)[0]);
        }
        let start: usize = match text::rfind_char_exec(&first_chars, '/') {
            Option::Some(p) => p + 1,
            Option::None => 0,
        };
        let mut name: Vec<char> = Vec::new();
        text::push_range(&mut name, &first_chars, start, first_chars.len());
        proof {
            if start == 0 {
                assert(first_chars@.subrange(0, first_chars@.len() as int) =~= first_chars@);
            }
            assert(name@ == spec_strip_path(first_chars@));
        }
        let map = command_map::bash_to_powershell();
        match lookup_command(&map, &name) {
            Option::Some(ps) => {
                let ps_chars = text::str_to_chars(ps.as_str());
                let rewritten = replace_first_masked(&src, &first_chars, &ps_chars);
                s1 = rewritten.0;
                m1 = rewritten.1;
            },
            Option::None => {
                m1 = text::false_mask(src.len());
                s1 = src;
            },
        }
    } else {
        proof {
            assert(toks.deep_view().len() == toks@.len());
        }
        m1 = text::false_mask(src.len());
        s1 = src;
    }
    proof {
        assert(s1@ == spec_rewrite_first_command(bash_cmd@));
        assert(m1@ =~= spec_from_bash_phase1_mask(bash_cmd@));
        assert(m1@.len() == s1@.len());
    }
    let pat1 = text::str_to_chars("2>&1");
    let rep1 = text::str_to_chars("*>&1");
    let stage2 = replace_outside_masked(&s1, &m1, &pat1, &rep1);
    let pat2 = text::str_to_chars("/dev/null");
    let rep2 = text::str_to_chars("$null");
    let stage3 = replace_outside_masked(&stage2.0, &stage2.1, &pat2, &rep2);
    let out = convert_dollar_masked(&stage3.0, &stage3.1);
    text::chars_to_string(&out)
}

/// The reverse variable pass from position `i` on: wherever the
/// PowerShell variable prefix `$env:` occurs, a `$` is emitted followed
/// by the identifier run after the prefix; every other character is
/// copied by full scalar value, so multi-byte characters stay intact.
/// This pass is not quote-aware.
pub open spec fn spec_unprefix_from(s: Seq<char>, i: int) -> Seq<char>
    decreases s.len() - i,
        via spec_unprefix_from_decreases
{
    if !(0 <= i < s.len()) {
        Seq::empty()
    } else if text::match_at(s, "$env:"@, i) {
        let end = text::ident_run_end(s, i + "$env:"@.len() as int);
        seq!['$'] + s.subrange(i + "$env:"@.len() as int, end) + spec_unprefix_from(s, end)
    } else {
        seq![s[i]] + spec_unprefix_from(s, i + 1)
    }
}

#[via_fn]
proof fn spec_unprefix_from_decreases(s: Seq<char>, i: int) {
    reveal_strlit("$env:");
    if 0 <= i < s.len() && text::match_at(s, "$env:"@, i) {
        text::lemma_ident_run_end(s, i + "$env:"@.len() as int);
    }
}

/// Exec mirror of [`spec_unprefix_from`] over character vectors.
fn unprefix_env_chars(v: &Vec<char>) -> (r: Vec<char>)
    ensures
        r@ == spec_unprefix_from(v@, 0),
{
    let prefix = text::str_to_chars("$env:");
    proof {
        reveal_strlit("$env:");
    }
    let n = v.len();
    let mut out: Vec<char> = Vec::new();
    let mut i: usize = 0;
    while i < n
        invariant
            0 <= i <= n,
            n == v@.len(),
            prefix@ == "$env:"@,
            prefix@.len() == 5,
            spec_unprefix_from(v@, 0) == out@ + spec_unprefix_from(v@, i as int),
        decreases n - i,
    {
        let ghost pre = out@;
        let ghost i0 = i as int;
        if text::match_at_exec(v, &prefix, i) {
            out.push('$');
            let end = text::ident_run_end_exec(v, i + prefix.len());
            text::push_range(&mut out, v, i + prefix.len(), end);
            i = end;
        } else {
            out.push(v[i]);
            i += 1;
        }
        proof {
            assert(out@ + spec_unprefix_from(v@, i as int) =~= pre + spec_unprefix_from(v@, i0));
        }
    }
    proof {
        assert(out@ + spec_unprefix_from(v@, i as int) =~= out@);
    }
    out
}

/// What [`to_bash`] returns: the reverse variable pass, then a fixed set
/// of whole-substring replacements mapping PowerShell command and special
/// variable names back to their POSIX equivalents, applied everywhere the
/// text matches, quoting included, in this order.
pub open spec fn spec_to_bash(s: Seq<char>) -> Seq<char> {
    let t0 = spec_unprefix_from(s, 0);
    let t1 = text::spec_replace_all(t0, "Write-Output"@, "echo"@);
    let t2 = text::spec_replace_all(t1, "Get-Content"@, "cat"@);
    let t3 = text::spec_replace_all(t2, "Get-ChildItem"@, "ls"@);
    let t4 = text::spec_replace_all(t3, "Copy-Item"@, "cp"@);
    let t5 = text::spec_replace_all(t4, "Move-Item"@, "mv"@);
    let t6 = text::spec_replace_all(t5, "Remove-Item"@, "rm"@);
    let t7 = text::spec_replace_all(t6, "Get-Location"@, "pwd"@);
    let t8 = text::spec_replace_all(t7, "Set-Location"@, "cd"@);
    let t9 = text::spec_replace_all(t8, "$LASTEXITCODE"@, "$?"@);
    text::spec_replace_all(t9, "$PID"@, "$$"@)
}

/// Convert a PowerShell command string back to its POSIX equivalent:
/// `$env:NAME` becomes `$NAME`, and a fixed subset of command and special
/// variable names is mapped back by literal replacement.
///
/// This reverse pass is not quote-aware and inverts only a subset of the
/// forward mappings, so `to_bash(from_bash(s))` is **not** in general
/// equal to `s`; only the specific inverse pairs replaced here round-trip.
pub fn to_bash(ps_cmd: &str) -> (r: String)
    ensures
        r@ == spec_to_bash(ps_cmd@),
{
    let chars = text::str_to_chars(ps_cmd);
    let t0 = unprefix_env_chars(&chars);
    let t1 = text::replace_all_chars(
        &t0,
        &text::str_to_chars("Write-Output"),
        &text::str_to_chars("echo"),
    );
    let t2 = text::replace_all_chars(
        &t1,
        &text::str_to_chars("Get-Content"),
        &text::str_to_chars("cat"),
    );
    let t3 = text::replace_all_chars(
        &t2,
        &text::str_to_chars("Get-ChildItem"),
        &text::str_to_chars("ls"),
    );
    let t4 = text::replace_all_chars(
        &t3,
        &text::str_to_chars("Copy-Item"),
        &text::str_to_chars("cp"),
    );
    let t5 = text::replace_all_chars(
        &t4,
        &text::str_to_chars("Move-Item"),
        &text::str_to_chars("mv"),
    );
    let t6 = text::replace_all_chars(
        &t5,
        &text::str_to_chars("Remove-Item"),
        &text::str_to_chars("rm"),
    );
    let t7 = text::replace_all_chars(
        &t6,
        &text::str_to_chars("Get-Location"),
        &text::str_to_chars("pwd"),
    );
    let t8 = text::replace_all_chars(
        &t7,
        &text::str_to_chars("Set-Location"),
        &text::str_to_chars("cd"),
    );
    let t9 = text::replace_all_chars(
        &t8,
        &text::str_to_chars("$LASTEXITCODE"),
        &text::str_to_chars("$?"),
    );
    let t10 = text::replace_all_chars(&t9, &text::str_to_chars("$PID"), &text::str_to_chars("$$"));
    text::chars_to_string(&t10)
}

} // verus!
