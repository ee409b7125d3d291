//! Laws of the translators, stated and proved over the spec functions
//! that the executable functions' contracts use.

use vstd::prelude::*;

use crate::shell::bash;
use crate::shell::command_map;
use crate::shell::powershell;
use crate::shell::text;

verus! {

/// The dollar-sign disambiguator copies everything from `i` to the end
/// when no `$` occurs in `s`, whatever the quote states and the mask.
proof fn lemma_dollar_absent(s: Seq<char>, m: Seq<bool>, i: int, in_sq: bool, in_dq: bool)
    requires
        0 <= i <= s.len(),
        forall|k: int| 0 <= k < s.len() ==> s[k] != '$',
    ensures
        powershell::spec_dollar_masked(s, m, i, in_sq, in_dq) == s.subrange(i, s.len() as int),
    decreases s.len() - i,
{
    if i < s.len() {
        let c = s[i];
        if text::prot(m, i) {
            lemma_dollar_absent(s, m, i + 1, in_sq, in_dq);
        } else if c == '\'' && !in_dq {
            lemma_dollar_absent(s, m, i + 1, !in_sq, in_dq);
        } else if c == '"' && !in_sq {
            lemma_dollar_absent(s, m, i + 1, in_sq, !in_dq);
        } else {
            lemma_dollar_absent(s, m, i + 1, in_sq, in_dq);
        }
        assert(seq![c] + s.subrange(i + 1, s.len() as int) =~= s.subrange(i, s.len() as int));
    } else {
        assert(s.subrange(i, s.len() as int) =~= Seq::<char>::empty());
    }
}

/// On an unprotected string, the masked quote-aware replacer copies
/// everything from `i` to the end when no occurrence of `pat` stands
/// where the scan is unquoted, and its output stays unprotected.
proof fn lemma_replace_masked_no_live_match(
    s: Seq<char>,
    m: Seq<bool>,
    pat: Seq<char>,
    rep: Seq<char>,
    i: int,
)
    requires
        0 <= i <= s.len(),
        forall|k: int| 0 <= k < m.len() ==> m[k] == false,
        forall|p: int|
            0 <= p < s.len() && text::match_at(s, pat, p) && quote_state_at(s, p) == ((
            false,
            false,
            )) ==> false,
    ensures
        powershell::spec_replace_outside_masked(
            s,
            m,
            pat,
            rep,
            i,
            quote_state_at(s, i).0,
            quote_state_at(s, i).1,
        ).0 == s.subrange(i, s.len() as int),
        powershell::spec_replace_outside_masked(
            s,
            m,
            pat,
            rep,
            i,
            quote_state_at(s, i).0,
            quote_state_at(s, i).1,
        ).1.len() == s.len() - i,
        forall|k: int|
            0 <= k < s.len() - i ==> powershell::spec_replace_outside_masked(
                s,
                m,
                pat,
                rep,
                i,
                quote_state_at(s, i).0,
                quote_state_at(s, i).1,
            ).1[k] == false,
    decreases s.len() - i,
{
    if i < s.len() {
        let st = quote_state_at(s, i);
        let c = s[i];
        assert(!text::prot(m, i));
        if c == '\'' && !st.1 {
            assert(quote_state_at(s, i + 1) == ((!st.0, st.1)));
        } else if c == '"' && !st.0 {
            assert(quote_state_at(s, i + 1) == ((st.0, !st.1)));
        } else {
            assert(quote_state_at(s, i + 1) == st);
            if !st.0 && !st.1 && pat.len() > 0 && text::match_at(s, pat, i) {
                assert(false);
            }
        }
        lemma_replace_masked_no_live_match(s, m, pat, rep, i + 1);
        assert(seq![c] + s.subrange(i + 1, s.len() as int) =~= s.subrange(i, s.len() as int));
    } else {
        assert(s.subrange(i, s.len() as int) =~= Seq::<char>::empty());
    }
}

/// Idempotence of pass-through: a string whose first token, its
/// path-style prefix stripped, names no command in the table, which
/// holds neither of the two differing operator spellings anywhere the
/// scan is unquoted, and which holds no dollar sign at all, comes out of
/// the forward translation unchanged.
pub proof fn lemma_forward_pass_through(s: Seq<char>)
    requires
        bash::spec_tokenize(s).len() > 0 ==> command_map::spec_command_lookup(
            powershell::spec_strip_path(bash::spec_tokenize(s)[0]),
        ) is None,
        forall|p: int|
            0 <= p < s.len() && text::match_at(s, "2>&1"@, p) && quote_state_at(s, p) == ((
            false,
            false,
            )) ==> false,
        forall|p: int|
            0 <= p < s.len() && text::match_at(s, "/dev/null"@, p) && quote_state_at(s, p) == ((
            false,
            false,
            )) ==> false,
        forall|k: int| 0 <= k < s.len() ==> s[k] != '$',
    ensures
        powershell::spec_from_bash(s) == s,
{
    assert(powershell::spec_rewrite_first_command(s) == s);
    assert(s.subrange(0, s.len() as int) =~= s);
    assert(quote_state_at(s, 0) == ((false, false)));
    let m1 = powershell::spec_from_bash_phase1_mask(s);
    assert(forall|k: int| 0 <= k < m1.len() ==> m1[k] == false);
    lemma_replace_masked_no_live_match(s, m1, "2>&1"@, "*>&1"@, 0);
    let sm2 = powershell::spec_replace_outside_masked(s, m1, "2>&1"@, "*>&1"@, 0, false, false);
    assert(sm2.0 == s);
    assert(quote_state_at(sm2.0, 0) == ((false, false)));
    lemma_replace_masked_no_live_match(sm2.0, sm2.1, "/dev/null"@, "$null"@, 0);
    let sm3 = powershell::spec_replace_outside_masked(
        sm2.0,
        sm2.1,
        "/dev/null"@,
        "$null"@,
        0,
        false,
        false,
    );
    assert(sm3.0 == s);
    lemma_dollar_absent(sm3.0, sm3.1, 0, false, false);
}

/// The pair of quote flags the replacer's scan holds on reaching
/// position `i` of `s`, with toggles applied and nothing replaced.
pub open spec fn quote_state_at(s: Seq<char>, i: int) -> (bool, bool)
    decreases i,
{
    if i <= 0 {
        (false, false)
    } else {
        let prev = quote_state_at(s, i - 1);
        let c = s[i - 1];
        if c == '\'' && !prev.1 {
            (!prev.0, prev.1)
        } else if c == '"' && !prev.0 {
            (prev.0, !prev.1)
        } else {
            prev
        }
    }
}

/// When every occurrence of `pat` whose position the scan reaches
/// unquoted begins with a quote character — which the toggle branches
/// claim first — the replacer copies `s` unchanged.
proof fn lemma_replace_no_live_match(s: Seq<char>, pat: Seq<char>, rep: Seq<char>, i: int)
    requires
        0 <= i <= s.len(),
        forall|p: int|
            0 <= p < s.len() && text::match_at(s, pat, p) && quote_state_at(s, p) == (false, false)
                ==> s[p] == '\'' || s[p] == '"',
    ensures
        powershell::spec_replace_outside_from(
            s,
            pat,
            rep,
            i,
            quote_state_at(s, i).0,
            quote_state_at(s, i).1,
        ) == s.subrange(i, s.len() as int),
    decreases s.len() - i,
{
    if i < s.len() {
        let st = quote_state_at(s, i);
        let c = s[i];
        if c == '\'' && !st.1 {
            assert(quote_state_at(s, i + 1) == ((!st.0, st.1)));
        } else if c == '"' && !st.0 {
            assert(quote_state_at(s, i + 1) == ((st.0, !st.1)));
        } else {
            assert(quote_state_at(s, i + 1) == st);
            if !st.0 && !st.1 && pat.len() > 0 && text::match_at(s, pat, i) {
                assert(s[i] == '\'' || s[i] == '"');
                assert(false);
            }
        }
        lemma_replace_no_live_match(s, pat, rep, i + 1);
        assert(seq![c] + s.subrange(i + 1, s.len() as int) =~= s.subrange(i, s.len() as int));
    } else {
        assert(s.subrange(i, s.len() as int) =~= Seq::<char>::empty());
    }
}

/// A run of pairwise-equal adjacent characters has equal endpoints.
proof fn lemma_const_run(s: Seq<char>, a: int, b: int)
    requires
        0 <= a <= b < s.len(),
        forall|k: int| a <= k < b ==> #[trigger] s[k] == s[k + 1],
    ensures
        s[a] == s[b],
    decreases b - a,
{
    if a < b {
        lemma_const_run(s, a + 1, b);
    }
}

/// A match of `op` in the quoted string `q + op + q` can only start at a
/// position holding the quote character `q` itself, or where the scan is
/// already inside the quoted span.
proof fn lemma_quoted_op_matches_start_on_quote(op: Seq<char>, q: char, p: int)
    requires
        q == '\'' || q == '"',
        0 <= p < (seq![q] + op + seq![q]).len(),
        text::match_at(seq![q] + op + seq![q], op, p),
        p != 1,
    ensures
        (seq![q] + op + seq![q])[p] == q,
{
    let s = seq![q] + op + seq![q];
    if op.len() == 0 {
        assert(s[p] == q);
    } else {
        assert(p + op.len() <= s.len());
        assert(p <= 2);
        if p == 0 {
            assert(s[0] == q);
        } else {
            // p == 2: `op` also sits at position 1, so its characters are
            // pairwise shifted copies of themselves: `op` is one repeated
            // character, which the closing quote fixes as `q`.
            assert forall|j: int| 0 <= j < op.len() implies op[j] == s[2 + j] by {
                assert(s.subrange(2, 2 + op.len() as int)[j] == s[2 + j]);
            }
            assert forall|j: int| 0 <= j < op.len() - 1 implies #[trigger] op[j] == op[j + 1] by {
                assert(op[j] == s[2 + j]);
                assert(s[2 + j] == op[j + 1]);
            }
            lemma_const_run(op, 0, op.len() - 1);
            assert(op[op.len() - 1] == s[2 + op.len() - 1]);
            assert(s[2 + op.len() - 1] == q);
            assert(s[2] == op[0]);
        }
    }
}

/// Quote inviolability, single quotes: an operator wrapped in single
/// quotes is never replaced, for any operator and any replacement.
pub proof fn lemma_single_quote_inviolable(op: Seq<char>, rep: Seq<char>)
    ensures
        powershell::spec_replace_outside_quotes(seq!['\''] + op + seq!['\''], op, rep) == seq!['\'']
            + op + seq!['\''],
{
    let s = seq!['\''] + op + seq!['\''];
    assert(s[0] == '\'');
    assert(quote_state_at(s, 0) == ((false, false)));
    assert(quote_state_at(s, 1) == ((true, false)));
    assert forall|p: int|
        0 <= p < s.len() && text::match_at(s, op, p) && quote_state_at(s, p) == ((
        false,
        false,
        )) implies s[p] == '\'' || s[p] == '"' by {
        assert(p != 1);
        lemma_quoted_op_matches_start_on_quote(op, '\'', p);
    }
    lemma_replace_no_live_match(s, op, rep, 0);
    assert(s.subrange(0, s.len() as int) =~= s);
}

/// Quote inviolability, double quotes: an operator wrapped in double
/// quotes is never replaced, for any operator and any replacement.
pub proof fn lemma_double_quote_inviolable(op: Seq<char>, rep: Seq<char>)
    ensures
        powershell::spec_replace_outside_quotes(seq!['"'] + op + seq!['"'], op, rep) == seq!['"']
            + op + seq!['"'],
{
    let s = seq!['"'] + op + seq!['"'];
    assert(s[0] == '"');
    assert(quote_state_at(s, 0) == ((false, false)));
    assert(quote_state_at(s, 1) == ((false, true)));
    assert forall|p: int|
        0 <= p < s.len() && text::match_at(s, op, p) && quote_state_at(s, p) == ((
        false,
        false,
        )) implies s[p] == '\'' || s[p] == '"' by {
        assert(p != 1);
        lemma_quoted_op_matches_start_on_quote(op, '"', p);
    }
    lemma_replace_no_live_match(s, op, rep, 0);
    assert(s.subrange(0, s.len() as int) =~= s);
}

/// The subsequence of characters outside the ASCII range, in order.
pub open spec fn keep_non_ascii(s: Seq<char>) -> Seq<char>
    decreases s.len(),
{
    if s.len() == 0 {
        Seq::empty()
    } else {
        (if (s[0] as u32) >= 128 {
            seq![s[0]]
        } else {
            Seq::empty()
        }) + keep_non_ascii(s.drop_first())
    }
}

/// The non-ASCII subsequence distributes over concatenation.
proof fn lemma_keep_add(a: Seq<char>, b: Seq<char>)
    ensures
        keep_non_ascii(a + b) == keep_non_ascii(a) + keep_non_ascii(b),
    decreases a.len(),
{
    if a.len() == 0 {
        assert(a + b =~= b);
        assert(keep_non_ascii(a) + keep_non_ascii(b) =~= keep_non_ascii(b));
    } else {
        lemma_keep_add(a.drop_first(), b);
        assert((a + b).drop_first() =~= a.drop_first() + b);
        assert((a + b)[0] == a[0]);
        assert(keep_non_ascii(a + b) =~= keep_non_ascii(a) + keep_non_ascii(b));
    }
}

/// A sequence of identifier characters has no non-ASCII character.
proof fn lemma_keep_ident_empty(s: Seq<char>)
    requires
        forall|k: int| 0 <= k < s.len() ==> text::is_ident_char(s[k]),
    ensures
        keep_non_ascii(s) == Seq::<char>::empty(),
    decreases s.len(),
{
    if s.len() > 0 {
        assert((s[0] as u32) < 128);
        assert forall|k: int| 0 <= k < s.drop_first().len() implies text::is_ident_char(
            s.drop_first()[k],
        ) by {
            assert(s.drop_first()[k] == s[k + 1]);
        }
        lemma_keep_ident_empty(s.drop_first());
        assert(keep_non_ascii(s) =~= Seq::<char>::empty());
    }
}

/// The reverse variable pass keeps the non-ASCII characters of its input,
/// in order: everything it consumes beyond a plain copy is ASCII, and so
/// is everything it emits in its place.
proof fn lemma_unprefix_keeps(s: Seq<char>, i: int)
    requires
        0 <= i <= s.len(),
    ensures
        keep_non_ascii(powershell::spec_unprefix_from(s, i)) == keep_non_ascii(
            s.subrange(i, s.len() as int),
        ),
    decreases s.len() - i,
{
    reveal_strlit("$env:");
    let p = "$env:"@;
    if i < s.len() {
        if text::match_at(s, p, i) {
            let end = text::ident_run_end(s, i + p.len());
            text::lemma_ident_run_end(s, i + p.len() as int);
            lemma_unprefix_keeps(s, end);
            let name = s.subrange(i + p.len(), end);
            let rest = powershell::spec_unprefix_from(s, end);
            assert forall|k: int| 0 <= k < name.len() implies text::is_ident_char(name[k]) by {
                assert(name[k] == s[i + p.len() + k]);
            }
            lemma_keep_ident_empty(name);
            assert(keep_non_ascii(p) =~= Seq::<char>::empty()) by {
                reveal_with_fuel(keep_non_ascii, 6);
            }
            assert(keep_non_ascii(seq!['$']) =~= Seq::<char>::empty()) by {
                reveal_with_fuel(keep_non_ascii, 2);
            }
            lemma_keep_add(seq!['$'] + name, rest);
            lemma_keep_add(seq!['$'], name);
            assert(s.subrange(i, s.len() as int) =~= (p + name) + s.subrange(
                end,
                s.len() as int,
            ));
            lemma_keep_add(p + name, s.subrange(end, s.len() as int));
            lemma_keep_add(p, name);
            assert(keep_non_ascii(powershell::spec_unprefix_from(s, i)) =~= keep_non_ascii(
                s.subrange(i, s.len() as int),
            ));
        } else {
            lemma_unprefix_keeps(s, i + 1);
            lemma_keep_add(seq![s[i]], powershell::spec_unprefix_from(s, i + 1));
            assert(s.subrange(i, s.len() as int) =~= seq![s[i]] + s.subrange(
                i + 1,
                s.len() as int,
            ));
            lemma_keep_add(seq![s[i]], s.subrange(i + 1, s.len() as int));
            assert(keep_non_ascii(powershell::spec_unprefix_from(s, i)) =~= keep_non_ascii(
                s.subrange(i, s.len() as int),
            ));
        }
    } else {
        assert(s.subrange(i, s.len() as int) =~= Seq::<char>::empty());
    }
}

/// Blind replacement with an all-ASCII pattern and replacement keeps the
/// non-ASCII characters of its input, in order.
proof fn lemma_replace_all_keeps(s: Seq<char>, pat: Seq<char>, rep: Seq<char>, i: int)
    requires
        0 <= i <= s.len(),
        keep_non_ascii(pat) == Seq::<char>::empty(),
        keep_non_ascii(rep) == Seq::<char>::empty(),
    ensures
        keep_non_ascii(text::spec_replace_all_from(s, pat, rep, i)) == keep_non_ascii(
            s.subrange(i, s.len() as int),
        ),
    decreases s.len() - i,
{
    if i < s.len() {
        if pat.len() > 0 && text::match_at(s, pat, i) {
            lemma_replace_all_keeps(s, pat, rep, i + pat.len() as int);
            lemma_keep_add(rep, text::spec_replace_all_from(s, pat, rep, i + pat.len() as int));
            assert(s.subrange(i, s.len() as int) =~= pat + s.subrange(
                i + pat.len(),
                s.len() as int,
            ));
            lemma_keep_add(pat, s.subrange(i + pat.len(), s.len() as int));
            assert(keep_non_ascii(text::spec_replace_all_from(s, pat, rep, i)) =~= keep_non_ascii(
                s.subrange(i, s.len() as int),
            ));
        } else {
            lemma_replace_all_keeps(s, pat, rep, i + 1);
            lemma_keep_add(seq![s[i]], text::spec_replace_all_from(s, pat, rep, i + 1));
            assert(s.subrange(i, s.len() as int) =~= seq![s[i]] + s.subrange(
                i + 1,
                s.len() as int,
            ));
            lemma_keep_add(seq![s[i]], s.subrange(i + 1, s.len() as int));
            assert(keep_non_ascii(text::spec_replace_all_from(s, pat, rep, i)) =~= keep_non_ascii(
                s.subrange(i, s.len() as int),
            ));
        }
    } else {
        assert(s.subrange(i, s.len() as int) =~= Seq::<char>::empty());
    }
}

/// One reverse-translation stage after the variable pass: blind
/// replacement by one table pair keeps the non-ASCII characters.
proof fn lemma_stage_keeps(t: Seq<char>, pat: Seq<char>, rep: Seq<char>)
    requires
        keep_non_ascii(pat) == Seq::<char>::empty(),
        keep_non_ascii(rep) == Seq::<char>::empty(),
    ensures
        keep_non_ascii(text::spec_replace_all(t, pat, rep)) == keep_non_ascii(t),
{
    lemma_replace_all_keeps(t, pat, rep, 0);
    assert(t.subrange(0, t.len() as int) =~= t);
}

/// Every name in the reverse replacement table, and every replacement, is
/// ASCII.
#[verifier::rlimit(100)]
proof fn lemma_reverse_table_ascii()
    ensures
        keep_non_ascii("Write-Output"@) == Seq::<char>::empty(),
        keep_non_ascii("echo"@) == Seq::<char>::empty(),
        keep_non_ascii("Get-Content"@) == Seq::<char>::empty(),
        keep_non_ascii("cat"@) == Seq::<char>::empty(),
        keep_non_ascii("Get-ChildItem"@) == Seq::<char>::empty(),
        keep_non_ascii("ls"@) == Seq::<char>::empty(),
        keep_non_ascii("Copy-Item"@) == Seq::<char>::empty(),
        keep_non_ascii("cp"@) == Seq::<char>::empty(),
        keep_non_ascii("Move-Item"@) == Seq::<char>::empty(),
        keep_non_ascii("mv"@) == Seq::<char>::empty(),
        keep_non_ascii("Remove-Item"@) == Seq::<char>::empty(),
        keep_non_ascii("rm"@) == Seq::<char>::empty(),
        keep_non_ascii("Get-Location"@) == Seq::<char>::empty(),
        keep_non_ascii("pwd"@) == Seq::<char>::empty(),
        keep_non_ascii("Set-Location"@) == Seq::<char>::empty(),
        keep_non_ascii("cd"@) == Seq::<char>::empty(),
        keep_non_ascii("$LASTEXITCODE"@) == Seq::<char>::empty(),
        keep_non_ascii("$?"@) == Seq::<char>::empty(),
        keep_non_ascii("$PID"@) == Seq::<char>::empty(),
        keep_non_ascii("$$"@) == Seq::<char>::empty(),
{
    assert(keep_non_ascii("Write-Output"@) =~= Seq::<char>::empty()) by {
        reveal_strlit("Write-Output");
        reveal_with_fuel(keep_non_ascii, 13);
    }
    assert(keep_non_ascii("echo"@) =~= Seq::<char>::empty()) by {
        reveal_strlit("echo");
        reveal_with_fuel(keep_non_ascii, 5);
    }
    assert(keep_non_ascii("Get-Content"@) =~= Seq::<char>::empty()) by {
        reveal_strlit("Get-Content");
        reveal_with_fuel(keep_non_ascii, 12);
    }
    assert(keep_non_ascii("cat"@) =~= Seq::<char>::empty()) by {
        reveal_strlit("cat");
        reveal_with_fuel(keep_non_ascii, 4);
    }
    assert(keep_non_ascii("Get-ChildItem"@) =~= Seq::<char>::empty()) by {
        reveal_strlit("Get-ChildItem");
        reveal_with_fuel(keep_non_ascii, 14);
    }
    assert(keep_non_ascii("ls"@) =~= Seq::<char>::empty()) by {
        reveal_strlit("ls");
        reveal_with_fuel(keep_non_ascii, 3);
    }
    assert(keep_non_ascii("Copy-Item"@) =~= Seq::<char>::empty()) by {
        reveal_strlit("Copy-Item");
        reveal_with_fuel(keep_non_ascii, 10);
    }
    assert(keep_non_ascii("cp"@) =~= Seq::<char>::empty()) by {
        reveal_strlit("cp");
        reveal_with_fuel(keep_non_ascii, 3);
    }
    assert(keep_non_ascii("Move-Item"@) =~= Seq::<char>::empty()) by {
        reveal_strlit("Move-Item");
        reveal_with_fuel(keep_non_ascii, 10);
    }
    assert(keep_non_ascii("mv"@) =~= Seq::<char>::empty()) by {
        reveal_strlit("mv");
        reveal_with_fuel(keep_non_ascii, 3);
    }
    assert(keep_non_ascii("Remove-Item"@) =~= Seq::<char>::empty()) by {
        reveal_strlit("Remove-Item");
        reveal_with_fuel(keep_non_ascii, 12);
    }
    assert(keep_non_ascii("rm"@) =~= Seq::<char>::empty()) by {
        reveal_strlit("rm");
        reveal_with_fuel(keep_non_ascii, 3);
    }
    assert(keep_non_ascii("Get-Location"@) =~= Seq::<char>::empty()) by {
        reveal_strlit("Get-Location");
        reveal_with_fuel(keep_non_ascii, 13);
    }
    assert(keep_non_ascii("pwd"@) =~= Seq::<char>::empty()) by {
        reveal_strlit("pwd");
        reveal_with_fuel(keep_non_ascii, 4);
    }
    assert(keep_non_ascii("Set-Location"@) =~= Seq::<char>::empty()) by {
        reveal_strlit("Set-Location");
        reveal_with_fuel(keep_non_ascii, 13);
    }
    assert(keep_non_ascii("cd"@) =~= Seq::<char>::empty()) by {
        reveal_strlit("cd");
        reveal_with_fuel(keep_non_ascii, 3);
    }
    assert(keep_non_ascii("$LASTEXITCODE"@) =~= Seq::<char>::empty()) by {
        reveal_strlit("$LASTEXITCODE");
        reveal_with_fuel(keep_non_ascii, 14);
    }
    assert(keep_non_ascii("$?"@) =~= Seq::<char>::empty()) by {
        reveal_strlit("$?");
        reveal_with_fuel(keep_non_ascii, 3);
    }
    assert(keep_non_ascii("$PID"@) =~= Seq::<char>::empty()) by {
        reveal_strlit("$PID");
        reveal_with_fuel(keep_non_ascii, 5);
    }
    assert(keep_non_ascii("$$"@) =~= Seq::<char>::empty()) by {
        reveal_strlit("$$");
        reveal_with_fuel(keep_non_ascii, 3);
    }
}

/// Unicode safety of the reverse translation: the sequence of non-ASCII
/// characters in `to_bash`'s result equals that of its input.  Every
/// multi-byte character is reproduced intact and in order, wherever it
/// stands relative to a rewritten prefix; the passes copy by full scalar
/// value and match only ASCII patterns.
pub proof fn lemma_to_bash_preserves_non_ascii(s: Seq<char>)
    ensures
        keep_non_ascii(powershell::spec_to_bash(s)) == keep_non_ascii(s),
{
    lemma_reverse_table_ascii();
    lemma_unprefix_keeps(s, 0);
    assert(s.subrange(0, s.len() as int) =~= s);
    let t0 = powershell::spec_unprefix_from(s, 0);
    lemma_stage_keeps(t0, "Write-Output"@, "echo"@);
    let t1 = text::spec_replace_all(t0, "Write-Output"@, "echo"@);
    lemma_stage_keeps(t1, "Get-Content"@, "cat"@);
    let t2 = text::spec_replace_all(t1, "Get-Content"@, "cat"@);
    lemma_stage_keeps(t2, "Get-ChildItem"@, "ls"@);
    let t3 = text::spec_replace_all(t2, "Get-ChildItem"@, "ls"@);
    lemma_stage_keeps(t3, "Copy-Item"@, "cp"@);
    let t4 = text::spec_replace_all(t3, "Copy-Item"@, "cp"@);
    lemma_stage_keeps(t4, "Move-Item"@, "mv"@);
    let t5 = text::spec_replace_all(t4, "Move-Item"@, "mv"@);
    lemma_stage_keeps(t5, "Remove-Item"@, "rm"@);
    let t6 = text::spec_replace_all(t5, "Remove-Item"@, "rm"@);
    lemma_stage_keeps(t6, "Get-Location"@, "pwd"@);
    let t7 = text::spec_replace_all(t6, "Get-Location"@, "pwd"@);
    lemma_stage_keeps(t7, "Set-Location"@, "cd"@);
    let t8 = text::spec_replace_all(t7, "Set-Location"@, "cd"@);
    lemma_stage_keeps(t8, "$LASTEXITCODE"@, "$?"@);
    let t9 = text::spec_replace_all(t8, "$LASTEXITCODE"@, "$?"@);
    lemma_stage_keeps(t9, "$PID"@, "$$"@);
}

} // verus!
