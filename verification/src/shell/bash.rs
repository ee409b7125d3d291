//! POSIX-dialect utilities: escaping, tokenization and variable-reference
//! extraction.

use vstd::prelude::*;

use crate::shell::text;

verus! {

/// The characters that replace a single quote inside an escaped string:
/// close the quote, emit a backslash-escaped quote, reopen the quote.
pub open spec fn escaped_quote() -> Seq<char> {
    seq!['\'', '\\', '\'', '\'']
}

/// The body of [`spec_escape`]: every single quote becomes
/// [`escaped_quote`], every other character is copied.
pub open spec fn spec_escape_body(s: Seq<char>) -> Seq<char>
    decreases s.len(),
{
    if s.len() == 0 {
        Seq::empty()
    } else {
        (if s[0] == '\'' {
            escaped_quote()
        } else {
            seq![s[0]]
        }) + spec_escape_body(s.drop_first())
    }
}

/// What [`escape`] returns: the escaped body wrapped in single quotes.
pub open spec fn spec_escape(s: Seq<char>) -> Seq<char> {
    seq!['\''] + spec_escape_body(s) + seq!['\'']
}

proof fn lemma_escape_body_snoc(s: Seq<char>, i: int)
    requires
        0 <= i < s.len(),
    ensures
        spec_escape_body(s.take(i + 1)) == spec_escape_body(s.take(i)) + (if s[i] == '\'' {
            escaped_quote()
        } else {
            seq![s[i]]
        }),
    decreases i,
{
    let a = s.take(i + 1);
    let b = s.take(i);
    if i == 0 {
        assert(a.drop_first() =~= Seq::<char>::empty());
        assert(b =~= Seq::<char>::empty());
        assert(spec_escape_body(Seq::<char>::empty()) == Seq::<char>::empty());
        assert(spec_escape_body(a) == (if a[0] == '\'' {
            escaped_quote()
        } else {
            seq![a[0]]
        }) + spec_escape_body(a.drop_first()));
        assert(spec_escape_body(b) + (if s[i] == '\'' {
            escaped_quote()
        } else {
            seq![s[i]]
        }) =~= spec_escape_body(a));
    } else {
        lemma_escape_body_snoc(s.drop_first(), i - 1);
        assert(a.drop_first() =~= s.drop_first().take(i));
        assert(b.drop_first() =~= s.drop_first().take(i - 1));
        assert(s.drop_first()[i - 1] == s[i]);
        assert(spec_escape_body(a) == (if s[0] == '\'' {
            escaped_quote()
        } else {
            seq![s[0]]
        }) + spec_escape_body(a.drop_first()));
        assert(spec_escape_body(b) + (if s[i] == '\'' {
            escaped_quote()
        } else {
            seq![s[i]]
        }) =~= spec_escape_body(a));
    }
}

/// Escape a string for safe use as a single command-line word: wrap it in
/// single quotes, and replace each embedded single quote by the
/// close-escape-reopen sequence `'\''`.
pub fn escape(s: &str) -> (r: String)
    ensures
        r@ == spec_escape(s@),
{
    let chars = text::str_to_chars(s);
    let mut out: Vec<char> = Vec::new();
    out.push('\'');
    let mut i: usize = 0;
    while i < chars.len()
        invariant
            0 <= i <= chars@.len(),
            chars@ == s@,
            out@ == seq!['\''] + spec_escape_body(s@.take(i as int)),
        decreases chars@.len() - i,
    {
        proof {
            lemma_escape_body_snoc(s@, i as int);
        }
        if chars[i] == '\'' {
            out.push('\'');
            out.push('\\');
            out.push('\'');
            out.push('\'');
            proof {
                assert(out@ =~= seq!['\''] + spec_escape_body(s@.take(i + 1)));
            }
        } else {
            out.push(chars[i]);
            proof {
                assert(out@ =~= seq!['\''] + spec_escape_body(s@.take(i + 1)));
            }
        }
        i += 1;
    }
    proof {
        assert(s@.take(s@.len() as int) =~= s@);
    }
    out.push('\'');
    proof {
        assert(out@ =~= spec_escape(s@));
    }
    text::chars_to_string(&out)
}

/// The token that a pending partial word contributes: itself when
/// non-empty, nothing otherwise.
pub open spec fn emit_tok(cur: Seq<char>) -> Seq<Seq<char>> {
    if cur.len() > 0 {
        seq![cur]
    } else {
        Seq::empty()
    }
}

/// The tokenizer state machine from position `i` on, carrying the partial
/// token `cur`, the two quote states and the pending-escape flag.  A
/// backslash outside single quotes escapes the following character; both
/// characters are retained.  Quote characters toggle their state (each
/// blind inside the other) and are retained.  Unquoted whitespace ends the
/// current token; everything else extends it.  At end of input the partial
/// token is emitted if non-empty, unbalanced quoting notwithstanding.
pub open spec fn spec_tokenize_from(
    s: Seq<char>,
    i: int,
    cur: Seq<char>,
    in_sq: bool,
    in_dq: bool,
    esc: bool,
) -> Seq<Seq<char>>
    decreases s.len() - i,
{
    if !(0 <= i < s.len()) {
        emit_tok(cur)
    } else {
        let c = s[i];
        if esc {
            spec_tokenize_from(s, i + 1, cur.push(c), in_sq, in_dq, false)
        } else if c == '\\' && !in_sq {
            spec_tokenize_from(s, i + 1, cur.push(c), in_sq, in_dq, true)
        } else if c == '\'' && !in_dq {
            spec_tokenize_from(s, i + 1, cur.push(c), !in_sq, in_dq, false)
        } else if c == '"' && !in_sq {
            spec_tokenize_from(s, i + 1, cur.push(c), in_sq, !in_dq, false)
        } else if text::is_space_char(c) && !in_sq && !in_dq {
            emit_tok(cur) + spec_tokenize_from(s, i + 1, Seq::empty(), in_sq, in_dq, false)
        } else {
            spec_tokenize_from(s, i + 1, cur.push(c), in_sq, in_dq, false)
        }
    }
}

/// What [`tokenize`] returns: the machine run from the start in the
/// unquoted, unescaped state with an empty partial token.
pub open spec fn spec_tokenize(s: Seq<char>) -> Seq<Seq<char>> {
    spec_tokenize_from(s, 0, Seq::empty(), false, false, false)
}

/// Every token the machine emits is non-empty, whatever state it starts
/// in: emission of the partial token is always guarded on its length.
pub proof fn lemma_tokens_nonempty(
    s: Seq<char>,
    i: int,
    cur: Seq<char>,
    in_sq: bool,
    in_dq: bool,
    esc: bool,
    k: int,
)
    requires
        0 <= k < spec_tokenize_from(s, i, cur, in_sq, in_dq, esc).len(),
    ensures
        spec_tokenize_from(s, i, cur, in_sq, in_dq, esc)[k].len() > 0,
    decreases s.len() - i,
{
    if !(0 <= i < s.len()) {
        assert(spec_tokenize_from(s, i, cur, in_sq, in_dq, esc)[k] == cur);
    } else {
        let c = s[i];
        if esc {
            lemma_tokens_nonempty(s, i + 1, cur.push(c), in_sq, in_dq, false, k);
        } else if c == '\\' && !in_sq {
            lemma_tokens_nonempty(s, i + 1, cur.push(c), in_sq, in_dq, true, k);
        } else if c == '\'' && !in_dq {
            lemma_tokens_nonempty(s, i + 1, cur.push(c), !in_sq, in_dq, false, k);
        } else if c == '"' && !in_sq {
            lemma_tokens_nonempty(s, i + 1, cur.push(c), in_sq, !in_dq, false, k);
        } else if text::is_space_char(c) && !in_sq && !in_dq {
            let emitted = emit_tok(cur);
            let rest = spec_tokenize_from(s, i + 1, Seq::empty(), in_sq, in_dq, false);
            if k < emitted.len() {
                assert((emitted + rest)[k] == cur);
            } else {
                lemma_tokens_nonempty(s, i + 1, Seq::empty(), in_sq, in_dq, false, k
                    - emitted.len());
                assert((emitted + rest)[k] == rest[k - emitted.len()]);
            }
        } else {
            lemma_tokens_nonempty(s, i + 1, cur.push(c), in_sq, in_dq, false, k);
        }
    }
}

/// Split a command string into tokens on unquoted whitespace, respecting
/// single quotes, double quotes and backslash escapes; quote characters
/// are retained in the tokens.  Every token returned is non-empty.
pub fn tokenize(cmd: &str) -> (r: Vec<String>)
    ensures
        r.deep_view() == spec_tokenize(cmd@),
        forall|k: int| 0 <= k < r.deep_view().len() ==> r.deep_view()[k].len() > 0,
{
    let chars = text::str_to_chars(cmd);
    let n = chars.len();
    let mut tokens: Vec<String> = Vec::new();
    let mut cur: Vec<char> = Vec::new();
    let mut in_sq: bool = false;
    let mut in_dq: bool = false;
    let mut esc: bool = false;
    let mut i: usize = 0;
    while i < n
        invariant
            0 <= i <= n,
            n == chars@.len(),
            chars@ == cmd@,
            spec_tokenize(cmd@) == tokens.deep_view() + spec_tokenize_from(
                chars@,
                i as int,
                cur@,
                in_sq,
                in_dq,
                esc,
            ),
        decreases n - i,
    {
        let ghost pre = tokens.deep_view();
        let ghost cur0 = cur@;
        let ghost sq0 = in_sq;
        let ghost dq0 = in_dq;
        let ghost esc0 = esc;
        let ghost i0 = i as int;
        let c = chars[i];
        if esc {
            cur.push(c);
            esc = false;
        } else if c == '\\' && !in_sq {
            cur.push(c);
            esc = true;
        } else if c == '\'' && !in_dq {
            cur.push(c);
            in_sq = !in_sq;
        } else if c == '"' && !in_sq {
            cur.push(c);
            in_dq = !in_dq;
        } else if text::space_char(c) && !in_sq && !in_dq {
            if cur.len() > 0 {
                let t = text::chars_to_string(&cur);
                tokens.push(t);
                cur = Vec::new();
                proof {
                    assert(tokens.deep_view() =~= pre.push(cur0));
                }
            } else {
                proof {
                    assert(cur@ =~= Seq::<char>::empty());
                }
            }
        } else {
            cur.push(c);
        }
        i += 1;
        proof {
            assert(tokens.deep_view() + spec_tokenize_from(
                chars@,
                i as int,
                cur@,
                in_sq,
                in_dq,
                esc,
            ) =~= pre + spec_tokenize_from(chars@, i0, cur0, sq0, dq0, esc0));
        }
    }
    if cur.len() > 0 {
        let ghost pre = tokens.deep_view();
        let t = text::chars_to_string(&cur);
        tokens.push(t);
        proof {
            assert(tokens.deep_view() =~= pre.push(cur@));
            assert(tokens.deep_view() =~= pre + emit_tok(cur@));
        }
    } else {
        proof {
            assert(tokens.deep_view() + emit_tok(cur@) =~= tokens.deep_view());
        }
    }
    proof {
        assert forall|k: int| 0 <= k < tokens.deep_view().len() implies tokens.deep_view()[k].len()
            > 0 by {
            lemma_tokens_nonempty(chars@, 0, Seq::empty(), false, false, false, k);
        }
    }
    tokens
}

/// Check whether a string is a valid variable name: non-empty, starting
/// with a letter or underscore, all characters letters, digits or
/// underscores.
pub fn is_valid_var_name(name: &str) -> (r: bool)
    ensures
        r == text::spec_valid_var_name(name@),
{
    let chars = text::str_to_chars(name);
    let n = chars.len();
    let r = text::valid_name_range(&chars, 0, n);
    proof {
        assert(chars@.subrange(0, n as int) =~= name@);
    }
    r
}

/// The variable-reference extractor from position `i` on: the names
/// referenced via `$NAME` or `${NAME...}` from there to the end of the
/// input, in first-seen order, duplicates included.  A braced candidate is
/// cut at the first parameter-expansion operator and kept only when it is
/// a valid name; a bare `$NAME` run starting with a letter or underscore
/// is always kept.  Anything else after a `$` is skipped.
pub open spec fn spec_extract_from(s: Seq<char>, i: int) -> Seq<Seq<char>>
    decreases s.len() - i,
        via spec_extract_from_decreases
{
    if !(0 <= i < s.len()) {
        Seq::empty()
    } else if s[i] == '$' && i + 1 < s.len() {
        let nx = s[i + 1];
        if nx == '{' {
            match text::find_char(s, '}', i + 2) {
                Option::Some(j) => {
                    let k = text::cut_end(s, i + 2, j);
                    (if text::spec_valid_var_name(s.subrange(i + 2, k)) {
                        seq![s.subrange(i + 2, k)]
                    } else {
                        Seq::empty()
                    }) + spec_extract_from(s, j + 1)
                },
                Option::None => spec_extract_from(s, i + 1),
            }
        } else if text::is_ident_start(nx) {
            let end = text::ident_run_end(s, i + 1);
            seq![s.subrange(i + 1, end)] + spec_extract_from(s, end)
        } else {
            spec_extract_from(s, i + 1)
        }
    } else {
        spec_extract_from(s, i + 1)
    }
}

#[via_fn]
proof fn spec_extract_from_decreases(s: Seq<char>, i: int) {
    if 0 <= i < s.len() {
        text::lemma_find_char(s, '}', i + 2);
        if i + 1 <= s.len() {
            text::lemma_ident_run_end(s, i + 1);
        }
    }
}

/// What [`extract_env_vars`] returns: the extractor run over the whole
/// string.
pub open spec fn spec_extract_env_vars(s: Seq<char>) -> Seq<Seq<char>> {
    spec_extract_from(s, 0)
}

/// Extract the environment-variable names referenced in `cmd` via `$NAME`
/// or `${NAME}` (the braced form possibly carrying a parameter-expansion
/// suffix, which is dropped), in first-seen order, duplicates included.
pub fn extract_env_vars(cmd: &str) -> (r: Vec<String>)
    ensures
        r.deep_view() == spec_extract_env_vars(cmd@),
{
    let chars = text::str_to_chars(cmd);
    let n = chars.len();
    let mut vars: Vec<String> = Vec::new();
    let mut i: usize = 0;
    while i < n
        invariant
            0 <= i <= n,
            n == chars@.len(),
            chars@ == cmd@,
            spec_extract_env_vars(cmd@) == vars.deep_view() + spec_extract_from(chars@, i as int),
        decreases n - i,
    {
        let ghost pre = vars.deep_view();
        let ghost i0 = i as int;
        if chars[i] == '$' && i + 1 < n {
            let nx = chars[i + 1];
            if nx == '{' {
                match text::find_char_exec(&chars, '}', i + 2) {
                    Option::Some(j) => {
                        proof {
                            text::lemma_find_char(chars@, '}', i + 2);
                        }
                        let k = text::cut_end_exec(&chars, i + 2, j);
                        if text::valid_name_range(&chars, i + 2, k) {
                            let mut name: Vec<char> = Vec::new();
                            text::push_range(&mut name, &chars, i + 2, k);
                            let t = text::chars_to_string(&name);
                            vars.push(t);
                            proof {
                                assert(vars.deep_view() =~= pre.push(
                                    chars@.subrange(i0 + 2, k as int),
                                ));
                            }
                        }
                        i = j + 1;
                    },
                    Option::None => {
                        i += 1;
                    },
                }
            } else if text::ident_start(nx) {
                let end = text::ident_run_end_exec(&chars, i + 1);
                let mut name: Vec<char> = Vec::new();
                text::push_range(&mut name, &chars, i + 1, end);
                let t = text::chars_to_string(&name);
                vars.push(t);
                proof {
                    text::lemma_ident_run_end(chars@, i0 + 1);
                    assert(vars.deep_view() =~= pre.push(chars@.subrange(i0 + 1, end as int)));
                    assert(end > i);
                }
                i = end;
            } else {
                i += 1;
            }
        } else {
            i += 1;
        }
        proof {
            assert(vars.deep_view() + spec_extract_from(chars@, i as int) =~= pre
                + spec_extract_from(chars@, i0));
        }
    }
    proof {
        assert(vars.deep_view() + spec_extract_from(chars@, i as int) =~= vars.deep_view());
    }
    vars
}

} // verus!
