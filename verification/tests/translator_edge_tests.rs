use bounty_challenge::shell::bash;
use bounty_challenge::shell::powershell;
use bounty_challenge::shell::ShellType;
use bounty_challenge::style;

// ===== classification from environment signals =====

#[test]
fn test_classify_bash_from_shell_path() {
    let r = ShellType::classify(Some("/bin/bash"), None, None);
    assert!(matches!(r, ShellType::Bash));
}

#[test]
fn test_classify_zsh_and_fish() {
    assert!(matches!(
        ShellType::classify(Some("/usr/bin/zsh"), None, None),
        ShellType::Zsh
    ));
    assert!(matches!(
        ShellType::classify(Some("/usr/local/bin/fish"), None, None),
        ShellType::Fish
    ));
}

#[test]
fn test_classify_unknown_keeps_raw_value() {
    let r = ShellType::classify(Some("/bin/tcsh"), None, None);
    match r {
        ShellType::Unknown(raw) => assert_eq!(raw, "/bin/tcsh"),
        other => panic!("expected Unknown, got {:?}", other),
    }
}

#[test]
fn test_classify_windows_signals() {
    assert!(matches!(
        ShellType::classify(None, Some("C:\\Modules"), None),
        ShellType::PowerShell
    ));
    assert!(matches!(
        ShellType::classify(None, None, Some("C:\\Windows\\system32\\cmd.exe")),
        ShellType::Cmd
    ));
    match ShellType::classify(None, None, None) {
        ShellType::Unknown(raw) => assert_eq!(raw, "unknown"),
        other => panic!("expected Unknown, got {:?}", other),
    }
}

#[test]
fn test_classify_shell_value_beats_windows_signals() {
    let r = ShellType::classify(Some("/bin/bash"), Some("mods"), Some("cmd"));
    assert!(matches!(r, ShellType::Bash));
}

// ===== tokenizer edge cases =====

#[test]
fn test_tokenize_empty_and_blank() {
    assert_eq!(bash::tokenize(""), Vec::<String>::new());
    assert_eq!(bash::tokenize("   "), Vec::<String>::new());
}

#[test]
fn test_tokenize_unbalanced_quote_emits_partial_token() {
    let tokens = bash::tokenize("echo 'abc");
    assert_eq!(tokens, vec!["echo", "'abc"]);
}

#[test]
fn test_tokenize_escaped_space_joins_token() {
    let tokens = bash::tokenize("a\\ b c");
    assert_eq!(tokens, vec!["a\\ b", "c"]);
}

#[test]
fn test_tokenize_double_quote_inside_single_quotes() {
    let tokens = bash::tokenize("echo '\"a b\"'");
    assert_eq!(tokens, vec!["echo", "'\"a b\"'"]);
}

// ===== escape edge cases =====

#[test]
fn test_bash_escape_empty() {
    assert_eq!(bash::escape(""), "''");
}

#[test]
fn test_bash_escape_only_quote() {
    assert_eq!(bash::escape("'"), "''\\'''");
}

// ===== variable extractor edge cases =====

#[test]
fn test_extract_env_vars_duplicates_in_order() {
    let vars = bash::extract_env_vars("echo $A $B $A");
    assert_eq!(vars, vec!["A", "B", "A"]);
}

#[test]
fn test_extract_env_vars_expansion_suffix_dropped() {
    let vars = bash::extract_env_vars("echo ${X:-default}");
    assert_eq!(vars, vec!["X"]);
}

#[test]
fn test_extract_env_vars_invalid_candidate_skipped() {
    let vars = bash::extract_env_vars("echo ${123abc}");
    assert_eq!(vars, Vec::<String>::new());
}

#[test]
fn test_extract_env_vars_skips_special_dollars() {
    let vars = bash::extract_env_vars("echo $? $$ $1 $(cmd)");
    assert_eq!(vars, Vec::<String>::new());
}

// ===== forward translator: remaining classification rows =====

#[test]
fn test_from_bash_star_var() {
    let result = powershell::from_bash("echo $*");
    assert!(result.contains("$args"), "$* should become $args, got: {}", result);
}

#[test]
fn test_from_bash_dollar_zero() {
    let result = powershell::from_bash("echo $0");
    assert!(
        result.contains("$MyInvocation.MyCommand.Name"),
        "$0 should become the invoked-command accessor, got: {}",
        result
    );
}

#[test]
fn test_from_bash_positional_digit_is_zero_indexed() {
    let result = powershell::from_bash("echo $3");
    assert!(
        result.contains("$args[2]"),
        "$3 should become $args[2], got: {}",
        result
    );
}

#[test]
fn test_from_bash_brace_with_expansion_suffix() {
    let result = powershell::from_bash("echo ${HOME:-/root}");
    assert_eq!(result, "Write-Output $env:HOME");
}

#[test]
fn test_from_bash_brace_invalid_name_untouched() {
    let result = powershell::from_bash("echo ${123abc}");
    assert!(
        result.contains("${123abc}"),
        "invalid braced candidate should keep its original text, got: {}",
        result
    );
}

#[test]
fn test_from_bash_unclosed_brace_is_literal_dollar() {
    let result = powershell::from_bash("echo ${HOME");
    assert!(
        result.contains("${HOME"),
        "unclosed brace should leave the text alone, got: {}",
        result
    );
    assert!(!result.contains("$env:"), "got: {}", result);
}

#[test]
fn test_from_bash_redirection_operator_rewritten() {
    let result = powershell::from_bash("cmd 2>&1");
    assert_eq!(result, "cmd *>&1");
}

#[test]
fn test_devnull_rewritten_outside_quotes() {
    assert_eq!(
        powershell::replace_outside_quotes("cmd > /dev/null", "/dev/null", "$null"),
        "cmd > $null"
    );
}

#[test]
fn test_from_bash_path_prefix_stripped_for_lookup() {
    let result = powershell::from_bash("/usr/bin/echo hi");
    assert_eq!(result, "Write-Output hi");
}

#[test]
fn test_from_bash_empty_input() {
    assert_eq!(powershell::from_bash(""), "");
}

// ===== law scenarios =====

#[test]
fn test_pass_through_unrecognized_command() {
    // No recognized command name, operator spelling, or dollar pattern:
    // the forward translation is the identity.
    assert_eq!(powershell::from_bash("hello world"), "hello world");
    assert_eq!(powershell::from_bash("mycmd -a -b c"), "mycmd -a -b c");
}

#[test]
fn test_pass_through_operator_only_inside_quotes() {
    // The pass-through identity also holds when an operator spelling
    // occurs, as long as every occurrence is quoted.
    assert_eq!(powershell::from_bash("foo '2>&1' bar"), "foo '2>&1' bar");
}

#[test]
fn test_quote_aware_replace_leaves_quoted_operator() {
    assert_eq!(
        powershell::replace_outside_quotes("'2>&1'", "2>&1", "*>&1"),
        "'2>&1'"
    );
    assert_eq!(
        powershell::replace_outside_quotes("\"2>&1\"", "2>&1", "*>&1"),
        "\"2>&1\""
    );
}

#[test]
fn test_quote_aware_replace_outside_quotes() {
    assert_eq!(
        powershell::replace_outside_quotes("a 2>&1 '2>&1' b", "2>&1", "*>&1"),
        "a *>&1 '2>&1' b"
    );
}

#[test]
fn test_quote_aware_replace_resumes_after_match() {
    assert_eq!(
        powershell::replace_outside_quotes("aaa", "aa", "b"),
        "ba"
    );
}

#[test]
fn test_convert_dollar_signs_quote_inside_double_quotes() {
    // An apostrophe inside a double-quoted span does not open a
    // single-quoted span, so the later variable is still rewritten.
    assert_eq!(
        powershell::convert_dollar_signs("\"it's\" $HOME"),
        "\"it's\" $env:HOME"
    );
}

#[test]
fn test_from_bash_quote_inside_double_quotes() {
    assert_eq!(
        powershell::from_bash("echo \"it's\" $HOME"),
        "Write-Output \"it's\" $env:HOME"
    );
}

#[test]
fn test_from_bash_dollar_in_double_quotes_expands() {
    // Inside double quotes the source dialect still expands variables.
    assert_eq!(
        powershell::from_bash("echo \"$HOME\""),
        "Write-Output \"$env:HOME\""
    );
}

#[test]
fn test_from_bash_inserted_null_not_reinterpreted() {
    // The `$null` that the operator phase inserts is protected: the
    // dollar pass must not rewrite it to `$env:null`.
    assert_eq!(
        powershell::from_bash("ls > /dev/null"),
        "Get-ChildItem > $null"
    );
}

#[test]
fn test_from_bash_inserted_command_not_reinterpreted() {
    // `$`-prefixed command replacements are protected from the dollar
    // pass as well.
    assert_eq!(powershell::from_bash("whoami"), "$env:USERNAME");
    assert_eq!(powershell::from_bash("true"), "$true");
}

#[test]
fn test_from_bash_user_text_after_insertion_still_processed() {
    // Only the inserted span is protected; surrounding user text still
    // goes through the dollar pass.
    assert_eq!(
        powershell::from_bash("cat $HOME/log 2>&1"),
        "Get-Content $env:HOME/log *>&1"
    );
}

#[test]
fn test_tokenize_splits_on_unicode_whitespace() {
    assert_eq!(bash::tokenize("a\u{00a0}b"), vec!["a", "b"]);
    assert_eq!(bash::tokenize("a\u{000b}b\u{2003}c"), vec!["a", "b", "c"]);
}

#[test]
fn test_convert_dollar_signs_direct() {
    assert_eq!(
        powershell::convert_dollar_signs("$HOME and $? and $$"),
        "$env:HOME and $LASTEXITCODE and $PID"
    );
}

#[test]
fn test_to_bash_multibyte_between_rewrites() {
    let result = powershell::to_bash("Get-Content \u{00e9}\u{1F600} $env:A");
    assert_eq!(result, "cat \u{00e9}\u{1F600} $A");
}

#[test]
fn test_to_bash_pid_and_commands() {
    assert_eq!(powershell::to_bash("$PID"), "$$");
    assert_eq!(powershell::to_bash("Set-Location /tmp"), "cd /tmp");
    assert_eq!(powershell::to_bash("Get-Location"), "pwd");
}

#[test]
fn test_to_bash_not_quote_aware() {
    // The reverse pass replaces even inside quotes: documented asymmetry.
    assert_eq!(powershell::to_bash("'$env:HOME'"), "'$HOME'");
}

// ===== style helpers =====

#[test]
fn test_style_wraps_in_ansi_codes() {
    assert_eq!(style::style_cyan("x"), "\x1b[36mx\x1b[0m");
    assert_eq!(style::style_green("ok"), "\x1b[32mok\x1b[0m");
    assert_eq!(style::style_red("bad"), "\x1b[31mbad\x1b[0m");
    assert_eq!(style::style_yellow("warn"), "\x1b[33mwarn\x1b[0m");
    assert_eq!(style::style_dim("d"), "\x1b[2md\x1b[0m");
    assert_eq!(style::style_bold("b"), "\x1b[1mb\x1b[0m");
}
