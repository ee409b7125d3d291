use bounty_challenge::shell::bash;
use bounty_challenge::shell::command_map;
use bounty_challenge::shell::powershell;
use bounty_challenge::shell::ShellType;

fn lookup<'a>(m: &'a [(String, String)], k: &str) -> Option<&'a str> {
    for (a, b) in m {
        if a == k {
            return Some(b.as_str());
        }
    }
    None
}

// ===== ShellType tests =====

#[test]
fn test_shell_type_is_posix() {
    assert!(ShellType::Bash.is_posix());
    assert!(ShellType::Zsh.is_posix());
    assert!(!ShellType::PowerShell.is_posix());
    assert!(!ShellType::Cmd.is_posix());
    assert!(!ShellType::Fish.is_posix());
}

#[test]
fn test_shell_type_is_windows() {
    assert!(ShellType::PowerShell.is_windows());
    assert!(ShellType::Cmd.is_windows());
    assert!(!ShellType::Bash.is_windows());
    assert!(!ShellType::Zsh.is_windows());
}

// ===== bash::escape tests =====

#[test]
fn test_bash_escape_simple() {
    assert_eq!(bash::escape("hello"), "'hello'");
}

#[test]
fn test_bash_escape_single_quotes() {
    assert_eq!(bash::escape("it's"), "'it'\\''s'");
}

// ===== bash::tokenize tests =====

#[test]
fn test_tokenize_simple() {
    let tokens = bash::tokenize("echo hello world");
    assert_eq!(tokens, vec!["echo", "hello", "world"]);
}

#[test]
fn test_tokenize_quoted() {
    let tokens = bash::tokenize("echo \"hello world\"");
    assert_eq!(tokens, vec!["echo", "\"hello world\""]);
}

#[test]
fn test_tokenize_single_quoted() {
    let tokens = bash::tokenize("echo 'hello world'");
    assert_eq!(tokens, vec!["echo", "'hello world'"]);
}

// ===== bash::is_valid_var_name tests =====

#[test]
fn test_valid_var_names() {
    assert!(bash::is_valid_var_name("HOME"));
    assert!(bash::is_valid_var_name("_private"));
    assert!(bash::is_valid_var_name("var123"));
    assert!(!bash::is_valid_var_name("123var"));
    assert!(!bash::is_valid_var_name(""));
    assert!(!bash::is_valid_var_name("var-name"));
}

// ===== bash::extract_env_vars tests =====

#[test]
fn test_extract_env_vars() {
    let vars = bash::extract_env_vars("echo $HOME and $PATH");
    assert!(vars.contains(&"HOME".to_string()));
    assert!(vars.contains(&"PATH".to_string()));
}

#[test]
fn test_extract_env_vars_braces() {
    let vars = bash::extract_env_vars("echo ${HOME}/.config");
    assert!(vars.contains(&"HOME".to_string()));
}

// ===== powershell::from_bash tests =====

#[test]
fn test_from_bash_simple_echo() {
    let result = powershell::from_bash("echo hello");
    assert_eq!(result, "Write-Output hello");
}

#[test]
fn test_from_bash_env_var() {
    let result = powershell::from_bash("echo $HOME");
    assert_eq!(result, "Write-Output $env:HOME");
}

#[test]
fn test_from_bash_multiple_env_vars() {
    let result = powershell::from_bash("echo $HOME $PATH $USER");
    assert_eq!(result, "Write-Output $env:HOME $env:PATH $env:USER");
}

#[test]
fn test_from_bash_subshell_preserved() {
    // $(cmd) should be preserved, not converted to $env:(cmd)
    let result = powershell::from_bash("echo $(whoami)");
    assert!(
        result.contains("$("),
        "Subshell $() should be preserved, got: {}",
        result
    );
    assert!(
        !result.contains("$env:("),
        "Subshell should NOT be converted to $env:(, got: {}",
        result
    );
}

#[test]
fn test_from_bash_exit_status() {
    // $? should become $LASTEXITCODE
    let result = powershell::from_bash("echo $?");
    assert_eq!(result, "Write-Output $LASTEXITCODE");
}

#[test]
fn test_from_bash_process_id() {
    // $$ should become $PID
    let result = powershell::from_bash("echo $$");
    assert_eq!(result, "Write-Output $PID");
}

#[test]
fn test_from_bash_dollar_in_single_quotes() {
    // Dollar signs inside single quotes are literal
    let result = powershell::from_bash("echo '$HOME'");
    assert!(
        result.contains("'$HOME'"),
        "Dollar sign in single quotes should be literal, got: {}",
        result
    );
    assert!(
        !result.contains("$env:HOME"),
        "Should not convert vars inside single quotes, got: {}",
        result
    );
}

#[test]
fn test_from_bash_dollar_followed_by_digit() {
    // $1, $2, etc. are positional parameters, not env vars
    let result = powershell::from_bash("echo $1");
    assert!(
        !result.contains("$env:1"),
        "Positional parameter $1 should NOT become $env:1, got: {}",
        result
    );
}

#[test]
fn test_from_bash_dollar_literal_amount() {
    // "$50" should not become "$env:50"
    let result = powershell::from_bash("echo \"$50\"");
    assert!(
        !result.contains("$env:50"),
        "Dollar amount $50 should not become $env:50, got: {}",
        result
    );
}

#[test]
fn test_from_bash_hash_var() {
    // $# should become $args.Count
    let result = powershell::from_bash("echo $#");
    assert!(
        result.contains("$args.Count"),
        "$# should become $args.Count, got: {}",
        result
    );
}

#[test]
fn test_from_bash_at_var() {
    // $@ should become $args
    let result = powershell::from_bash("echo $@");
    assert!(
        result.contains("$args"),
        "$@ should become $args, got: {}",
        result
    );
}

#[test]
fn test_from_bash_brace_variable() {
    // ${HOME} should become $env:HOME
    let result = powershell::from_bash("echo ${HOME}");
    assert!(
        result.contains("$env:HOME"),
        "${{HOME}} should become $env:HOME, got: {}",
        result
    );
}

#[test]
fn test_from_bash_complex_command() {
    // A more complex command with multiple dollar-sign patterns
    let result = powershell::from_bash("echo $HOME $(date) $? '$$'");
    assert!(result.contains("$env:HOME"), "Should convert $HOME");
    assert!(
        result.contains("$(date)") || result.contains("$("),
        "Should preserve $(date)"
    );
    assert!(
        result.contains("$LASTEXITCODE"),
        "Should convert $? to $LASTEXITCODE"
    );
}

#[test]
fn test_from_bash_trailing_dollar() {
    // A trailing $ should be kept as literal
    let result = powershell::from_bash("echo cost$");
    assert!(
        result.contains("cost$"),
        "Trailing $ should be literal, got: {}",
        result
    );
}

// ===== powershell::to_bash tests =====

#[test]
fn test_to_bash_env_var() {
    let result = powershell::to_bash("Write-Output $env:HOME");
    assert!(result.contains("echo $HOME"));
}

#[test]
fn test_to_bash_exit_code() {
    let result = powershell::to_bash("$LASTEXITCODE");
    assert_eq!(result, "$?");
}

// ===== && should use the native conditional operator =====

#[test]
fn test_from_bash_and_operator_preserved() {
    // && should remain && (not become ;)
    let result = powershell::from_bash("mkdir foo && cd foo");
    assert!(
        result.contains("&&"),
        "&& should be preserved for PowerShell 7+, got: {}",
        result
    );
    assert!(
        !result.contains("; cd"),
        "&& should NOT become ;, got: {}",
        result
    );
}

#[test]
fn test_from_bash_or_operator_preserved() {
    // || should remain ||
    let result = powershell::from_bash("cmd1 || cmd2");
    assert!(
        result.contains("||"),
        "|| should be preserved for PowerShell 7+, got: {}",
        result
    );
}

// ===== Operator replacement must not corrupt quoted strings =====

#[test]
fn test_from_bash_operator_inside_quotes_untouched() {
    // Operators inside quoted strings must not be replaced
    let result = powershell::from_bash("echo \"a && b\"");
    assert!(
        result.contains("\"a && b\""),
        "Operators inside double quotes should be untouched, got: {}",
        result
    );
}

#[test]
fn test_from_bash_operator_inside_single_quotes_untouched() {
    let result = powershell::from_bash("echo '2>&1'");
    assert!(
        result.contains("'2>&1'"),
        "Operators inside single quotes should be untouched, got: {}",
        result
    );
}

#[test]
fn test_from_bash_devnull_inside_quotes_untouched() {
    let result = powershell::from_bash("echo \"/dev/null\"");
    assert!(
        result.contains("\"/dev/null\""),
        "/dev/null inside quotes should be untouched, got: {}",
        result
    );
}

// ===== $! must NOT map to $PID =====

#[test]
fn test_from_bash_bang_not_pid() {
    // $! is the last background PID; no direct PowerShell equivalent
    let result = powershell::from_bash("echo $!");
    assert!(
        !result.contains("$PID"),
        "$! should NOT map to $PID, got: {}",
        result
    );
    assert!(
        result.contains("<# $! not supported #>"),
        "$! should map to a placeholder comment, got: {}",
        result
    );
}

// ===== $_ at end-of-string should not become $env:_ =====

#[test]
fn test_from_bash_dollar_underscore_end_of_string() {
    // When $_ is at the end of the string, it should stay as $_
    let result = powershell::from_bash("echo $_");
    assert!(
        result.contains("$_"),
        "$_ at end of string should remain $_, got: {}",
        result
    );
    assert!(
        !result.contains("$env:_"),
        "$_ should NOT become $env:_, got: {}",
        result
    );
}

#[test]
fn test_from_bash_dollar_underscore_mid_string() {
    // $_ followed by a space should still be $_
    let result = powershell::from_bash("echo $_ foo");
    assert!(
        result.contains("$_"),
        "$_ followed by space should remain $_, got: {}",
        result
    );
    assert!(
        !result.contains("$env:_"),
        "$_ should NOT become $env:_, got: {}",
        result
    );
}

// ===== to_bash correctness on larger input =====

#[test]
fn test_to_bash_large_input_no_regression() {
    let large = "$env:HOME ".repeat(500);
    let result = powershell::to_bash(&large);
    assert!(result.contains("$HOME"), "Should still convert $env:HOME");
    assert!(!result.contains("$env:"), "Should not have leftover $env:");
}

#[test]
fn test_to_bash_unicode_safe() {
    // The reverse pass must handle non-ASCII scalar values intact
    let result = powershell::to_bash("Write-Output $env:HOME \u{1F600}");
    assert!(result.contains("$HOME"));
    assert!(result.contains("\u{1F600}"));
}

// ===== command_map tests =====

#[test]
fn test_command_map_has_common_commands() {
    let map = command_map::bash_to_powershell();
    assert_eq!(lookup(&map, "echo"), Some("Write-Output"));
    assert_eq!(lookup(&map, "cat"), Some("Get-Content"));
    assert_eq!(lookup(&map, "ls"), Some("Get-ChildItem"));
    assert_eq!(lookup(&map, "pwd"), Some("Get-Location"));
}

#[test]
fn test_operator_map_uses_native_pipeline_operators() {
    let map = command_map::bash_operators_to_powershell();
    assert_eq!(
        lookup(&map, "&&"),
        Some("&&"),
        "&&  should map to && for PowerShell 7+"
    );
    assert_eq!(
        lookup(&map, "||"),
        Some("||"),
        "|| should map to || for PowerShell 7+"
    );
}
