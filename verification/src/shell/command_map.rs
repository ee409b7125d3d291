//! Static command and operator tables mapping POSIX-dialect names to their
//! PowerShell-dialect equivalents.  The tables are data only: they are
//! built fresh on each call and never mutated, and the spec functions here
//! are the single source of truth that both the forward and the reverse
//! translator draw on.

use vstd::prelude::*;
use vstd::string::StringExecFns;

verus! {

/// The number of entries in the command table.
pub open spec fn command_count() -> int {
    39
}

/// Entry `i` of the command table: a POSIX command name and its
/// PowerShell equivalent.
pub open spec fn spec_command_pair(i: int) -> (Seq<char>, Seq<char>) {
    if i == 0 {
        ("echo"@, "Write-Output"@)
    } else if i == 1 {
        ("cat"@, "Get-Content"@)
    } else if i == 2 {
        ("ls"@, "Get-ChildItem"@)
    } else if i == 3 {
        ("cp"@, "Copy-Item"@)
    } else if i == 4 {
        ("mv"@, "Move-Item"@)
    } else if i == 5 {
        ("rm"@, "Remove-Item"@)
    } else if i == 6 {
        ("mkdir"@, "New-Item -ItemType Directory -Path"@)
    } else if i == 7 {
        ("rmdir"@, "Remove-Item -Recurse"@)
    } else if i == 8 {
        ("pwd"@, "Get-Location"@)
    } else if i == 9 {
        ("cd"@, "Set-Location"@)
    } else if i == 10 {
        ("grep"@, "Select-String"@)
    } else if i == 11 {
        ("find"@, "Get-ChildItem -Recurse"@)
    } else if i == 12 {
        ("sort"@, "Sort-Object"@)
    } else if i == 13 {
        ("head"@, "Select-Object -First"@)
    } else if i == 14 {
        ("tail"@, "Select-Object -Last"@)
    } else if i == 15 {
        ("wc"@, "Measure-Object"@)
    } else if i == 16 {
        ("touch"@, "New-Item -ItemType File -Path"@)
    } else if i == 17 {
        ("chmod"@, "# chmod not applicable on Windows"@)
    } else if i == 18 {
        ("chown"@, "# chown not applicable on Windows"@)
    } else if i == 19 {
        ("which"@, "Get-Command"@)
    } else if i == 20 {
        ("whoami"@, "$env:USERNAME"@)
    } else if i == 21 {
        ("hostname"@, "$env:COMPUTERNAME"@)
    } else if i == 22 {
        ("date"@, "Get-Date"@)
    } else if i == 23 {
        ("sleep"@, "Start-Sleep -Seconds"@)
    } else if i == 24 {
        ("kill"@, "Stop-Process -Id"@)
    } else if i == 25 {
        ("ps"@, "Get-Process"@)
    } else if i == 26 {
        ("env"@, "Get-ChildItem Env:"@)
    } else if i == 27 {
        ("export"@, "$env:"@)
    } else if i == 28 {
        ("unset"@, "Remove-Item Env:"@)
    } else if i == 29 {
        ("curl"@, "Invoke-WebRequest"@)
    } else if i == 30 {
        ("wget"@, "Invoke-WebRequest -OutFile"@)
    } else if i == 31 {
        ("tar"@, "Expand-Archive"@)
    } else if i == 32 {
        ("zip"@, "Compress-Archive"@)
    } else if i == 33 {
        ("unzip"@, "Expand-Archive"@)
    } else if i == 34 {
        ("diff"@, "Compare-Object"@)
    } else if i == 35 {
        ("tee"@, "Tee-Object"@)
    } else if i == 36 {
        ("true"@, "$true"@)
    } else if i == 37 {
        ("false"@, "$false"@)
    } else {
        ("test"@, "Test-Path"@)
    }
}

/// Linear search of the command table from entry `i` on: the PowerShell
/// equivalent of `name`, or `None` past the end.
pub open spec fn spec_command_lookup_from(name: Seq<char>, i: int) -> Option<Seq<char>>
    decreases command_count() - i,
{
    if !(0 <= i < command_count()) {
        Option::None
    } else if spec_command_pair(i).0 == name {
        Option::Some(spec_command_pair(i).1)
    } else {
        spec_command_lookup_from(name, i + 1)
    }
}

/// The PowerShell equivalent of the POSIX command `name`, or `None` when
/// the name is not in the table.
pub open spec fn spec_command_lookup(name: Seq<char>) -> Option<Seq<char>> {
    spec_command_lookup_from(name, 0)
}

/// Whether `m` is the command table: one entry per table index, in table
/// order.
pub open spec fn is_command_table(m: Seq<(String, String)>) -> bool {
    m.len() == command_count() && (forall|i: int|
        0 <= i < m.len() ==> (#[trigger] m[i]).0@ == spec_command_pair(i).0 && m[i].1@
            == spec_command_pair(i).1)
}

/// The number of entries in the operator table.
pub open spec fn operator_count() -> int {
    7
}

/// Entry `i` of the operator table: a POSIX control operator (or special
/// path) and its PowerShell spelling.  Entries whose two spellings agree
/// are kept for documentation value; the forward translator skips them.
pub open spec fn spec_operator_pair(i: int) -> (Seq<char>, Seq<char>) {
    if i == 0 {
        ("&&"@, "&&"@)
    } else if i == 1 {
        ("||"@, "||"@)
    } else if i == 2 {
        ("|"@, "|"@)
    } else if i == 3 {
        (">"@, ">"@)
    } else if i == 4 {
        (">>"@, ">>"@)
    } else if i == 5 {
        ("2>&1"@, "*>&1"@)
    } else {
        ("/dev/null"@, "$null"@)
    }
}

/// Whether `m` is the operator table: one entry per table index, in table
/// order.
pub open spec fn is_operator_table(m: Seq<(String, String)>) -> bool {
    m.len() == operator_count() && (forall|i: int|
        0 <= i < m.len() ==> (#[trigger] m[i]).0@ == spec_operator_pair(i).0 && m[i].1@
            == spec_operator_pair(i).1)
}

/// The mapping of common POSIX commands to their PowerShell equivalents,
/// as ordered key-value pairs.
pub fn bash_to_powershell() -> (r: Vec<(String, String)>)
    ensures
        is_command_table(r@),
{
    let mut m: Vec<(String, String)> = Vec::new();
    m.push((String::from_str("echo"), String::from_str("Write-Output")));
    m.push((String::from_str("cat"), String::from_str("Get-Content")));
    m.push((String::from_str("ls"), String::from_str("Get-ChildItem")));
    m.push((String::from_str("cp"), String::from_str("Copy-Item")));
    m.push((String::from_str("mv"), String::from_str("Move-Item")));
    m.push((String::from_str("rm"), String::from_str("Remove-Item")));
    m.push((String::from_str("mkdir"), String::from_str("New-Item -ItemType Directory -Path")));
    m.push((String::from_str("rmdir"), String::from_str("Remove-Item -Recurse")));
    m.push((String::from_str("pwd"), String::from_str("Get-Location")));
    m.push((String::from_str("cd"), String::from_str("Set-Location")));
    m.push((String::from_str("grep"), String::from_str("Select-String")));
    m.push((String::from_str("find"), String::from_str("Get-ChildItem -Recurse")));
    m.push((String::from_str("sort"), String::from_str("Sort-Object")));
    m.push((String::from_str("head"), String::from_str("Select-Object -First")));
    m.push((String::from_str("tail"), String::from_str("Select-Object -Last")));
    m.push((String::from_str("wc"), String::from_str("Measure-Object")));
    m.push((String::from_str("touch"), String::from_str("New-Item -ItemType File -Path")));
    m.push((String::from_str("chmod"), String::from_str("# chmod not applicable on Windows")));
    m.push((String::from_str("chown"), String::from_str("# chown not applicable on Windows")));
    m.push((String::from_str("which"), String::from_str("Get-Command")));
    m.push((String::from_str("whoami"), String::from_str("$env:USERNAME")));
    m.push((String::from_str("hostname"), String::from_str("$env:COMPUTERNAME")));
    m.push((String::from_str("date"), String::from_str("Get-Date")));
    m.push((String::from_str("sleep"), String::from_str("Start-Sleep -Seconds")));
    m.push((String::from_str("kill"), String::from_str("Stop-Process -Id")));
    m.push((String::from_str("ps"), String::from_str("Get-Process")));
    m.push((String::from_str("env"), String::from_str("Get-ChildItem Env:")));
    m.push((String::from_str("export"), String::from_str("$env:")));
    m.push((String::from_str("unset"), String::from_str("Remove-Item Env:")));
    m.push((String::from_str("curl"), String::from_str("Invoke-WebRequest")));
    m.push((String::from_str("wget"), String::from_str("Invoke-WebRequest -OutFile")));
    m.push((String::from_str("tar"), String::from_str("Expand-Archive")));
    m.push((String::from_str("zip"), String::from_str("Compress-Archive")));
    m.push((String::from_str("unzip"), String::from_str("Expand-Archive")));
    m.push((String::from_str("diff"), String::from_str("Compare-Object")));
    m.push((String::from_str("tee"), String::from_str("Tee-Object")));
    m.push((String::from_str("true"), String::from_str("$true")));
    m.push((String::from_str("false"), String::from_str("$false")));
    m.push((String::from_str("test"), String::from_str("Test-Path")));
    m
}

/// The mapping of POSIX control operators to their PowerShell spellings,
/// as ordered key-value pairs.  The conditional operators keep their
/// spelling (PowerShell understands them natively); only the
/// stderr-to-stdout redirection and the null device differ.
pub fn bash_operators_to_powershell() -> (r: Vec<(String, String)>)
    ensures
        is_operator_table(r@),
{
    let mut m: Vec<(String, String)> = Vec::new();
    m.push((String::from_str("&&"), String::from_str("&&")));
    m.push((String::from_str("||"), String::from_str("||")));
    m.push((String::from_str("|"), String::from_str("|")));
    m.push((String::from_str(">"), String::from_str(">")));
    m.push((String::from_str(">>"), String::from_str(">>")));
    m.push((String::from_str("2>&1"), String::from_str("*>&1")));
    m.push((String::from_str("/dev/null"), String::from_str("$null")));
    m
}

} // verus!
