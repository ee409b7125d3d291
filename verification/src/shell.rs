//! Shell identity: the closed set of recognized shell variants and the pure
//! classification from named environment signals.

pub mod bash;
pub mod command_map;
pub mod laws;
pub mod powershell;
pub mod text;

use vstd::prelude::*;

verus! {

/// A recognized shell dialect, or `Unknown` carrying the raw signal string.
#[derive(Debug, Clone, PartialEq)]
pub enum ShellType {
    Bash,
    Zsh,
    Fish,
    PowerShell,
    Cmd,
    Unknown(String),
}

impl ShellType {
    /// Classify a shell from the three environment signals: the value of the
    /// POSIX shell-path variable, and the values of the
    /// PowerShell-module-path and Windows command-processor variables, of
    /// which only presence matters.  A shell-path value naming none of the
    /// known POSIX shells comes back as `Unknown` carrying that raw value.
    pub fn classify(shell: Option<&str>, psmodulepath: Option<&str>, comspec: Option<&str>) -> (r:
        ShellType)
        ensures
            match shell {
                Option::Some(s) => {
                    if text::spec_contains(s@, "bash"@) {
                        r == ShellType::Bash
                    } else if text::spec_contains(s@, "zsh"@) {
                        r == ShellType::Zsh
                    } else if text::spec_contains(s@, "fish"@) {
                        r == ShellType::Fish
                    } else {
                        r matches ShellType::Unknown(u) && u@ == s@
                    }
                },
                Option::None => {
                    if psmodulepath is Some {
                        r == ShellType::PowerShell
                    } else if comspec is Some {
                        r == ShellType::Cmd
                    } else {
                        r matches ShellType::Unknown(u) && u@ == "unknown"@
                    }
                },
            },
    {
        match shell {
            Option::Some(s) => {
                let chars = text::str_to_chars(s);
                if text::contains_sub(&chars, &text::str_to_chars("bash")) {
                    ShellType::Bash
                } else if text::contains_sub(&chars, &text::str_to_chars("zsh")) {
                    ShellType::Zsh
                } else if text::contains_sub(&chars, &text::str_to_chars("fish")) {
                    ShellType::Fish
                } else {
                    ShellType::Unknown(s.to_owned())
                }
            },
            Option::None => {
                if psmodulepath.is_some() {
                    ShellType::PowerShell
                } else if comspec.is_some() {
                    ShellType::Cmd
                } else {
                    ShellType::Unknown("unknown".to_owned())
                }
            },
        }
    }

    /// Returns true if the shell is a POSIX-compatible shell.
    pub fn is_posix(&self) -> (r: bool)
        ensures
            r == (*self is Bash || *self is Zsh),
    {
        matches!(self, ShellType::Bash | ShellType::Zsh)
    }

    /// Returns true if the shell is a Windows shell.
    pub fn is_windows(&self) -> (r: bool)
        ensures
            r == (*self is PowerShell || *self is Cmd),
    {
        matches!(self, ShellType::PowerShell | ShellType::Cmd)
    }
}

} // verus!
