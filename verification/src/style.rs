//! Terminal styling helpers: each wraps a string in an ANSI colour or
//! attribute code and the reset code.

use vstd::prelude::*;
use vstd::string::StringExecFns;

verus! {

/// Wrap `s` in the ANSI cyan colour code and the reset code.
pub fn style_cyan(s: &str) -> (r: String)
    ensures
        r@ == "\x1b[36m"@ + s@ + "\x1b[0m"@,
{
    String::from_str("\x1b[36m").concat(s).concat("\x1b[0m")
}

/// Wrap `s` in the ANSI green colour code and the reset code.
pub fn style_green(s: &str) -> (r: String)
    ensures
        r@ == "\x1b[32m"@ + s@ + "\x1b[0m"@,
{
    String::from_str("\x1b[32m").concat(s).concat("\x1b[0m")
}

/// Wrap `s` in the ANSI red colour code and the reset code.
pub fn style_red(s: &str) -> (r: String)
    ensures
        r@ == "\x1b[31m"@ + s@ + "\x1b[0m"@,
{
    String::from_str("\x1b[31m").concat(s).concat("\x1b[0m")
}

/// Wrap `s` in the ANSI yellow colour code and the reset code.
pub fn style_yellow(s: &str) -> (r: String)
    ensures
        r@ == "\x1b[33m"@ + s@ + "\x1b[0m"@,
{
    String::from_str("\x1b[33m").concat(s).concat("\x1b[0m")
}

/// Wrap `s` in the ANSI dim attribute code and the reset code.
pub fn style_dim(s: &str) -> (r: String)
    ensures
        r@ == "\x1b[2m"@ + s@ + "\x1b[0m"@,
{
    String::from_str("\x1b[2m").concat(s).concat("\x1b[0m")
}

/// Wrap `s` in the ANSI bold attribute code and the reset code.
pub fn style_bold(s: &str) -> (r: String)
    ensures
        r@ == "\x1b[1m"@ + s@ + "\x1b[0m"@,
{
    String::from_str("\x1b[1m").concat(s).concat("\x1b[0m")
}

} // verus!
