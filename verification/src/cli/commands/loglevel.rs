//! Runtime log level names and the range the device accepts.

use vstd::prelude::*;

verus! {

/// The name of a log level value (0-4), or "UNKNOWN".
pub open spec fn level_name_spec(level: u8) -> Seq<char> {
    if level == 0 {
        "NONE"@
    } else if level == 1 {
        "ERROR"@
    } else if level == 2 {
        "WARN"@
    } else if level == 3 {
        "INFO"@
    } else if level == 4 {
        "DEBUG"@
    } else {
        "UNKNOWN"@
    }
}

/// Get the name for a log level value.
pub fn level_name(level: u8) -> (r: &'static str)
    ensures
        r@ == level_name_spec(level),
{
    match level {
        0 => "NONE",
        1 => "ERROR",
        2 => "WARN",
        3 => "INFO",
        4 => "DEBUG",
        _ => "UNKNOWN",
    }
}

/// Checks a requested log level: 0 through 4, else the message shown.
pub fn validate_level(level: u8) -> (r: Result<(), &'static str>)
    ensures
        level <= 4 ==> r is Ok,
        level > 4 ==> (r matches Err(m) && m@
            == "log level must be 0-4 (0=NONE, 1=ERROR, 2=WARN, 3=INFO, 4=DEBUG)"@),
{
    if level > 4 {
        Err("log level must be 0-4 (0=NONE, 1=ERROR, 2=WARN, 3=INFO, 4=DEBUG)")
    } else {
        Ok(())
    }
}

} // verus!
