//! The ranges `attentio set` accepts.

use vstd::prelude::*;
use vstd::string::*;

use crate::text::{dec_spec, dec_string};

verus! {

fn range_error(what: &str, got: u64) -> (m: String)
    ensures
        m@ == what@ + dec_spec(got as nat),
{
    let mut m = what.to_owned();
    m.append(dec_string(got).as_str());
    m
}

/// Checks an HSV color: hue 0-359, saturation and value 0-100, reporting
/// the first value out of range.
pub fn validate_hsv(h: u16, s: u8, v: u8) -> (r: Result<(), String>)
    ensures
        h > 359 ==> (r matches Err(m) && m@ == "hue must be 0-359, got "@ + dec_spec(h as nat)),
        h <= 359 && s > 100 ==> (r matches Err(m) && m@ == "saturation must be 0-100, got "@
            + dec_spec(s as nat)),
        h <= 359 && s <= 100 && v > 100 ==> (r matches Err(m) && m@ == "value must be 0-100, got "@
            + dec_spec(v as nat)),
        h <= 359 && s <= 100 && v <= 100 ==> r is Ok,
{
    if h > 359 {
        return Err(range_error("hue must be 0-359, got ", h as u64));
    }
    if s > 100 {
        return Err(range_error("saturation must be 0-100, got ", s as u64));
    }
    if v > 100 {
        return Err(range_error("value must be 0-100, got ", v as u64));
    }
    Ok(())
}

/// Checks a brightness percentage (0-100).
pub fn validate_brightness(value: u8) -> (r: Result<(), String>)
    ensures
        value > 100 ==> (r matches Err(m) && m@ == "brightness must be 0-100, got "@ + dec_spec(
            value as nat,
        )),
        value <= 100 ==> r is Ok,
{
    if value > 100 {
        return Err(range_error("brightness must be 0-100, got ", value as u64));
    }
    Ok(())
}

} // verus!
