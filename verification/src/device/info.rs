//! Device metadata and settings read through the firmware's text commands
//! (`metadata get <key>`, `settings get <key>`), which answer `key=value`
//! or a bare value.

use vstd::prelude::*;
use vstd::string::*;

use crate::text::{chars_of, str_eq, string_from_chars, trim, trim_spec};

use super::discovery::opt_chars;

verus! {

/// Device metadata retrieved from the firmware's `metadata` command.
#[derive(Debug, Clone)]
pub struct DeviceMetadata {
    /// Device serial number (production-programmed, read-only).
    pub serial_number: Option<String>,
}

/// Device settings retrieved from the firmware's `settings` command.
#[derive(Debug, Clone)]
pub struct DeviceSettings {
    /// User-assigned device name (read-write setting).
    pub device_name: Option<String>,
}

/// The position of the first '=' in `s`, if any.
pub open spec fn first_eq(s: Seq<char>) -> Option<int> {
    if exists|i: int| 0 <= i < s.len() && s[i] == '=' {
        Some(choose|i: int| 0 <= i < s.len() && s[i] == '=' && forall|j: int| 0 <= j < i ==> s[j] != '=')
    } else {
        None
    }
}

/// The value of a `key=value` response (split at its first '=', after
/// trimming) when its key is `expected_key`.
pub open spec fn response_value_spec(response: Seq<char>, expected_key: Seq<char>) -> Option<Seq<char>> {
    let t = trim_spec(response);
    match first_eq(t) {
        Some(i) => if t.take(i) == expected_key {
            Some(t.skip(i + 1))
        } else {
            None
        },
        None => None,
    }
}

proof fn lemma_first_eq_at(s: Seq<char>, i: int)
    requires
        0 <= i < s.len(),
        s[i] == '=',
        forall|j: int| 0 <= j < i ==> s[j] != '=',
    ensures
        first_eq(s) == Some(i),
{
    let c = choose|c: int| 0 <= c < s.len() && s[c] == '=' && forall|j: int| 0 <= j < c ==> s[j] != '=';
    assert(0 <= c < s.len() && s[c] == '=' && forall|j: int| 0 <= j < c ==> s[j] != '=');
    if c < i {
        assert(s[c] != '=');
    } else if c > i {
        assert(s[i] != '=');
    }
}

fn copy_chars(cs: &Vec<char>, lo: usize, hi: usize) -> (r: String)
    requires
        lo <= hi <= cs@.len(),
    ensures
        r@ == cs@.subrange(lo as int, hi as int),
{
    let mut v: Vec<char> = Vec::new();
    let mut k = lo;
    while k < hi
        invariant
            lo <= k <= hi,
            hi <= cs@.len(),
            v@ == cs@.subrange(lo as int, k as int),
        decreases hi - k,
    {
        v.push(cs[k]);
        k = k + 1;
        proof {
            assert(v@ =~= cs@.subrange(lo as int, k as int));
        }
    }
    string_from_chars(v.as_slice())
}

/// Parses a `key=value` response line, returning the value if the key
/// matches; `None` if the response is empty or has another form.
pub fn parse_response_value(response: &str, expected_key: &str) -> (r: Option<String>)
    ensures
        opt_chars(r) == response_value_spec(response@, expected_key@),
{
    let t = trim(response);
    let cs = chars_of(t.as_str());
    let mut i: usize = 0;
    while i < cs.len() && cs[i] != '='
        invariant
            i <= cs@.len(),
            forall|j: int| 0 <= j < i ==> cs@[j] != '=',
        decreases cs@.len() - i,
    {
        i = i + 1;
    }
    if i == cs.len() {
        return None;
    }
    proof {
        lemma_first_eq_at(cs@, i as int);
    }
    let key = copy_chars(&cs, 0, i);
    if !str_eq(key.as_str(), expected_key) {
        proof {
            assert(cs@.subrange(0, i as int) =~= cs@.take(i as int));
        }
        return None;
    }
    let value = copy_chars(&cs, i + 1, cs.len());
    proof {
        assert(cs@.subrange(0, i as int) =~= cs@.take(i as int));
        assert(cs@.subrange(i + 1, cs@.len() as int) =~= cs@.skip(i + 1));
    }
    Some(value)
}

/// The metadata a `metadata get serial_number` exchange gives: the serial
/// number when the response names it; none when the query failed.
pub fn metadata_from_response(response: Option<&str>) -> (m: DeviceMetadata)
    ensures
        opt_chars(m.serial_number) == (match response {
            Some(r) => response_value_spec(r@, "serial_number"@),
            None => None,
        }),
{
    match response {
        Some(r) => DeviceMetadata { serial_number: parse_response_value(r, "serial_number") },
        None => DeviceMetadata { serial_number: None },
    }
}

/// The settings a `settings get device_name` exchange gives: the trimmed
/// response as the device name, unless it is empty or the query failed.
pub fn settings_from_response(response: Option<&str>) -> (s: DeviceSettings)
    ensures
        opt_chars(s.device_name) == (match response {
            Some(r) => if trim_spec(r@).len() > 0 {
                Some(trim_spec(r@))
            } else {
                None
            },
            None => None,
        }),
{
    match response {
        Some(r) => {
            let v = trim(r);
            if v.as_str().is_empty() {
                DeviceSettings { device_name: None }
            } else {
                DeviceSettings { device_name: Some(v) }
            }
        },
        None => DeviceSettings { device_name: None },
    }
}

} // verus!
