//! Duration tokens such as `7d`, `2h` or `30m`, turned into an absolute
//! expiry instant in Unix seconds.
use vstd::prelude::*;
use crate::text::{chars_of, i64_of, parse_i64, slice_string};

verus! {

/// Seconds in one unit named by the last character of a token.
pub open spec fn unit_seconds(c: char) -> Option<int> {
    if c == 'd' {
        Some(86400)
    } else if c == 'h' {
        Some(3600)
    } else if c == 'm' {
        Some(60)
    } else {
        None
    }
}

/// The length in seconds that `token` names: a non-negative `i64` count
/// followed by one of the units `d`, `h`, `m`.
pub open spec fn duration_of(token: Seq<char>) -> Option<int> {
    if token.len() == 0 {
        None
    } else {
        match unit_seconds(token.last()) {
            None => None,
            Some(u) => match i64_of(token.drop_last()) {
                Some(n) => if n >= 0 {
                    Some(n * u)
                } else {
                    None
                },
                None => None,
            },
        }
    }
}

/// The expiry that `token` names at time `now`: `now` plus its duration,
/// where that sum is an `i64`.
pub open spec fn expiry_of(token: Seq<char>, now: int) -> Option<i64> {
    match duration_of(token) {
        Some(d) => if now + d <= i64::MAX && now + d >= i64::MIN {
            Some((now + d) as i64)
        } else {
            None
        },
        None => None,
    }
}

/// The expiry named by `arg` at time `now`, or `None` when `arg` is absent
/// or is no valid duration token (the action is then permanent).
pub fn parse_duration_at(arg: Option<&str>, now: i64) -> (r: Option<i64>)
    ensures
        r == match arg {
            Some(s) => expiry_of(s@, now as int),
            None => None,
        },
{
    let s = match arg {
        Some(s) => s,
        None => return None,
    };
    let cs = chars_of(s);
    let n = cs.len();
    if n == 0 {
        return None;
    }
    let last = cs[n - 1];
    let unit: i64 = if last == 'd' {
        86400
    } else if last == 'h' {
        3600
    } else if last == 'm' {
        60
    } else {
        return None;
    };
    let prefix = slice_string(s, 0, n - 1);
    assert(prefix@ =~= s@.drop_last());
    let count = match parse_i64(prefix.as_str()) {
        Some(c) => c,
        None => return None,
    };
    if count < 0 {
        return None;
    }
    let c = count as i128;
    let u = unit as i128;
    assert(0 <= c * u <= 9223372036854775807 * 86400) by (nonlinear_arith)
        requires
            0 <= c <= 9223372036854775807,
            0 < u <= 86400,
    ;
    let total: i128 = c * u + now as i128;
    if total <= i64::MAX as i128 {
        Some(total as i64)
    } else {
        None
    }
}

/// Relies on `SystemTime::now`: the current wall-clock time in seconds
/// since the Unix epoch (0 for a clock set before it).
#[verifier::external_body]
fn unix_now() -> (r: i64) {
    std::time::SystemTime::now().duration_since(std::time::UNIX_EPOCH).unwrap_or_default().as_secs()
        as i64
}

/// The expiry named by `arg` from the current time. It is `None` when `arg`
/// is absent or names no duration; otherwise it is the expiry that `arg`
/// names at the time that the clock gave, which always exists for a zero
/// count.
pub fn parse_duration_secs(arg: Option<&str>) -> (r: Option<i64>)
    ensures
        arg is None ==> r is None,
        arg is Some && duration_of(arg->0@) is None ==> r is None,
        arg is Some && duration_of(arg->0@) is Some ==> exists|now: i64|
            r == expiry_of(arg->0@, now as int),
        arg is Some && duration_of(arg->0@) == Some(0int) ==> r is Some,
{
    let now = unix_now();
    let r = parse_duration_at(arg, now);
    proof {
        if arg is Some && duration_of(arg->0@) is Some {
            assert(r == expiry_of(arg->0@, now as int));
        }
    }
    r
}

} // verus!
