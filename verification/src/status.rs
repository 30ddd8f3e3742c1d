//! System-status presentation helpers.

use vstd::prelude::*;

use crate::text::{dec_digits, u64_to_string};

verus! {

/// The rendered form of an uptime: whole days, leftover hours and
/// leftover minutes, as `Xd Yh Zm`.
pub open spec fn spec_uptime(seconds: int) -> Seq<char> {
    dec_digits(seconds / 86400) + "d "@ + dec_digits((seconds % 86400) / 3600) + "h "@ + dec_digits(
        (seconds % 3600) / 60,
    ) + "m"@
}

/// Renders an uptime in seconds as days, hours and minutes.
pub fn format_uptime(seconds: u64) -> (r: String)
    ensures
        r@ == spec_uptime(seconds as int),
{
    let days = seconds / 86400;
    let hours = (seconds % 86400) / 3600;
    let minutes = (seconds % 3600) / 60;
    let mut s = u64_to_string(days);
    s.append("d ");
    let h = u64_to_string(hours);
    s.append(h.as_str());
    s.append("h ");
    let m = u64_to_string(minutes);
    s.append(m.as_str());
    s.append("m");
    s
}

} // verus!
