//! The Stats screen's durations.

use vstd::prelude::*;
use crate::text::{decimal, decimal2, push_char, push_decimal, push_decimal2};

verus! {

/// `1h02m05s`, `1m10s` or `9s`: the largest unit first, minutes and
/// seconds zero-padded once a larger unit stands before them.
pub open spec fn duration_view(total: nat) -> Seq<char> {
    let h = total / 3600;
    let m = (total % 3600) / 60;
    let s = total % 60;
    if h > 0 {
        decimal(h) + seq!['h'] + decimal2(m) + seq!['m'] + decimal2(s) + seq!['s']
    } else if m > 0 {
        decimal(m) + seq!['m'] + decimal2(s) + seq!['s']
    } else {
        decimal(s) + seq!['s']
    }
}

/// A duration in seconds, read naturally.
pub fn format_duration(total: u64) -> (res: String)
    ensures
        res@ == duration_view(total as nat),
{
    let (h, m, s) = (total / 3600, (total % 3600) / 60, total % 60);
    let mut out = String::new();
    if h > 0 {
        push_decimal(&mut out, h);
        push_char(&mut out, 'h');
        push_decimal2(&mut out, m);
        push_char(&mut out, 'm');
        push_decimal2(&mut out, s);
        push_char(&mut out, 's');
    } else if m > 0 {
        push_decimal(&mut out, m);
        push_char(&mut out, 'm');
        push_decimal2(&mut out, s);
        push_char(&mut out, 's');
    } else {
        push_decimal(&mut out, s);
        push_char(&mut out, 's');
    }
    assert(out@ =~= duration_view(total as nat));
    out
}

} // verus!
