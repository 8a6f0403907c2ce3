//! The time of day in log lines.
use vstd::prelude::*;
use vstd::string::*;

use crate::text::decimal_text;
use crate::text::padded;
use crate::text::padded_text;

verus! {

/// A time of day as `HH:MM:SS.mmm`.
pub open spec fn clock_text(hour: nat, minute: nat, second: nat, milli: nat) -> Seq<char> {
    padded_text(hour, 2) + ":"@ + padded_text(minute, 2) + ":"@ + padded_text(second, 2) + "."@
        + padded_text(milli, 3)
}

/// Writes the local time of day for a log line: `HH:MM:SS.mmm`.
pub fn fmt_ts_from(hour: u32, minute: u32, second: u32, milli: u32) -> (r: String)
    ensures
        r@ == clock_text(hour as nat, minute as nat, second as nat, milli as nat),
{
    let hh: String = padded(hour as u64, 2);
    let mm: String = padded(minute as u64, 2);
    let ss: String = padded(second as u64, 2);
    let mmm: String = padded(milli as u64, 3);
    hh.concat(":").concat(mm.as_str()).concat(":").concat(ss.as_str()).concat(".").concat(
        mmm.as_str(),
    )
}

/// Each part of a time of day has its place in the text: two digits for the
/// hour, the minute and the second, three for the milliseconds.
pub proof fn law_clock_shows_each_part(hour: nat, minute: nat, second: nat, milli: nat)
    requires
        hour < 100,
        minute < 100,
        second < 100,
        milli < 1000,
    ensures
        ({
            let t = clock_text(hour, minute, second, milli);
            &&& t.len() == 12
            &&& t[0] as int - '0' as int == hour / 10
            &&& t[1] as int - '0' as int == hour % 10
            &&& t[2] == ':'
            &&& t[3] as int - '0' as int == minute / 10
            &&& t[4] as int - '0' as int == minute % 10
            &&& t[5] == ':'
            &&& t[6] as int - '0' as int == second / 10
            &&& t[7] as int - '0' as int == second % 10
            &&& t[8] == '.'
            &&& t[9] as int - '0' as int == milli / 100
            &&& t[10] as int - '0' as int == milli / 10 % 10
            &&& t[11] as int - '0' as int == milli % 10
        }),
{
    reveal_strlit(":");
    reveal_strlit(".");
    lemma_two_digits(hour);
    lemma_two_digits(minute);
    lemma_two_digits(second);
    lemma_three_digits(milli);
}

proof fn lemma_two_digits(n: nat)
    requires
        n < 100,
    ensures
        padded_text(n, 2).len() == 2,
        padded_text(n, 2)[0] as int - '0' as int == n / 10,
        padded_text(n, 2)[1] as int - '0' as int == n % 10,
{
    reveal_with_fuel(decimal_text, 2);
}

proof fn lemma_three_digits(n: nat)
    requires
        n < 1000,
    ensures
        padded_text(n, 3).len() == 3,
        padded_text(n, 3)[0] as int - '0' as int == n / 100,
        padded_text(n, 3)[1] as int - '0' as int == n / 10 % 10,
        padded_text(n, 3)[2] as int - '0' as int == n % 10,
{
    reveal_with_fuel(decimal_text, 3);
}

} // verus!
