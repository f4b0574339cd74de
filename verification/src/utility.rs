//! Percentage texts and elapsed-time texts.

use vstd::prelude::*;
use crate::text::{decimal, decimal_string, digits_value, push_char, push_decimal, zero_pad2};

verus! {

/// The text of a whole percentage: zero-padded to two digits, then `%`.
pub open spec fn percent_text(percent: nat) -> Seq<char> {
    zero_pad2(decimal(percent)).push('%')
}

/// The text of a whole percentage, such as `"07%"` or `"100%"`. The percentage
/// itself is worked out in floating point by the caller.
pub fn get_percent(percent: usize) -> (res: String)
    ensures
        res@ == percent_text(percent as nat),
{
    let p = percent as u64;
    let mut s = String::new();
    if p < 10 {
        push_char(&mut s, '0');
    }
    push_decimal(&mut s, p);
    push_char(&mut s, '%');
    proof {
        crate::text::lemma_decimal_digits(p as nat);
        assert(s@ =~= zero_pad2(decimal(p as nat)).push('%'));
    }
    s
}

/// The percentage text is the percentage written in decimal digits and then
/// `'%'`: it reads back as the percentage, it has a leading `'0'` only when the
/// percentage is a single digit, and then exactly one.
pub proof fn lemma_percent_text_reads_back(percent: nat)
    ensures
        percent_text(percent).len() >= 3,
        percent_text(percent).last() == '%',
        forall|i: int|
            0 <= i < percent_text(percent).len() - 1 ==> '0' <= #[trigger] percent_text(
                percent,
            )[i] <= '9',
        digits_value(percent_text(percent).drop_last()) == percent,
        percent < 10 ==> percent_text(percent).len() == 3,
        percent >= 10 ==> percent_text(percent)[0] != '0',
{
    let d = decimal(percent);
    let t = percent_text(percent);
    crate::text::lemma_decimal_digits(percent);
    crate::text::lemma_decimal_value(percent);
    assert(t.drop_last() =~= zero_pad2(d));
    if d.len() < 2 {
        crate::text::lemma_leading_zero_value(d);
        assert forall|i: int| 0 <= i < t.len() - 1 implies '0' <= #[trigger] t[i] <= '9' by {
            if i > 0 {
                assert(t[i] == d[i - 1]);
            }
        }
        if percent >= 10 {
            assert(false);
        }
    } else {
        assert forall|i: int| 0 <= i < t.len() - 1 implies '0' <= #[trigger] t[i] <= '9' by {
            assert(t[i] == d[i]);
        }
        if percent < 10 {
            assert(d.len() == 1);
        }
        if percent >= 10 {
            assert(t[0] == d[0]);
        }
    }
}

/// The seconds from `start` to `end` as `(end - start) as u64` gives them on
/// wrapping machine integers: the difference modulo 2^64.
pub open spec fn elapsed_secs(start: i64, end: i64) -> nat {
    ((end - start) % 0x1_0000_0000_0000_0000int) as nat
}

/// Whole hours in `total` seconds.
pub open spec fn hours_of(total: nat) -> nat {
    total / 3600
}

/// Whole minutes left over after the hours.
pub open spec fn minutes_of(total: nat) -> nat {
    (total % 3600) / 60
}

/// Seconds left over after the minutes.
pub open spec fn seconds_of(total: nat) -> nat {
    total % 60
}

/// `total` seconds as `"H 時間 M 分 S 秒"`, dropping the hours when there are
/// none, and the minutes too when there are neither.
pub open spec fn duration_text(total: nat) -> Seq<char> {
    let h = hours_of(total);
    let m = minutes_of(total);
    let s = seconds_of(total);
    if h > 0 {
        decimal(h) + " 時間 "@ + decimal(m) + " 分 "@ + decimal(s) + " 秒"@
    } else if m > 0 {
        decimal(m) + " 分 "@ + decimal(s) + " 秒"@
    } else {
        decimal(s) + " 秒"@
    }
}

/// The hours, minutes and seconds of a duration add up to it, and the minutes
/// and seconds are each below 60.
pub proof fn lemma_duration_parts(total: nat)
    ensures
        hours_of(total) * 3600 + minutes_of(total) * 60 + seconds_of(total) == total,
        minutes_of(total) < 60,
        seconds_of(total) < 60,
{
    assert(total == (total / 3600) * 3600 + total % 3600) by (nonlinear_arith);
    let r = total % 3600;
    assert(r == (r / 60) * 60 + r % 60) by (nonlinear_arith);
    assert(r % 60 == total % 60) by (nonlinear_arith)
        requires r == total % 3600;
    assert(r < 3600) by (nonlinear_arith)
        requires r == total % 3600;
    assert(r / 60 < 60) by (nonlinear_arith)
        requires r < 3600;
}

/// The text of `duration_text(total)`.
pub fn duration_string(total: u64) -> (res: String)
    ensures
        res@ == duration_text(total as nat),
{
    let mut res_h: u64 = 0;
    let mut res_m: u64 = 0;
    let mut res_s: u64 = total;
    if res_s >= 3600 {
        res_h = res_s / 3600;
        res_s = res_s % 3600;
    }
    assert(res_h == hours_of(total as nat) && res_s == (total as nat) % 3600) by (nonlinear_arith)
        requires
            (total >= 3600 && res_h == total / 3600 && res_s == total % 3600) || (total < 3600
                && res_h == 0 && res_s == total),
    ;
    let ghost r = res_s;
    if res_s >= 60 {
        res_m = res_s / 60;
        res_s = res_s % 60;
    }
    assert(res_m == minutes_of(total as nat) && res_s == seconds_of(total as nat)) by (nonlinear_arith)
        requires
            r == (total as nat) % 3600,
            (r >= 60 && res_m == r / 60 && res_s == r % 60) || (r < 60 && res_m == 0 && res_s == r),
    ;
    if res_h > 0 {
        let mut s = decimal_string(res_h);
        s.append(" 時間 ");
        push_decimal(&mut s, res_m);
        s.append(" 分 ");
        push_decimal(&mut s, res_s);
        s.append(" 秒");
        s
    } else if res_m > 0 {
        let mut s = decimal_string(res_m);
        s.append(" 分 ");
        push_decimal(&mut s, res_s);
        s.append(" 秒");
        s
    } else {
        let mut s = decimal_string(res_s);
        s.append(" 秒");
        s
    }
}

/// The time from `start_sec` to `end_sec` (the clock when asked), as
/// `"H 時間 M 分 S 秒"` (see `duration_text`).
pub fn get_time_string(start_sec: i64, end_sec: i64) -> (res: String)
    ensures
        res@ == duration_text(elapsed_secs(start_sec, end_sec)),
{
    let diff: i128 = (end_sec as i128) - (start_sec as i128);
    let total: u64 = if diff >= 0 {
        diff as u64
    } else {
        (diff + 0x1_0000_0000_0000_0000i128) as u64
    };
    proof {
        let d = end_sec - start_sec;
        if d >= 0 {
            assert(d % 0x1_0000_0000_0000_0000int == d);
        } else {
            assert(d % 0x1_0000_0000_0000_0000int == d + 0x1_0000_0000_0000_0000int);
        }
    }
    duration_string(total)
}

/// On a clock that has moved forward by `d` seconds, the elapsed time is `d`.
pub proof fn lemma_elapsed_forward(start: i64, end: i64)
    requires
        start <= end,
    ensures
        elapsed_secs(start, end) == end - start,
{
}

} // verus!
