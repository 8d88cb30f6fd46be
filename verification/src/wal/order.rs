//! Segment names sort the way time runs: a later instant has a larger stamp,
//! and a larger stamp has a name that comes later in the alphabet.

use vstd::prelude::*;
use crate::clock::LocalTime;
use crate::text::{decimal, digit_char, lemma_decimal_len, padded};
use crate::wal::segment::{STAMP_LIMIT, lemma_decimal_short, lemma_pow10_17, pow10, segment_name, stamp_of};

verus! {

/// Whether `a` comes before `b` in the order of file names: character by
/// character, and a text before every text it begins.
pub open spec fn text_lt(a: Seq<char>, b: Seq<char>) -> bool {
    ||| a.len() < b.len() && b.take(a.len() as int) == a
    ||| exists|k: int|
        0 <= k < a.len() && k < b.len() && a.take(k) == b.take(k) && (a[k] as u32) < (
        b[k] as u32)
}

/// The second that a reading shows: a leap second shows as second 60.
pub open spec fn shown_second(t: LocalTime) -> int {
    (t.second + t.nanosecond / 1_000_000_000) as int
}

/// The millisecond that a reading shows.
pub open spec fn shown_millis(t: LocalTime) -> int {
    ((t.nanosecond / 1_000_000) % 1000) as int
}

/// Whether the reading `x` shows an earlier instant than the reading `y`,
/// field by field from the year down to the millisecond.
pub open spec fn earlier(x: LocalTime, y: LocalTime) -> bool {
    ||| x.year < y.year
    ||| x.year == y.year && x.month < y.month
    ||| x.year == y.year && x.month == y.month && x.day < y.day
    ||| x.year == y.year && x.month == y.month && x.day == y.day && x.hour < y.hour
    ||| x.year == y.year && x.month == y.month && x.day == y.day && x.hour == y.hour && x.minute
        < y.minute
    ||| x.year == y.year && x.month == y.month && x.day == y.day && x.hour == y.hour && x.minute
        == y.minute && shown_second(x) < shown_second(y)
    ||| x.year == y.year && x.month == y.month && x.day == y.day && x.hour == y.hour && x.minute
        == y.minute && shown_second(x) == shown_second(y) && shown_millis(x) < shown_millis(y)
}

/// A later instant has a larger stamp.
pub proof fn lemma_stamps_follow_time(x: LocalTime, y: LocalTime)
    requires
        stamp_of(x) is Some,
        stamp_of(y) is Some,
        earlier(x, y),
    ensures
        stamp_of(x).unwrap() < stamp_of(y).unwrap(),
{
}

proof fn lemma_padded_step(n: nat, w: nat)
    requires
        w >= 2,
        n < pow10(w),
    ensures
        padded(n, w) == padded(n / 10, (w - 1) as nat).push(digit_char((n % 10) as int)),
        padded(n, w).len() == w,
        padded(n / 10, (w - 1) as nat).len() == w - 1,
    decreases w,
{
    lemma_len_fits(n, w);
    assert(n / 10 < pow10((w - 1) as nat));
    lemma_len_fits(n / 10, (w - 1) as nat);
    lemma_decimal_len(n);
    lemma_decimal_len(n / 10);
    if n >= 10 {
        assert(padded(n, w) =~= padded(n / 10, (w - 1) as nat).push(digit_char((n % 10) as int)));
    } else {
        assert(decimal(0) =~= seq!['0']);
        assert(padded(n, w) =~= padded(n / 10, (w - 1) as nat).push(digit_char((n % 10) as int)));
    }
}

proof fn lemma_len_fits(n: nat, w: nat)
    requires
        w >= 1,
        n < pow10(w),
    ensures
        decimal(n).len() <= w,
        padded(n, w).len() == w,
{
    lemma_decimal_short(n, w);
}

/// Of two numbers written with the same number of digits, the smaller one
/// has the smaller digit where the two first differ.
proof fn lemma_first_difference(a: nat, b: nat, w: nat) -> (k: int)
    requires
        w >= 1,
        a < b,
        b < pow10(w),
    ensures
        0 <= k < w,
        padded(a, w).len() == w,
        padded(b, w).len() == w,
        padded(a, w).take(k) == padded(b, w).take(k),
        (padded(a, w)[k] as u32) < (padded(b, w)[k] as u32),
    decreases w,
{
    lemma_len_fits(a, w);
    lemma_len_fits(b, w);
    if w == 1 {
        reveal_with_fuel(pow10, 2);
        assert(padded(a, w) =~= seq![digit_char(a as int)]);
        assert(padded(b, w) =~= seq![digit_char(b as int)]);
        assert(padded(a, w).take(0) =~= padded(b, w).take(0));
        0
    } else {
        lemma_padded_step(a, w);
        lemma_padded_step(b, w);
        let pa = padded(a / 10, (w - 1) as nat);
        let pb = padded(b / 10, (w - 1) as nat);
        if a / 10 < b / 10 {
            let k = lemma_first_difference(a / 10, b / 10, (w - 1) as nat);
            assert(padded(a, w).take(k) =~= pa.take(k));
            assert(padded(b, w).take(k) =~= pb.take(k));
            k
        } else {
            assert(a / 10 == b / 10);
            assert(padded(a, w).take(w - 1) =~= pa);
            assert(padded(b, w).take(w - 1) =~= pb);
            w - 1
        }
    }
}

/// A larger stamp has the later name. The name of a segment comes before
/// the name of every segment with a larger stamp, whether the two are
/// active or sealed: sorting by name is sorting by stamp.
pub proof fn lemma_names_follow_stamps(a: u64, b: u64, a_closed: bool, b_closed: bool)
    requires
        a < b,
        b < STAMP_LIMIT,
    ensures
        text_lt(segment_name(a, a_closed), segment_name(b, b_closed)),
{
    lemma_pow10_17();
    let k = lemma_first_difference(a as nat, b as nat, 17);
    let x = segment_name(a, a_closed);
    let y = segment_name(b, b_closed);
    assert(x.take(k) =~= padded(a as nat, 17).take(k));
    assert(y.take(k) =~= padded(b as nat, 17).take(k));
    assert(x[k] == padded(a as nat, 17)[k]);
    assert(y[k] == padded(b as nat, 17)[k]);
}

} // verus!
