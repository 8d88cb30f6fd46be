//! Segments: how they are named, how much room they are given, and how
//! records are framed in them.

use vstd::prelude::*;
use vstd::string::StringExecFns;
use crate::clock::{LocalTime, local_now};
use vstd::string::StrSliceExecFns;
use crate::text::{decimal, digit_char, lemma_decimal_len, padded, to_padded, zeros};

verus! {

/// The byte that ends a record.
pub const NEWLINE: u8 = 10;

/// One more than the largest stamp: stamps have seventeen digits.
pub const STAMP_LIMIT: u64 = 100_000_000_000_000_000;

/// The stamp of an instant: its year, month, day, hour, minute, second and
/// millisecond as one number of seventeen digits, `YYYYMMDDHHMMSSmmm`. A leap
/// second shows as second 60. There is none for a year outside 0 to 9999, nor
/// for a reading with a field out of range.
pub open spec fn stamp_of(now: LocalTime) -> Option<u64> {
    if now.in_range() && 0 <= now.year <= 9999 {
        Some(
            ((((((now.year * 100 + now.month) * 100 + now.day) * 100 + now.hour) * 100
                + now.minute) * 100 + now.second + now.nanosecond / 1_000_000_000) * 1000
                + (now.nanosecond / 1_000_000) % 1000) as u64,
        )
    } else {
        None
    }
}

/// The name of the file of the segment with this stamp: the stamp in
/// seventeen digits, a dot, and `A` while the segment is written or `C` once
/// it is sealed.
pub open spec fn segment_name(stamp: u64, closed: bool) -> Seq<char> {
    padded(stamp as nat, 17) + seq!['.', if closed { 'C' } else { 'A' }]
}

/// Whether a file name is that of an active file: it ends in a dot and `A`.
pub open spec fn is_active_name(name: Seq<char>) -> bool {
    name.len() >= 2 && name[name.len() - 2] == '.' && name[name.len() - 1] == 'A'
}

/// The name under which an active file is sealed: `C` in place of its last
/// letter.
pub open spec fn sealed_name(name: Seq<char>) -> Seq<char> {
    name.drop_last().push('C')
}

/// An instant of a year that no stamp can show.
pub open spec fn unnamed_instant() -> LocalTime {
    LocalTime { year: 10000, month: 1, day: 1, hour: 0, minute: 0, second: 0, nanosecond: 0 }
}

/// The room a segment file is given: the configured size, rounded down to a
/// multiple of eight.
pub open spec fn preallocated(capacity: u64) -> u64 {
    (capacity - capacity % 8) as u64
}

/// The digit that a character shows, if it shows one.
pub open spec fn digit_value(c: char) -> Option<int> {
    if c == '0' {
        Some(0)
    } else if c == '1' {
        Some(1)
    } else if c == '2' {
        Some(2)
    } else if c == '3' {
        Some(3)
    } else if c == '4' {
        Some(4)
    } else if c == '5' {
        Some(5)
    } else if c == '6' {
        Some(6)
    } else if c == '7' {
        Some(7)
    } else if c == '8' {
        Some(8)
    } else if c == '9' {
        Some(9)
    } else {
        None
    }
}

/// The number that a run of decimal digits shows; none where a character is
/// no digit.
pub open spec fn digits_value(s: Seq<char>) -> Option<nat>
    decreases s.len(),
{
    if s.len() == 0 {
        Some(0)
    } else {
        match (digits_value(s.drop_last()), digit_value(s.last())) {
            (Some(v), Some(d)) => Some((10 * v + d) as nat),
            _ => None,
        }
    }
}

/// The segment that a file name stands for: seventeen digits, a dot, and `A`
/// or `C`. Any other name is no segment's.
pub open spec fn parsed_name(name: Seq<char>) -> Option<(u64, bool)> {
    if name.len() == 19 && name[17] == '.' && (name[18] == 'A' || name[18] == 'C')
        && digits_value(name.take(17)) is Some {
        Some((digits_value(name.take(17)).unwrap() as u64, name[18] == 'C'))
    } else {
        None
    }
}

pub open spec fn pow10(n: nat) -> nat
    decreases n,
{
    if n == 0 {
        1
    } else {
        10 * pow10((n - 1) as nat)
    }
}

/// The limit of the stamps is ten to the seventeenth.
pub proof fn lemma_pow10_17()
    ensures
        pow10(17) == STAMP_LIMIT,
{
    reveal_with_fuel(pow10, 18);
}

proof fn lemma_decimal_value(n: nat)
    ensures
        digits_value(decimal(n)) == Some(n),
    decreases n,
{
    if n < 10 {
        let s = decimal(n);
        assert(s.drop_last() =~= Seq::<char>::empty());
        assert(digits_value(Seq::<char>::empty()) == Some(0nat));
        assert(s.last() == digit_char(n as int));
        assert(digit_value(digit_char(n as int)) == Some(n as int));
    } else {
        lemma_decimal_value(n / 10);
        let s = decimal(n);
        assert(s.drop_last() =~= decimal(n / 10));
        assert(s.last() == digit_char((n % 10) as int));
        assert(digit_value(digit_char((n % 10) as int)) == Some((n % 10) as int));
    }
}

proof fn lemma_zeros_value(k: int, s: Seq<char>)
    ensures
        digits_value(zeros(k) + s) == digits_value(s),
    decreases s.len(), k,
{
    if s.len() > 0 {
        lemma_zeros_value(k, s.drop_last());
        assert((zeros(k) + s).drop_last() =~= zeros(k) + s.drop_last());
        assert((zeros(k) + s).last() == s.last());
    } else if k > 0 {
        lemma_zeros_value(k - 1, s);
        assert((zeros(k) + s).drop_last() =~= zeros(k - 1) + s);
        assert((zeros(k) + s).last() == '0');
    } else {
        assert(zeros(k) + s =~= Seq::<char>::empty());
    }
}

/// A number below ten to the `k` is written with at most `k` digits.
pub proof fn lemma_decimal_short(n: nat, k: nat)
    requires
        n < pow10(k),
        k >= 1,
    ensures
        decimal(n).len() <= k,
    decreases k,
{
    lemma_decimal_len(n);
    if n >= 10 {
        if k == 1 {
            reveal_with_fuel(pow10, 2);
        } else {
            lemma_decimal_short(n / 10, (k - 1) as nat);
        }
    }
}

/// A segment is found again by its name: the name of the segment with a
/// stamp of at most seventeen digits stands for that stamp and that state,
/// and for nothing else.
pub proof fn lemma_name_roundtrip(stamp: u64, closed: bool)
    requires
        stamp < STAMP_LIMIT,
    ensures
        parsed_name(segment_name(stamp, closed)) == Some((stamp, closed)),
{
    lemma_pow10_17();
    lemma_decimal_short(stamp as nat, 17);
    let digits = padded(stamp as nat, 17);
    let name = segment_name(stamp, closed);
    assert(digits.len() == 17);
    assert(name.take(17) =~= digits);
    lemma_zeros_value(17 - decimal(stamp as nat).len(), decimal(stamp as nat));
    lemma_decimal_value(stamp as nat);
}

fn digit_of(c: char) -> (d: Option<u64>)
    ensures
        match d {
            Some(v) => digit_value(c) == Some(v as int),
            None => digit_value(c) is None,
        },
{
    if c == '0' {
        Some(0)
    } else if c == '1' {
        Some(1)
    } else if c == '2' {
        Some(2)
    } else if c == '3' {
        Some(3)
    } else if c == '4' {
        Some(4)
    } else if c == '5' {
        Some(5)
    } else if c == '6' {
        Some(6)
    } else if c == '7' {
        Some(7)
    } else if c == '8' {
        Some(8)
    } else if c == '9' {
        Some(9)
    } else {
        None
    }
}

/// A segment: its stamp, and whether it is sealed.
#[derive(Debug, Clone, Copy, PartialEq, Eq, Structural)]
pub struct Segment {
    stamp: u64,
    closed: bool,
}

impl Segment {
    #[verifier::type_invariant]
    spec fn inv(self) -> bool {
        self.stamp < STAMP_LIMIT
    }

    pub closed spec fn stamp(&self) -> u64 {
        self.stamp
    }

    pub closed spec fn is_closed(&self) -> bool {
        self.closed
    }

    /// The stamp of `now`.
    pub fn stamp_at(now: &LocalTime) -> (stamp: Option<u64>)
        ensures
            stamp == stamp_of(*now),
            stamp matches Some(s) ==> s < STAMP_LIMIT,
    {
        if now.year < 0 || now.year > 9999 || now.month < 1 || now.month > 12 || now.day < 1
            || now.day > 31 || now.hour > 23 || now.minute > 59 || now.second > 59
            || now.nanosecond > 1_999_999_999 {
            return None;
        }
        let date: u64 = (now.year as u64 * 100 + now.month as u64) * 100 + now.day as u64;
        let clock: u64 = (now.hour as u64 * 100 + now.minute as u64) * 100 + now.second as u64
            + (now.nanosecond / 1_000_000_000) as u64;
        let millis: u64 = ((now.nanosecond / 1_000_000) % 1000) as u64;
        Some((date * 1_000_000 + clock) * 1000 + millis)
    }

    /// The active segment that is created at `now`.
    pub fn create_at(now: &LocalTime) -> (segment: Option<Segment>)
        ensures
            match segment {
                Some(s) => stamp_of(*now) == Some(s.stamp()) && !s.is_closed(),
                None => stamp_of(*now) is None,
            },
    {
        match Segment::stamp_at(now) {
            Some(stamp) => Some(Segment { stamp, closed: false }),
            None => None,
        }
    }

    /// The active segment with the stamp `stamp`.
    pub(crate) fn with_stamp(stamp: u64) -> (segment: Segment)
        requires
            stamp < STAMP_LIMIT,
        ensures
            segment.stamp() == stamp,
            !segment.is_closed(),
    {
        Segment { stamp, closed: false }
    }

    /// The active segment that is created now, by the local clock.
    pub fn create() -> (segment: Option<Segment>)
        ensures
            exists|now: LocalTime|
                now.in_range() && match segment {
                    Some(s) => #[trigger] stamp_of(now) == Some(s.stamp()) && !s.is_closed(),
                    None => stamp_of(now) is None,
                },
    {
        match local_now() {
            Some(now) => Segment::create_at(&now),
            None => {
                proof {
                    assert(stamp_of(unnamed_instant()) is None);
                }
                None
            },
        }
    }

    /// The stamp of the instant the local clock shows, if it has one.
    pub fn stamp_now() -> (stamp: Option<u64>)
        ensures
            exists|now: LocalTime| now.in_range() && stamp == #[trigger] stamp_of(now),
            stamp matches Some(s) ==> s < STAMP_LIMIT,
    {
        match local_now() {
            Some(now) => Segment::stamp_at(&now),
            None => {
                proof {
                    assert(stamp_of(unnamed_instant()) is None);
                }
                None
            },
        }
    }

    /// The segment's stamp.
    pub fn get_stamp(&self) -> (stamp: u64)
        ensures
            stamp == self.stamp(),
            stamp < STAMP_LIMIT,
    {
        proof {
            use_type_invariant(self);
        }
        self.stamp
    }

    /// Whether the segment is sealed.
    pub fn closed(&self) -> (closed: bool)
        ensures
            closed == self.is_closed(),
    {
        self.closed
    }

    /// The name of the segment's file.
    pub fn file_name(&self) -> (name: String)
        ensures
            name@ == segment_name(self.stamp(), self.is_closed()),
    {
        let mut name = to_padded(self.stamp, 17);
        proof {
            reveal_strlit(".C");
            reveal_strlit(".A");
        }
        if self.closed {
            name.append(".C");
        } else {
            name.append(".A");
        }
        assert(name@ =~= segment_name(self.stamp(), self.is_closed()));
        name
    }

    /// The segment once it is sealed: the same stamp, closed.
    pub fn close(&self) -> (sealed: Segment)
        ensures
            sealed.stamp() == self.stamp(),
            sealed.is_closed(),
    {
        proof {
            use_type_invariant(self);
        }
        Segment { stamp: self.stamp, closed: true }
    }

    /// The name for a segment that is created at `now`.
    pub fn file_name_at(now: &LocalTime) -> (name: Option<String>)
        ensures
            match name {
                Some(n) => stamp_of(*now) is Some && n@ == segment_name(
                    stamp_of(*now).unwrap(),
                    false,
                ),
                None => stamp_of(*now) is None,
            },
    {
        match Segment::create_at(now) {
            Some(segment) => Some(segment.file_name()),
            None => None,
        }
    }

    /// The name for a segment that is created now, by the local clock.
    pub fn generate_file_name() -> (name: Option<String>)
        ensures
            exists|now: LocalTime|
                now.in_range() && match name {
                    Some(n) => (#[trigger] stamp_of(now)) is Some && n@ == segment_name(
                        stamp_of(now).unwrap(),
                        false,
                    ),
                    None => stamp_of(now) is None,
                },
    {
        match local_now() {
            Some(now) => Segment::file_name_at(&now),
            None => {
                proof {
                    assert(stamp_of(unnamed_instant()) is None);
                }
                None
            },
        }
    }

    /// The name under which the active file `file_name` is sealed: the same
    /// name with `C` in place of its last letter. None where the name does
    /// not end in a dot and `A`.
    pub fn sealed_name_of(file_name: &str) -> (sealed: Option<String>)
        ensures
            match sealed {
                Some(n) => is_active_name(file_name@) && n@ == sealed_name(file_name@),
                None => !is_active_name(file_name@),
            },
    {
        let len = file_name.unicode_len();
        if len < 2 {
            return None;
        }
        if file_name.get_char(len - 2) != '.' || file_name.get_char(len - 1) != 'A' {
            return None;
        }
        let stem = file_name.substring_char(0, len - 1);
        proof {
            reveal_strlit("C");
        }
        let sealed = String::from_str(stem).concat("C");
        assert(sealed@ =~= sealed_name(file_name@));
        Some(sealed)
    }

    /// The room that the file of a segment of `capacity` bytes is given.
    pub fn preallocation(capacity: u64) -> (size: u64)
        ensures
            size == preallocated(capacity),
    {
        assert(capacity & !7u64 == capacity - capacity % 8) by (bit_vector);
        capacity & !7
    }

    /// The segment that the file name stands for, if it is a segment's.
    pub fn load(file_name: &str) -> (segment: Option<Segment>)
        ensures
            match segment {
                Some(s) => parsed_name(file_name@) == Some((s.stamp(), s.is_closed())),
                None => parsed_name(file_name@) is None,
            },
    {
        if file_name.unicode_len() != 19 {
            return None;
        }
        let mut stamp: u64 = 0;
        let mut i: usize = 0;
        proof {
            assert(file_name@.take(17).take(0) =~= Seq::<char>::empty());
        }
        while i < 17
            invariant
                i <= 17,
                file_name@.len() == 19,
                digits_value(file_name@.take(17).take(i as int)) == Some(stamp as nat),
                stamp < pow10(i as nat),
            decreases 17 - i,
        {
            let ghost prefix = file_name@.take(17).take(i + 1);
            proof {
                assert(prefix.drop_last() =~= file_name@.take(17).take(i as int));
                assert(prefix.last() == file_name@[i as int]);
                lemma_pow10_17();
                lemma_pow10_monotonic(i as nat, 17);
            }
            match digit_of(file_name.get_char(i)) {
                Some(d) => {
                    stamp = stamp * 10 + d;
                },
                None => {
                    proof {
                        lemma_digits_fail(file_name@.take(17), i + 1);
                    }
                    return None;
                },
            }
            i = i + 1;
        }
        proof {
            assert(file_name@.take(17).take(17) =~= file_name@.take(17));
            lemma_pow10_17();
        }
        if file_name.get_char(17) != '.' {
            return None;
        }
        let mark = file_name.get_char(18);
        if mark == 'A' {
            Some(Segment { stamp, closed: false })
        } else if mark == 'C' {
            Some(Segment { stamp, closed: true })
        } else {
            None
        }
    }
}

proof fn lemma_pow10_monotonic(a: nat, b: nat)
    requires
        a <= b,
    ensures
        pow10(a) <= pow10(b),
        pow10(a) >= 1,
    decreases b,
{
    if a < b {
        lemma_pow10_monotonic(a, (b - 1) as nat);
    } else if a > 0 {
        lemma_pow10_monotonic((a - 1) as nat, (a - 1) as nat);
    }
}

proof fn lemma_digits_fail(s: Seq<char>, n: int)
    requires
        0 <= n <= s.len(),
        digits_value(s.take(n)) is None,
    ensures
        digits_value(s) is None,
    decreases s.len(),
{
    if n < s.len() {
        assert(s.drop_last().take(n) =~= s.take(n));
        lemma_digits_fail(s.drop_last(), n);
    } else {
        assert(s.take(n) =~= s);
    }
}

/// A segment's active name ends in `.A`, its sealed name does not, and the
/// one is sealed under the other.
pub proof fn lemma_segment_names(stamp: u64)
    ensures
        is_active_name(segment_name(stamp, false)),
        !is_active_name(segment_name(stamp, true)),
        sealed_name(segment_name(stamp, false)) == segment_name(stamp, true),
{
    assert(sealed_name(segment_name(stamp, false)) =~= segment_name(stamp, true));
}

/// Two segments that differ in their stamp or their state have two names.
pub proof fn lemma_names_differ(a: u64, a_closed: bool, b: u64, b_closed: bool)
    requires
        a < STAMP_LIMIT,
        b < STAMP_LIMIT,
        a != b || a_closed != b_closed,
    ensures
        segment_name(a, a_closed) != segment_name(b, b_closed),
{
    lemma_name_roundtrip(a, a_closed);
    lemma_name_roundtrip(b, b_closed);
}

} // verus!
