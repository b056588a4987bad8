//! Readable names for managed PNG exports: `Pinora_YYYYMMDD_HHMMSS[_NNN].png` in UTC.
//!
//! Only fixed ASCII names are produced; nothing of the image, its identity or the user's
//! data goes into them.

use crate::calendar::{
    lemma_era_day, lemma_march_year_day, lemma_civil_result,
    civil_date, epoch_day, is_leap_year, is_valid_date, lemma_epoch_day_injective,
    days_before_year, days_in_month,
};
use crate::model::{ErrorCode, PinoraError};
use crate::kwin_place::digits_value;
use crate::text::{decimal, digit_char, padded_decimal, padded_signed, push_padded, push_padded_signed, push_text};
use vstd::prelude::*;

verus! {

/// The highest sequence number a name can carry within one second.
pub const MAX_SEQUENCE: u32 = 9_999;

/// Largest day number whose epoch shift does not saturate an `i64`.
pub open spec fn clamped_days(days: int) -> int {
    if days > i64::MAX - 719_468 {
        i64::MAX - 719_468
    } else {
        days
    }
}

/// Civil date of a day number, with days counted from 1970-01-01. The year is truncated to
/// its low 32 bits (a wrapping `i32` conversion); days beyond `i64::MAX - 719468` are
/// taken as that day.
fn civil_from_days(days_since_epoch: i64) -> (date: (i32, u32, u32))
    ensures
        ({
            let c = civil_date(clamped_days(days_since_epoch as int));
            &&& date.0 == c.0 as i32
            &&& date.1 == c.1
            &&& date.2 == c.2
        }),
{
    let z: i64 = if days_since_epoch > i64::MAX - 719_468 {
        i64::MAX
    } else {
        days_since_epoch + 719_468
    };
    let era: i64 = if z >= 0 {
        z / 146_097
    } else {
        -((146_096 - z) / 146_097)
    };
    let doe64: i64 = z - era * 146_097;
    assert(0 <= doe64 < 146_097) by {
        if z < 0 {
            let a = 146_096 - z;
            assert(a == 146_097 * (a / 146_097) + a % 146_097);
        }
    }
    let doe: u32 = doe64 as u32;
    proof {
        lemma_era_day(doe);
    }
    let yoe: u32 = (doe - doe / 1_460 + doe / 36_524 - doe / 146_096) / 365;
    let doy: u32 = doe - (365 * yoe + yoe / 4 - yoe / 100);
    proof {
        lemma_march_year_day(doy);
    }
    let mp: u32 = (5 * doy + 2) / 153;
    let day: u32 = doy - (153 * mp + 2) / 5 + 1;
    let month: u32 = if mp < 10 {
        mp + 3
    } else {
        mp - 9
    };
    let year: i64 = yoe as i64 + era * 400 + if month <= 2 {
        1i64
    } else {
        0i64
    };
    proof {
        let days = clamped_days(days_since_epoch as int);
        lemma_civil_result(
            z as int,
            era as int,
            doe as int,
            yoe as int,
            doy as int,
            mp as int,
            day as int,
            month as int,
            year as int,
        );
        let w = (year as int, month as int, day as int);
        assert(is_valid_date(w.0, w.1, w.2) && epoch_day(w.0, w.1, w.2) == days);
        let c = civil_date(days);
        lemma_epoch_day_injective(w.0, w.1, w.2, c.0, c.1, c.2);
    }
    (year as i32, month, day)
}

/// Year (truncated to 32 bits), month, day, hour, minute and second of a UTC instant given in
/// seconds since the Unix epoch.
pub open spec fn utc_parts_of(seconds: u64) -> (i32, int, int, int, int, int) {
    let c = civil_date((seconds / 86_400) as int);
    let t = seconds % 86_400;
    (c.0 as i32, c.1, c.2, (t / 3_600) as int, ((t % 3_600) / 60) as int, (t % 60) as int)
}

fn utc_parts(seconds: u64) -> (parts: (i32, u32, u32, u64, u64, u64))
    ensures
        ({
            let u = utc_parts_of(seconds);
            &&& parts.0 == u.0
            &&& parts.1 == u.1
            &&& parts.2 == u.2
            &&& parts.3 == u.3
            &&& parts.4 == u.4
            &&& parts.5 == u.5
        }),
{
    let whole_days: u64 = seconds / 86_400;
    let days: i64 = if whole_days > 9_223_372_036_854_775_807u64 {
        i64::MAX
    } else {
        whole_days as i64
    };
    let (year, month, day) = civil_from_days(days);
    let day_seconds = seconds % 86_400;
    (year, month, day, day_seconds / 3_600, (day_seconds % 3_600) / 60, day_seconds % 60)
}

/// The managed export name for an instant and a sequence number within its second.
pub open spec fn export_file_name(seconds: u64, sequence: u32) -> Seq<char> {
    let u = utc_parts_of(seconds);
    "Pinora_"@ + padded_signed(u.0 as int, 4) + padded_decimal(u.1 as nat, 2) + padded_decimal(
        u.2 as nat,
        2,
    ) + "_"@ + padded_decimal(u.3 as nat, 2) + padded_decimal(u.4 as nat, 2) + padded_decimal(
        u.5 as nat,
        2,
    ) + (if sequence == 0 {
        Seq::<char>::empty()
    } else {
        "_"@ + padded_decimal(sequence as nat, 3)
    }) + ".png"@
}

/// `Pinora_YYYYMMDD_HHMMSS.png`, or `Pinora_YYYYMMDD_HHMMSS_NNN.png` for a non-zero sequence.
pub fn file_name(seconds: u64, sequence: u32) -> (name: String)
    ensures
        name@ == export_file_name(seconds, sequence),
{
    let (year, month, day, hour, minute, second) = utc_parts(seconds);
    let mut name = String::new();
    push_text(&mut name, "Pinora_");
    push_padded_signed(&mut name, year as i64, 4);
    push_padded(&mut name, month as u64, 2);
    push_padded(&mut name, day as u64, 2);
    push_text(&mut name, "_");
    push_padded(&mut name, hour, 2);
    push_padded(&mut name, minute, 2);
    push_padded(&mut name, second, 2);
    let ghost before_sequence = name@;
    if sequence != 0 {
        push_text(&mut name, "_");
        push_padded(&mut name, sequence as u64, 3);
    }
    push_text(&mut name, ".png");
    proof {
        let u = utc_parts_of(seconds);
        if sequence == 0 {
            assert(before_sequence =~= before_sequence + Seq::<char>::empty());
        }
        assert(name@ =~= export_file_name(seconds, sequence));
    }
    name
}

/// Hands out export names within one desktop process, never the same one twice for one
/// second of the clock.
#[derive(Debug, Clone, Copy, PartialEq, Eq, Structural)]
pub struct ExportNameAllocator {
    /// The second of the last name handed out.
    pub last_second: Option<u64>,
    /// The sequence number to try first when the next name falls in that second.
    pub next_sequence: u32,
}

/// The first sequence number tried for `seconds`.
pub open spec fn first_sequence(a: ExportNameAllocator, seconds: u64) -> u32 {
    if a.last_second == Some(seconds) {
        a.next_sequence
    } else {
        0
    }
}

/// `occupied` may answer `answer` when asked about the name with this sequence number.
pub open spec fn name_answer<F: Fn(String) -> Result<bool, PinoraError>>(
    occupied: F,
    seconds: u64,
    sequence: u32,
    answer: Result<bool, PinoraError>,
) -> bool {
    exists|name: String|
        name@ == export_file_name(seconds, sequence) && call_ensures(occupied, (name,), answer)
}

/// Every name from `from` up to (not including) `to` was reported occupied.
pub open spec fn all_occupied<F: Fn(String) -> Result<bool, PinoraError>>(
    occupied: F,
    seconds: u64,
    from: u32,
    to: int,
) -> bool {
    forall|j: u32| from <= j < to ==> #[trigger] name_answer(occupied, seconds, j, Ok(true))
}

impl ExportNameAllocator {
    pub fn new() -> (a: ExportNameAllocator)
        ensures
            a.last_second is None,
            a.next_sequence == 0,
    {
        ExportNameAllocator { last_second: None, next_sequence: 0 }
    }

    /// Hands out `Pinora_YYYYMMDD_HHMMSS[_NNN].png` for the instant `seconds`, skipping the
    /// names that `occupied` reports as taken. Within the second of the last name handed out,
    /// the search starts after that name. An error of `occupied` is returned as it is, and
    /// `CommandRejected` once all sequence numbers up to `MAX_SEQUENCE` are taken; on an
    /// error the allocator is unchanged.
    pub fn allocate<F: Fn(String) -> Result<bool, PinoraError>>(
        &mut self,
        seconds: u64,
        occupied: F,
    ) -> (res: Result<String, PinoraError>)
        requires
            forall|name: String| call_requires(occupied, (name,)),
        ensures
            ({
                let first = first_sequence(*old(self), seconds);
                match res {
                    Ok(name) => exists|k: u32|
                        first <= k <= MAX_SEQUENCE && all_occupied(occupied, seconds, first, k as int)
                            && name_answer(occupied, seconds, k, Ok(false)) && name@
                            == export_file_name(seconds, k) && *final(self) == (
                        ExportNameAllocator {
                            last_second: Some(seconds),
                            next_sequence: (k + 1) as u32,
                        }),
                    Err(e) => *final(self) == *old(self) && ((e.code == ErrorCode::CommandRejected
                        && all_occupied(occupied, seconds, first, MAX_SEQUENCE + 1)) || exists|k: u32|
                        first <= k <= MAX_SEQUENCE && all_occupied(occupied, seconds, first, k as int)
                            && name_answer(occupied, seconds, k, Err(e))),
                }
            }),
    {
        let first: u32 = if self.last_second == Some(seconds) {
            self.next_sequence
        } else {
            0
        };
        let mut sequence: u32 = first;
        while sequence <= MAX_SEQUENCE
            invariant
                first == first_sequence(*old(self), seconds),
                *self == *old(self),
                first <= sequence,
                sequence > first ==> sequence <= MAX_SEQUENCE + 1,
                forall|name: String| call_requires(occupied, (name,)),
                all_occupied(occupied, seconds, first, sequence as int),
            decreases MAX_SEQUENCE + 1 - sequence,
        {
            let name = file_name(seconds, sequence);
            let asked = name.clone();
            let answer = occupied(asked);
            assert(name_answer(occupied, seconds, sequence, answer));
            match answer {
                Err(error) => {
                    return Err(error);
                },
                Ok(true) => {},
                Ok(false) => {
                    self.last_second = Some(seconds);
                    self.next_sequence = sequence + 1;
                    return Ok(name);
                },
            }
            sequence += 1;
        }
        Err(PinoraError::new(ErrorCode::CommandRejected, "managed export file name limit reached"))
    }
}

proof fn lemma_digit_value(d: int)
    requires
        0 <= d < 10,
    ensures
        digit_char(d) as int - '0' as int == d,
{
}

proof fn lemma_decimal_value(n: nat)
    ensures
        digits_value(decimal(n)) == n,
    decreases n,
{
    if n < 10 {
        lemma_digit_value(n as int);
        assert(decimal(n).drop_last() =~= Seq::<char>::empty());
        assert(decimal(n).last() == digit_char(n as int));
        assert(digits_value(Seq::<char>::empty()) == 0);
        assert(digits_value(decimal(n)) == digits_value(decimal(n).drop_last()) * 10 + (decimal(
            n,
        ).last() as int - '0' as int));
    } else {
        lemma_decimal_value(n / 10);
        lemma_digit_value((n % 10) as int);
        assert(decimal(n).drop_last() =~= decimal(n / 10));
        assert(decimal(n).last() == digit_char((n % 10) as int));
        assert(digits_value(decimal(n)) == digits_value(decimal(n / 10)) * 10 + (n % 10));
        assert((n / 10) * 10 + n % 10 == n);
    }
}

proof fn lemma_zeros_value(k: nat)
    ensures
        digits_value(Seq::new(k, |i: int| '0')) == 0,
    decreases k,
{
    if k > 0 {
        assert(Seq::new(k, |i: int| '0').drop_last() =~= Seq::new((k - 1) as nat, |i: int| '0'));
        lemma_zeros_value((k - 1) as nat);
    }
}

proof fn lemma_leading_zeros_value(k: nat, s: Seq<char>)
    ensures
        digits_value(Seq::new(k, |i: int| '0') + s) == digits_value(s),
    decreases s.len(),
{
    if s.len() == 0 {
        assert(Seq::new(k, |i: int| '0') + s =~= Seq::new(k, |i: int| '0'));
        lemma_zeros_value(k);
    } else {
        lemma_leading_zeros_value(k, s.drop_last());
        assert((Seq::new(k, |i: int| '0') + s).drop_last() =~= Seq::new(k, |i: int| '0')
            + s.drop_last());
    }
}

proof fn lemma_padded_value(n: nat, width: nat)
    ensures
        digits_value(padded_decimal(n, width)) == n,
{
    lemma_decimal_value(n);
    if decimal(n).len() < width {
        lemma_leading_zeros_value((width - decimal(n).len()) as nat, decimal(n));
    }
}

/// Names of different sequence numbers within one second differ.
pub proof fn names_of_one_second_differ(seconds: u64, k1: u32, k2: u32)
    requires
        k1 != k2,
    ensures
        export_file_name(seconds, k1) != export_file_name(seconds, k2),
{
    let u = utc_parts_of(seconds);
    let prefix = "Pinora_"@ + padded_signed(u.0 as int, 4) + padded_decimal(u.1 as nat, 2)
        + padded_decimal(u.2 as nat, 2) + "_"@ + padded_decimal(u.3 as nat, 2) + padded_decimal(
        u.4 as nat,
        2,
    ) + padded_decimal(u.5 as nat, 2);
    let tail = |k: u32|
        (if k == 0 {
            Seq::<char>::empty()
        } else {
            "_"@ + padded_decimal(k as nat, 3)
        }) + ".png"@;
    assert(export_file_name(seconds, k1) =~= prefix + tail(k1));
    assert(export_file_name(seconds, k2) =~= prefix + tail(k2));
    if export_file_name(seconds, k1) == export_file_name(seconds, k2) {
        assert(tail(k1) =~= (prefix + tail(k1)).subrange(prefix.len() as int, (prefix + tail(k1)).len() as int));
        assert(tail(k2) =~= (prefix + tail(k2)).subrange(prefix.len() as int, (prefix + tail(k2)).len() as int));
        assert(tail(k1) == tail(k2));
        reveal_strlit(".png");
        reveal_strlit("_");
        if k1 == 0 || k2 == 0 {
            lemma_decimal_len_positive(if k1 == 0 { k2 as nat } else { k1 as nat });
            assert(tail(k1).len() != tail(k2).len());
        } else {
            let p1 = padded_decimal(k1 as nat, 3);
            let p2 = padded_decimal(k2 as nat, 3);
            assert(p1 =~= tail(k1).subrange(1, tail(k1).len() - 4));
            assert(p2 =~= tail(k2).subrange(1, tail(k2).len() - 4));
            lemma_padded_value(k1 as nat, 3);
            lemma_padded_value(k2 as nat, 3);
        }
    }
}

proof fn lemma_decimal_len_positive(n: nat)
    ensures
        decimal(n).len() >= 1,
    decreases n,
{
    if n >= 10 {
        lemma_decimal_len_positive(n / 10);
    }
}

/// After a name was handed out for a second, the next name handed out for that same second is
/// a different one: the allocator resumes after the sequence number it last used.
pub proof fn next_name_in_the_same_second_differs(seconds: u64, k: u32, later: u32)
    requires
        k < u32::MAX,
        later >= first_sequence(
            ExportNameAllocator { last_second: Some(seconds), next_sequence: (k + 1) as u32 },
            seconds,
        ),
    ensures
        export_file_name(seconds, later) != export_file_name(seconds, k),
{
    names_of_one_second_differ(seconds, later, k);
}

} // verus!
