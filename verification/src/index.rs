//! From a requested count and a file's total to the position where output starts.

use vstd::prelude::*;
use crate::take_value::TakeValue;

verus! {

/// The zero-based position at which output starts in a file of `total` units
/// (lines or bytes), or `None` where nothing is to be written.
pub open spec fn start_index(take_val: TakeValue, total: int) -> Option<int> {
    match take_val {
        TakeValue::PlusZero => if total > 0 { Some(0int) } else { None },
        TakeValue::TakeNum(num) => {
            if num == 0 || total <= 0 || num > total {
                None
            } else if num > 0 {
                Some(num - 1)
            } else if -num >= total {
                Some(0int)
            } else {
                Some(total + num)
            }
        },
    }
}

/// The absolute value of `num`, which fits in `u64` even for `i64::MIN`.
pub fn magnitude(num: i64) -> (size: u64)
    ensures
        size as int == (if num < 0 { -(num as int) } else { num as int }),
{
    if num >= 0 {
        num as u64
    } else if num == i64::MIN {
        0x8000_0000_0000_0000u64
    } else {
        (-num) as u64
    }
}

/// Resolves `take_val` against `total`; the same rule serves lines and bytes.
pub fn get_start_index(take_val: &TakeValue, total: u64) -> (start: Option<u64>)
    ensures
        start is Some <==> start_index(*take_val, total as int) is Some,
        start is Some ==> start->0 as int == start_index(*take_val, total as int)->0,
        start is Some ==> start->0 < total,
{
    match *take_val {
        TakeValue::PlusZero => {
            if total > 0 {
                Some(0)
            } else {
                None
            }
        },
        TakeValue::TakeNum(num) => {
            if num == 0 || total == 0 {
                None
            } else if num > 0 {
                let wanted: u64 = num as u64;
                if wanted > total {
                    None
                } else {
                    Some(wanted - 1)
                }
            } else {
                let back: u64 = magnitude(num);
                Some(total.saturating_sub(back))
            }
        },
    }
}

/// `+0` selects nothing in an empty file and everything in any other.
pub proof fn lemma_plus_zero(total: u64)
    ensures
        total == 0 ==> start_index(TakeValue::PlusZero, total as int) is None,
        total > 0 ==> start_index(TakeValue::PlusZero, total as int) == Some(0int),
{
}

/// A count of zero selects nothing, whatever the file holds.
pub proof fn lemma_zero_selects_nothing(total: u64)
    ensures
        start_index(TakeValue::TakeNum(0), total as int) is None,
{
}

/// A positive count within the file is one-based: output starts one below it.
pub proof fn lemma_from_start(num: i64, total: u64)
    requires
        0 < num <= total,
    ensures
        start_index(TakeValue::TakeNum(num), total as int) == Some(num - 1),
{
}

/// A positive count beyond the end of the file selects nothing.
pub proof fn lemma_beyond_end(num: i64, total: u64)
    requires
        num > total > 0,
    ensures
        start_index(TakeValue::TakeNum(num), total as int) is None,
{
}

/// A negative count steps back from the end of a file that holds something,
/// and stops at the start of the file.
pub proof fn lemma_from_end(num: i64, total: u64)
    requires
        num < 0,
        total > 0,
    ensures
        start_index(TakeValue::TakeNum(num), total as int) == Some(
            if total + num > 0 {
                total + num
            } else {
                0int
            },
        ),
{
}

/// Nothing is selected from an empty file.
pub proof fn lemma_empty_selects_nothing(take_val: TakeValue)
    ensures
        start_index(take_val, 0) is None,
{
}

/// A selected position always lies inside the file.
pub proof fn lemma_start_in_file(take_val: TakeValue, total: u64)
    ensures
        start_index(take_val, total as int) is Some ==> 0 <= start_index(
            take_val,
            total as int,
        )->0 < total,
{
}

} // verus!
