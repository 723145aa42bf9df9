//! The difference between two readings of a counter that may reset.

use vstd::prelude::*;

verus! {

/// A stored counter reading as a mathematical integer.
pub open spec fn reading(x: Option<i64>) -> Option<int> {
    match x {
        Some(v) => Some(v as int),
        None => None,
    }
}

/// A computed amount as a mathematical integer.
pub open spec fn amount(x: Option<u64>) -> Option<int> {
    match x {
        Some(v) => Some(v as int),
        None => None,
    }
}

/// What a counter gained between an earlier and a later reading.
///
/// The gain is known only when both readings are present and the later one is
/// not below the earlier one. A counter that went down has been reset, and the
/// gain is then unknown: it is neither negative nor zero.
pub open spec fn delta_of(earlier: Option<int>, later: Option<int>) -> Option<int> {
    match (earlier, later) {
        (Some(a), Some(b)) => if b >= a {
            Some(b - a)
        } else {
            None
        },
        _ => None,
    }
}

/// Computes the gain of a counter between two readings.
pub fn delta(earlier: Option<i64>, later: Option<i64>) -> (d: Option<u64>)
    ensures
        amount(d) == delta_of(reading(earlier), reading(later)),
        earlier is None || later is None ==> d is None,
        earlier is Some && later is Some && later.unwrap() < earlier.unwrap() ==> d is None,
        earlier is Some && later is Some && later.unwrap() >= earlier.unwrap() ==> d is Some
            && d.unwrap() == later.unwrap() - earlier.unwrap(),
{
    match (earlier, later) {
        (Some(a), Some(b)) => {
            if b >= a {
                let gained: i128 = b as i128 - a as i128;
                Some(gained as u64)
            } else {
                None
            }
        },
        _ => None,
    }
}

} // verus!
