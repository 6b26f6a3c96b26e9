//! Half-open range filters over instants: `from` inclusive, `to` exclusive.
use vstd::prelude::*;

verus! {

/// Whether `value` lies in `[from, to)`; with neither bound every value
/// (present or not) matches, with a bound only a present value can.
pub open spec fn in_half_open_range(value: Option<i128>, from: Option<i128>, to: Option<i128>) -> bool {
    if from is None && to is None {
        true
    } else {
        match value {
            None => false,
            Some(v) => (from matches Some(f) ==> f <= v) && (to matches Some(t) ==> v < t),
        }
    }
}

/// A range whose lower bound, when both are given, lies below its upper bound.
pub open spec fn valid_half_open_range(from: Option<i128>, to: Option<i128>) -> bool {
    !(from is Some && to is Some && from->0 >= to->0)
}

pub open spec fn deref_opt(o: Option<&i128>) -> Option<i128> {
    match o {
        Some(v) => Some(*v),
        None => None,
    }
}

pub fn matches_half_open_range(value: Option<&i128>, from: Option<&i128>, to: Option<&i128>) -> (res: bool)
    ensures
        res == in_half_open_range(deref_opt(value), deref_opt(from), deref_opt(to)),
{
    if from.is_none() && to.is_none() {
        return true;
    }
    match value {
        None => false,
        Some(v) => {
            let above = match from {
                Some(f) => *v >= *f,
                None => true,
            };
            let below = match to {
                Some(t) => *v < *t,
                None => true,
            };
            above && below
        },
    }
}

pub fn is_valid_half_open_range(from: Option<&i128>, to: Option<&i128>) -> (res: bool)
    ensures
        res == valid_half_open_range(deref_opt(from), deref_opt(to)),
{
    match (from, to) {
        (Some(f), Some(t)) => *f < *t,
        _ => true,
    }
}

/// Law: a range that is not valid matches nothing, which is why a request
/// that asks for one is refused rather than answered with an empty page.
pub proof fn lemma_invalid_range_matches_nothing(value: Option<i128>, from: Option<i128>, to: Option<i128>)
    requires
        !valid_half_open_range(from, to),
    ensures
        !in_half_open_range(value, from, to),
{
}

/// Law: two adjacent ranges `[a, b)` and `[b, c)` split `[a, c)` without overlap.
pub proof fn lemma_adjacent_ranges_partition(value: i128, a: i128, b: i128, c: i128)
    requires
        a <= b <= c,
    ensures
        in_half_open_range(Some(value), Some(a), Some(c)) <==> (in_half_open_range(Some(value), Some(a), Some(b))
            || in_half_open_range(Some(value), Some(b), Some(c))),
        !(in_half_open_range(Some(value), Some(a), Some(b)) && in_half_open_range(Some(value), Some(b), Some(c))),
{
}

} // verus!
