//! Arithmetic on anything that can be ordered.
//!
//! A comparison of two values of an arbitrary type is an executable call
//! whose answer the type decides. The contracts here say what is returned for
//! each answer that the comparisons can give, and, for a type whose
//! comparisons follow its order, in terms of that order.
use vstd::prelude::*;
use vstd::std_specs::cmp::PartialOrdSpec;
use vstd::std_specs::cmp::PartialOrdIs;

verus! {

/// `answer` is what `a < b` can evaluate to.
pub open spec fn lt_gives<T: PartialOrd>(a: T, b: T, answer: bool) -> bool {
    call_ensures(T::lt, (&a, &b), answer)
}

/// `answer` is what `a > b` can evaluate to.
pub open spec fn gt_gives<T: PartialOrd>(a: T, b: T, answer: bool) -> bool {
    call_ensures(T::gt, (&a, &b), answer)
}

/// `input` held to the range from `min` to `max`: the bound that it passes,
/// or itself where it passes neither.
pub open spec fn clamped<T: PartialOrd>(input: T, min: T, max: T) -> T {
    if input.is_lt(&min) {
        min
    } else if input.is_gt(&max) {
        max
    } else {
        input
    }
}

/// `held` is `input` held to the range from `min` to `max`, going by what
/// the comparisons answer: `min` where `input < min`; else `max` where
/// `input > max`; else `input`.
pub open spec fn clamp_gives<T: PartialOrd>(input: T, min: T, max: T, held: T) -> bool {
    exists|below: bool|
        {
            &&& #[trigger] lt_gives(input, min, below)
            &&& below ==> held == min
            &&& !below ==> exists|above: bool|
                {
                    &&& #[trigger] gt_gives(input, max, above)
                    &&& held == if above {
                        max
                    } else {
                        input
                    }
                }
        }
}

/// Holds `input` to the range from `min` to `max`.
///
/// The range must not be empty: `min` is at most `max`.
#[inline]
pub fn clamp<T: PartialOrd>(input: T, min: T, max: T) -> (held: T)
    requires
        T::obeys_partial_cmp_spec() ==> min.is_le(&max),
    ensures
        clamp_gives(input, min, max, held),
        T::obeys_partial_cmp_spec() ==> held == clamped(input, min, max),
{
    let below = input < min;
    assert(lt_gives(input, min, below));
    if below {
        min
    } else {
        let above = input > max;
        assert(gt_gives(input, max, above));
        if above {
            max
        } else {
            input
        }
    }
}

} // verus!
