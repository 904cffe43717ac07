//! Which intersection of a ray with a closed surface counts as the hit.
use crate::math::lt_gives;
use vstd::prelude::*;
use vstd::std_specs::cmp::PartialOrdSpec;
use vstd::std_specs::cmp::PartialOrdIs;

verus! {

/// `t` lies in the closed range from `t_min` to `t_max`: it is neither below
/// the lower bound nor above the upper one.
pub open spec fn in_range<T: PartialOrd>(t: T, t_min: T, t_max: T) -> bool {
    !t.is_lt(&t_min) && !t_max.is_lt(&t)
}

/// The root that counts: the nearer one where it lies in the range, else the
/// farther one where that lies in the range, else none.
pub open spec fn accepted_root<T: PartialOrd>(near: T, far: T, t_min: T, t_max: T) -> Option<T> {
    if in_range(near, t_min, t_max) {
        Some(near)
    } else if in_range(far, t_min, t_max) {
        Some(far)
    } else {
        None
    }
}

/// `ok` tells whether `t` lies in the range, going by what the comparisons
/// answer: it does not where `t < t_min`, nor where `t_max < t`.
pub open spec fn range_gives<T: PartialOrd>(t: T, t_min: T, t_max: T, ok: bool) -> bool {
    exists|below: bool|
        {
            &&& #[trigger] lt_gives(t, t_min, below)
            &&& below ==> !ok
            &&& !below ==> exists|above: bool| #[trigger] lt_gives(t_max, t, above) && ok == !above
        }
}

/// `root` is the root that counts, going by what the comparisons answer.
pub open spec fn root_gives<T: PartialOrd>(near: T, far: T, t_min: T, t_max: T, root: Option<T>) -> bool {
    exists|near_ok: bool|
        {
            &&& #[trigger] range_gives(near, t_min, t_max, near_ok)
            &&& near_ok ==> root == Some(near)
            &&& !near_ok ==> exists|far_ok: bool|
                {
                    &&& #[trigger] range_gives(far, t_min, t_max, far_ok)
                    &&& root == if far_ok {
                        Some(far)
                    } else {
                        None
                    }
                }
        }
}

/// Tells whether the ray parameter `t` lies in the closed range from `t_min`
/// to `t_max`.
pub fn within<T: PartialOrd>(t: &T, t_min: &T, t_max: &T) -> (ok: bool)
    ensures
        range_gives(*t, *t_min, *t_max, ok),
        T::obeys_partial_cmp_spec() ==> ok == in_range(*t, *t_min, *t_max),
{
    let below = *t < *t_min;
    assert(lt_gives(*t, *t_min, below));
    if below {
        false
    } else {
        let above = *t_max < *t;
        assert(lt_gives(*t_max, *t, above));
        !above
    }
}

/// Picks the hit among the two roots of the intersection quadratic, `near`
/// being the smaller one: `near` where it lies in the range from `t_min` to
/// `t_max`, else `far` where that does, else none.
pub fn nearest_root<T: PartialOrd>(near: T, far: T, t_min: &T, t_max: &T) -> (root: Option<T>)
    ensures
        root_gives(near, far, *t_min, *t_max, root),
        T::obeys_partial_cmp_spec() ==> root == accepted_root(near, far, *t_min, *t_max),
{
    if within(&near, t_min, t_max) {
        Some(near)
    } else {
        let far_ok = within(&far, t_min, t_max);
        assert(range_gives(near, *t_min, *t_max, false));
        if far_ok {
            Some(far)
        } else {
            None
        }
    }
}

} // verus!
