//! What a surface decides once the angles and the chances are known.
use crate::math::gt_gives;
use vstd::prelude::*;
use vstd::std_specs::cmp::PartialOrdSpec;
use vstd::std_specs::cmp::PartialOrdIs;

verus! {

/// Tells whether a ray that meets a dielectric surface is reflected; where it
/// is not, it is refracted.
///
/// Under total internal reflection refraction has no solution, and the ray is
/// reflected whatever was drawn; otherwise it is reflected where the
/// reflectance at its angle exceeds `draw`, a number drawn uniformly between
/// zero and one.
pub fn reflects<T: PartialOrd>(total_internal_reflection: bool, reflectance: &T, draw: &T) -> (reflect:
    bool)
    ensures
        total_internal_reflection ==> reflect,
        !total_internal_reflection ==> gt_gives(*reflectance, *draw, reflect),
        T::obeys_partial_cmp_spec() ==> reflect == (total_internal_reflection || reflectance.is_gt(
            draw,
        )),
{
    total_internal_reflection || *reflectance > *draw
}

} // verus!
