//! The estimate of one pixel from its samples.
//!
//! The radiance of a sample and the arithmetic on radiances are the caller's:
//! `sample` takes one sample of the pixel, at a place drawn at random within
//! the pixel where its argument is true and at the centre of the pixel where
//! it is false; `accumulate` adds a sample to a sum; `divide` divides a sum
//! by a number of samples.
use crate::settings::Antialiasing;
use vstd::prelude::*;

verus! {

/// `sum` is what adding `n` jittered samples to `start`, one after the other,
/// can give.
pub open spec fn accumulated<C, S: Fn(bool) -> C, A: Fn(C, C) -> C>(
    n: int,
    start: C,
    sample: S,
    accumulate: A,
    sum: C,
) -> bool
    decreases n,
{
    if n <= 0 {
        sum == start
    } else {
        exists|drawn: C, next: C|
            {
                &&& #[trigger] call_ensures(sample, (true,), drawn)
                &&& #[trigger] call_ensures(accumulate, (start, drawn), next)
                &&& accumulated(n - 1, next, sample, accumulate, sum)
            }
    }
}

/// `estimate` is what a pixel can be estimated as: without antialiasing the
/// one sample at its centre; with antialiasing the sum of as many jittered
/// samples as the mode asks for, added to `black` and divided by their
/// number.
pub open spec fn estimated<C, S: Fn(bool) -> C, A: Fn(C, C) -> C, D: Fn(C, i32) -> C>(
    antialiasing: Antialiasing,
    black: C,
    sample: S,
    accumulate: A,
    divide: D,
    estimate: C,
) -> bool {
    match antialiasing {
        Antialiasing::NONE => call_ensures(sample, (false,), estimate),
        Antialiasing::MSAA { samples_per_pixel } => exists|sum: C|
            {
                &&& #[trigger] accumulated(samples_per_pixel as int, black, sample, accumulate, sum)
                &&& call_ensures(divide, (sum, samples_per_pixel), estimate)
            },
    }
}

/// Estimates the radiance of one pixel: the mean of its samples.
///
/// Without antialiasing the pixel is sampled once, at its centre, and nothing
/// is drawn, added or divided.
pub fn pixel_color<C, S, A, D>(
    antialiasing: &Antialiasing,
    black: C,
    sample: &S,
    accumulate: &A,
    divide: &D,
) -> (estimate: C) where
    S: Fn(bool) -> C,
    A: Fn(C, C) -> C,
    D: Fn(C, i32) -> C,

    requires
        forall|jittered: bool| call_requires(*sample, (jittered,)),
        forall|sum: C, drawn: C| call_requires(*accumulate, (sum, drawn)),
        forall|sum: C, n: i32| call_requires(*divide, (sum, n)),
    ensures
        estimated(*antialiasing, black, *sample, *accumulate, *divide, estimate),
{
    match antialiasing {
        Antialiasing::NONE => sample(false),
        Antialiasing::MSAA { samples_per_pixel } => {
            let n = *samples_per_pixel;
            let ghost start = black;
            let mut sum = black;
            let mut taken: i32 = 0;
            while taken < n
                invariant
                    0 <= taken,
                    taken <= n || n < 0,
                    forall|end: C|
                        accumulated(n - taken, sum, *sample, *accumulate, end) ==> accumulated(
                            n as int,
                            start,
                            *sample,
                            *accumulate,
                            end,
                        ),
                    forall|jittered: bool| call_requires(*sample, (jittered,)),
                    forall|sum: C, drawn: C| call_requires(*accumulate, (sum, drawn)),
                decreases n - taken,
            {
                let ghost before = sum;
                let drawn = sample(true);
                let ghost seen = drawn;
                sum = accumulate(sum, drawn);
                proof {
                    assert forall|end: C|
                        accumulated(
                            n - (taken + 1),
                            sum,
                            *sample,
                            *accumulate,
                            end,
                        ) implies accumulated(n as int, start, *sample, *accumulate, end) by {
                        assert(call_ensures(*sample, (true,), seen));
                        assert(call_ensures(*accumulate, (before, seen), sum));
                        assert(accumulated(n - taken, before, *sample, *accumulate, end));
                    }
                }
                taken = taken + 1;
            }
            assert(accumulated(n as int, start, *sample, *accumulate, sum));
            divide(sum, n)
        },
    }
}

/// What holds of the sum before the first sample, and goes on to hold, for
/// one sample more, whenever a sample is added, holds of the sum of all `n`
/// samples.
pub proof fn lemma_accumulated_keeps<C, S: Fn(bool) -> C, A: Fn(C, C) -> C>(
    n: int,
    start: C,
    sample: S,
    accumulate: A,
    kept: spec_fn(int, C) -> bool,
    sum: C,
)
    requires
        0 <= n,
        kept(0, start),
        forall|taken: int, before: C, drawn: C, after: C|
            0 <= taken < n && #[trigger] kept(taken, before) && call_ensures(
                sample,
                (true,),
                drawn,
            ) && #[trigger] call_ensures(accumulate, (before, drawn), after) ==> kept(
                taken + 1,
                after,
            ),
        accumulated(n, start, sample, accumulate, sum),
    ensures
        kept(n, sum),
{
    lemma_accumulated_keeps_from(n, 0, start, sample, accumulate, kept, sum);
}

/// The step of `lemma_accumulated_keeps`: the same, once `taken` samples
/// have been added.
proof fn lemma_accumulated_keeps_from<C, S: Fn(bool) -> C, A: Fn(C, C) -> C>(
    n: int,
    taken: int,
    so_far: C,
    sample: S,
    accumulate: A,
    kept: spec_fn(int, C) -> bool,
    sum: C,
)
    requires
        0 <= taken <= n,
        kept(taken, so_far),
        forall|taken: int, before: C, drawn: C, after: C|
            0 <= taken < n && #[trigger] kept(taken, before) && call_ensures(
                sample,
                (true,),
                drawn,
            ) && #[trigger] call_ensures(accumulate, (before, drawn), after) ==> kept(
                taken + 1,
                after,
            ),
        accumulated(n - taken, so_far, sample, accumulate, sum),
    ensures
        kept(n, sum),
    decreases n - taken,
{
    if taken < n {
        let (drawn, next) = choose|drawn: C, next: C|
            {
                &&& #[trigger] call_ensures(sample, (true,), drawn)
                &&& #[trigger] call_ensures(accumulate, (so_far, drawn), next)
                &&& accumulated(n - taken - 1, next, sample, accumulate, sum)
            };
        lemma_accumulated_keeps_from(n, taken + 1, next, sample, accumulate, kept, sum);
    }
}

/// Without antialiasing the estimate of a pixel is its sample at the centre:
/// nothing drawn at random enters it.
pub proof fn lemma_plain_is_centre<C, S: Fn(bool) -> C, A: Fn(C, C) -> C, D: Fn(C, i32) -> C>(
    black: C,
    sample: S,
    accumulate: A,
    divide: D,
    centre: C,
    estimate: C,
)
    requires
        forall|seen: C| call_ensures(sample, (false,), seen) ==> seen == centre,
        estimated(Antialiasing::NONE, black, sample, accumulate, divide, estimate),
    ensures
        estimate == centre,
{
}

} // verus!
