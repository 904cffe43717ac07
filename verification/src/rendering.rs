//! The integrator: how far a ray is followed and what radiance it brings back.
//!
//! The scene, the materials and the colours are the caller's. The integrator
//! is given four things to ask: `intersect`, for the closest hit of a ray
//! with the scene; `scatter`, for what the material at a hit does with the
//! ray: absorb it, or send it on with an attenuation; `background`, for the
//! radiance of the background in the direction of a ray that hits nothing;
//! and `attenuate`, to filter a radiance by an attenuation.
use vstd::prelude::*;

verus! {

/// `color` is a radiance that following `r` for at most `depth` bounces can
/// bring back.
///
/// With no bounce left it is `black`. Otherwise the ray is intersected with
/// the scene once. Where it hits nothing, the radiance is that of the
/// background. Where it hits a surface that absorbs it, `black`. Where the
/// surface scatters it, the radiance that the scattered ray brings back with
/// one bounce less, filtered by the attenuation.
pub open spec fn traced<
    R,
    H,
    C,
    I: Fn(&R) -> Option<H>,
    S: Fn(&R, H) -> Option<(C, R)>,
    G: Fn(&R) -> C,
    A: Fn(C, C) -> C,
>(r: R, depth: int, black: C, intersect: I, scatter: S, background: G, attenuate: A, color: C) -> bool
    decreases depth,
{
    if depth <= 0 {
        color == black
    } else {
        exists|found: Option<H>|
            {
                &&& #[trigger] call_ensures(intersect, (&r,), found)
                &&& match found {
                    None => call_ensures(background, (&r,), color),
                    Some(hit) => exists|scattered: Option<(C, R)>|
                        {
                            &&& #[trigger] call_ensures(scatter, (&r, hit), scattered)
                            &&& match scattered {
                                None => color == black,
                                Some((attenuation, ray)) => exists|incoming: C|
                                    {
                                        &&& traced(
                                            ray,
                                            depth - 1,
                                            black,
                                            intersect,
                                            scatter,
                                            background,
                                            attenuate,
                                            incoming,
                                        )
                                        &&& #[trigger] call_ensures(
                                            attenuate,
                                            (attenuation, incoming),
                                            color,
                                        )
                                    },
                            }
                        },
                }
            }
    }
}

/// Estimates the radiance that arrives along `r`, following the ray through
/// at most `depth` bounces.
///
/// With a `depth` of zero or less nothing is asked and the estimate is
/// `black`.
pub fn trace<R, H, C, I, S, G, A>(
    r: &R,
    depth: i32,
    black: C,
    intersect: &I,
    scatter: &S,
    background: &G,
    attenuate: &A,
) -> (color: C) where
    C: Copy,
    I: Fn(&R) -> Option<H>,
    S: Fn(&R, H) -> Option<(C, R)>,
    G: Fn(&R) -> C,
    A: Fn(C, C) -> C,

    requires
        forall|ray: &R| call_requires(*intersect, (ray,)),
        forall|ray: &R, hit: H| call_requires(*scatter, (ray, hit)),
        forall|ray: &R| call_requires(*background, (ray,)),
        forall|attenuation: C, incoming: C| call_requires(*attenuate, (attenuation, incoming)),
    ensures
        depth <= 0 ==> color == black,
        traced(*r, depth as int, black, *intersect, *scatter, *background, *attenuate, color),
    decreases depth,
{
    if depth <= 0 {
        return black;
    }
    match intersect(r) {
        None => background(r),
        Some(hit) => match scatter(r, hit) {
            None => black,
            Some((attenuation, ray)) => {
                let incoming = trace(
                    &ray,
                    depth - 1,
                    black,
                    intersect,
                    scatter,
                    background,
                    attenuate,
                );
                attenuate(attenuation, incoming)
            },
        },
    }
}

/// The radiance that following `r` for at most `depth` bounces brings back,
/// where the scene, the materials, the background and the filter answer as
/// the four functions say.
pub open spec fn radiance<R, H, C>(
    r: R,
    depth: int,
    black: C,
    hit_of: spec_fn(R) -> Option<H>,
    scatter_of: spec_fn(R, H) -> Option<(C, R)>,
    background_of: spec_fn(R) -> C,
    attenuate_of: spec_fn(C, C) -> C,
) -> C
    decreases depth,
{
    if depth <= 0 {
        black
    } else {
        match hit_of(r) {
            None => background_of(r),
            Some(hit) => match scatter_of(r, hit) {
                None => black,
                Some((attenuation, ray)) => attenuate_of(
                    attenuation,
                    radiance(
                        ray,
                        depth - 1,
                        black,
                        hit_of,
                        scatter_of,
                        background_of,
                        attenuate_of,
                    ),
                ),
            },
        }
    }
}

/// Where the scene, the materials, the background and the filter answer as
/// functions of what they are given, a ray brings back one radiance only:
/// what `radiance` gives.
pub proof fn lemma_trace_of_function<
    R,
    H,
    C,
    I: Fn(&R) -> Option<H>,
    S: Fn(&R, H) -> Option<(C, R)>,
    G: Fn(&R) -> C,
    A: Fn(C, C) -> C,
>(
    r: R,
    depth: int,
    black: C,
    intersect: I,
    scatter: S,
    background: G,
    attenuate: A,
    hit_of: spec_fn(R) -> Option<H>,
    scatter_of: spec_fn(R, H) -> Option<(C, R)>,
    background_of: spec_fn(R) -> C,
    attenuate_of: spec_fn(C, C) -> C,
    color: C,
)
    requires
        forall|ray: &R, found: Option<H>|
            call_ensures(intersect, (ray,), found) ==> found == hit_of(*ray),
        forall|ray: &R, hit: H, scattered: Option<(C, R)>|
            call_ensures(scatter, (ray, hit), scattered) ==> scattered == scatter_of(*ray, hit),
        forall|ray: &R, seen: C|
            call_ensures(background, (ray,), seen) ==> seen == background_of(*ray),
        forall|attenuation: C, incoming: C, filtered: C|
            call_ensures(attenuate, (attenuation, incoming), filtered) ==> filtered
                == attenuate_of(attenuation, incoming),
        traced(r, depth, black, intersect, scatter, background, attenuate, color),
    ensures
        color == radiance(r, depth, black, hit_of, scatter_of, background_of, attenuate_of),
    decreases depth,
{
    if depth > 0 {
        let found = choose|found: Option<H>| #[trigger]
            call_ensures(intersect, (&r,), found) && hit_of(r) == found;
        if let Some(hit) = found {
            let scattered = choose|scattered: Option<(C, R)>| #[trigger]
                call_ensures(scatter, (&r, hit), scattered) && scatter_of(r, hit) == scattered;
            if let Some((attenuation, ray)) = scattered {
                let incoming = choose|incoming: C|
                    {
                        &&& traced(
                            ray,
                            depth - 1,
                            black,
                            intersect,
                            scatter,
                            background,
                            attenuate,
                            incoming,
                        )
                        &&& #[trigger] call_ensures(attenuate, (attenuation, incoming), color)
                    };
                lemma_trace_of_function(
                    ray,
                    depth - 1,
                    black,
                    intersect,
                    scatter,
                    background,
                    attenuate,
                    hit_of,
                    scatter_of,
                    background_of,
                    attenuate_of,
                    incoming,
                );
            }
        }
    }
}

/// What holds of black and of every background radiance, and is kept by the
/// filter, holds of every radiance that a ray brings back: a bounce passes
/// radiance on, it adds none of its own.
pub proof fn lemma_traced_keeps<
    R,
    H,
    C,
    I: Fn(&R) -> Option<H>,
    S: Fn(&R, H) -> Option<(C, R)>,
    G: Fn(&R) -> C,
    A: Fn(C, C) -> C,
>(
    r: R,
    depth: int,
    black: C,
    intersect: I,
    scatter: S,
    background: G,
    attenuate: A,
    kept: spec_fn(C) -> bool,
    color: C,
)
    requires
        kept(black),
        forall|ray: &R, seen: C| call_ensures(background, (ray,), seen) ==> kept(seen),
        forall|attenuation: C, incoming: C, filtered: C|
            kept(incoming) && call_ensures(attenuate, (attenuation, incoming), filtered) ==> kept(
                filtered,
            ),
        traced(r, depth, black, intersect, scatter, background, attenuate, color),
    ensures
        kept(color),
    decreases depth,
{
    if depth > 0 {
        let found = choose|found: Option<H>|
            {
                &&& #[trigger] call_ensures(intersect, (&r,), found)
                &&& match found {
                    None => call_ensures(background, (&r,), color),
                    Some(hit) => exists|scattered: Option<(C, R)>|
                        {
                            &&& #[trigger] call_ensures(scatter, (&r, hit), scattered)
                            &&& match scattered {
                                None => color == black,
                                Some((attenuation, ray)) => exists|incoming: C|
                                    {
                                        &&& traced(
                                            ray,
                                            depth - 1,
                                            black,
                                            intersect,
                                            scatter,
                                            background,
                                            attenuate,
                                            incoming,
                                        )
                                        &&& #[trigger] call_ensures(
                                            attenuate,
                                            (attenuation, incoming),
                                            color,
                                        )
                                    },
                            }
                        },
                }
            };
        if let Some(hit) = found {
            let scattered = choose|scattered: Option<(C, R)>|
                {
                    &&& #[trigger] call_ensures(scatter, (&r, hit), scattered)
                    &&& match scattered {
                        None => color == black,
                        Some((attenuation, ray)) => exists|incoming: C|
                            {
                                &&& traced(
                                    ray,
                                    depth - 1,
                                    black,
                                    intersect,
                                    scatter,
                                    background,
                                    attenuate,
                                    incoming,
                                )
                                &&& #[trigger] call_ensures(
                                    attenuate,
                                    (attenuation, incoming),
                                    color,
                                )
                            },
                    }
                };
            if let Some((attenuation, ray)) = scattered {
                let incoming = choose|incoming: C|
                    {
                        &&& traced(
                            ray,
                            depth - 1,
                            black,
                            intersect,
                            scatter,
                            background,
                            attenuate,
                            incoming,
                        )
                        &&& #[trigger] call_ensures(attenuate, (attenuation, incoming), color)
                    };
                lemma_traced_keeps(
                    ray,
                    depth - 1,
                    black,
                    intersect,
                    scatter,
                    background,
                    attenuate,
                    kept,
                    incoming,
                );
            }
        }
    }
}

/// With no bounce left a ray brings back black, whatever the scene and
/// whatever the ray.
pub proof fn lemma_exhausted_is_black<
    R,
    H,
    C,
    I: Fn(&R) -> Option<H>,
    S: Fn(&R, H) -> Option<(C, R)>,
    G: Fn(&R) -> C,
    A: Fn(C, C) -> C,
>(r: R, depth: int, black: C, intersect: I, scatter: S, background: G, attenuate: A, color: C)
    requires
        depth <= 0,
        traced(r, depth, black, intersect, scatter, background, attenuate, color),
    ensures
        color == black,
{
}

} // verus!
