//! The scene and the rules by which its surfaces answer a ray.
use crate::math::lt_gives;
use vstd::prelude::*;
use vstd::std_specs::cmp::PartialOrdSpec;
use vstd::std_specs::cmp::PartialOrdIs;

pub mod entity;
pub mod material;

verus! {

/// The entities of a scene, in the order in which they were added.
pub struct Scene<E> {
    entities: Vec<E>,
}

impl<E> View for Scene<E> {
    type V = Seq<E>;

    closed spec fn view(&self) -> Seq<E> {
        self.entities@
    }
}

/// The upper bound that the next entity is tested against: the parameter of
/// the best hit so far, or `t_max` while there is none.
pub open spec fn bound_after<T, H>(best: Option<(T, H)>, t_max: T) -> T {
    match best {
        Some((t, _)) => t,
        None => t_max,
    }
}

/// The best hit once an entity has answered: its hit replaces the best so far
/// where there was none or where it is strictly nearer.
pub open spec fn best_after<T: PartialOrd, H>(best: Option<(T, H)>, answer: Option<(T, H)>) -> Option<
    (T, H),
> {
    match (best, answer) {
        (_, None) => best,
        (None, Some(_)) => answer,
        (Some((kept, _)), Some((t, _))) => if t.is_lt(&kept) {
            answer
        } else {
            best
        },
    }
}

/// `next` is the best hit once an entity has answered, going by what the
/// comparison answers: the entity's hit where there was none before or where
/// its parameter is less than that of the best so far, else the best so far.
pub open spec fn best_becomes<T: PartialOrd, H>(
    best: Option<(T, H)>,
    answer: Option<(T, H)>,
    next: Option<(T, H)>,
) -> bool {
    match (best, answer) {
        (_, None) => next == best,
        (None, Some(_)) => next == answer,
        (Some((kept, _)), Some((t, _))) => exists|nearer: bool|
            {
                &&& #[trigger] lt_gives(t, kept, nearer)
                &&& next == if nearer {
                    answer
                } else {
                    best
                }
            },
    }
}

/// `out` is a possible end of the scan that has reached entity `from` with
/// `best` in hand: each entity from there on is asked once, in order, with
/// the bound that the hits before it left.
pub open spec fn scan_ends<E, T: PartialOrd, H, F: Fn(&E, T, T) -> Option<(T, H)>>(
    entities: Seq<E>,
    from: int,
    t_min: T,
    t_max: T,
    hit: F,
    best: Option<(T, H)>,
    out: Option<(T, H)>,
) -> bool
    decreases entities.len() - from,
{
    if from < 0 || from >= entities.len() {
        out == best
    } else {
        exists|answer: Option<(T, H)>, next: Option<(T, H)>|
            {
                &&& call_ensures(hit, (&entities[from], t_min, bound_after(best, t_max)), answer)
                &&& #[trigger] best_becomes(best, answer, next)
                &&& scan_ends(entities, from + 1, t_min, t_max, hit, next, out)
            }
    }
}

impl<E> Scene<E> {
    /// The empty scene.
    pub fn new() -> (scene: Self)
        ensures
            scene@ == Seq::<E>::empty(),
    {
        Self { entities: Vec::new() }
    }

    /// Adds an entity behind those that the scene holds.
    pub fn add_entity(&mut self, entity: E)
        ensures
            final(self)@ == old(self)@.push(entity),
    {
        self.entities.push(entity);
    }

    /// The closest hit among the entities, with its ray parameter.
    ///
    /// `hit` tests one entity against the range from its second to its third
    /// argument and returns the parameter of the hit with what the caller
    /// wants to know of it. Every entity is tested, in order, the upper bound
    /// shrinking to the parameter of the best hit so far; a later hit takes
    /// its place only where it is strictly nearer, so of two hits at the same
    /// parameter the one of the earlier entity stays.
    pub fn intersect<T, H, F>(&self, t_min: T, t_max: T, hit: F) -> (closest: Option<(T, H)>) where
        T: PartialOrd + Copy,
        F: Fn(&E, T, T) -> Option<(T, H)>,

        requires
            forall|i: int, hi: T|
                0 <= i < self@.len() ==> call_requires(hit, (&#[trigger] self@[i], t_min, hi)),
        ensures
            scan_ends(self@, 0, t_min, t_max, hit, None, closest),
    {
        let mut best: Option<(T, H)> = None;
        let mut bound = t_max;
        let mut i: usize = 0;
        let ghost mut at: int = 0;
        while i < self.entities.len()
            invariant
                at == i,
                0 <= at <= self.entities@.len(),
                bound == bound_after(best, t_max),
                forall|out: Option<(T, H)>|
                    scan_ends(self@, at, t_min, t_max, hit, best, out) ==> scan_ends(
                        self@,
                        0,
                        t_min,
                        t_max,
                        hit,
                        None,
                        out,
                    ),
                forall|i: int, hi: T|
                    0 <= i < self@.len() ==> call_requires(hit, (&#[trigger] self@[i], t_min, hi)),
            decreases self.entities@.len() - at,
        {
            assert(self@[at] == self.entities@[at]);
            let answer = hit(&self.entities[i], t_min, bound);
            let ghost before = best;
            let ghost seen = answer;
            match answer {
                Some((t, h)) => {
                    let nearer = match &best {
                        None => true,
                        Some((kept, _)) => {
                            let nearer = t < *kept;
                            assert(lt_gives(t, *kept, nearer));
                            nearer
                        },
                    };
                    if nearer {
                        bound = t;
                        best = Some((t, h));
                    }
                },
                None => {},
            }
            proof {
                assert(best_becomes(before, seen, best));
                assert forall|out: Option<(T, H)>|
                    scan_ends(self@, at + 1, t_min, t_max, hit, best, out) implies scan_ends(
                    self@,
                    0,
                    t_min,
                    t_max,
                    hit,
                    None,
                    out,
                ) by {
                    assert(scan_ends(self@, at, t_min, t_max, hit, before, out));
                }
                at = at + 1;
            }
            i = i + 1;
        }
        best
    }
}

/// What the scan that has reached entity `from` with `best` in hand ends
/// with, where every entity answers as `answer_of` says.
pub open spec fn scanned<E, T: PartialOrd, H>(
    entities: Seq<E>,
    from: int,
    t_min: T,
    t_max: T,
    answer_of: spec_fn(E, T, T) -> Option<(T, H)>,
    best: Option<(T, H)>,
) -> Option<(T, H)>
    decreases entities.len() - from,
{
    if from < 0 || from >= entities.len() {
        best
    } else {
        scanned(
            entities,
            from + 1,
            t_min,
            t_max,
            answer_of,
            best_after(best, answer_of(entities[from], t_min, bound_after(best, t_max))),
        )
    }
}

/// What an entity whose nearest hit is `nearest` answers when it is asked
/// with the upper bound `hi`: that hit, unless it lies beyond the bound.
pub open spec fn offered<T, H>(nearest: Option<(T, H)>, key: spec_fn(T) -> int, hi: T) -> Option<
    (T, H),
> {
    match nearest {
        Some((t, _)) => if key(t) <= key(hi) {
            nearest
        } else {
            None
        },
        None => None,
    }
}

/// `out` is the closest hit among the first `n` entities: none where no
/// entity has a hit up to `t_max`; else the hit of an entity that is up to
/// `t_max`, at least as near as every other hit, and strictly nearer than the
/// hit of every entity before it.
pub open spec fn closest_among<E, T, H>(
    entities: Seq<E>,
    n: int,
    nearest: spec_fn(E) -> Option<(T, H)>,
    key: spec_fn(T) -> int,
    t_max: T,
    out: Option<(T, H)>,
) -> bool {
    match out {
        None => forall|j: int|
            0 <= j < n ==> offered(#[trigger] nearest(entities[j]), key, t_max) is None,
        Some((t, _)) => exists|i: int|
            {
                &&& 0 <= i < n
                &&& #[trigger] nearest(entities[i]) == out
                &&& key(t) <= key(t_max)
                &&& forall|j: int|
                    0 <= j < n ==> (#[trigger] nearest(entities[j]) matches Some((u, _)) ==> key(t)
                        <= key(u))
                &&& forall|j: int|
                    0 <= j < i ==> (#[trigger] nearest(entities[j]) matches Some((u, _)) ==> key(t)
                        < key(u))
            },
    }
}

/// `out` is the closest hit among all the entities.
pub open spec fn closest<E, T, H>(
    entities: Seq<E>,
    nearest: spec_fn(E) -> Option<(T, H)>,
    key: spec_fn(T) -> int,
    t_max: T,
    out: Option<(T, H)>,
) -> bool {
    closest_among(entities, entities.len() as int, nearest, key, t_max, out)
}

/// A scan over entities that answer as a function of what they are asked ends
/// in one way only: with what `scanned` gives.
pub proof fn lemma_scan_of_function<E, T: PartialOrd, H, F: Fn(&E, T, T) -> Option<(T, H)>>(
    entities: Seq<E>,
    from: int,
    t_min: T,
    t_max: T,
    hit: F,
    answer_of: spec_fn(E, T, T) -> Option<(T, H)>,
    best: Option<(T, H)>,
    out: Option<(T, H)>,
)
    requires
        T::obeys_partial_cmp_spec(),
        forall|e: &E, lo: T, hi: T, answer: Option<(T, H)>|
            call_ensures(hit, (e, lo, hi), answer) ==> answer == answer_of(*e, lo, hi),
        scan_ends(entities, from, t_min, t_max, hit, best, out),
    ensures
        out == scanned(entities, from, t_min, t_max, answer_of, best),
    decreases entities.len() - from,
{
    if 0 <= from < entities.len() {
        let (answer, next) = choose|answer: Option<(T, H)>, next: Option<(T, H)>|
            {
                &&& call_ensures(hit, (&entities[from], t_min, bound_after(best, t_max)), answer)
                &&& #[trigger] best_becomes(best, answer, next)
                &&& scan_ends(entities, from + 1, t_min, t_max, hit, next, out)
            };
        lemma_step_of_order(best, answer, next);
        lemma_scan_of_function(entities, from + 1, t_min, t_max, hit, answer_of, next, out);
    }
}

/// For a type whose comparisons follow its order, the comparison answers in
/// one way only, and one step of the scan leaves `best_after`.
pub proof fn lemma_step_of_order<T: PartialOrd, H>(
    best: Option<(T, H)>,
    answer: Option<(T, H)>,
    next: Option<(T, H)>,
)
    requires
        T::obeys_partial_cmp_spec(),
        best_becomes(best, answer, next),
    ensures
        next == best_after(best, answer),
{
}

/// The scan finds the closest hit, and of two hits at the same parameter the
/// one of the earlier entity.
///
/// This holds where the order of the ray parameters is that of their images
/// under `key`, and every entity has one nearest hit from `t_min` on,
/// `nearest`, which it answers with whenever that hit is not beyond the bound
/// it is asked with.
pub proof fn lemma_scan_closest<E, T: PartialOrd, H, F: Fn(&E, T, T) -> Option<(T, H)>>(
    entities: Seq<E>,
    t_min: T,
    t_max: T,
    hit: F,
    nearest: spec_fn(E) -> Option<(T, H)>,
    key: spec_fn(T) -> int,
    out: Option<(T, H)>,
)
    requires
        T::obeys_partial_cmp_spec(),
        forall|a: T, b: T| #![trigger a.partial_cmp_spec(&b)] a.is_lt(&b) <==> key(a) < key(b),
        forall|e: &E, hi: T, answer: Option<(T, H)>|
            call_ensures(hit, (e, t_min, hi), answer) ==> answer == offered(nearest(*e), key, hi),
        scan_ends(entities, 0, t_min, t_max, hit, None, out),
    ensures
        closest(entities, nearest, key, t_max, out),
{
    lemma_closest_kept(entities, 0, t_min, t_max, hit, nearest, key, None, out);
}

/// One step of `lemma_scan_closest`: a scan that holds the closest hit among
/// the entities before `from` ends with the closest among all.
proof fn lemma_closest_kept<E, T: PartialOrd, H, F: Fn(&E, T, T) -> Option<(T, H)>>(
    entities: Seq<E>,
    from: int,
    t_min: T,
    t_max: T,
    hit: F,
    nearest: spec_fn(E) -> Option<(T, H)>,
    key: spec_fn(T) -> int,
    best: Option<(T, H)>,
    out: Option<(T, H)>,
)
    requires
        0 <= from <= entities.len(),
        T::obeys_partial_cmp_spec(),
        forall|a: T, b: T| #![trigger a.partial_cmp_spec(&b)] a.is_lt(&b) <==> key(a) < key(b),
        forall|e: &E, hi: T, answer: Option<(T, H)>|
            call_ensures(hit, (e, t_min, hi), answer) ==> answer == offered(nearest(*e), key, hi),
        closest_among(entities, from, nearest, key, t_max, best),
        scan_ends(entities, from, t_min, t_max, hit, best, out),
    ensures
        closest(entities, nearest, key, t_max, out),
    decreases entities.len() - from,
{
    if from < entities.len() {
        let (answer, next) = choose|answer: Option<(T, H)>, next: Option<(T, H)>|
            {
                &&& call_ensures(hit, (&entities[from], t_min, bound_after(best, t_max)), answer)
                &&& #[trigger] best_becomes(best, answer, next)
                &&& scan_ends(entities, from + 1, t_min, t_max, hit, next, out)
            };
        lemma_step_of_order(best, answer, next);
        assert(answer == offered(nearest(entities[from]), key, bound_after(best, t_max)));
        assert(closest_among(entities, from + 1, nearest, key, t_max, next)) by {
            match best {
                None => {
                    if answer is Some {
                        assert(nearest(entities[from]) == next);
                    }
                },
                Some((t, _)) => {
                    let i = choose|i: int|
                        {
                            &&& 0 <= i < from
                            &&& #[trigger] nearest(entities[i]) == best
                            &&& key(t) <= key(t_max)
                            &&& forall|j: int|
                                0 <= j < from ==> (#[trigger] nearest(entities[j]) matches Some(
                                    (u, _),
                                ) ==> key(t) <= key(u))
                            &&& forall|j: int|
                                0 <= j < i ==> (#[trigger] nearest(entities[j]) matches Some(
                                    (u, _),
                                ) ==> key(t) < key(u))
                        };
                    if next == best {
                        assert(nearest(entities[i]) == next);
                    } else {
                        assert(nearest(entities[from]) == next);
                    }
                },
            }
        }
        lemma_closest_kept(entities, from + 1, t_min, t_max, hit, nearest, key, next, out);
    }
}

} // verus!
