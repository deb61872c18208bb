//! The escape iteration: `z <- step(z, c)` from a fixed origin, counted until
//! the iterate escapes or the budget is spent.
use vstd::prelude::*;

verus! {

/// Entry `i` of `orbit` is what `step` returned for the entry before it and
/// the constant `c`.
pub open spec fn advances<Z, S: Fn(Z, &Z) -> Z>(step: S, c: Z, orbit: Seq<Z>, i: int) -> bool {
    call_ensures(step, (orbit[i - 1], &c), orbit[i])
}

/// `orbit` starts at `origin`, and each later entry is what `step` returned
/// for the entry before it and the constant `c`.
pub open spec fn is_orbit<Z, S: Fn(Z, &Z) -> Z>(orbit: Seq<Z>, origin: Z, c: Z, step: S) -> bool {
    &&& orbit.len() >= 1
    &&& orbit[0] == origin
    &&& forall|i: int| 1 <= i < orbit.len() ==> #[trigger] advances(step, c, orbit, i)
}

/// `iter` is the escape count along `orbit`: the test `escaped` said no to the
/// first `iter` iterates, and either the budget `max_iter` is spent or the
/// test said yes to iterate number `iter`. The orbit holds exactly the
/// iterates that were computed, so `step` ran `iter` times.
pub open spec fn escapes_after<Z, T: Fn(&Z) -> bool, S: Fn(Z, &Z) -> Z>(
    orbit: Seq<Z>,
    origin: Z,
    c: Z,
    max_iter: u32,
    escaped: T,
    step: S,
    iter: u32,
) -> bool {
    &&& iter <= max_iter
    &&& orbit.len() == iter + 1
    &&& is_orbit(orbit, origin, c, step)
    &&& forall|i: int| 0 <= i < iter ==> call_ensures(escaped, (&#[trigger] orbit[i],), false)
    &&& iter < max_iter ==> call_ensures(escaped, (&orbit[iter as int],), true)
}

/// `iter` is an escape count of the constant `c`: the count along some orbit
/// of `step` from `origin`.
pub open spec fn counts<Z, T: Fn(&Z) -> bool, S: Fn(Z, &Z) -> Z>(
    origin: Z,
    c: Z,
    max_iter: u32,
    escaped: T,
    step: S,
    iter: u32,
) -> bool {
    exists|orbit: Seq<Z>| escapes_after(orbit, origin, c, max_iter, escaped, step, iter)
}

/// The test answers one way only for each iterate.
pub open spec fn single_valued_test<Z, T: Fn(&Z) -> bool>(escaped: T) -> bool {
    forall|z: Z| !(#[trigger] call_ensures(escaped, (&z,), true) && call_ensures(escaped, (&z,), false))
}

/// The recurrence has one successor only for each iterate and constant.
pub open spec fn single_valued_step<Z, S: Fn(Z, &Z) -> Z>(step: S) -> bool {
    forall|z: Z, c: Z, a: Z, b: Z|
        #![trigger call_ensures(step, (z, &c), a), call_ensures(step, (z, &c), b)]
        call_ensures(step, (z, &c), a) && call_ensures(step, (z, &c), b) ==> a == b
}

/// Counts the iterations of `step` from `origin` until `escaped` holds of the
/// iterate, at most `max_iter` of them. The iterate is tested before it is
/// advanced, so an origin that has already escaped counts 0, and a result of
/// `max_iter` means that none of the tested iterates had escaped.
pub fn escape_count<Z, T, S>(origin: Z, c: &Z, max_iter: u32, escaped: &T, step: &S) -> (iter: u32) where
    T: Fn(&Z) -> bool,
    S: Fn(Z, &Z) -> Z,

    requires
        forall|z: Z| #[trigger] call_requires(*escaped, (&z,)),
        forall|z: Z| #[trigger] call_requires(*step, (z, c)),
    ensures
        iter <= max_iter,
        counts(origin, *c, max_iter, *escaped, *step, iter),
{
    let mut z: Z = origin;
    let mut iter: u32 = 0;
    let ghost mut orbit: Seq<Z> = seq![origin];
    while iter < max_iter
        invariant
            forall|z: Z| #[trigger] call_requires(*escaped, (&z,)),
            forall|z: Z| #[trigger] call_requires(*step, (z, c)),
            iter <= max_iter,
            orbit.len() == iter + 1,
            orbit[iter as int] == z,
            is_orbit(orbit, origin, *c, *step),
            forall|i: int| 0 <= i < iter ==> call_ensures(*escaped, (&#[trigger] orbit[i],), false),
        ensures
            escapes_after(orbit, origin, *c, max_iter, *escaped, *step, iter),
        decreases max_iter - iter,
    {
        if escaped(&z) {
            break;
        }
        z = step(z, c);
        iter = iter + 1;
        proof {
            let ghost shorter = orbit;
            orbit = orbit.push(z);
            assert forall|i: int| 1 <= i < orbit.len() implies #[trigger] advances(
                *step,
                *c,
                orbit,
                i,
            ) by {
                if i < shorter.len() {
                    assert(advances(*step, *c, shorter, i));
                }
            }
        }
    }
    iter
}

/// With a single-valued recurrence, two orbits from one origin with one
/// constant agree entry by entry as far as both go.
proof fn lemma_orbits_agree<Z, S: Fn(Z, &Z) -> Z>(
    first: Seq<Z>,
    second: Seq<Z>,
    origin: Z,
    c: Z,
    step: S,
    upto: int,
)
    requires
        single_valued_step(step),
        is_orbit(first, origin, c, step),
        is_orbit(second, origin, c, step),
        0 <= upto < first.len(),
        upto < second.len(),
    ensures
        first[upto] == second[upto],
    decreases upto,
{
    if upto > 0 {
        lemma_orbits_agree::<Z, S>(first, second, origin, c, step, upto - 1);
        assert(advances(step, c, first, upto));
        assert(advances(step, c, second, upto));
    }
}

/// The escape count is a function of the origin, the constant and the budget
/// whenever the test and the recurrence are single-valued.
pub proof fn lemma_count_unique<Z, T: Fn(&Z) -> bool, S: Fn(Z, &Z) -> Z>(
    origin: Z,
    c: Z,
    max_iter: u32,
    escaped: T,
    step: S,
    first: u32,
    second: u32,
)
    requires
        single_valued_test(escaped),
        single_valued_step(step),
        counts(origin, c, max_iter, escaped, step, first),
        counts(origin, c, max_iter, escaped, step, second),
    ensures
        first == second,
{
    let a = choose|orbit: Seq<Z>| escapes_after(orbit, origin, c, max_iter, escaped, step, first);
    let b = choose|orbit: Seq<Z>| escapes_after(orbit, origin, c, max_iter, escaped, step, second);
    if first < second {
        lemma_orbits_agree::<Z, S>(a, b, origin, c, step, first as int);
        assert(call_ensures(escaped, (&a[first as int],), true));
        assert(call_ensures(escaped, (&b[first as int],), false));
    } else if second < first {
        lemma_orbits_agree::<Z, S>(a, b, origin, c, step, second as int);
        assert(call_ensures(escaped, (&b[second as int],), true));
        assert(call_ensures(escaped, (&a[second as int],), false));
    }
}

} // verus!
