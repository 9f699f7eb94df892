//! Choosing which exercises a session plays.
use vstd::prelude::*;
use crate::model::exercise::Exercise;

verus! {

/// Whether the exercise's identifier begins with `prefix`.
pub open spec fn id_starts_with(prefix: Seq<char>, exercise: Exercise) -> bool {
    prefix.is_prefix_of(exercise@.id())
}

/// The exercises kept by an optional identifier prefix, in their order.
pub open spec fn kept_by_prefix(exercises: Seq<Exercise>, id_prefix: Option<Seq<char>>) -> Seq<Exercise> {
    match id_prefix {
        Some(p) => exercises.filter(|e: Exercise| id_starts_with(p, e)),
        None => exercises,
    }
}

pub open spec fn limited_len(len: nat, limit: Option<usize>) -> nat {
    match limit {
        Some(n) => if n < len {
            n as nat
        } else {
            len
        },
        None => len,
    }
}

/// Whether `text` begins with `prefix`.
pub fn starts_with_text(text: &str, prefix: &str) -> (r: bool)
    ensures
        r == prefix@.is_prefix_of(text@),
{
    let t = crate::text::chars_of(text);
    let p = crate::text::chars_of(prefix);
    if p.len() > t.len() {
        return false;
    }
    let mut i: usize = 0;
    while i < p.len()
        invariant
            i <= p@.len() <= t@.len(),
            t@ == text@,
            p@ == prefix@,
            forall|j: int| 0 <= j < i ==> p@[j] == t@[j],
        decreases p.len() - i,
    {
        if p[i] != t[i] {
            return false;
        }
        i = i + 1;
    }
    assert(prefix@ =~= text@.subrange(0, prefix@.len() as int));
    true
}

/// Calls `rand::seq::SliceRandom::shuffle` on the exercises with a `rand::rngs::StdRng` made by
/// `SeedableRng::seed_from_u64(seed)`. Claimed: the shuffle only swaps elements, so the
/// result holds the same exercises, each as often as before; which order comes out is left
/// unstated.
#[verifier::external_body]
fn shuffle_exercises(exercises: &mut Vec<Exercise>, seed: u64)
    ensures
        final(exercises)@.to_multiset() == old(exercises)@.to_multiset(),
{
    let mut rng = <rand::rngs::StdRng as rand::SeedableRng>::seed_from_u64(seed);
    rand::seq::SliceRandom::shuffle(exercises.as_mut_slice(), &mut rng);
}

/// Choose the exercises a session plays: keep those whose identifier begins with the prefix,
/// shuffle them when a seed is given, and keep at most `limit` of them.
pub fn select_exercises(
    exercises: Vec<Exercise>,
    id_prefix: Option<&str>,
    shuffle_seed: Option<u64>,
    limit: Option<usize>,
) -> (r: Vec<Exercise>)
    ensures
        exists|order: Seq<Exercise>|
            {
                &&& order.to_multiset() == kept_by_prefix(
                    exercises@,
                    crate::validator::optional_str(id_prefix),
                ).to_multiset()
                &&& shuffle_seed is None ==> order == kept_by_prefix(
                    exercises@,
                    crate::validator::optional_str(id_prefix),
                )
                &&& r@ == order.take(limited_len(order.len(), limit) as int)
            },
{
    let ghost original = exercises@;
    let ghost prefix = crate::validator::optional_str(id_prefix);
    let mut kept: Vec<Exercise> = Vec::new();
    let mut rest = exercises;
    match id_prefix {
        Some(p) => {
            let ghost pred = |e: Exercise| id_starts_with(p@, e);
            let ghost mut taken: nat = 0;
            assert(original.take(0) =~= Seq::<Exercise>::empty());
            assert(rest@ =~= original.skip(0));
            while rest.len() > 0
                invariant
                    taken <= original.len(),
                    rest@ == original.skip(taken as int),
                    kept@ == original.take(taken as int).filter(pred),
                    pred == (|e: Exercise| id_starts_with(p@, e)),
                decreases rest.len(),
            {
                let ex = rest.remove(0);
                proof {
                    assert(ex == original[taken as int]);
                    assert(original.take(taken + 1 as int) =~= original.take(taken as int).push(ex));
                    original.take(taken as int).lemma_filter_push(ex, pred);
                    assert(rest@ =~= original.skip(taken + 1 as int));
                }
                if starts_with_text(ex.id(), p) {
                    kept.push(ex);
                }
                proof {
                    taken = taken + 1;
                }
            }
            assert(original.take(taken as int) =~= original);
        },
        None => {
            kept = rest;
        },
    }
    let ghost filtered = kept@;
    assert(filtered == kept_by_prefix(original, prefix));
    match shuffle_seed {
        Some(seed) => shuffle_exercises(&mut kept, seed),
        None => {},
    }
    let ghost order = kept@;
    match limit {
        Some(n) => {
            if n < kept.len() {
                kept.truncate(n);
            }
        },
        None => {},
    }
    assert(kept@ =~= order.take(limited_len(order.len(), limit) as int));
    kept
}

} // verus!
