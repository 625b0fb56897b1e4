//! Reconciliation planning for the object-graph trackers.
//!
//! Whenever a provider reports a fresh complete list of object identities,
//! the tracker keeps the objects still listed, drops the ones that
//! disappeared, and binds the newly appearing ones.  Dropping happens before
//! binding so a reused identity is never bound twice at once.  The planning —
//! which identities to drop, which to bind — is pure computation over
//! identity lists and is verified here; performing the binds is the worker's
//! business.

use vstd::prelude::*;

verus! {

/// Whether the identity list `s` holds the identity `x`.
pub open spec fn holds_identity(s: Seq<String>, x: Seq<char>) -> bool {
    exists|i: int| 0 <= i < s.len() && (#[trigger] s[i])@ == x
}

/// Whether the identity `x` occurs in the view-level list `s`.
pub open spec fn holds_view(s: Seq<Seq<char>>, x: Seq<char>) -> bool {
    exists|i: int| 0 <= i < s.len() && #[trigger] s[i] == x
}

/// The identities of `current` that the fresh list `next` lacks: these must
/// be dropped.  Order follows `current`.
pub open spec fn removal_plan(current: Seq<String>, next: Seq<String>) -> Seq<Seq<char>>
    decreases current.len(),
{
    if current.len() == 0 {
        Seq::empty()
    } else {
        let init = removal_plan(current.drop_last(), next);
        if holds_identity(next, current.last()@) {
            init
        } else {
            init.push(current.last()@)
        }
    }
}

/// The identities of the fresh list `next` that `current` lacks: these must
/// be bound and tracked, each once, in the order `next` lists them.
pub open spec fn addition_plan(current: Seq<String>, next: Seq<String>) -> Seq<Seq<char>>
    decreases next.len(),
{
    if next.len() == 0 {
        Seq::empty()
    } else {
        let init = addition_plan(current, next.drop_last());
        let x = next.last()@;
        if holds_identity(current, x) || holds_view(init, x) {
            init
        } else {
            init.push(x)
        }
    }
}

/// Whether the identity list `v` holds the identity `x`.
pub fn list_holds(v: &Vec<String>, x: &str) -> (r: bool)
    ensures
        r == holds_identity(v@, x@),
{
    let mut i: usize = 0;
    while i < v.len()
        invariant
            0 <= i <= v@.len(),
            forall|k: int| 0 <= k < i ==> (#[trigger] v@[k])@ != x@,
        decreases v@.len() - i,
    {
        if crate::text::str_eq(v[i].as_str(), x) {
            return true;
        }
        i = i + 1;
    }
    false
}

/// Computes which tracked identities the fresh list no longer names.
pub fn removals(current: &Vec<String>, next: &Vec<String>) -> (r: Vec<String>)
    ensures
        r@.map_values(|s: String| s@) == removal_plan(current@, next@),
{
    let mut r: Vec<String> = Vec::new();
    let mut i: usize = 0;
    while i < current.len()
        invariant
            0 <= i <= current@.len(),
            r@.map_values(|s: String| s@) == removal_plan(current@.subrange(0, i as int), next@),
        decreases current@.len() - i,
    {
        let ghost prefix = current@.subrange(0, i as int);
        if !list_holds(next, current[i].as_str()) {
            r.push(current[i].clone());
        }
        proof {
            assert(current@.subrange(0, i + 1 as int).drop_last() =~= prefix);
            assert(current@.subrange(0, i + 1 as int).last() == current@[i as int]);
            assert(r@.map_values(|s: String| s@) =~= removal_plan(
                current@.subrange(0, i + 1 as int),
                next@,
            ));
        }
        i = i + 1;
    }
    proof {
        assert(current@.subrange(0, current@.len() as int) =~= current@);
    }
    r
}

/// Computes which identities of the fresh list are not yet tracked, keeping
/// the first occurrence of a repeated identity only.
pub fn additions(current: &Vec<String>, next: &Vec<String>) -> (r: Vec<String>)
    ensures
        r@.map_values(|s: String| s@) == addition_plan(current@, next@),
{
    let mut r: Vec<String> = Vec::new();
    let mut i: usize = 0;
    while i < next.len()
        invariant
            0 <= i <= next@.len(),
            r@.map_values(|s: String| s@) == addition_plan(current@, next@.subrange(0, i as int)),
        decreases next@.len() - i,
    {
        let ghost prefix = next@.subrange(0, i as int);
        if !list_holds(current, next[i].as_str()) && !list_holds(&r, next[i].as_str()) {
            proof {
                assert forall|k: int| 0 <= k < r@.len() implies (#[trigger] r@[k])@
                    != next@[i as int]@ by {
                    assert(r@.map_values(|s: String| s@)[k] == r@[k]@);
                }
            }
            r.push(next[i].clone());
        } else {
            proof {
                if holds_identity(r@, next@[i as int]@) {
                    let k = choose|k: int|
                        0 <= k < r@.len() && (#[trigger] r@[k])@ == next@[i as int]@;
                    assert(r@.map_values(|s: String| s@)[k] == next@[i as int]@);
                }
            }
        }
        proof {
            assert(next@.subrange(0, i + 1 as int).drop_last() =~= prefix);
            assert(next@.subrange(0, i + 1 as int).last() == next@[i as int]);
            assert(r@.map_values(|s: String| s@) =~= addition_plan(
                current@,
                next@.subrange(0, i + 1 as int),
            ));
        }
        i = i + 1;
    }
    proof {
        assert(next@.subrange(0, next@.len() as int) =~= next@);
    }
    r
}

/// Reconciliation is idempotent.  After a reconciliation in which every
/// planned addition was successfully bound and inserted — so the tracked set
/// holds exactly the identities of the list — reconciling with the same list
/// again plans no removal and no addition: the second invocation performs no
/// bind and no unbind.
pub proof fn lemma_reconcile_idempotent(current: Seq<String>, next: Seq<String>)
    requires
        forall|x: Seq<char>| holds_identity(current, x) <==> holds_identity(next, x),
    ensures
        removal_plan(current, next) == Seq::<Seq<char>>::empty(),
        addition_plan(current, next) == Seq::<Seq<char>>::empty(),
{
    lemma_removal_plan_empty(current, next);
    lemma_addition_plan_empty(current, next);
}

proof fn lemma_removal_plan_empty(current: Seq<String>, next: Seq<String>)
    requires
        forall|x: Seq<char>| holds_identity(current, x) ==> holds_identity(next, x),
    ensures
        removal_plan(current, next) == Seq::<Seq<char>>::empty(),
    decreases current.len(),
{
    if current.len() > 0 {
        assert forall|x: Seq<char>| holds_identity(current.drop_last(), x) implies holds_identity(
            next,
            x,
        ) by {
            let i = choose|i: int|
                0 <= i < current.drop_last().len() && (#[trigger] current.drop_last()[i])@ == x;
            assert(current[i]@ == x);
        }
        lemma_removal_plan_empty(current.drop_last(), next);
        assert(current[current.len() - 1]@ == current.last()@);
        assert(holds_identity(current, current.last()@));
    }
}

proof fn lemma_addition_plan_empty(current: Seq<String>, next: Seq<String>)
    requires
        forall|x: Seq<char>| holds_identity(next, x) ==> holds_identity(current, x),
    ensures
        addition_plan(current, next) == Seq::<Seq<char>>::empty(),
    decreases next.len(),
{
    if next.len() > 0 {
        assert forall|x: Seq<char>| holds_identity(next.drop_last(), x) implies holds_identity(
            current,
            x,
        ) by {
            let i = choose|i: int|
                0 <= i < next.drop_last().len() && (#[trigger] next.drop_last()[i])@ == x;
            assert(next[i]@ == x);
        }
        lemma_addition_plan_empty(current, next.drop_last());
        assert(next[next.len() - 1]@ == next.last()@);
        assert(holds_identity(next, next.last()@));
    }
}

} // verus!
