//! The resolver: a pure function from the ranked candidates and a capability
//! set to the selected implementation. It walks the ranking — most specific
//! first — and returns the first candidate the capabilities satisfy, or the
//! baseline when none is satisfied. Purity and determinism are what make the
//! strategies' caching safe.

use vstd::prelude::*;

use crate::registry::{rank_complete, rank_lt, rank_sorted, FinalizedRegistry, SpecializationView};
use crate::target::{lemma_more_specific_count, CapabilitySet, CapabilityView};

verus! {

/// What resolution selected: one specialization, by declaration index, or the
/// baseline sentinel.
#[derive(Clone, Copy, Debug, PartialEq, Eq, Structural)]
pub enum Selection {
    Specialized { index: usize },
    Baseline,
}

/// The first rank at or after `r` whose candidate is satisfied by `caps`, or
/// `order.len()` when none is.
pub open spec fn first_satisfied_rank(
    specs: Seq<SpecializationView>,
    order: Seq<usize>,
    caps: CapabilityView,
    r: int,
) -> int
    decreases order.len() - r,
{
    if 0 <= r < order.len() {
        if specs[order[r] as int].target.satisfied_by(caps) {
            r
        } else {
            first_satisfied_rank(specs, order, caps, r + 1)
        }
    } else {
        order.len() as int
    }
}

/// Resolution from rank `r` on: the first satisfied candidate, else baseline.
pub open spec fn spec_resolve_from(
    specs: Seq<SpecializationView>,
    order: Seq<usize>,
    caps: CapabilityView,
    r: int,
) -> Selection
    decreases order.len() - r,
{
    if 0 <= r < order.len() {
        if specs[order[r] as int].target.satisfied_by(caps) {
            Selection::Specialized { index: order[r] }
        } else {
            spec_resolve_from(specs, order, caps, r + 1)
        }
    } else {
        Selection::Baseline
    }
}

/// What `resolve` returns: a function of the ranked candidates and the
/// capability set alone.
pub open spec fn spec_resolve(specs: Seq<SpecializationView>, order: Seq<usize>, caps: CapabilityView) -> Selection {
    spec_resolve_from(specs, order, caps, 0)
}

/// Characterizes resolution by the first satisfied rank: nothing before it is
/// satisfied, it is satisfied when in range, and the resolution picks it.
pub proof fn lemma_first_satisfied_rank(
    specs: Seq<SpecializationView>,
    order: Seq<usize>,
    caps: CapabilityView,
    r: int,
)
    requires
        0 <= r <= order.len(),
    ensures
        r <= first_satisfied_rank(specs, order, caps, r) <= order.len(),
        forall|q: int|
            #![trigger order[q]]
            r <= q < first_satisfied_rank(specs, order, caps, r) ==> !specs[order[q] as int].target.satisfied_by(
                caps,
            ),
        first_satisfied_rank(specs, order, caps, r) < order.len() ==> specs[order[
            first_satisfied_rank(specs, order, caps, r)] as int].target.satisfied_by(caps),
        spec_resolve_from(specs, order, caps, r) == if first_satisfied_rank(specs, order, caps, r)
            < order.len() {
            Selection::Specialized { index: order[first_satisfied_rank(specs, order, caps, r)] }
        } else {
            Selection::Baseline
        },
    decreases order.len() - r,
{
    if r < order.len() && !specs[order[r] as int].target.satisfied_by(caps) {
        lemma_first_satisfied_rank(specs, order, caps, r + 1);
    }
}

/// Resolves a finalized dispatch point against a capability set: the most
/// specific satisfied candidate wins; ranks tied on specificity fall back to
/// declaration order; the baseline is returned exactly when no candidate is
/// satisfied, so resolution never fails.
#[verifier::loop_isolation(false)]
pub fn resolve(reg: &FinalizedRegistry, caps: &CapabilitySet) -> (r: Selection)
    requires
        reg.wf(),
    ensures
        r == spec_resolve(reg@.specializations, reg@.order, caps@),
        (r == Selection::Baseline) <==> (forall|i: int|
            0 <= i < reg@.specializations.len() ==> !(#[trigger] reg@.specializations[i]).target.satisfied_by(
                caps@,
            )),
        r matches Selection::Specialized { index } ==> index < reg@.specializations.len()
            && reg@.specializations[index as int].target.satisfied_by(caps@),
{
    let ghost specs = reg@.specializations;
    let ghost order = reg@.order;
    let n = reg.len();
    let mut rk: usize = 0;
    while rk < n
        invariant
            0 <= rk <= n,
            n == order.len(),
            spec_resolve_from(specs, order, caps@, 0) == spec_resolve_from(
                specs,
                order,
                caps@,
                rk as int,
            ),
        decreases n - rk,
    {
        let i = reg.ranked_index(rk);
        let s = reg.specialization(i);
        if s.target.is_satisfied_by(caps) {
            proof {
                assert(spec_resolve_from(specs, order, caps@, rk as int)
                    == Selection::Specialized { index: order[rk as int] });
                assert(specs[i as int].target.satisfied_by(caps@));
            }
            return Selection::Specialized { index: i };
        }
        rk += 1;
    }
    proof {
        // the baseline comes back exactly when no candidate at all is satisfied
        assert(spec_resolve_from(specs, order, caps@, n as int) == Selection::Baseline);
        lemma_first_satisfied_rank(specs, order, caps@, 0);
        assert forall|i: int|
            0 <= i < specs.len() implies !(#[trigger] specs[i]).target.satisfied_by(caps@) by {
            assert(order.contains(i as usize));
            let q = choose|q: int| 0 <= q < order.len() && order[q] == i as usize;
            assert(!specs[order[q] as int].target.satisfied_by(caps@));
        }
    }
    Selection::Baseline
}

/// Resolution returns the baseline whenever the capabilities satisfy none of
/// the candidates, whatever the registry's size.
pub proof fn lemma_resolve_baseline(
    specs: Seq<SpecializationView>,
    order: Seq<usize>,
    caps: CapabilityView,
)
    requires
        rank_complete(specs, order),
        forall|i: int| 0 <= i < specs.len() ==> !(#[trigger] specs[i]).target.satisfied_by(caps),
    ensures
        spec_resolve(specs, order, caps) == Selection::Baseline,
{
    assert forall|q: int|
        0 <= q < order.len() implies !specs[#[trigger] order[q] as int].target.satisfied_by(
        caps,
    ) by {
        assert(0 <= order[q] < specs.len());
    }
    lemma_first_satisfied_rank(specs, order, caps, 0);
}

/// Resolution is deterministic: it depends only on the ranked candidates and
/// the capability set, never on call history, so two results computed from
/// identical inputs are identical.
pub proof fn lemma_resolve_deterministic(
    specs: Seq<SpecializationView>,
    order: Seq<usize>,
    caps: CapabilityView,
    r1: Selection,
    r2: Selection,
)
    requires
        r1 == spec_resolve(specs, order, caps),
        r2 == spec_resolve(specs, order, caps),
    ensures
        r1 == r2,
{
}

/// Monotonicity: growing the capability set never makes resolution select a
/// less specific candidate. If `c1`'s features are contained in `c2`'s and a
/// candidate is selected under `c1`, then one is selected under `c2`, at a
/// rank no later, requiring at least as many features, and never strictly less
/// specific.
pub proof fn lemma_resolve_monotonic(
    specs: Seq<SpecializationView>,
    order: Seq<usize>,
    c1: CapabilityView,
    c2: CapabilityView,
)
    requires
        rank_complete(specs, order),
        rank_sorted(specs, order),
        forall|i: int| 0 <= i < specs.len() ==> (#[trigger] specs[i]).target.wf(),
        c1.architecture == c2.architecture,
        c1.feature_set() <= c2.feature_set(),
        spec_resolve(specs, order, c1) is Specialized,
    ensures
        spec_resolve(specs, order, c2) is Specialized,
        specs[spec_resolve(specs, order, c2)->index as int].target.features.len()
            >= specs[spec_resolve(specs, order, c1)->index as int].target.features.len(),
        !specs[spec_resolve(specs, order, c1)->index as int].target.more_specific_than(
            specs[spec_resolve(specs, order, c2)->index as int].target,
        ),
{
    lemma_first_satisfied_rank(specs, order, c1, 0);
    lemma_first_satisfied_rank(specs, order, c2, 0);
    let q1 = first_satisfied_rank(specs, order, c1, 0);
    let q2 = first_satisfied_rank(specs, order, c2, 0);
    let t1 = specs[order[q1] as int].target;
    // anything satisfied by the smaller set is satisfied by the larger one
    assert(t1.satisfied_by(c2)) by {
        assert(t1.feature_set() <= c2.feature_set());
    }
    // so the first satisfied rank under c2 comes no later than q1
    assert(q2 <= q1);
    let i1 = order[q1] as int;
    let i2 = order[q2] as int;
    if q2 < q1 {
        assert(rank_lt(specs, i2, i1));
    }
    assert(specs[i2].target.features.len() >= specs[i1].target.features.len());
    if specs[i1].target.more_specific_than(specs[i2].target) {
        lemma_more_specific_count(specs[i1].target, specs[i2].target);
    }
}

} // verus!
