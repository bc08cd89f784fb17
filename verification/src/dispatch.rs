//! Dispatch strategies and their caches. The capability cache is computed on
//! first need and immutable afterwards; the per-dispatch-point selection slot
//! settles on first use. Because resolution is pure and deterministic, racing
//! initializers of either cache compute the identical value, so a slot that is
//! already filled is never changed — only redundant work can occur.

use vstd::prelude::*;

use crate::registry::{DispatchMethod, FinalizedRegistry};
use crate::resolver::{resolve, spec_resolve, Selection};
use crate::target::{CapabilitySet, CapabilityView};

verus! {

// ---------------------------------------------------------------------------
// Capability cache
// ---------------------------------------------------------------------------
/// The process-wide capability cache for one architecture: empty until the
/// first detection, then immutable, shared by every dispatch point targeting
/// that architecture.
pub struct CapabilityCache {
    slot: Option<CapabilitySet>,
}

impl View for CapabilityCache {
    type V = Option<CapabilityView>;

    closed spec fn view(&self) -> Option<CapabilityView> {
        match self.slot {
            Some(ref c) => Some(c@),
            None => None,
        }
    }
}

impl CapabilityCache {
    /// A cache that has not detected anything yet.
    pub fn new() -> (r: CapabilityCache)
        ensures
            r@ is None,
    {
        CapabilityCache { slot: None }
    }

    /// Stores the detected capability set on first use; a later call never
    /// changes the cached value, it only drops the redundant recomputation.
    pub fn fill(&mut self, detected: CapabilitySet)
        ensures
            final(self)@ == if old(self)@ is None {
                Some(detected@)
            } else {
                old(self)@
            },
    {
        if self.slot.is_none() {
            self.slot = Some(detected);
        }
    }

    /// The cached capability set, if one was detected already.
    pub fn get(&self) -> (r: Option<&CapabilitySet>)
        ensures
            match r {
                Some(c) => self@ == Some(c@),
                None => self@ is None,
            },
    {
        match self.slot {
            Some(ref c) => Some(c),
            None => None,
        }
    }
}

// ---------------------------------------------------------------------------
// Cached selection (Indirect strategy)
// ---------------------------------------------------------------------------
/// The per-dispatch-point slot of the Indirect strategy: empty until the first
/// call, then it holds the resolved selection. Writers that race on first use
/// all write the same value, so the slot settles.
pub struct SelectionCache {
    slot: Option<Selection>,
}

impl View for SelectionCache {
    type V = Option<Selection>;

    closed spec fn view(&self) -> Option<Selection> {
        self.slot
    }
}

impl SelectionCache {
    /// Whether the slot is consistent with a dispatch point and capability
    /// set: either still empty, or holding exactly what resolution computes.
    pub open spec fn consistent_with(self, reg: FinalizedRegistry, caps: CapabilityView) -> bool {
        match self@ {
            None => true,
            Some(s) => s == spec_resolve(reg@.specializations, reg@.order, caps),
        }
    }

    /// An empty slot, as a dispatch point has before its first call.
    pub fn new() -> (r: SelectionCache)
        ensures
            r@ is None,
    {
        SelectionCache { slot: None }
    }

    /// First call resolves and fills the slot; every later call reads the
    /// cached selection, bypassing the resolver. The result always equals what
    /// resolution computes, and the slot is settled afterwards.
    pub fn get_or_resolve(&mut self, reg: &FinalizedRegistry, caps: &CapabilitySet) -> (r:
        Selection)
        requires
            reg.wf(),
            old(self).consistent_with(*reg, caps@),
        ensures
            r == spec_resolve(reg@.specializations, reg@.order, caps@),
            final(self)@ == Some(r),
            final(self).consistent_with(*reg, caps@),
    {
        match self.slot {
            Some(s) => s,
            None => {
                let s = resolve(reg, caps);
                self.slot = Some(s);
                s
            },
        }
    }
}

// ---------------------------------------------------------------------------
// Strategy selection and invocation
// ---------------------------------------------------------------------------
/// Whether the build target already decides the outcome: either there is no
/// candidate at all, or the build target's guaranteed capabilities satisfy the
/// top-ranked candidate — which, by monotonicity, no richer runtime capability
/// set can improve on.
pub open spec fn spec_static_decided(reg: FinalizedRegistry, build: CapabilityView) -> bool {
    ||| reg@.specializations.len() == 0
    ||| (reg@.order.len() > 0 && spec_resolve(reg@.specializations, reg@.order, build)
        == Selection::Specialized { index: reg@.order[0] })
}

/// The strategy the Default meta-policy settles on.
pub open spec fn spec_choose_method(reg: FinalizedRegistry, build: CapabilityView) -> DispatchMethod {
    if reg@.method != DispatchMethod::Default {
        reg@.method
    } else if spec_static_decided(reg, build) {
        DispatchMethod::Static
    } else {
        DispatchMethod::Indirect
    }
}

/// Settles the Default meta-policy against the build target's guaranteed
/// capability set: Static when the build target already decides the outcome,
/// else Indirect. An explicitly chosen strategy is kept as declared.
pub fn choose_method(reg: &FinalizedRegistry, build: &CapabilitySet) -> (r: DispatchMethod)
    requires
        reg.wf(),
    ensures
        r == spec_choose_method(*reg, build@),
        r != DispatchMethod::Default,
{
    let m = reg.method();
    if !(m == DispatchMethod::Default) {
        return m;
    }
    if reg.len() == 0 {
        return DispatchMethod::Static;
    }
    let top = reg.ranked_index(0);
    let sel = resolve(reg, build);
    if sel == (Selection::Specialized { index: top }) {
        DispatchMethod::Static
    } else {
        DispatchMethod::Indirect
    }
}

/// The implementation body a selection names: the chosen specialization's
/// body, or the baseline's.
pub open spec fn spec_selected_body(reg: FinalizedRegistry, sel: Selection) -> u64 {
    match sel {
        Selection::Specialized { index } => reg@.specializations[index as int].body,
        Selection::Baseline => reg@.baseline_body,
    }
}

/// The invoker's target: turns a selection into the implementation body that
/// receives the forwarded call arguments. Signature equivalence across the
/// baseline and all specializations was enforced at finalization, so the call
/// shape needs no per-call re-check.
pub fn selected_body(reg: &FinalizedRegistry, sel: Selection) -> (r: u64)
    requires
        sel matches Selection::Specialized { index } ==> index < reg@.specializations.len(),
    ensures
        r == spec_selected_body(*reg, sel),
{
    match sel {
        Selection::Specialized { index } => reg.specialization(index).body,
        Selection::Baseline => reg.baseline_body(),
    }
}

/// One Direct-strategy call: re-runs the resolver against the cached
/// capability set and forwards to the winner; nothing is cached about the
/// winning candidate itself.
pub fn dispatch_direct(reg: &FinalizedRegistry, caps: &CapabilitySet) -> (r: u64)
    requires
        reg.wf(),
    ensures
        r == spec_selected_body(*reg, spec_resolve(reg@.specializations, reg@.order, caps@)),
{
    let sel = resolve(reg, caps);
    selected_body(reg, sel)
}

/// One Indirect-strategy call: the first call resolves and fills the
/// dispatch point's slot, later calls read it directly; either way the call
/// goes to exactly what resolution computes.
pub fn dispatch_indirect(reg: &FinalizedRegistry, caps: &CapabilitySet, cache: &mut SelectionCache) -> (r: u64)
    requires
        reg.wf(),
        old(cache).consistent_with(*reg, caps@),
    ensures
        r == spec_selected_body(*reg, spec_resolve(reg@.specializations, reg@.order, caps@)),
        final(cache)@ == Some(spec_resolve(reg@.specializations, reg@.order, caps@)),
{
    let sel = cache.get_or_resolve(reg, caps);
    proof {
        crate::resolver::lemma_first_satisfied_rank(reg@.specializations, reg@.order, caps@, 0);
    }
    selected_body(reg, sel)
}

} // verus!
