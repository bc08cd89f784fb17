//! The specialization registry: the ordered set of (target, implementation)
//! pairs declared for one dispatch point, plus its baseline implementation.
//! `add` rejects a target registered twice; `finalize` validates that every
//! implementation shares the baseline's call signature and produces the
//! specificity ranking — most specific first, declaration order as tie-break.

use vstd::prelude::*;

use crate::error::{Error, ErrorKind};
use crate::target::{Target, TargetView};

verus! {

// ---------------------------------------------------------------------------
// Call signatures
// ---------------------------------------------------------------------------
/// The shape of an implementation's return value. An opaque shape cannot be
/// abstracted across multiple implementations, so it is rejected at
/// finalization.
#[derive(Clone, Copy, Debug, PartialEq, Eq, Structural)]
pub enum ReturnShape {
    Unit,
    Concrete { shape: u64 },
    Opaque,
}

/// Mathematical model of a call signature.
pub struct SignatureView {
    pub params: Seq<u64>,
    pub ret: ReturnShape,
}

/// A call signature: one shape tag per parameter, plus the return shape.
#[derive(Debug)]
pub struct Signature {
    pub params: Vec<u64>,
    pub ret: ReturnShape,
}

impl View for Signature {
    type V = SignatureView;

    open spec fn view(&self) -> SignatureView {
        SignatureView { params: self.params@, ret: self.ret }
    }
}

impl Clone for Signature {
    /// Cloning keeps the signature's value.
    fn clone(&self) -> (r: Signature)
        ensures
            r@ == self@,
    {
        let mut params: Vec<u64> = Vec::new();
        let mut i: usize = 0;
        while i < self.params.len()
            invariant
                0 <= i <= self.params.len(),
                params@ =~= self.params@.subrange(0, i as int),
            decreases self.params.len() - i,
        {
            params.push(self.params[i]);
            i += 1;
        }
        proof {
            assert(params@ =~= self.params@);
        }
        Signature { params, ret: self.ret }
    }
}

impl Signature {
    /// True iff `self` and `other` agree on every parameter and the return
    /// shape: exactly `self@ == other@`.
    pub fn matches(&self, other: &Signature) -> (r: bool)
        ensures
            r == (self@ == other@),
    {
        if !(self.ret == other.ret) {
            return false;
        }
        if self.params.len() != other.params.len() {
            proof {
                assert(self@.params.len() != other@.params.len());
            }
            return false;
        }
        let mut i: usize = 0;
        while i < self.params.len()
            invariant
                0 <= i <= self.params.len(),
                self.params@.len() == other.params@.len(),
                forall|k: int| 0 <= k < i ==> self.params@[k] == other.params@[k],
            decreases self.params.len() - i,
        {
            if self.params[i] != other.params[i] {
                return false;
            }
            i += 1;
        }
        proof {
            assert(self.params@ =~= other.params@);
        }
        true
    }

    /// Whether the return shape can be abstracted across implementations.
    pub fn is_abstractable(&self) -> (r: bool)
        ensures
            r == (self@.ret != ReturnShape::Opaque),
    {
        !(self.ret == ReturnShape::Opaque)
    }
}

// ---------------------------------------------------------------------------
// Specializations and the dispatch strategy
// ---------------------------------------------------------------------------
/// The policy controlling when resolution occurs and whether its result is
/// cached.
#[derive(Clone, Copy, Debug, PartialEq, Eq, Structural)]
pub enum DispatchMethod {
    /// Chooses `Static` when the build target already decides the outcome,
    /// else `Indirect`.
    Default,
    /// Resolved entirely at build time against the build target's guaranteed
    /// capability set.
    Static,
    /// Re-runs the resolver against the cached capability set on every call.
    Direct,
    /// Resolves once per dispatch point and caches the winning implementation.
    Indirect,
}

/// Mathematical model of a specialization.
pub struct SpecializationView {
    pub target: TargetView,
    pub body: u64,
    pub sig: SignatureView,
    pub span: u64,
}

/// One implementation body bound to the target it requires. The body is an
/// opaque identifier handed through to the consumer that lowers the dispatch
/// point; `span` records where the specialization was declared.
#[derive(Debug)]
pub struct Specialization {
    pub target: Target,
    pub body: u64,
    pub sig: Signature,
    pub span: u64,
}

impl View for Specialization {
    type V = SpecializationView;

    open spec fn view(&self) -> SpecializationView {
        SpecializationView { target: self.target@, body: self.body, sig: self.sig@, span: self.span }
    }
}

impl DeepView for Specialization {
    type V = SpecializationView;

    open spec fn deep_view(&self) -> SpecializationView {
        self.view()
    }
}

// ---------------------------------------------------------------------------
// Ranking
// ---------------------------------------------------------------------------
/// The strict total order the ranking sorts by: more required features first;
/// between equal counts, earlier declaration first. It linearizes specificity:
/// a strictly more specific target always ranks earlier.
pub open spec fn rank_lt(specs: Seq<SpecializationView>, a: int, b: int) -> bool {
    ||| specs[a].target.features.len() > specs[b].target.features.len()
    ||| (specs[a].target.features.len() == specs[b].target.features.len() && a < b)
}

/// A ranking is sorted when every earlier slot ranks before every later one.
pub open spec fn rank_sorted(specs: Seq<SpecializationView>, order: Seq<usize>) -> bool {
    forall|r1: int, r2: int|
        #![trigger order[r1], order[r2]]
        0 <= r1 < r2 < order.len() ==> rank_lt(specs, order[r1] as int, order[r2] as int)
}

/// A ranking is complete when it lists every declaration index.
pub open spec fn rank_complete(specs: Seq<SpecializationView>, order: Seq<usize>) -> bool {
    &&& order.len() == specs.len()
    &&& forall|r: int| 0 <= r < order.len() ==> 0 <= #[trigger] order[r] < specs.len()
    &&& forall|i: usize| i < specs.len() ==> #[trigger] order.contains(i)
}

// ---------------------------------------------------------------------------
// Registry
// ---------------------------------------------------------------------------
/// Mathematical model of a registry.
pub struct RegistryView {
    pub specializations: Seq<SpecializationView>,
    pub baseline_body: u64,
    pub baseline_sig: SignatureView,
    pub method: DispatchMethod,
    pub crate_path: Seq<char>,
    pub span: u64,
}

impl RegistryView {
    /// Every registered target is well formed.
    pub open spec fn targets_wf(self) -> bool {
        forall|i: int|
            0 <= i < self.specializations.len() ==> (#[trigger] self.specializations[i]).target.wf()
    }

    /// No two registered targets are identical.
    pub open spec fn targets_distinct(self) -> bool {
        forall|i: int, j: int|
            0 <= i < j < self.specializations.len() ==> !(#[trigger] self.specializations[i]).target.same_target(
                (#[trigger] self.specializations[j]).target,
            )
    }

    /// Every implementation, baseline included, shares one abstractable call
    /// signature.
    pub open spec fn signatures_uniform(self) -> bool {
        &&& self.baseline_sig.ret != ReturnShape::Opaque
        &&& forall|i: int|
            0 <= i < self.specializations.len() ==> (#[trigger] self.specializations[i]).sig
                == self.baseline_sig
    }

    /// The first declaration index whose signature differs from the baseline,
    /// or the number of specializations when none differs.
    pub open spec fn first_sig_mismatch(self) -> int {
        first_mismatch_from(self.specializations, self.baseline_sig, 0)
    }
}

/// Least index at or after `i` whose signature differs from `sig`, or
/// `specs.len()` when none differs.
pub open spec fn first_mismatch_from(specs: Seq<SpecializationView>, sig: SignatureView, i: int) -> int
    decreases specs.len() - i,
{
    if 0 <= i < specs.len() {
        if specs[i].sig != sig {
            i
        } else {
            first_mismatch_from(specs, sig, i + 1)
        }
    } else {
        specs.len() as int
    }
}

/// The registry under construction for one dispatch point: specializations in
/// declaration order, one baseline implementation, one strategy, and the
/// namespace of the runtime-support collaborator. `span` is the dispatch
/// point's own source location.
#[derive(Debug)]
pub struct Registry {
    specializations: Vec<Specialization>,
    baseline_body: u64,
    baseline_sig: Signature,
    method: DispatchMethod,
    crate_path: String,
    span: u64,
}

impl View for Registry {
    type V = RegistryView;

    closed spec fn view(&self) -> RegistryView {
        RegistryView {
            specializations: self.specializations.deep_view(),
            baseline_body: self.baseline_body,
            baseline_sig: self.baseline_sig@,
            method: self.method,
            crate_path: self.crate_path@,
            span: self.span,
        }
    }
}

impl Registry {
    /// Opens a registry holding only the baseline implementation.
    pub fn new(
        baseline_body: u64,
        baseline_sig: Signature,
        method: DispatchMethod,
        crate_path: String,
        span: u64,
    ) -> (r: Registry)
        ensures
            r@.specializations == Seq::<SpecializationView>::empty(),
            r@.baseline_body == baseline_body,
            r@.baseline_sig == baseline_sig@,
            r@.method == method,
            r@.crate_path == crate_path@,
            r@.span == span,
            r@.targets_wf(),
            r@.targets_distinct(),
    {
        let specializations: Vec<Specialization> = Vec::new();
        proof {
            assert(specializations.deep_view() =~= Seq::<SpecializationView>::empty());
        }
        Registry { specializations, baseline_body, baseline_sig, method, crate_path, span }
    }

    /// Registers one specialization. Fails with `DuplicateTargetError`,
    /// pointing at the new declaration, exactly when an identical target was
    /// already added for this dispatch point; the registry is unchanged then.
    #[verifier::loop_isolation(false)]
    pub fn add(&mut self, s: Specialization) -> (r: Result<(), Error>)
        requires
            old(self)@.targets_wf(),
        ensures
            match r {
                Ok(_) => {
                    &&& forall|i: int|
                        0 <= i < old(self)@.specializations.len() ==> !(
                        #[trigger] old(self)@.specializations[i]).target.same_target(s@.target)
                    &&& final(self)@ == (RegistryView {
                        specializations: old(self)@.specializations.push(s@),
                        ..old(self)@
                    })
                },
                Err(e) => {
                    &&& exists|i: int|
                        0 <= i < old(self)@.specializations.len() && (
                        #[trigger] old(self)@.specializations[i]).target.same_target(s@.target)
                    &&& e == (Error { kind: ErrorKind::DuplicateTarget, span: s@.span })
                    &&& final(self)@ == old(self)@
                },
            },
            final(self)@.targets_wf(),
            old(self)@.targets_distinct() ==> final(self)@.targets_distinct(),
    {
        proof {
            use_type_invariant(&s.target);
        }
        let mut i: usize = 0;
        while i < self.specializations.len()
            invariant
                0 <= i <= self.specializations.len(),
                forall|k: int|
                    0 <= k < i ==> !(#[trigger] self@.specializations[k]).target.same_target(
                        s@.target,
                    ),
            decreases self.specializations.len() - i,
        {
            proof {
                assert(self.specializations.deep_view()[i as int] == self.specializations@[
                    i as int].deep_view());
            }
            if self.specializations[i].target.same_target(&s.target) {
                return Err(Error { kind: ErrorKind::DuplicateTarget, span: s.span });
            }
            i += 1;
        }
        let ghost old_view = self@;
        let ghost sv = s@;
        self.specializations.push(s);
        proof {
            assert(self@.specializations =~= old_view.specializations.push(sv));
            assert(self@ == (RegistryView { specializations: old_view.specializations.push(sv), ..old_view }));
        }
        Ok(())
    }

    /// How many specializations are registered so far.
    pub fn len(&self) -> (r: usize)
        ensures
            r == self@.specializations.len(),
    {
        self.specializations.len()
    }

    /// Validates uniform call signatures and produces the specificity-ranked
    /// candidate list. Fails with `UnsupportedSignatureError` exactly when the
    /// baseline's return shape is opaque (pointing at the dispatch point) or
    /// some specialization's signature differs from the baseline's (pointing
    /// at the first such declaration). On success the declaration order is
    /// preserved unchanged, and the ranking is the unique permutation sorted
    /// by `rank_lt`.
    #[verifier::loop_isolation(false)]
    pub fn finalize(self) -> (r: Result<FinalizedRegistry, Error>)
        requires
            self@.targets_wf(),
        ensures
            match r {
                Ok(f) => {
                    &&& self@.signatures_uniform()
                    &&& f@.specializations == self@.specializations
                    &&& f@.baseline_body == self@.baseline_body
                    &&& f@.baseline_sig == self@.baseline_sig
                    &&& f@.method == self@.method
                    &&& f@.crate_path == self@.crate_path
                    &&& f.wf()
                },
                Err(e) => {
                    &&& !self@.signatures_uniform()
                    &&& e.kind == ErrorKind::UnsupportedSignature
                    &&& e.span == if self@.baseline_sig.ret == ReturnShape::Opaque {
                        self@.span
                    } else {
                        self@.specializations[self@.first_sig_mismatch()].span
                    }
                },
            },
    {
        if !self.baseline_sig.is_abstractable() {
            return Err(Error { kind: ErrorKind::UnsupportedSignature, span: self.span });
        }
        let ghost rv = self@;
        let n = self.specializations.len();
        // signature uniformity
        let mut i: usize = 0;
        while i < n
            invariant
                0 <= i <= n,
                first_mismatch_from(rv.specializations, rv.baseline_sig, 0)
                    == first_mismatch_from(rv.specializations, rv.baseline_sig, i as int),
                forall|k: int| 0 <= k < i ==> (#[trigger] rv.specializations[k]).sig == rv.baseline_sig,
            decreases n - i,
        {
            proof {
                assert(self.specializations.deep_view()[i as int] == self.specializations@[
                    i as int].deep_view());
            }
            if !self.specializations[i].sig.matches(&self.baseline_sig) {
                proof {
                    assert(first_mismatch_from(rv.specializations, rv.baseline_sig, i as int)
                        == i as int);
                }
                return Err(Error {
                    kind: ErrorKind::UnsupportedSignature,
                    span: self.specializations[i].span,
                });
            }
            i += 1;
        }
        // ranking: insertion sort of the declaration indices under rank_lt
        let mut order: Vec<usize> = Vec::new();
        let mut k: usize = 0;
        while k < n
            invariant
                0 <= k <= n,
                order@.len() == k,
                forall|r: int| 0 <= r < k ==> 0 <= #[trigger] order@[r] < k,
                rank_sorted(rv.specializations, order@),
                forall|j: usize| j < k ==> #[trigger] order@.contains(j),
            decreases n - k,
        {
            let mut pos: usize = 0;
            while pos < order.len() && rank_before(&self.specializations, order[pos], k)
                invariant
                    0 <= pos <= order@.len(),
                    forall|r: int|
                        0 <= r < pos ==> rank_lt(rv.specializations, #[trigger] order@[r] as int,
                        k as int),
                decreases order@.len() - pos,
            {
                pos += 1;
            }
            let ghost old_order = order@;
            order.insert(pos, k);
            proof {
                old_order.insert_ensures(pos as int, k);
                let new_order = order@;
                assert(new_order == old_order.insert(pos as int, k));
                assert forall|r1: int, r2: int| 0 <= r1 < r2 < new_order.len() implies rank_lt(
                    rv.specializations,
                    new_order[r1] as int,
                    new_order[r2] as int,
                ) by {
                    if r2 < pos {
                    } else if r1 < pos && r2 == pos {
                        assert(new_order[r2] == k);
                    } else if r1 < pos && r2 > pos {
                        assert(new_order[r2] == old_order[r2 - 1]);
                    } else if r1 == pos {
                        // everything at or after the insertion point ranks after k
                        assert(new_order[r1] == k);
                        assert(new_order[r2] == old_order[r2 - 1]);
                        assert(old_order[pos as int] != k);
                        assert(!rank_lt(rv.specializations, old_order[pos as int] as int, k as int));
                        assert(rank_lt(rv.specializations, k as int, old_order[pos as int] as int));
                    } else {
                        assert(new_order[r1] == old_order[r1 - 1]);
                        assert(new_order[r2] == old_order[r2 - 1]);
                    }
                }
                assert forall|j: usize| j < k + 1 implies #[trigger] new_order.contains(j) by {
                    if j == k {
                        assert(new_order[pos as int] == j);
                    } else {
                        assert(old_order.contains(j));
                        let w = choose|w: int| 0 <= w < old_order.len() && old_order[w] == j;
                        if w < pos {
                            assert(new_order[w] == j);
                        } else {
                            assert(new_order[w + 1] == j);
                        }
                    }
                }
                assert forall|r: int| 0 <= r < new_order.len() implies 0 <= #[trigger] new_order[r]
                    < k + 1 by {
                    if r < pos {
                        assert(new_order[r] == old_order[r]);
                    } else if r == pos {
                    } else {
                        assert(new_order[r] == old_order[r - 1]);
                    }
                }
            }
            k += 1;
        }
        let f = FinalizedRegistry {
            specializations: self.specializations,
            order,
            baseline_body: self.baseline_body,
            baseline_sig: self.baseline_sig,
            method: self.method,
            crate_path: self.crate_path,
        };
        proof {
            assert(f@.specializations == rv.specializations);
        }
        Ok(f)
    }
}

/// Decides `rank_lt` between two declaration indices.
fn rank_before(specs: &Vec<Specialization>, a: usize, b: usize) -> (r: bool)
    requires
        a < specs@.len(),
        b < specs@.len(),
    ensures
        r == rank_lt(specs.deep_view(), a as int, b as int),
{
    proof {
        assert(specs.deep_view()[a as int] == specs@[a as int].deep_view());
        assert(specs.deep_view()[b as int] == specs@[b as int].deep_view());
    }
    let ca = specs[a].target.feature_count();
    let cb = specs[b].target.feature_count();
    ca > cb || (ca == cb && a < b)
}

// ---------------------------------------------------------------------------
// FinalizedRegistry
// ---------------------------------------------------------------------------
/// Mathematical model of a finalized registry.
pub struct FinalizedView {
    pub specializations: Seq<SpecializationView>,
    pub order: Seq<usize>,
    pub baseline_body: u64,
    pub baseline_sig: SignatureView,
    pub method: DispatchMethod,
    pub crate_path: Seq<char>,
}

/// A finalized dispatch point: the declared specializations, untouched and in
/// declaration order; the specificity ranking over their indices; the baseline
/// implementation; the chosen strategy; and the runtime-support namespace.
/// Immutable once produced.
#[derive(Debug)]
pub struct FinalizedRegistry {
    specializations: Vec<Specialization>,
    order: Vec<usize>,
    baseline_body: u64,
    baseline_sig: Signature,
    method: DispatchMethod,
    crate_path: String,
}

impl View for FinalizedRegistry {
    type V = FinalizedView;

    closed spec fn view(&self) -> FinalizedView {
        FinalizedView {
            specializations: self.specializations.deep_view(),
            order: self.order@,
            baseline_body: self.baseline_body,
            baseline_sig: self.baseline_sig@,
            method: self.method,
            crate_path: self.crate_path@,
        }
    }
}

impl FinalizedRegistry {
    /// Well-formed: the ranking is a complete, `rank_lt`-sorted permutation of
    /// the declaration indices, and every target is well formed.
    pub open spec fn wf(self) -> bool {
        &&& rank_complete(self@.specializations, self@.order)
        &&& rank_sorted(self@.specializations, self@.order)
        &&& forall|i: int|
            0 <= i < self@.specializations.len() ==> (#[trigger] self@.specializations[i]).target.wf()
    }

    /// How many specializations this dispatch point has.
    pub fn len(&self) -> (r: usize)
        ensures
            r == self@.specializations.len(),
    {
        self.specializations.len()
    }

    /// The declaration index ranked `r`-th by specificity.
    pub fn ranked_index(&self, r: usize) -> (i: usize)
        requires
            r < self@.order.len(),
        ensures
            i == self@.order[r as int],
    {
        self.order[r]
    }

    /// The specialization at declaration index `i`.
    pub fn specialization(&self, i: usize) -> (s: &Specialization)
        requires
            i < self@.specializations.len(),
        ensures
            s@ == self@.specializations[i as int],
    {
        proof {
            assert(self.specializations.deep_view()[i as int] == self.specializations@[
                i as int].deep_view());
        }
        &self.specializations[i]
    }

    /// The baseline implementation body.
    pub fn baseline_body(&self) -> (r: u64)
        ensures
            r == self@.baseline_body,
    {
        self.baseline_body
    }

    /// The shared call signature.
    pub fn signature(&self) -> (r: &Signature)
        ensures
            r@ == self@.baseline_sig,
    {
        &self.baseline_sig
    }

    /// The chosen dispatch strategy.
    pub fn method(&self) -> (r: DispatchMethod)
        ensures
            r == self@.method,
    {
        self.method
    }

    /// The namespace of the runtime-support collaborator.
    pub fn crate_path(&self) -> (r: &String)
        ensures
            r@ == self@.crate_path,
    {
        &self.crate_path
    }
}

/// The ranking never reorders tied declarations: between slots whose targets
/// require equally many features, the earlier rank holds the earlier
/// declaration. Together with `rank_sorted` this pins declaration order as the
/// only tie-break the resolver-applied ranking uses.
pub proof fn lemma_ranking_stable(specs: Seq<SpecializationView>, order: Seq<usize>, r1: int, r2: int)
    requires
        rank_sorted(specs, order),
        0 <= r1 < r2 < order.len(),
        specs[order[r1] as int].target.features.len() == specs[order[r2] as int].target.features.len(),
    ensures
        order[r1] < order[r2],
{
    assert(rank_lt(specs, order[r1] as int, order[r2] as int));
}

} // verus!
