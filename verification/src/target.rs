//! Target descriptors: a hardware capability requirement, written
//! `<architecture>["+"<feature>]*`, and the capability sets a running machine
//! actually supports. A target is well formed when its architecture and every
//! feature token belong to the known vocabulary and no feature repeats.

use vstd::prelude::*;

use crate::error::{Error, ErrorKind};

verus! {

// ---------------------------------------------------------------------------
// Token splitting on '+'
// ---------------------------------------------------------------------------
/// Index of the first `'+'` in `s`, or `s.len()` when there is none.
pub open spec fn first_plus(s: Seq<char>) -> int
    decreases s.len(),
{
    if s.len() == 0 {
        0
    } else if s[0] == '+' {
        0
    } else {
        1 + first_plus(s.skip(1))
    }
}

/// `first_plus` is exactly the position of the leftmost `'+'`.
pub proof fn lemma_first_plus_at(s: Seq<char>, k: int)
    requires
        0 <= k <= s.len(),
        forall|i: int| 0 <= i < k ==> s[i] != '+',
        k < s.len() ==> s[k] == '+',
    ensures
        first_plus(s) == k,
    decreases s.len(),
{
    if s.len() == 0 {
    } else if s[0] == '+' {
        assert(k == 0);
    } else {
        assert(k >= 1);
        let t = s.skip(1);
        assert forall|i: int| 0 <= i < k - 1 implies t[i] != '+' by {
            assert(t[i] == s[i + 1]);
        }
        if k - 1 < t.len() {
            assert(t[k - 1] == s[k]);
        }
        lemma_first_plus_at(t, k - 1);
    }
}

/// The tokens of `s`, split on `'+'`: always at least one token, and no token
/// contains `'+'`. The first token is the architecture, the rest are features.
pub open spec fn plus_tokens(s: Seq<char>) -> Seq<Seq<char>>
    decreases s.len(),
{
    let i = first_plus(s);
    if 0 <= i < s.len() {
        seq![s.subrange(0, i)] + plus_tokens(s.subrange(i + 1, s.len() as int))
    } else {
        seq![s]
    }
}

/// Splitting a string whose leftmost `'+'` stands at `k` peels off the prefix.
pub proof fn lemma_plus_tokens_step(s: Seq<char>, k: int)
    requires
        0 <= k < s.len(),
        forall|i: int| 0 <= i < k ==> s[i] != '+',
        s[k] == '+',
    ensures
        plus_tokens(s) == seq![s.subrange(0, k)] + plus_tokens(
            s.subrange(k + 1, s.len() as int),
        ),
{
    lemma_first_plus_at(s, k);
}

/// A string without `'+'` is a single token.
pub proof fn lemma_plus_tokens_whole(s: Seq<char>)
    requires
        forall|i: int| 0 <= i < s.len() ==> s[i] != '+',
    ensures
        plus_tokens(s) == seq![s],
{
    lemma_first_plus_at(s, s.len() as int);
}

// ---------------------------------------------------------------------------
// Vocabulary
// ---------------------------------------------------------------------------
/// Architectures this library knows about.
pub open spec fn known_architecture(a: Seq<char>) -> bool {
    a == "x86"@ || a == "x86_64"@ || a == "arm64"@ || a == "aarch64"@
}

/// Whether an architecture tag names the x86 family.
pub open spec fn is_x86_family(a: Seq<char>) -> bool {
    a == "x86"@ || a == "x86_64"@
}

/// Whether an architecture tag names the 64-bit Arm family.
pub open spec fn is_arm_family(a: Seq<char>) -> bool {
    a == "arm64"@ || a == "aarch64"@
}

/// The feature vocabulary, per architecture family.
pub open spec fn known_feature(arch: Seq<char>, f: Seq<char>) -> bool {
    if is_x86_family(arch) {
        f == "sse"@ || f == "sse2"@ || f == "sse3"@ || f == "ssse3"@ || f == "sse4.1"@ || f
            == "sse4.2"@ || f == "avx"@ || f == "avx2"@ || f == "fma"@ || f == "avx512f"@
    } else if is_arm_family(arch) {
        f == "neon"@ || f == "sve"@ || f == "sve2"@
    } else {
        false
    }
}

/// String equality on slices: true exactly when the two views agree.
pub fn str_eq(a: &str, b: &str) -> (r: bool)
    ensures
        r == (a@ == b@),
{
    let sa: String = String::from_str(a);
    let sb: String = String::from_str(b);
    sa == sb
}

/// Decides `known_architecture`.
pub fn is_known_architecture(a: &str) -> (r: bool)
    ensures
        r == known_architecture(a@),
{
    str_eq(a, "x86") || str_eq(a, "x86_64") || str_eq(a, "arm64") || str_eq(a, "aarch64")
}

/// Decides `known_feature`.
pub fn is_known_feature(arch: &str, f: &str) -> (r: bool)
    ensures
        r == known_feature(arch@, f@),
{
    if str_eq(arch, "x86") || str_eq(arch, "x86_64") {
        str_eq(f, "sse") || str_eq(f, "sse2") || str_eq(f, "sse3") || str_eq(f, "ssse3") || str_eq(
            f,
            "sse4.1",
        ) || str_eq(f, "sse4.2") || str_eq(f, "avx") || str_eq(f, "avx2") || str_eq(f, "fma")
            || str_eq(f, "avx512f")
    } else if str_eq(arch, "arm64") || str_eq(arch, "aarch64") {
        str_eq(f, "neon") || str_eq(f, "sve") || str_eq(f, "sve2")
    } else {
        false
    }
}

// ---------------------------------------------------------------------------
// CapabilitySet
// ---------------------------------------------------------------------------
/// Mathematical model of a capability set.
pub struct CapabilityView {
    pub architecture: Seq<char>,
    pub features: Seq<Seq<char>>,
}

impl CapabilityView {
    /// The supported features, as a set.
    pub open spec fn feature_set(self) -> Set<Seq<char>> {
        self.features.to_set()
    }
}

/// The set of feature tokens the running hardware supports, for one
/// architecture. Immutable once built; an empty set is always a safe answer.
#[derive(Debug)]
pub struct CapabilitySet {
    architecture: String,
    features: Vec<String>,
}

impl View for CapabilitySet {
    type V = CapabilityView;

    closed spec fn view(&self) -> CapabilityView {
        CapabilityView { architecture: self.architecture@, features: self.features.deep_view() }
    }
}

impl CapabilitySet {
    /// Builds a capability set from detected feature tokens.
    pub fn new(architecture: String, features: Vec<String>) -> (r: CapabilitySet)
        ensures
            r@.architecture == architecture@,
            r@.features == features.deep_view(),
    {
        CapabilitySet { architecture, features }
    }

    /// The empty capability set: what detection reports when its mechanism is
    /// unavailable, so that dispatch degrades to the baseline instead of
    /// failing.
    pub fn empty(architecture: String) -> (r: CapabilitySet)
        ensures
            r@.architecture == architecture@,
            r@.features == Seq::<Seq<char>>::empty(),
            r@.feature_set() == Set::<Seq<char>>::empty(),
    {
        let features: Vec<String> = Vec::new();
        proof {
            assert(features.deep_view() =~= Seq::<Seq<char>>::empty());
            assert(Seq::<Seq<char>>::empty().to_set() =~= Set::<Seq<char>>::empty());
        }
        CapabilitySet { architecture, features }
    }

    /// The architecture this capability set was detected for.
    pub fn architecture(&self) -> (r: &String)
        ensures
            r@ == self@.architecture,
    {
        &self.architecture
    }

    /// Whether the hardware supports feature `f`.
    #[verifier::loop_isolation(false)]
    pub fn supports(&self, f: &String) -> (r: bool)
        ensures
            r == self@.feature_set().contains(f@),
    {
        let mut i: usize = 0;
        while i < self.features.len()
            invariant
                0 <= i <= self.features.len(),
                forall|k: int| 0 <= k < i ==> self@.features[k] != f@,
            decreases self.features.len() - i,
        {
            if self.features[i] == *f {
                assert(self@.features[i as int] == f@);
                assert(self@.features.contains(f@));
                return true;
            }
            i += 1;
        }
        proof {
            if self@.feature_set().contains(f@) {
                let k = choose|k: int| 0 <= k < self@.features.len() && self@.features[k] == f@;
                assert(self@.features[k] != f@);
            }
        }
        false
    }
}

// ---------------------------------------------------------------------------
// Target
// ---------------------------------------------------------------------------
/// Mathematical model of a target.
pub struct TargetView {
    pub architecture: Seq<char>,
    pub features: Seq<Seq<char>>,
}

impl TargetView {
    /// The required features, as a set.
    pub open spec fn feature_set(self) -> Set<Seq<char>> {
        self.features.to_set()
    }

    /// Well-formed: known architecture, known features, no duplicate feature.
    pub open spec fn wf(self) -> bool {
        &&& known_architecture(self.architecture)
        &&& forall|i: int|
            0 <= i < self.features.len() ==> known_feature(
                self.architecture,
                #[trigger] self.features[i],
            )
        &&& self.features.no_duplicates()
    }

    /// Satisfaction: the architecture matches and every required feature is
    /// supported.
    pub open spec fn satisfied_by(self, caps: CapabilityView) -> bool {
        self.architecture == caps.architecture && self.feature_set() <= caps.feature_set()
    }

    /// Specificity: a strict partial order over targets of one architecture,
    /// by strict inclusion of feature sets. Targets of differing architectures
    /// are incomparable.
    pub open spec fn more_specific_than(self, other: TargetView) -> bool {
        self.architecture == other.architecture && other.feature_set() <= self.feature_set()
            && !(self.feature_set() <= other.feature_set())
    }

    /// Identical targets: same architecture and the same feature set.
    pub open spec fn same_target(self, other: TargetView) -> bool {
        self.architecture == other.architecture && self.feature_set() == other.feature_set()
    }
}

/// The target a string of the form `<architecture>["+"<feature>]*` denotes:
/// first token the architecture, remaining tokens the features.
pub open spec fn spec_target_of(s: Seq<char>) -> TargetView {
    let toks = plus_tokens(s);
    TargetView { architecture: toks[0], features: toks.skip(1) }
}

/// Whether a target string parses: its token split must be well formed.
pub open spec fn spec_target_ok(s: Seq<char>) -> bool {
    spec_target_of(s).wf()
}

/// A parsed hardware capability requirement: an architecture tag plus an
/// ordered, duplicate-free set of feature tokens.
#[derive(Debug)]
pub struct Target {
    architecture: String,
    features: Vec<String>,
}

impl View for Target {
    type V = TargetView;

    closed spec fn view(&self) -> TargetView {
        TargetView { architecture: self.architecture@, features: self.features.deep_view() }
    }
}

impl Target {
    /// Every target value is well formed: parsing is the only way to build one.
    #[verifier::type_invariant]
    pub open spec fn type_inv(self) -> bool {
        self@.wf()
    }

    /// Parses `<architecture>["+"<feature>]*`. Fails with `ParseError` at
    /// `span` when the architecture is missing or unknown, a feature token is
    /// unrecognized for that architecture, a token is duplicated, or a
    /// separator trails.
    #[verifier::loop_isolation(false)]
    pub fn parse(text: &str, span: u64) -> (r: Result<Target, Error>)
        ensures
            match r {
                Ok(t) => spec_target_ok(text@) && t@ == spec_target_of(text@) && t@.wf(),
                Err(e) => !spec_target_ok(text@) && e == (Error {
                    kind: ErrorKind::Parse,
                    span,
                }),
            },
    {
        let s = text;
        let n = s.unicode_len();
        let mut tokens: Vec<String> = Vec::new();
        let mut start: usize = 0;
        let mut i: usize = 0;
        proof {
            assert(s@.subrange(0, n as int) =~= s@);
        }
        while i < n
            invariant
                0 <= start <= i <= n,
                n == s@.len(),
                forall|k: int| start <= k < i ==> s@[k] != '+',
                plus_tokens(s@) =~= tokens.deep_view() + plus_tokens(
                    s@.subrange(start as int, n as int),
                ),
            decreases n - i,
        {
            let c = s.get_char(i);
            if c == '+' {
                let tok = s.substring_char(start, i);
                let ghost old_dv = tokens.deep_view();
                tokens.push(String::from_str(tok));
                proof {
                    assert(tokens.deep_view() =~= old_dv.push(s@.subrange(start as int, i as int)));
                    let u = s@.subrange(start as int, n as int);
                    let k = i - start;
                    assert forall|j: int| 0 <= j < k implies u[j] != '+' by {
                        assert(u[j] == s@[start + j]);
                    }
                    assert(u[k] == s@[i as int]);
                    lemma_plus_tokens_step(u, k);
                    assert(u.subrange(0, k) =~= s@.subrange(start as int, i as int));
                    assert(u.subrange(k + 1, u.len() as int) =~= s@.subrange(
                        i + 1 as int,
                        n as int,
                    ));
                    assert(plus_tokens(s@) =~= tokens.deep_view() + plus_tokens(
                        s@.subrange(i + 1 as int, n as int),
                    ));
                }
                start = i + 1;
            }
            i += 1;
        }
        let tok = s.substring_char(start, n);
        let ghost old_dv = tokens.deep_view();
        tokens.push(String::from_str(tok));
        proof {
            let u = s@.subrange(start as int, n as int);
            lemma_plus_tokens_whole(u);
            assert(tokens.deep_view() =~= old_dv.push(u));
            assert(plus_tokens(s@) =~= tokens.deep_view());
        }
        // tokens now holds exactly the '+'-split of the input; validate it.
        let ghost toks = plus_tokens(s@);
        let err = Error { kind: ErrorKind::Parse, span };
        let arch: String = tokens[0].clone();
        assert(arch@ == toks[0]);
        if !is_known_architecture(arch.as_str()) {
            return Err(err);
        }
        let mut features: Vec<String> = Vec::new();
        let mut j: usize = 1;
        proof {
            assert(features.deep_view() =~= toks.skip(1).subrange(0, 0));
        }
        while j < tokens.len()
            invariant
                1 <= j <= tokens.len(),
                toks == plus_tokens(s@),
                tokens.deep_view() == toks,
                toks.len() == tokens.len(),
                arch@ == toks[0],
                features.deep_view() =~= toks.skip(1).subrange(0, j - 1),
                forall|k: int|
                    0 <= k < j - 1 ==> known_feature(arch@, #[trigger] toks.skip(1)[k]),
                toks.skip(1).subrange(0, j - 1).no_duplicates(),
            decreases tokens.len() - j,
        {
            let f: String = tokens[j].clone();
            proof {
                assert(tokens.deep_view()[j as int] == tokens@[j as int]@);
                assert(toks.skip(1)[j - 1] == toks[j as int]);
                assert(f@ == toks.skip(1)[j - 1]);
            }
            if !is_known_feature(arch.as_str(), f.as_str()) {
                proof {
                    assert(!spec_target_of(s@).wf());
                }
                return Err(err);
            }
            // reject a duplicated feature token
            let mut k: usize = 0;
            while k < features.len()
                invariant
                    0 <= k <= features.len(),
                    forall|m: int| 0 <= m < k ==> features.deep_view()[m] != f@,
                    f@ == toks.skip(1)[j - 1],
                    toks == plus_tokens(s@),
                    arch@ == toks[0],
                    features.deep_view() =~= toks.skip(1).subrange(0, j - 1),
                    1 <= j < toks.len(),
                decreases features.len() - k,
            {
                if features[k] == f {
                    proof {
                        let fs = spec_target_of(s@).features;
                        assert(features.deep_view()[k as int] == features@[k as int]@);
                        assert(fs[k as int] == f@ && fs[j - 1] == f@ && k < j - 1);
                        assert(!fs.no_duplicates());
                    }
                    return Err(err);
                }
                k += 1;
            }
            let ghost old_fv = features.deep_view();
            features.push(f);
            proof {
                assert(features.deep_view() =~= old_fv.push(toks.skip(1)[j - 1]));
                assert(features.deep_view() =~= toks.skip(1).subrange(0, j as int));
            }
            j += 1;
        }
        proof {
            assert(toks.skip(1).subrange(0, toks.skip(1).len() as int) =~= toks.skip(1));
            assert(features.deep_view() =~= toks.skip(1));
            assert(spec_target_of(s@).wf());
        }
        Ok(Target { architecture: arch, features })
    }

    /// The architecture tag.
    pub fn architecture(&self) -> (r: &String)
        ensures
            r@ == self@.architecture,
    {
        &self.architecture
    }

    /// The feature tokens, in the order the target string listed them.
    pub fn features(&self) -> (r: &Vec<String>)
        ensures
            r.deep_view() == self@.features,
    {
        &self.features
    }

    /// The number of required features: the target's specificity rank key.
    pub fn feature_count(&self) -> (r: usize)
        ensures
            r == self@.features.len(),
    {
        self.features.len()
    }

    /// True iff the architecture matches and every required feature is in
    /// `caps`: exactly `self@.satisfied_by(caps@)`.
    #[verifier::loop_isolation(false)]
    pub fn is_satisfied_by(&self, caps: &CapabilitySet) -> (r: bool)
        ensures
            r == self@.satisfied_by(caps@),
    {
        if !(self.architecture == *caps.architecture()) {
            return false;
        }
        let mut i: usize = 0;
        while i < self.features.len()
            invariant
                0 <= i <= self.features.len(),
                self@.architecture == caps@.architecture,
                forall|k: int| 0 <= k < i ==> caps@.feature_set().contains(#[trigger] self@.features[k]),
            decreases self.features.len() - i,
        {
            if !caps.supports(&self.features[i]) {
                proof {
                    assert(self@.features.contains(self@.features[i as int]));
                }
                return false;
            }
            i += 1;
        }
        proof {
            assert forall|f: Seq<char>| self@.feature_set().contains(f) implies caps@.feature_set().contains(f) by {
                let k = choose|k: int| 0 <= k < self@.features.len() && self@.features[k] == f;
                assert(caps@.feature_set().contains(self@.features[k]));
            }
        }
        true
    }

    /// True iff `self` requires strictly more than `other` on the same
    /// architecture: exactly `self@.more_specific_than(other@)`.
    pub fn is_more_specific_than(&self, other: &Target) -> (r: bool)
        ensures
            r == self@.more_specific_than(other@),
    {
        if !(self.architecture == other.architecture) {
            return false;
        }
        subset_of(&other.features, &self.features) && !subset_of(&self.features, &other.features)
    }

    /// True iff `self` and `other` name the same architecture and the same
    /// feature set: exactly `self@.same_target(other@)`.
    pub fn same_target(&self, other: &Target) -> (r: bool)
        ensures
            r == self@.same_target(other@),
    {
        if !(self.architecture == other.architecture) {
            return false;
        }
        let ab = subset_of(&self.features, &other.features);
        let ba = subset_of(&other.features, &self.features);
        proof {
            if ab && ba {
                assert(self@.feature_set() =~= other@.feature_set());
            }
        }
        ab && ba
    }
}

/// A strictly more specific well-formed target requires strictly more
/// features: specificity refines the feature-count ranking key.
pub proof fn lemma_more_specific_count(a: TargetView, b: TargetView)
    requires
        a.wf(),
        b.wf(),
        a.more_specific_than(b),
    ensures
        a.features.len() > b.features.len(),
{
    broadcast use vstd::seq_lib::seq_to_set_is_finite;

    a.features.unique_seq_to_set();
    b.features.unique_seq_to_set();
    let x = choose|x: Seq<char>| a.feature_set().contains(x) && !b.feature_set().contains(x);
    assert(a.feature_set().contains(x) && !b.feature_set().contains(x));
    assert(b.feature_set() <= a.feature_set().remove(x));
    vstd::set_lib::lemma_len_subset(b.feature_set(), a.feature_set().remove(x));
    assert(a.feature_set().remove(x).len() == a.feature_set().len() - 1);
}

/// Decides feature-set inclusion: every token of `a` occurs in `b`.
#[verifier::loop_isolation(false)]
fn subset_of(a: &Vec<String>, b: &Vec<String>) -> (r: bool)
    ensures
        r == (a.deep_view().to_set() <= b.deep_view().to_set()),
{
    let mut i: usize = 0;
    while i < a.len()
        invariant
            0 <= i <= a.len(),
            forall|k: int| 0 <= k < i ==> b.deep_view().to_set().contains(#[trigger] a.deep_view()[k]),
        decreases a.len() - i,
    {
        let mut j: usize = 0;
        let mut found = false;
        while j < b.len()
            invariant
                0 <= j <= b.len(),
                found ==> b.deep_view().to_set().contains(a.deep_view()[i as int]),
                !found ==> forall|m: int| 0 <= m < j ==> b.deep_view()[m] != a.deep_view()[i as int],
                i < a.len(),
            decreases b.len() - j,
        {
            if b[j] == a[i] {
                proof {
                    assert(b.deep_view()[j as int] == b@[j as int]@);
                    assert(a.deep_view()[i as int] == a@[i as int]@);
                    assert(b.deep_view().contains(a.deep_view()[i as int]));
                }
                found = true;
            }
            j += 1;
        }
        if !found {
            proof {
                assert(a.deep_view().contains(a.deep_view()[i as int]));
                if b.deep_view().to_set().contains(a.deep_view()[i as int]) {
                    let m = choose|m: int|
                        0 <= m < b.deep_view().len() && b.deep_view()[m] == a.deep_view()[i as int];
                    assert(b.deep_view()[m] != a.deep_view()[i as int]);
                }
            }
            return false;
        }
        i += 1;
    }
    proof {
        assert forall|f: Seq<char>| a.deep_view().to_set().contains(f) implies b.deep_view().to_set().contains(f) by {
            let k = choose|k: int| 0 <= k < a.deep_view().len() && a.deep_view()[k] == f;
            assert(b.deep_view().to_set().contains(a.deep_view()[k]));
        }
    }
    true
}

} // verus!
