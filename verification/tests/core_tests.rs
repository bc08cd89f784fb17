use multiversion::dispatch::{
    choose_method, dispatch_direct, dispatch_indirect, selected_body, CapabilityCache,
    SelectionCache,
};
use multiversion::registry::{DispatchMethod, Registry, ReturnShape, Signature, Specialization};
use multiversion::resolver::{resolve, Selection};
use multiversion::target::{CapabilitySet, Target};
use multiversion::error::ErrorKind;

fn s(x: &str) -> String {
    x.to_string()
}

fn caps(features: &[&str]) -> CapabilitySet {
    CapabilitySet::new(s("x86_64"), features.iter().map(|f| s(f)).collect())
}

fn sig() -> Signature {
    Signature { params: vec![1, 2], ret: ReturnShape::Concrete { shape: 7 } }
}

fn spec_for(text: &str, body: u64, span: u64) -> Specialization {
    Specialization { target: Target::parse(text, span).unwrap(), body, sig: sig(), span }
}

/// The avx2+sse2 registry of the selection scenarios: two specializations
/// plus a feature-less baseline (body 0).
fn scenario_registry() -> multiversion::registry::FinalizedRegistry {
    let mut reg = Registry::new(0, sig(), DispatchMethod::Default, s("multiversion"), 100);
    reg.add(spec_for("x86_64+avx2", 1, 101)).unwrap();
    reg.add(spec_for("x86_64+sse2", 2, 102)).unwrap();
    reg.finalize().unwrap()
}

#[test]
fn parse_x86_64_avx2_fma() {
    let t = Target::parse("x86_64+avx2+fma", 5).unwrap();
    assert_eq!(t.architecture().as_str(), "x86_64");
    let feats: Vec<&str> = t.features().iter().map(|f| f.as_str()).collect();
    assert_eq!(feats, vec!["avx2", "fma"]);
}

#[test]
fn parse_arm64_neon() {
    let t = Target::parse("arm64+neon", 5).unwrap();
    assert_eq!(t.architecture().as_str(), "arm64");
    let feats: Vec<&str> = t.features().iter().map(|f| f.as_str()).collect();
    assert_eq!(feats, vec!["neon"]);
}

#[test]
fn parse_trailing_separator_fails() {
    let e = Target::parse("x86_64+", 9).unwrap_err();
    assert_eq!(e.kind, ErrorKind::Parse);
    assert_eq!(e.span, 9);
}

#[test]
fn parse_unknown_architecture_fails() {
    let e = Target::parse("riscv64+avx2", 3).unwrap_err();
    assert_eq!(e.kind, ErrorKind::Parse);
}

#[test]
fn parse_empty_architecture_fails() {
    assert_eq!(Target::parse("", 1).unwrap_err().kind, ErrorKind::Parse);
    assert_eq!(Target::parse("+avx2", 1).unwrap_err().kind, ErrorKind::Parse);
}

#[test]
fn parse_unknown_feature_fails() {
    let e = Target::parse("x86_64+altivec", 4).unwrap_err();
    assert_eq!(e.kind, ErrorKind::Parse);
}

#[test]
fn parse_foreign_feature_fails() {
    // neon belongs to the arm vocabulary, not to x86
    let e = Target::parse("x86_64+neon", 4).unwrap_err();
    assert_eq!(e.kind, ErrorKind::Parse);
}

#[test]
fn parse_duplicate_feature_fails() {
    let e = Target::parse("x86_64+avx2+avx2", 4).unwrap_err();
    assert_eq!(e.kind, ErrorKind::Parse);
}

#[test]
fn satisfaction_needs_matching_architecture() {
    let t = Target::parse("arm64+neon", 0).unwrap();
    let x86 = caps(&["sse2"]);
    assert!(!t.is_satisfied_by(&x86));
    let arm = CapabilitySet::new(s("arm64"), vec![s("neon"), s("sve")]);
    assert!(t.is_satisfied_by(&arm));
}

#[test]
fn satisfaction_is_feature_subset() {
    let t = Target::parse("x86_64+avx2+fma", 0).unwrap();
    assert!(t.is_satisfied_by(&caps(&["fma", "avx2", "sse2"])));
    assert!(!t.is_satisfied_by(&caps(&["avx2"])));
    assert!(!t.is_satisfied_by(&caps(&[])));
}

#[test]
fn specificity_is_strict_superset() {
    let wide = Target::parse("x86_64+avx2+fma", 0).unwrap();
    let narrow = Target::parse("x86_64+avx2", 0).unwrap();
    assert!(wide.is_more_specific_than(&narrow));
    assert!(!narrow.is_more_specific_than(&wide));
    assert!(!wide.is_more_specific_than(&wide));
    // differing architectures are incomparable
    let arm = Target::parse("arm64+neon", 0).unwrap();
    assert!(!arm.is_more_specific_than(&narrow));
    assert!(!narrow.is_more_specific_than(&arm));
}

#[test]
fn same_target_ignores_feature_order() {
    let a = Target::parse("x86_64+avx2+fma", 0).unwrap();
    let b = Target::parse("x86_64+fma+avx2", 0).unwrap();
    let c = Target::parse("x86_64+fma", 0).unwrap();
    assert!(a.same_target(&b));
    assert!(!a.same_target(&c));
}

#[test]
fn scenario_avx2_sse2_sse_selects_avx2() {
    let reg = scenario_registry();
    let sel = resolve(&reg, &caps(&["avx2", "sse2", "sse"]));
    assert_eq!(sel, Selection::Specialized { index: 0 });
    assert_eq!(selected_body(&reg, sel), 1);
}

#[test]
fn scenario_sse2_selects_sse2() {
    let reg = scenario_registry();
    let sel = resolve(&reg, &caps(&["sse2"]));
    assert_eq!(sel, Selection::Specialized { index: 1 });
    assert_eq!(selected_body(&reg, sel), 2);
}

#[test]
fn scenario_empty_selects_baseline() {
    let reg = scenario_registry();
    let sel = resolve(&reg, &caps(&[]));
    assert_eq!(sel, Selection::Baseline);
    assert_eq!(selected_body(&reg, sel), 0);
}

#[test]
fn duplicate_target_is_rejected_at_second_occurrence() {
    let mut reg = Registry::new(0, sig(), DispatchMethod::Default, s("multiversion"), 100);
    reg.add(spec_for("x86_64+avx2", 1, 101)).unwrap();
    let e = reg.add(spec_for("x86_64+avx2", 2, 102)).unwrap_err();
    assert_eq!(e.kind, ErrorKind::DuplicateTarget);
    assert_eq!(e.span, 102);
}

#[test]
fn duplicate_target_by_feature_set_is_rejected() {
    let mut reg = Registry::new(0, sig(), DispatchMethod::Default, s("multiversion"), 100);
    reg.add(spec_for("x86_64+avx2+fma", 1, 101)).unwrap();
    let e = reg.add(spec_for("x86_64+fma+avx2", 2, 102)).unwrap_err();
    assert_eq!(e.kind, ErrorKind::DuplicateTarget);
}

#[test]
fn baseline_for_empty_registry() {
    let reg = Registry::new(9, sig(), DispatchMethod::Default, s("multiversion"), 0)
        .finalize()
        .unwrap();
    let sel = resolve(&reg, &caps(&["avx2", "sse2"]));
    assert_eq!(sel, Selection::Baseline);
    assert_eq!(selected_body(&reg, sel), 9);
}

#[test]
fn baseline_when_nothing_is_satisfied() {
    // registries of growing size: the baseline comes back whenever the
    // capabilities satisfy none of the candidates
    for n in 0..4u64 {
        let mut reg = Registry::new(0, sig(), DispatchMethod::Default, s("multiversion"), 0);
        let texts = ["x86_64+avx2", "x86_64+sse2+sse3", "x86_64+fma"];
        for i in 0..(n as usize) {
            reg.add(spec_for(texts[i % 3], i as u64 + 1, i as u64)).unwrap();
        }
        let f = match reg.finalize() {
            Ok(f) => f,
            Err(_) => panic!("finalize failed"),
        };
        assert_eq!(resolve(&f, &caps(&["sse"])), Selection::Baseline);
    }
}

#[test]
fn ranking_is_most_specific_first_with_declaration_tiebreak() {
    let mut reg = Registry::new(0, sig(), DispatchMethod::Default, s("multiversion"), 0);
    reg.add(spec_for("x86_64+sse2", 1, 1)).unwrap();
    reg.add(spec_for("x86_64+avx2+fma", 2, 2)).unwrap();
    reg.add(spec_for("x86_64+avx2", 3, 3)).unwrap();
    // sse3 is incomparable with sse2 but counts one feature too: declaration
    // order is the only tie-break
    reg.add(spec_for("x86_64+sse3", 4, 4)).unwrap();
    let f = reg.finalize().unwrap();
    // declaration order is preserved in the recorded set
    assert_eq!(f.specialization(0).body, 1);
    assert_eq!(f.specialization(1).body, 2);
    assert_eq!(f.specialization(2).body, 3);
    assert_eq!(f.specialization(3).body, 4);
    // the ranking sorts by specificity, ties by declaration order
    assert_eq!(f.ranked_index(0), 1); // avx2+fma: two features
    assert_eq!(f.ranked_index(1), 0); // sse2: declared before avx2 and sse3
    assert_eq!(f.ranked_index(2), 2); // avx2
    assert_eq!(f.ranked_index(3), 3); // sse3
}

#[test]
fn resolve_is_idempotent() {
    let reg = scenario_registry();
    let c = caps(&["sse2", "avx2"]);
    let first = resolve(&reg, &c);
    let second = resolve(&reg, &c);
    assert_eq!(first, second);
}

#[test]
fn monotonic_growth_never_selects_less_specific() {
    let reg = scenario_registry();
    let small = caps(&["sse2"]);
    let large = caps(&["sse2", "avx2"]);
    let s1 = resolve(&reg, &small);
    let s2 = resolve(&reg, &large);
    let f1 = match s1 {
        Selection::Specialized { index } => reg.specialization(index).target.feature_count(),
        Selection::Baseline => 0,
    };
    let f2 = match s2 {
        Selection::Specialized { index } => reg.specialization(index).target.feature_count(),
        Selection::Baseline => 0,
    };
    assert!(f2 >= f1);
}

#[test]
fn opaque_return_shape_is_rejected_at_finalization() {
    let opaque = Signature { params: vec![], ret: ReturnShape::Opaque };
    let reg = Registry::new(0, opaque, DispatchMethod::Default, s("multiversion"), 77);
    let e = reg.finalize().unwrap_err();
    assert_eq!(e.kind, ErrorKind::UnsupportedSignature);
    assert_eq!(e.span, 77);
}

#[test]
fn signature_mismatch_is_rejected_at_finalization() {
    let mut reg = Registry::new(0, sig(), DispatchMethod::Default, s("multiversion"), 0);
    let mut bad = spec_for("x86_64+avx2", 1, 55);
    bad.sig = Signature { params: vec![1], ret: ReturnShape::Unit };
    reg.add(bad).unwrap();
    let e = reg.finalize().unwrap_err();
    assert_eq!(e.kind, ErrorKind::UnsupportedSignature);
    assert_eq!(e.span, 55);
}

#[test]
fn capability_cache_fills_once() {
    let mut cache = CapabilityCache::new();
    assert!(cache.get().is_none());
    cache.fill(caps(&["avx2"]));
    assert!(cache.get().unwrap().supports(&s("avx2")));
    // a racing second detection never changes the cached value
    cache.fill(caps(&["sse2"]));
    assert!(cache.get().unwrap().supports(&s("avx2")));
    assert!(!cache.get().unwrap().supports(&s("sse2")));
}

#[test]
fn empty_capability_set_degrades_to_baseline() {
    let reg = scenario_registry();
    let detected = CapabilitySet::empty(s("x86_64"));
    assert_eq!(resolve(&reg, &detected), Selection::Baseline);
}

#[test]
fn indirect_dispatch_settles_and_bypasses_resolution() {
    let reg = scenario_registry();
    let c = caps(&["avx2", "sse2"]);
    let mut slot = SelectionCache::new();
    assert_eq!(dispatch_indirect(&reg, &c, &mut slot), 1);
    // later calls read the cached selection and agree
    assert_eq!(dispatch_indirect(&reg, &c, &mut slot), 1);
}

#[test]
fn direct_dispatch_resolves_every_call() {
    let reg = scenario_registry();
    assert_eq!(dispatch_direct(&reg, &caps(&["sse2"])), 2);
    assert_eq!(dispatch_direct(&reg, &caps(&["avx2"])), 1);
    assert_eq!(dispatch_direct(&reg, &caps(&[])), 0);
}

#[test]
fn default_policy_picks_static_when_build_target_decides() {
    let reg = scenario_registry();
    // the build target guarantees the top-ranked candidate: Static
    assert_eq!(choose_method(&reg, &caps(&["avx2", "sse2"])), DispatchMethod::Static);
    // it does not: Indirect
    assert_eq!(choose_method(&reg, &caps(&["sse2"])), DispatchMethod::Indirect);
    assert_eq!(choose_method(&reg, &caps(&[])), DispatchMethod::Indirect);
}

#[test]
fn explicit_strategy_is_kept() {
    let mut reg = Registry::new(0, sig(), DispatchMethod::Direct, s("multiversion"), 0);
    reg.add(spec_for("x86_64+avx2", 1, 1)).unwrap();
    let f = reg.finalize().unwrap();
    assert_eq!(choose_method(&f, &caps(&[])), DispatchMethod::Direct);
    assert_eq!(f.method(), DispatchMethod::Direct);
}

#[test]
fn finalized_registry_carries_declaration_data() {
    let mut reg = Registry::new(42, sig(), DispatchMethod::Indirect, s("myruntime"), 0);
    reg.add(spec_for("x86_64+avx2", 7, 1)).unwrap();
    let f = reg.finalize().unwrap();
    assert_eq!(f.len(), 1);
    assert_eq!(f.baseline_body(), 42);
    assert_eq!(f.crate_path().as_str(), "myruntime");
    assert!(f.signature().matches(&sig()));
}

#[test]
fn error_text_names_the_kind() {
    let e = Target::parse("x86_64+", 0).unwrap_err();
    assert_eq!(e.text(), "invalid target string");
}
