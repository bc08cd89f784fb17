use multiversion::error::ErrorKind;
use multiversion::front::{make_multiversioned, Function, FunctionDecl, SpecializationDecl};
use multiversion::meta::{Lit, Meta, MetaMap, MetaPath, NestedMeta};
use multiversion::registry::{DispatchMethod, ReturnShape, Signature};
use multiversion::resolver::{resolve, Selection};
use multiversion::target::CapabilitySet;

fn s(x: &str) -> String {
    x.to_string()
}

fn path(name: &str, span: u64) -> MetaPath {
    MetaPath { segments: vec![s(name)], span }
}

fn nv(name: &str, value: &str, span: u64) -> Meta {
    Meta::NameValue {
        path: path(name, span),
        value: Lit::Str { value: s(value), span: span + 1 },
        span,
    }
}

fn clones(targets: &[(&str, u64)], span: u64) -> Meta {
    Meta::List {
        path: path("clones", span),
        items: targets
            .iter()
            .map(|(t, sp)| NestedMeta::Lit(Lit::Str { value: s(t), span: *sp }))
            .collect(),
        span,
    }
}

fn func() -> FunctionDecl {
    FunctionDecl {
        sig: Signature { params: vec![3], ret: ReturnShape::Concrete { shape: 1 } },
        block: 500,
        span: 50,
    }
}

#[test]
fn clones_attribute_builds_a_dispatch_point() {
    let attr = vec![NestedMeta::Meta(clones(&[("x86_64+avx2", 11), ("x86_64+sse2", 12)], 10))];
    let reg = make_multiversioned(attr, 1, func()).unwrap();
    assert_eq!(reg.len(), 2);
    assert_eq!(reg.baseline_body(), 500);
    assert_eq!(reg.crate_path().as_str(), "multiversion");
    assert_eq!(reg.method(), DispatchMethod::Default);
    // every clone shares the dispatch point's own body
    assert_eq!(reg.specialization(0).body, 500);
    assert_eq!(reg.specialization(0).target.architecture().as_str(), "x86_64");
    let c = CapabilitySet::new(s("x86_64"), vec![s("sse2")]);
    assert_eq!(resolve(&reg, &c), Selection::Specialized { index: 1 });
}

#[test]
fn versions_attribute_builds_a_dispatch_point() {
    let attr = vec![NestedMeta::Meta(Meta::List {
        path: path("versions", 10),
        items: vec![
            NestedMeta::Meta(nv("clone", "x86_64+avx2", 11)),
            NestedMeta::Meta(nv("clone", "x86_64+sse2", 13)),
        ],
        span: 10,
    })];
    let reg = make_multiversioned(attr, 1, func()).unwrap();
    assert_eq!(reg.len(), 2);
}

#[test]
fn missing_clones_and_versions_is_a_declaration_error() {
    let e = make_multiversioned(vec![], 99, func()).unwrap_err();
    assert_eq!(e.kind, ErrorKind::Declaration);
    assert_eq!(e.span, 99);
}

#[test]
fn duplicate_configuration_key_is_rejected() {
    let attr = vec![
        NestedMeta::Meta(nv("dispatcher", "direct", 20)),
        NestedMeta::Meta(nv("dispatcher", "static", 30)),
    ];
    let e = make_multiversioned(attr, 1, func()).unwrap_err();
    assert_eq!(e.kind, ErrorKind::DuplicateKey);
    assert_eq!(e.span, 30);
}

#[test]
fn duplicate_key_in_meta_map() {
    let items = vec![
        NestedMeta::Meta(nv("crate_path", "a", 5)),
        NestedMeta::Meta(nv("crate_path", "b", 6)),
    ];
    let e = MetaMap::try_from_list(items, 0).unwrap_err();
    assert_eq!(e.kind, ErrorKind::DuplicateKey);
    assert_eq!(e.span, 6);
}

#[test]
fn unknown_key_is_rejected() {
    let attr = vec![
        NestedMeta::Meta(clones(&[("x86_64+avx2", 11)], 10)),
        NestedMeta::Meta(nv("flavor", "spicy", 40)),
    ];
    let e = make_multiversioned(attr, 1, func()).unwrap_err();
    assert_eq!(e.kind, ErrorKind::UnknownKey);
    assert_eq!(e.span, 40);
}

#[test]
fn literal_where_meta_expected_is_rejected() {
    let attr = vec![NestedMeta::Lit(Lit::Str { value: s("clones"), span: 8 })];
    let e = make_multiversioned(attr, 1, func()).unwrap_err();
    assert_eq!(e.kind, ErrorKind::Declaration);
    assert_eq!(e.span, 8);
}

#[test]
fn qualified_path_key_is_rejected() {
    let attr = vec![NestedMeta::Meta(Meta::Path {
        path: MetaPath { segments: vec![s("a"), s("b")], span: 4 },
        span: 4,
    })];
    let e = make_multiversioned(attr, 1, func()).unwrap_err();
    assert_eq!(e.kind, ErrorKind::Declaration);
    assert_eq!(e.span, 4);
}

#[test]
fn clones_must_be_a_list() {
    let attr = vec![NestedMeta::Meta(nv("clones", "x86_64+avx2", 7))];
    let e = make_multiversioned(attr, 1, func()).unwrap_err();
    assert_eq!(e.kind, ErrorKind::Declaration);
    assert_eq!(e.span, 7);
}

#[test]
fn clone_entry_must_be_a_string_literal() {
    let attr = vec![NestedMeta::Meta(Meta::List {
        path: path("clones", 10),
        items: vec![NestedMeta::Lit(Lit::Other { span: 12 })],
        span: 10,
    })];
    let e = make_multiversioned(attr, 1, func()).unwrap_err();
    assert_eq!(e.kind, ErrorKind::Declaration);
    assert_eq!(e.span, 12);
}

#[test]
fn bad_target_in_clones_is_a_parse_error() {
    let attr = vec![NestedMeta::Meta(clones(&[("x86_64+", 33)], 10))];
    let e = make_multiversioned(attr, 1, func()).unwrap_err();
    assert_eq!(e.kind, ErrorKind::Parse);
    assert_eq!(e.span, 33);
}

#[test]
fn version_entry_with_other_name_is_rejected() {
    let attr = vec![NestedMeta::Meta(Meta::List {
        path: path("versions", 10),
        items: vec![NestedMeta::Meta(nv("alternative", "x86_64+avx2", 15))],
        span: 10,
    })];
    let e = make_multiversioned(attr, 1, func()).unwrap_err();
    assert_eq!(e.kind, ErrorKind::Declaration);
}

#[test]
fn declaring_one_target_twice_is_a_duplicate_target_error() {
    let attr = vec![NestedMeta::Meta(clones(&[("x86_64+avx2", 11), ("x86_64+avx2", 22)], 10))];
    let e = make_multiversioned(attr, 1, func()).unwrap_err();
    assert_eq!(e.kind, ErrorKind::DuplicateTarget);
    // the error references the second occurrence
    assert_eq!(e.span, 22);
}

#[test]
fn dispatcher_key_picks_the_strategy() {
    for (text, method) in [
        ("default", DispatchMethod::Default),
        ("static", DispatchMethod::Static),
        ("direct", DispatchMethod::Direct),
        ("indirect", DispatchMethod::Indirect),
    ] {
        let attr = vec![
            NestedMeta::Meta(clones(&[("x86_64+avx2", 11)], 10)),
            NestedMeta::Meta(nv("dispatcher", text, 20)),
        ];
        let reg = make_multiversioned(attr, 1, func()).unwrap();
        assert_eq!(reg.method(), method);
    }
}

#[test]
fn unknown_dispatcher_value_is_rejected() {
    let attr = vec![
        NestedMeta::Meta(clones(&[("x86_64+avx2", 11)], 10)),
        NestedMeta::Meta(nv("dispatcher", "lazy", 20)),
    ];
    let e = make_multiversioned(attr, 1, func()).unwrap_err();
    assert_eq!(e.kind, ErrorKind::Declaration);
    assert_eq!(e.span, 21);
}

#[test]
fn crate_path_override_is_recorded() {
    let attr = vec![
        NestedMeta::Meta(clones(&[("x86_64+avx2", 11)], 10)),
        NestedMeta::Meta(nv("crate_path", "my::runtime", 20)),
    ];
    let reg = make_multiversioned(attr, 1, func()).unwrap();
    assert_eq!(reg.crate_path().as_str(), "my::runtime");
}

#[test]
fn empty_crate_path_is_rejected() {
    let attr = vec![
        NestedMeta::Meta(clones(&[("x86_64+avx2", 11)], 10)),
        NestedMeta::Meta(nv("crate_path", "", 20)),
    ];
    let e = make_multiversioned(attr, 1, func()).unwrap_err();
    assert_eq!(e.kind, ErrorKind::Declaration);
}

#[test]
fn opaque_return_is_rejected_up_front() {
    let f = FunctionDecl {
        sig: Signature { params: vec![], ret: ReturnShape::Opaque },
        block: 500,
        span: 66,
    };
    let attr = vec![NestedMeta::Meta(clones(&[("x86_64+avx2", 11)], 10))];
    let e = make_multiversioned(attr, 1, f).unwrap_err();
    assert_eq!(e.kind, ErrorKind::UnsupportedSignature);
    assert_eq!(e.span, 66);
}

#[test]
fn declaration_order_is_preserved_in_the_recorded_set() {
    let attr = vec![NestedMeta::Meta(clones(
        &[("x86_64+sse2", 11), ("x86_64+avx2+fma", 12), ("x86_64+avx2", 13)],
        10,
    ))];
    let reg = make_multiversioned(attr, 1, func()).unwrap();
    assert_eq!(reg.specialization(0).span, 11);
    assert_eq!(reg.specialization(1).span, 12);
    assert_eq!(reg.specialization(2).span, 13);
    // the resolver-applied ranking puts the most specific first and keeps
    // declaration order as the only tie-break
    assert_eq!(reg.ranked_index(0), 1);
    assert_eq!(reg.ranked_index(1), 0);
    assert_eq!(reg.ranked_index(2), 2);
}

#[test]
fn function_new_collects_the_configuration() {
    let attr = vec![
        NestedMeta::Meta(clones(&[("arm64+neon", 11)], 10)),
        NestedMeta::Meta(nv("dispatcher", "indirect", 20)),
        NestedMeta::Meta(nv("crate_path", "rt", 30)),
    ];
    let f = Function::new(attr, 1, func()).unwrap();
    assert_eq!(f.specializations.len(), 1);
    assert_eq!(f.specializations[0].target.architecture().as_str(), "arm64");
    assert_eq!(f.dispatcher, DispatchMethod::Indirect);
    assert_eq!(f.crate_path.as_str(), "rt");
}

#[test]
fn specialization_decl_reads_a_clone_pair() {
    let d = SpecializationDecl::try_from_meta(nv("clone", "x86_64+fma", 7)).unwrap();
    assert_eq!(d.target.architecture().as_str(), "x86_64");
    assert_eq!(d.span, 8);
    let e = SpecializationDecl::try_from_meta(Meta::Path { path: path("clone", 7), span: 7 })
        .unwrap_err();
    assert_eq!(e.kind, ErrorKind::Declaration);
}
