//! Processing one dispatch-point declaration: the `clones(...)` /
//! `versions(...)` specialization lists, the optional `dispatcher` and
//! `crate_path` keys, and the conversion of the whole declaration into a
//! registry. Any front end — a builder API, a declarative file, or an
//! attribute parser — can construct the configuration values this module
//! consumes.

use vstd::prelude::*;

use crate::error::{Error, ErrorKind};
use crate::meta::{
    find_key, lit_span, lit_str, meta_kv_value, meta_path, meta_path_string, meta_span, span_of,
    spec_meta_map, spec_meta_name, Lit, Meta, MetaMap, NestedMeta,
};
use crate::registry::{
    DispatchMethod, FinalizedRegistry, Registry, ReturnShape, Signature, SignatureView,
    Specialization, SpecializationView,
};
use crate::target::{spec_target_of, spec_target_ok, str_eq, Target, TargetView};

verus! {

// ---------------------------------------------------------------------------
// Declared specializations
// ---------------------------------------------------------------------------
/// One declared specialization: the dispatch point's body, cloned for
/// `target`; `span` is where the declaration stands.
#[derive(Debug)]
pub struct SpecializationDecl {
    pub target: Target,
    pub span: u64,
}

/// The model of a declared specialization: its target and its span.
pub open spec fn decl_model(d: SpecializationDecl) -> (TargetView, u64) {
    (d.target@, d.span)
}

/// The models of a list of declared specializations, in order.
pub open spec fn decls_model(s: Seq<SpecializationDecl>) -> Seq<(TargetView, u64)> {
    Seq::new(s.len(), |i: int| decl_model(s[i]))
}

/// What one `versions(...)` entry denotes: a `clone = "<target>"` pair gives
/// the parsed target; any other name, shape, or literal kind is a
/// `DeclarationError`, and a bad target string a `ParseError`.
pub open spec fn spec_specialization_of(m: Meta) -> Result<(TargetView, u64), Error> {
    match spec_meta_name(m) {
        None => Err(Error { kind: ErrorKind::Declaration, span: meta_path(m).span }),
        Some(name) => if name == "clone"@ {
            match m {
                Meta::NameValue { value, .. } => match value {
                    Lit::Str { value: text, span } => if spec_target_ok(text@) {
                        Ok((spec_target_of(text@), span))
                    } else {
                        Err(Error { kind: ErrorKind::Parse, span })
                    },
                    Lit::Other { span } => Err(Error { kind: ErrorKind::Declaration, span }),
                },
                _ => Err(Error { kind: ErrorKind::Declaration, span: meta_span(m) }),
            }
        } else {
            Err(Error { kind: ErrorKind::Declaration, span: meta_span(m) })
        },
    }
}

impl SpecializationDecl {
    /// Reads one `versions(...)` entry: exactly `spec_specialization_of`.
    pub fn try_from_meta(meta: Meta) -> (r: Result<SpecializationDecl, Error>)
        ensures
            match r {
                Ok(d) => spec_specialization_of(meta) == Ok::<(TargetView, u64), Error>(
                    decl_model(d),
                ),
                Err(e) => spec_specialization_of(meta) == Err::<(TargetView, u64), Error>(e),
            },
    {
        let name = match meta_path_string(&meta) {
            Ok(n) => n,
            Err(e) => {
                return Err(e);
            },
        };
        if !str_eq(name.as_str(), "clone") {
            return Err(Error { kind: ErrorKind::Declaration, span: span_of(&meta) });
        }
        let lit = match meta_kv_value(meta) {
            Ok(l) => l,
            Err(e) => {
                return Err(e);
            },
        };
        let (text, span) = match lit_str(lit) {
            Ok(p) => p,
            Err(e) => {
                return Err(e);
            },
        };
        match Target::parse(text.as_str(), span) {
            Ok(t) => Ok(SpecializationDecl { target: t, span }),
            Err(e) => Err(e),
        }
    }
}

/// What a `clones(...)` list denotes: each entry must be a string literal
/// naming a target; processing stops at the first offending entry.
pub open spec fn spec_clone_list(
    items: Seq<NestedMeta>,
    i: int,
    acc: Seq<(TargetView, u64)>,
) -> Result<Seq<(TargetView, u64)>, Error>
    decreases items.len() - i,
{
    if 0 <= i < items.len() {
        match items[i] {
            NestedMeta::Lit(l) => match l {
                Lit::Str { value, span } => if spec_target_ok(value@) {
                    spec_clone_list(items, i + 1, acc.push((spec_target_of(value@), span)))
                } else {
                    Err(Error { kind: ErrorKind::Parse, span })
                },
                Lit::Other { span } => Err(Error { kind: ErrorKind::Declaration, span }),
            },
            NestedMeta::Meta(m) => Err(Error { kind: ErrorKind::Declaration, span: meta_span(m) }),
        }
    } else {
        Ok(acc)
    }
}

/// What a `versions(...)` list denotes: each entry must be a meta item that
/// `spec_specialization_of` accepts; processing stops at the first offender.
pub open spec fn spec_version_list(
    items: Seq<NestedMeta>,
    i: int,
    acc: Seq<(TargetView, u64)>,
) -> Result<Seq<(TargetView, u64)>, Error>
    decreases items.len() - i,
{
    if 0 <= i < items.len() {
        match items[i] {
            NestedMeta::Meta(m) => match spec_specialization_of(m) {
                Ok(d) => spec_version_list(items, i + 1, acc.push(d)),
                Err(e) => Err(e),
            },
            NestedMeta::Lit(l) => Err(Error { kind: ErrorKind::Declaration, span: lit_span(l) }),
        }
    } else {
        Ok(acc)
    }
}

/// What the optional `dispatcher` key denotes: absent means the Default
/// meta-policy; present, it must be a string literal naming one of the four
/// strategies.
pub open spec fn spec_dispatcher_of(o: Option<Meta>) -> Result<DispatchMethod, Error> {
    match o {
        None => Ok(DispatchMethod::Default),
        Some(m) => match m {
            Meta::NameValue { value, .. } => match value {
                Lit::Str { value: s, span } => if s@ == "default"@ {
                    Ok(DispatchMethod::Default)
                } else if s@ == "static"@ {
                    Ok(DispatchMethod::Static)
                } else if s@ == "direct"@ {
                    Ok(DispatchMethod::Direct)
                } else if s@ == "indirect"@ {
                    Ok(DispatchMethod::Indirect)
                } else {
                    Err(Error { kind: ErrorKind::Declaration, span })
                },
                Lit::Other { span } => Err(Error { kind: ErrorKind::Declaration, span }),
            },
            _ => Err(Error { kind: ErrorKind::Declaration, span: meta_span(m) }),
        },
    }
}

/// What the optional `crate_path` key denotes: absent defaults to the
/// library's own namespace; present, it must be a non-empty string literal.
pub open spec fn spec_crate_path_of(o: Option<Meta>) -> Result<Seq<char>, Error> {
    match o {
        None => Ok("multiversion"@),
        Some(m) => match m {
            Meta::NameValue { value, .. } => match value {
                Lit::Str { value: s, span } => if s@.len() > 0 {
                    Ok(s@)
                } else {
                    Err(Error { kind: ErrorKind::Declaration, span })
                },
                Lit::Other { span } => Err(Error { kind: ErrorKind::Declaration, span }),
            },
            _ => Err(Error { kind: ErrorKind::Declaration, span: meta_span(m) }),
        },
    }
}

// ---------------------------------------------------------------------------
// The annotated function and its configuration
// ---------------------------------------------------------------------------
/// What the declaration front end reads off the annotated function: its call
/// signature, its body (an opaque identifier), and where it stands.
#[derive(Debug)]
pub struct FunctionDecl {
    pub sig: Signature,
    pub block: u64,
    pub span: u64,
}

/// The model of a processed declaration.
pub struct FunctionModel {
    pub specializations: Seq<(TargetView, u64)>,
    pub crate_path: Seq<char>,
    pub dispatcher: DispatchMethod,
}

/// Removes the first entry filed under `k`: the entry's item, if any, and the
/// remaining entries in order.
pub open spec fn remove_key(
    entries: Seq<(Seq<char>, Meta)>,
    k: Seq<char>,
) -> (Option<Meta>, Seq<(Seq<char>, Meta)>) {
    let f = find_key(entries, k, 0);
    if f < entries.len() {
        (Some(entries[f].1), entries.remove(f))
    } else {
        (None, entries)
    }
}

/// What processing a whole declaration's configuration denotes: the map is
/// built (first error wins), the `clones` list or else the `versions` list
/// gives the specializations (their absence is a `DeclarationError` at the
/// whole configuration), `dispatcher` and `crate_path` are read, and any key
/// left over is an `UnknownKeyError`.
pub open spec fn spec_function_new(items: Seq<NestedMeta>, attr_span: u64) -> Result<
    FunctionModel,
    Error,
> {
    match spec_meta_map(items, 0, Seq::empty()) {
        Err(e) => Err(e),
        Ok(e0) => {
            let clones = remove_key(e0, "clones"@);
            let step = if clones.0 is Some {
                (
                    match clones.0->0 {
                        Meta::List { items: li, .. } => spec_clone_list(li@, 0, Seq::empty()),
                        m => Err(Error { kind: ErrorKind::Declaration, span: meta_span(m) }),
                    },
                    clones.1,
                )
            } else {
                let versions = remove_key(e0, "versions"@);
                (
                    match versions.0 {
                        Some(m) => match m {
                            Meta::List { items: li, .. } => spec_version_list(li@, 0, Seq::empty()),
                            _ => Err(Error { kind: ErrorKind::Declaration, span: meta_span(m) }),
                        },
                        None => Err(Error { kind: ErrorKind::Declaration, span: attr_span }),
                    },
                    versions.1,
                )
            };
            match step.0 {
                Err(e) => Err(e),
                Ok(specs) => {
                    let disp = remove_key(step.1, "dispatcher"@);
                    match spec_dispatcher_of(disp.0) {
                        Err(e) => Err(e),
                        Ok(d) => {
                            let cp = remove_key(disp.1, "crate_path"@);
                            match spec_crate_path_of(cp.0) {
                                Err(e) => Err(e),
                                Ok(path) => if cp.1.len() > 0 {
                                    Err(Error {
                                        kind: ErrorKind::UnknownKey,
                                        span: meta_span(cp.1[0].1),
                                    })
                                } else {
                                    Ok(FunctionModel {
                                        specializations: specs,
                                        crate_path: path,
                                        dispatcher: d,
                                    })
                                },
                            }
                        },
                    }
                },
            }
        },
    }
}

/// A processed declaration: the declared specializations in declaration
/// order, the annotated function, the runtime-support namespace, and the
/// chosen strategy.
#[derive(Debug)]
pub struct Function {
    pub specializations: Vec<SpecializationDecl>,
    pub func: FunctionDecl,
    pub crate_path: String,
    pub dispatcher: DispatchMethod,
}

impl Function {
    /// Processes a declaration's configuration: exactly `spec_function_new`,
    /// with the annotated function carried through unchanged.
    #[verifier::loop_isolation(false)]
    pub fn new(attr: Vec<NestedMeta>, attr_span: u64, func: FunctionDecl) -> (r: Result<
        Function,
        Error,
    >)
        ensures
            match r {
                Ok(f) => {
                    &&& spec_function_new(attr@, attr_span) == Ok::<FunctionModel, Error>(
                        FunctionModel {
                            specializations: decls_model(f.specializations@),
                            crate_path: f.crate_path@,
                            dispatcher: f.dispatcher,
                        },
                    )
                    &&& f.func == func
                },
                Err(e) => spec_function_new(attr@, attr_span) == Err::<FunctionModel, Error>(e),
            },
    {
        let ghost items = attr@;
        let mut map = match MetaMap::try_from_list(attr, attr_span) {
            Ok(m) => m,
            Err(e) => {
                return Err(e);
            },
        };
        let specializations = match map.try_remove("clones") {
            Some(clones) => {
                match clones {
                    Meta::List { items: li, .. } => {
                        match read_clone_list(li) {
                            Ok(s) => s,
                            Err(e) => {
                                return Err(e);
                            },
                        }
                    },
                    other => {
                        return Err(Error {
                            kind: ErrorKind::Declaration,
                            span: span_of(&other),
                        });
                    },
                }
            },
            None => {
                match map.try_remove("versions") {
                    Some(versions) => {
                        match versions {
                            Meta::List { items: li, .. } => {
                                match read_version_list(li) {
                                    Ok(s) => s,
                                    Err(e) => {
                                        return Err(e);
                                    },
                                }
                            },
                            other => {
                                return Err(Error {
                                    kind: ErrorKind::Declaration,
                                    span: span_of(&other),
                                });
                            },
                        }
                    },
                    None => {
                        return Err(Error { kind: ErrorKind::Declaration, span: map.span() });
                    },
                }
            },
        };
        let dispatcher = match map.try_remove("dispatcher") {
            Some(m) => {
                let lit = match meta_kv_value(m) {
                    Ok(l) => l,
                    Err(e) => {
                        return Err(e);
                    },
                };
                let (text, span) = match lit_str(lit) {
                    Ok(p) => p,
                    Err(e) => {
                        return Err(e);
                    },
                };
                if str_eq(text.as_str(), "default") {
                    DispatchMethod::Default
                } else if str_eq(text.as_str(), "static") {
                    DispatchMethod::Static
                } else if str_eq(text.as_str(), "direct") {
                    DispatchMethod::Direct
                } else if str_eq(text.as_str(), "indirect") {
                    DispatchMethod::Indirect
                } else {
                    return Err(Error { kind: ErrorKind::Declaration, span });
                }
            },
            None => DispatchMethod::Default,
        };
        let crate_path = match map.try_remove("crate_path") {
            Some(m) => {
                let lit = match meta_kv_value(m) {
                    Ok(l) => l,
                    Err(e) => {
                        return Err(e);
                    },
                };
                let (text, span) = match lit_str(lit) {
                    Ok(p) => p,
                    Err(e) => {
                        return Err(e);
                    },
                };
                if text.unicode_len() == 0 {
                    return Err(Error { kind: ErrorKind::Declaration, span });
                }
                text
            },
            None => String::from_str("multiversion"),
        };
        match map.finish() {
            Ok(_) => {},
            Err(e) => {
                return Err(e);
            },
        }
        Ok(Function { specializations, func, crate_path, dispatcher })
    }
}

/// Reads a `clones(...)` list: exactly `spec_clone_list` from the start.
#[verifier::loop_isolation(false)]
fn read_clone_list(items: Vec<NestedMeta>) -> (r: Result<Vec<SpecializationDecl>, Error>)
    ensures
        match r {
            Ok(s) => spec_clone_list(items@, 0, Seq::empty()) == Ok::<_, Error>(decls_model(s@)),
            Err(e) => spec_clone_list(items@, 0, Seq::empty()) == Err::<Seq<(TargetView, u64)>, _>(
                e,
            ),
        },
{
    let ghost orig = items@;
    let mut items = items;
    let mut out: Vec<SpecializationDecl> = Vec::new();
    let ghost idx: int = 0;
    proof {
        assert(decls_model(out@) =~= Seq::empty());
    }
    while items.len() > 0
        invariant
            0 <= idx <= orig.len(),
            items@ =~= orig.skip(idx),
            spec_clone_list(orig, 0, Seq::empty()) == spec_clone_list(orig, idx, decls_model(out@)),
        decreases items@.len(),
    {
        let item = items.remove(0);
        proof {
            assert(item == orig[idx]);
            assert(items@ =~= orig.skip(idx + 1));
        }
        let lit = match item {
            NestedMeta::Lit(l) => l,
            NestedMeta::Meta(m) => {
                return Err(Error { kind: ErrorKind::Declaration, span: span_of(&m) });
            },
        };
        let (text, span) = match lit_str(lit) {
            Ok(p) => p,
            Err(e) => {
                return Err(e);
            },
        };
        let target = match Target::parse(text.as_str(), span) {
            Ok(t) => t,
            Err(e) => {
                return Err(e);
            },
        };
        let ghost old_out = out@;
        out.push(SpecializationDecl { target, span });
        proof {
            assert(decls_model(out@) =~= decls_model(old_out).push(
                (spec_target_of(text@), span),
            ));
            idx = idx + 1;
        }
    }
    proof {
        assert(idx == orig.len());
    }
    Ok(out)
}

/// Reads a `versions(...)` list: exactly `spec_version_list` from the start.
#[verifier::loop_isolation(false)]
fn read_version_list(items: Vec<NestedMeta>) -> (r: Result<Vec<SpecializationDecl>, Error>)
    ensures
        match r {
            Ok(s) => spec_version_list(items@, 0, Seq::empty()) == Ok::<_, Error>(decls_model(s@)),
            Err(e) => spec_version_list(items@, 0, Seq::empty()) == Err::<
                Seq<(TargetView, u64)>,
                _,
            >(e),
        },
{
    let ghost orig = items@;
    let mut items = items;
    let mut out: Vec<SpecializationDecl> = Vec::new();
    let ghost idx: int = 0;
    proof {
        assert(decls_model(out@) =~= Seq::empty());
    }
    while items.len() > 0
        invariant
            0 <= idx <= orig.len(),
            items@ =~= orig.skip(idx),
            spec_version_list(orig, 0, Seq::empty()) == spec_version_list(
                orig,
                idx,
                decls_model(out@),
            ),
        decreases items@.len(),
    {
        let item = items.remove(0);
        proof {
            assert(item == orig[idx]);
            assert(items@ =~= orig.skip(idx + 1));
        }
        let meta = match item {
            NestedMeta::Meta(m) => m,
            NestedMeta::Lit(l) => {
                let sp = match l {
                    Lit::Str { span, .. } => span,
                    Lit::Other { span } => span,
                };
                return Err(Error { kind: ErrorKind::Declaration, span: sp });
            },
        };
        let decl = match SpecializationDecl::try_from_meta(meta) {
            Ok(d) => d,
            Err(e) => {
                return Err(e);
            },
        };
        let ghost old_out = out@;
        out.push(decl);
        proof {
            assert(decls_model(out@) =~= decls_model(old_out).push(decl_model(decl)));
            idx = idx + 1;
        }
    }
    proof {
        assert(idx == orig.len());
    }
    Ok(out)
}

// ---------------------------------------------------------------------------
// From a processed declaration to a registry
// ---------------------------------------------------------------------------
/// The least declaration index whose target repeats an earlier one, or
/// `decls.len()` when all targets are distinct.
pub open spec fn spec_first_dup(decls: Seq<(TargetView, u64)>, i: int) -> int
    decreases decls.len() - i,
{
    if 0 <= i < decls.len() {
        if exists|j: int| 0 <= j < i && (#[trigger] decls[j]).0.same_target(decls[i].0) {
            i
        } else {
            spec_first_dup(decls, i + 1)
        }
    } else {
        decls.len() as int
    }
}

/// The registry contents a processed declaration denotes: every declared
/// target bound to the dispatch point's own body and signature.
pub open spec fn spec_registry_contents(f: Function) -> Seq<SpecializationView> {
    Seq::new(
        f.specializations@.len(),
        |i: int|
            SpecializationView {
                target: f.specializations@[i].target@,
                body: f.func.block,
                sig: f.func.sig@,
                span: f.specializations@[i].span,
            },
    )
}

/// Builds the registry a processed declaration denotes, registering every
/// declared specialization in declaration order. Fails with
/// `DuplicateTargetError`, pointing at the second occurrence, exactly when a
/// target repeats.
#[verifier::loop_isolation(false)]
pub fn build_registry(f: Function) -> (r: Result<Registry, Error>)
    ensures
        match r {
            Ok(reg) => {
                &&& spec_first_dup(decls_model(f.specializations@), 0) == f.specializations@.len()
                &&& reg@.specializations == spec_registry_contents(f)
                &&& reg@.baseline_body == f.func.block
                &&& reg@.baseline_sig == f.func.sig@
                &&& reg@.method == f.dispatcher
                &&& reg@.crate_path == f.crate_path@
                &&& reg@.span == f.func.span
                &&& reg@.targets_wf()
            },
            Err(e) => {
                let fd = spec_first_dup(decls_model(f.specializations@), 0);
                &&& fd < f.specializations@.len()
                &&& e == (Error {
                    kind: ErrorKind::DuplicateTarget,
                    span: decls_model(f.specializations@)[fd].1,
                })
            },
        },
{
    let ghost decls = decls_model(f.specializations@);
    let Function { specializations, func, crate_path, dispatcher } = f;
    let sig_for_clones = func.sig.clone();
    let block = func.block;
    let ghost bsig = func.sig@;
    let mut reg = Registry::new(func.block, func.sig, dispatcher, crate_path, func.span);
    let mut rest = specializations;
    let ghost idx: int = 0;
    proof {
        assert(reg@.specializations =~= Seq::empty());
        assert(reg@.specializations =~= decls_contents(decls, block, bsig, 0));
    }
    while rest.len() > 0
        invariant
            0 <= idx <= decls.len(),
            rest@ =~= specializations@.skip(idx),
            decls == decls_model(specializations@),
            bsig == f.func.sig@,
            block == f.func.block,
            reg@.specializations =~= decls_contents(decls, block, bsig, idx),
            reg@.baseline_body == block,
            reg@.baseline_sig == bsig,
            reg@.method == f.dispatcher,
            reg@.crate_path == f.crate_path@,
            reg@.span == f.func.span,
            reg@.targets_wf(),
            sig_for_clones@ == bsig,
            spec_first_dup(decls, 0) == spec_first_dup(decls, idx),
        decreases rest@.len(),
    {
        let decl = rest.remove(0);
        proof {
            assert(decl == specializations@[idx]);
            assert(rest@ =~= specializations@.skip(idx + 1));
        }
        let s = Specialization {
            target: decl.target,
            body: block,
            sig: sig_for_clones.clone(),
            span: decl.span,
        };
        let ghost sv = s@;
        match reg.add(s) {
            Ok(_) => {
                proof {
                    assert(reg@.specializations =~= decls_contents(decls, block, bsig, idx + 1))
                        by {
                        assert(decls_contents(decls, block, bsig, idx + 1) =~= decls_contents(
                            decls,
                            block,
                            bsig,
                            idx,
                        ).push(sv));
                    }
                    // no earlier target matches, so the first duplicate lies beyond idx
                    assert forall|j: int|
                        0 <= j < idx implies !(#[trigger] decls[j]).0.same_target(
                        decls[idx as int].0,
                    ) by {
                        assert(decls_contents(decls, block, bsig, idx)[j].target == decls[j].0);
                    }
                    assert(spec_first_dup(decls, idx) == spec_first_dup(decls, idx + 1));
                    idx = idx + 1;
                }
            },
            Err(e) => {
                proof {
                    let w = choose|w: int|
                        0 <= w < decls_contents(decls, block, bsig, idx).len() && (
                        #[trigger] decls_contents(decls, block, bsig, idx)[w]).target.same_target(
                            sv.target,
                        );
                    assert(decls[w].0.same_target(decls[idx as int].0));
                    assert(spec_first_dup(decls, idx) == idx);
                }
                return Err(e);
            },
        }
    }
    proof {
        assert(idx == decls.len());
        assert(reg@.specializations =~= decls_contents(decls, block, bsig, decls.len() as int));
        assert(reg@.specializations =~= spec_registry_contents(f));
    }
    Ok(reg)
}

/// Two specializations with an identical target for one dispatch point always
/// collide: whenever any two declared targets are the same, the first
/// duplicate index is in range, so building the registry always raises
/// `DuplicateTargetError`.
pub proof fn lemma_duplicate_target(decls: Seq<(TargetView, u64)>, a: int, b: int)
    requires
        0 <= a < b < decls.len(),
        decls[a].0.same_target(decls[b].0),
    ensures
        spec_first_dup(decls, 0) < decls.len(),
{
    lemma_first_dup_hits(decls, a, b, 0);
}

/// Inductive step for `lemma_duplicate_target`: scanning from `i` at or before
/// the second occurrence finds a duplicate no later than it.
proof fn lemma_first_dup_hits(decls: Seq<(TargetView, u64)>, a: int, b: int, i: int)
    requires
        0 <= a < b < decls.len(),
        decls[a].0.same_target(decls[b].0),
        0 <= i <= b,
    ensures
        spec_first_dup(decls, i) <= b,
    decreases b - i,
{
    if i == b {
        assert(0 <= a < i && (#[trigger] decls[a]).0.same_target(decls[i].0));
    } else if exists|j: int| 0 <= j < i && (#[trigger] decls[j]).0.same_target(decls[i].0) {
    } else {
        lemma_first_dup_hits(decls, a, b, i + 1);
    }
}

/// What the whole pipeline denotes for one declaration: an opaque return
/// shape is rejected up front, then the configuration is processed, then a
/// repeated target is rejected, pointing at its second occurrence.
pub open spec fn spec_make_multiversioned(
    items: Seq<NestedMeta>,
    attr_span: u64,
    func: FunctionDecl,
) -> Result<FunctionModel, Error> {
    if func.sig@.ret == ReturnShape::Opaque {
        Err(Error { kind: ErrorKind::UnsupportedSignature, span: func.span })
    } else {
        match spec_function_new(items, attr_span) {
            Err(e) => Err(e),
            Ok(fm) => {
                let fd = spec_first_dup(fm.specializations, 0);
                if fd < fm.specializations.len() {
                    Err(Error {
                        kind: ErrorKind::DuplicateTarget,
                        span: fm.specializations[fd].1,
                    })
                } else {
                    Ok(fm)
                }
            },
        }
    }
}

/// Runs one declaration through the whole pipeline: rejects an opaque return
/// shape, processes the configuration, registers every specialization, and
/// finalizes the registry — ready for a consumer to lower into dispatch code.
pub fn make_multiversioned(attr: Vec<NestedMeta>, attr_span: u64, func: FunctionDecl) -> (r:
    Result<FinalizedRegistry, Error>)
    ensures
        match r {
            Ok(freg) => {
                &&& spec_make_multiversioned(attr@, attr_span, func) is Ok
                &&& ({
                    let fm = spec_make_multiversioned(attr@, attr_span, func)->Ok_0;
                    &&& freg@.specializations == Seq::new(
                        fm.specializations.len(),
                        |i: int|
                            SpecializationView {
                                target: fm.specializations[i].0,
                                body: func.block,
                                sig: func.sig@,
                                span: fm.specializations[i].1,
                            },
                    )
                    &&& freg@.baseline_body == func.block
                    &&& freg@.baseline_sig == func.sig@
                    &&& freg@.method == fm.dispatcher
                    &&& freg@.crate_path == fm.crate_path
                    &&& freg.wf()
                })
            },
            Err(e) => spec_make_multiversioned(attr@, attr_span, func) == Err::<
                FunctionModel,
                Error,
            >(e),
        },
{
    if !func.sig.is_abstractable() {
        return Err(Error { kind: ErrorKind::UnsupportedSignature, span: func.span });
    }
    let ghost fsig = func.sig@;
    let ghost fblock = func.block;
    let f = match Function::new(attr, attr_span, func) {
        Ok(f) => f,
        Err(e) => {
            return Err(e);
        },
    };
    let ghost fm = spec_make_multiversioned(attr@, attr_span, func)->Ok_0;
    let reg = match build_registry(f) {
        Ok(r) => r,
        Err(e) => {
            return Err(e);
        },
    };
    proof {
        assert(reg@.signatures_uniform()) by {
            assert forall|i: int|
                0 <= i < reg@.specializations.len() implies (
            #[trigger] reg@.specializations[i]).sig == reg@.baseline_sig by {
                assert(reg@.specializations[i] == spec_registry_contents(f)[i]);
            }
        }
    }
    match reg.finalize() {
        Ok(freg) => {
            proof {
                assert(freg@.specializations =~= Seq::new(
                    fm.specializations.len(),
                    |i: int|
                        SpecializationView {
                            target: fm.specializations[i].0,
                            body: func.block,
                            sig: func.sig@,
                            span: fm.specializations[i].1,
                        },
                ));
            }
            Ok(freg)
        },
        Err(e) => Err(e),
    }
}

/// The registry contents after the first `i` declarations were added.
pub open spec fn decls_contents(
    decls: Seq<(TargetView, u64)>,
    block: u64,
    sig: SignatureView,
    i: int,
) -> Seq<SpecializationView> {
    Seq::new(
        if 0 <= i <= decls.len() {
            i as nat
        } else {
            0
        },
        |j: int| SpecializationView { target: decls[j].0, body: block, sig: sig, span: decls[j].1 },
    )
}

} // verus!
