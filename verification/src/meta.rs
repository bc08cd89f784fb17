//! The declaration configuration model: the attribute syntax a front end
//! hands this library, as plain constructible values. A configuration is a
//! comma-separated list of nested items, each a literal or a meta item (a
//! path, a `name = value` pair, or a `name(...)` list); spans are source
//! offsets the front end supplies, carried through to errors.

use vstd::prelude::*;

use crate::error::{Error, ErrorKind};
use crate::target::str_eq;

verus! {

/// A literal value: a string literal, or any other literal kind (which this
/// configuration never accepts where it matters).
#[derive(Debug)]
pub enum Lit {
    Str { value: String, span: u64 },
    Other { span: u64 },
}

/// Where a literal stands in the source.
pub open spec fn lit_span(l: Lit) -> u64 {
    match l {
        Lit::Str { span, .. } => span,
        Lit::Other { span } => span,
    }
}

/// A (possibly qualified) path naming a configuration key.
#[derive(Debug)]
pub struct MetaPath {
    pub segments: Vec<String>,
    pub span: u64,
}

/// A meta item: a bare path, a `name = literal` pair, or a `name(...)` list.
#[derive(Debug)]
pub enum Meta {
    Path { path: MetaPath, span: u64 },
    NameValue { path: MetaPath, value: Lit, span: u64 },
    List { path: MetaPath, items: Vec<NestedMeta>, span: u64 },
}

/// An element of a meta list: a nested meta item or a literal.
#[derive(Debug)]
pub enum NestedMeta {
    Meta(Meta),
    Lit(Lit),
}

/// The path of a meta item.
pub open spec fn meta_path(m: Meta) -> MetaPath {
    match m {
        Meta::Path { path, .. } => path,
        Meta::NameValue { path, .. } => path,
        Meta::List { path, .. } => path,
    }
}

/// Where a whole meta item stands in the source.
pub open spec fn meta_span(m: Meta) -> u64 {
    match m {
        Meta::Path { span, .. } => span,
        Meta::NameValue { span, .. } => span,
        Meta::List { span, .. } => span,
    }
}

/// The identifier a meta item's path names, when the path is a single plain
/// identifier; `None` for a longer path.
pub open spec fn spec_meta_name(m: Meta) -> Option<Seq<char>> {
    if meta_path(m).segments.len() == 1 {
        Some(meta_path(m).segments[0]@)
    } else {
        None
    }
}

/// Where a whole meta item stands in the source, as executable code.
pub fn span_of(meta: &Meta) -> (r: u64)
    ensures
        r == meta_span(*meta),
{
    match meta {
        Meta::Path { span, .. } => *span,
        Meta::NameValue { span, .. } => *span,
        Meta::List { span, .. } => *span,
    }
}

/// The key a meta item is filed under. Fails with `DeclarationError` at the
/// path's span when the path is not a single identifier.
pub fn meta_path_string(meta: &Meta) -> (r: Result<String, Error>)
    ensures
        match r {
            Ok(s) => spec_meta_name(*meta) == Some(s@),
            Err(e) => spec_meta_name(*meta) is None && e == (Error {
                kind: ErrorKind::Declaration,
                span: meta_path(*meta).span,
            }),
        },
{
    let path = match meta {
        Meta::Path { path, .. } => path,
        Meta::NameValue { path, .. } => path,
        Meta::List { path, .. } => path,
    };
    if path.segments.len() == 1 {
        Ok(path.segments[0].clone())
    } else {
        Err(Error { kind: ErrorKind::Declaration, span: path.span })
    }
}

/// The literal of a `name = value` pair. Fails with `DeclarationError` at the
/// item's span for the other shapes.
pub fn meta_kv_value(meta: Meta) -> (r: Result<Lit, Error>)
    ensures
        match meta {
            Meta::NameValue { value, .. } => r == Ok::<Lit, Error>(value),
            _ => r == Err::<Lit, Error>(Error {
                kind: ErrorKind::Declaration,
                span: meta_span(meta),
            }),
        },
{
    match meta {
        Meta::NameValue { value, .. } => Ok(value),
        Meta::Path { span, .. } => Err(Error { kind: ErrorKind::Declaration, span }),
        Meta::List { span, .. } => Err(Error { kind: ErrorKind::Declaration, span }),
    }
}

/// A string literal's text and span. Fails with `DeclarationError` at the
/// literal's span for any other literal kind.
pub fn lit_str(lit: Lit) -> (r: Result<(String, u64), Error>)
    ensures
        match lit {
            Lit::Str { value, span } => (r matches Ok(p) && p.0 == value && p.1 == span),
            Lit::Other { span } => r == Err::<(String, u64), Error>(Error {
                kind: ErrorKind::Declaration,
                span,
            }),
        },
{
    match lit {
        Lit::Str { value, span } => Ok((value, span)),
        Lit::Other { span } => Err(Error { kind: ErrorKind::Declaration, span }),
    }
}

// ---------------------------------------------------------------------------
// MetaMap
// ---------------------------------------------------------------------------
/// The index of the first entry filed under `k`, or `entries.len()` when no
/// entry is.
pub open spec fn find_key(entries: Seq<(Seq<char>, Meta)>, k: Seq<char>, i: int) -> int
    decreases entries.len() - i,
{
    if 0 <= i < entries.len() {
        if entries[i].0 == k {
            i
        } else {
            find_key(entries, k, i + 1)
        }
    } else {
        entries.len() as int
    }
}

/// Whether some entry is filed under `k`.
pub open spec fn contains_key(entries: Seq<(Seq<char>, Meta)>, k: Seq<char>) -> bool {
    exists|i: int| 0 <= i < entries.len() && (#[trigger] entries[i]).0 == k
}

/// `find_key` finds the first occurrence of `k`, and misses exactly when no
/// entry from `i` on is filed under `k`.
pub proof fn lemma_find_key(entries: Seq<(Seq<char>, Meta)>, k: Seq<char>, i: int)
    requires
        0 <= i <= entries.len(),
    ensures
        i <= find_key(entries, k, i) <= entries.len(),
        forall|q: int| i <= q < find_key(entries, k, i) ==> (#[trigger] entries[q]).0 != k,
        find_key(entries, k, i) < entries.len() ==> entries[find_key(entries, k, i)].0 == k,
    decreases entries.len() - i,
{
    if i < entries.len() && entries[i].0 != k {
        lemma_find_key(entries, k, i + 1);
    }
}

/// What building a map from the items leaves: the keyed entries in their
/// declaration order, or the first error — a literal where a meta item was
/// expected, a path that is no identifier (both `DeclarationError`), or a key
/// already provided (`DuplicateKeyError`), each pointing at the offending
/// item.
pub open spec fn spec_meta_map(
    items: Seq<NestedMeta>,
    i: int,
    acc: Seq<(Seq<char>, Meta)>,
) -> Result<Seq<(Seq<char>, Meta)>, Error>
    decreases items.len() - i,
{
    if 0 <= i < items.len() {
        match items[i] {
            NestedMeta::Lit(l) => Err(Error { kind: ErrorKind::Declaration, span: lit_span(l) }),
            NestedMeta::Meta(m) => match spec_meta_name(m) {
                None => Err(Error { kind: ErrorKind::Declaration, span: meta_path(m).span }),
                Some(key) => if contains_key(acc, key) {
                    Err(Error { kind: ErrorKind::DuplicateKey, span: meta_path(m).span })
                } else {
                    spec_meta_map(items, i + 1, acc.push((key, m)))
                },
            },
        }
    } else {
        Ok(acc)
    }
}

/// The recognized configuration keys, mapped to their items; keys are unique,
/// entries keep declaration order. `span` covers the whole configuration.
#[derive(Debug)]
pub struct MetaMap {
    entries: Vec<(String, Meta)>,
    span: u64,
}

/// The entries of a key/meta vector, with keys as character sequences.
pub open spec fn entries_model(entries: Seq<(String, Meta)>) -> Seq<(Seq<char>, Meta)> {
    Seq::new(entries.len(), |i: int| (entries[i].0@, entries[i].1))
}

impl MetaMap {
    /// The keyed entries, in declaration order.
    pub closed spec fn entries(self) -> Seq<(Seq<char>, Meta)> {
        entries_model(self.entries@)
    }

    /// The configuration's own span.
    pub closed spec fn spec_span(self) -> u64 {
        self.span
    }

    /// Keys are unique.
    pub open spec fn wf(self) -> bool {
        forall|i: int, j: int|
            0 <= i < j < self.entries().len() ==> (#[trigger] self.entries()[i]).0 != (
            #[trigger] self.entries()[j]).0
    }

    /// Files every item under its key. Fails, pointing at the first offending
    /// item, with `DeclarationError` for a literal or a non-identifier path
    /// and with `DuplicateKeyError` for a key already provided.
    #[verifier::loop_isolation(false)]
    pub fn try_from_list(items: Vec<NestedMeta>, span: u64) -> (r: Result<MetaMap, Error>)
        ensures
            match r {
                Ok(m) => {
                    &&& spec_meta_map(items@, 0, Seq::empty()) == Ok::<_, Error>(m.entries())
                    &&& m.wf()
                    &&& m.spec_span() == span
                },
                Err(e) => spec_meta_map(items@, 0, Seq::empty()) == Err::<Seq<(Seq<char>, Meta)>, _>(e),
            },
    {
        let ghost orig = items@;
        let mut items = items;
        let mut entries: Vec<(String, Meta)> = Vec::new();
        let ghost idx: int = 0;
        proof {
            assert(entries_model(entries@) =~= Seq::empty());
        }
        while items.len() > 0
            invariant
                0 <= idx <= orig.len(),
                items@ =~= orig.skip(idx),
                spec_meta_map(orig, 0, Seq::empty()) == spec_meta_map(
                    orig,
                    idx,
                    entries_model(entries@),
                ),
                forall|i: int, j: int|
                    0 <= i < j < entries@.len() ==> (#[trigger] entries@[i]).0@ != (
                    #[trigger] entries@[j]).0@,
            decreases items@.len(),
        {
            let item = items.remove(0);
            proof {
                assert(item == orig[idx]);
                assert(items@ =~= orig.skip(idx + 1));
            }
            let meta = match item {
                NestedMeta::Meta(m) => m,
                NestedMeta::Lit(l) => {
                    let sp = match l {
                        Lit::Str { span, .. } => span,
                        Lit::Other { span } => span,
                    };
                    return Err(Error { kind: ErrorKind::Declaration, span: sp });
                },
            };
            let key = match meta_path_string(&meta) {
                Ok(k) => k,
                Err(e) => {
                    return Err(e);
                },
            };
            // a key given twice is always rejected
            let mut i: usize = 0;
            while i < entries.len()
                invariant
                    0 <= i <= entries@.len(),
                    forall|q: int| 0 <= q < i ==> (#[trigger] entries@[q]).0@ != key@,
                decreases entries@.len() - i,
            {
                if entries[i].0 == key {
                    proof {
                        assert(entries_model(entries@)[i as int].0 == key@);
                        assert(contains_key(entries_model(entries@), key@));
                    }
                    return Err(Error {
                        kind: ErrorKind::DuplicateKey,
                        span: match &meta {
                            Meta::Path { path, .. } => path.span,
                            Meta::NameValue { path, .. } => path.span,
                            Meta::List { path, .. } => path.span,
                        },
                    });
                }
                i += 1;
            }
            proof {
                if contains_key(entries_model(entries@), key@) {
                    let w = choose|w: int|
                        0 <= w < entries_model(entries@).len() && entries_model(entries@)[w].0
                            == key@;
                    assert((#[trigger] entries@[w]).0@ != key@);
                }
            }
            let ghost old_entries = entries@;
            entries.push((key, meta));
            proof {
                assert(entries_model(entries@) =~= entries_model(old_entries).push((key@, meta)));
                idx = idx + 1;
            }
        }
        proof {
            assert(idx == orig.len());
        }
        Ok(MetaMap { entries, span })
    }

    /// Takes the item filed under `key` out of the map, if one is there; the
    /// other entries keep their order.
    #[verifier::loop_isolation(false)]
    pub fn try_remove(&mut self, key: &str) -> (r: Option<Meta>)
        requires
            old(self).wf(),
        ensures
            final(self).wf(),
            final(self).spec_span() == old(self).spec_span(),
            ({
                let found = find_key(old(self).entries(), key@, 0);
                if found < old(self).entries().len() {
                    &&& r == Some(old(self).entries()[found].1)
                    &&& final(self).entries() == old(self).entries().remove(found)
                } else {
                    &&& r is None
                    &&& final(self).entries() == old(self).entries()
                }
            }),
    {
        proof {
            lemma_find_key(old(self).entries(), key@, 0);
        }
        let mut i: usize = 0;
        while i < self.entries.len()
            invariant
                0 <= i <= self.entries@.len(),
                forall|q: int| 0 <= q < i ==> (#[trigger] self.entries@[q]).0@ != key@,
                self == old(self),
            decreases self.entries@.len() - i,
        {
            if str_eq(self.entries[i].0.as_str(), key) {
                proof {
                    assert(self.entries()[i as int].0 == key@);
                    assert(find_key(old(self).entries(), key@, 0) == i as int) by {
                        lemma_find_key(old(self).entries(), key@, 0);
                        let fk = find_key(old(self).entries(), key@, 0);
                        if fk < i as int {
                            assert((#[trigger] self.entries@[fk]).0@ != key@);
                            assert(old(self).entries()[fk].0 == key@);
                        }
                    }
                }
                let entry = self.entries.remove(i);
                proof {
                    assert(final(self).entries() =~= old(self).entries().remove(i as int));
                }
                return Some(entry.1);
            }
            i += 1;
        }
        proof {
            assert forall|q: int|
                0 <= q < old(self).entries().len() implies (#[trigger] old(self).entries()[q]).0
                != key@ by {
                assert((#[trigger] self.entries@[q]).0@ != key@);
            }
            lemma_find_key(old(self).entries(), key@, 0);
            let fk = find_key(old(self).entries(), key@, 0);
            if fk < old(self).entries().len() {
                assert(old(self).entries()[fk].0 == key@);
            }
        }
        None
    }

    /// The configuration's span, for errors that point at the whole list.
    pub fn span(&self) -> (r: u64)
        ensures
            r == self.spec_span(),
    {
        self.span
    }

    /// Succeeds when every key was consumed; otherwise fails with
    /// `UnknownKeyError` pointing at the first remaining item. Unrecognized
    /// keys are never silently ignored.
    pub fn finish(self) -> (r: Result<(), Error>)
        ensures
            match r {
                Ok(_) => self.entries().len() == 0,
                Err(e) => self.entries().len() > 0 && e == (Error {
                    kind: ErrorKind::UnknownKey,
                    span: meta_span(self.entries()[0].1),
                }),
            },
    {
        if self.entries.len() == 0 {
            Ok(())
        } else {
            let sp = match &self.entries[0].1 {
                Meta::Path { span, .. } => *span,
                Meta::NameValue { span, .. } => *span,
                Meta::List { span, .. } => *span,
            };
            proof {
                assert(self.entries()[0].1 == self.entries@[0].1);
            }
            Err(Error { kind: ErrorKind::UnknownKey, span: sp })
        }
    }
}

/// Two occurrences of one configuration key always raise
/// `DuplicateKeyError`: when every item is a meta item named by a plain
/// identifier and two of them share a name, building the map fails, and with
/// `DuplicateKeyError` in particular.
pub proof fn lemma_duplicate_key(items: Seq<NestedMeta>, a: int, b: int)
    requires
        forall|i: int|
            0 <= i < items.len() ==> ((#[trigger] items[i]) matches NestedMeta::Meta(m)
                && spec_meta_name(m) is Some),
        0 <= a < b < items.len(),
        spec_meta_name(items[a]->Meta_0) == spec_meta_name(items[b]->Meta_0),
    ensures
        spec_meta_map(items, 0, Seq::empty()) is Err,
        spec_meta_map(items, 0, Seq::empty())->Err_0.kind == ErrorKind::DuplicateKey,
{
    lemma_duplicate_key_from(items, a, b, 0, Seq::empty());
}

/// Inductive step for `lemma_duplicate_key`: processing from position `i` with
/// accumulated entries `acc` fails with a duplicate key whenever the duplicate
/// pair lies ahead, or the earlier key is already filed.
proof fn lemma_duplicate_key_from(
    items: Seq<NestedMeta>,
    a: int,
    b: int,
    i: int,
    acc: Seq<(Seq<char>, Meta)>,
)
    requires
        forall|q: int|
            i <= q < items.len() ==> ((#[trigger] items[q]) matches NestedMeta::Meta(m)
                && spec_meta_name(m) is Some),
        0 <= a < b < items.len(),
        0 <= i <= b,
        spec_meta_name(items[a]->Meta_0) == spec_meta_name(items[b]->Meta_0),
        i <= a || contains_key(acc, spec_meta_name(items[a]->Meta_0)->0),
    ensures
        spec_meta_map(items, i, acc) is Err,
        spec_meta_map(items, i, acc)->Err_0.kind == ErrorKind::DuplicateKey,
    decreases items.len() - i,
{
    let m = items[i]->Meta_0;
    let key = spec_meta_name(m)->0;
    if contains_key(acc, key) {
    } else {
        let acc2 = acc.push((key, m));
        if i == a {
            assert(contains_key(acc2, spec_meta_name(items[a]->Meta_0)->0)) by {
                assert(acc2[acc2.len() - 1].0 == key);
            }
        } else if i < b {
            if contains_key(acc, spec_meta_name(items[a]->Meta_0)->0) {
                let w = choose|w: int|
                    0 <= w < acc.len() && (#[trigger] acc[w]).0 == spec_meta_name(
                        items[a]->Meta_0,
                    )->0;
                assert(acc2[w].0 == acc[w].0);
                assert(contains_key(acc2, spec_meta_name(items[a]->Meta_0)->0));
            }
        }
        assert(i != b);
        lemma_duplicate_key_from(items, a, b, i + 1, acc2);
    }
}

} // verus!
