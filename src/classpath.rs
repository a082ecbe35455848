//! Class paths: from a managed class path (`pkg/sub/Outer$Inner`) to the
//! module path and struct name of its binding.

use vstd::prelude::*;
use crate::ident::{rust_id, rust_id_spec, str_eq};

verus! {

#[derive(Clone, Copy, Debug, PartialEq, Eq, Structural)]
pub enum IdPartKind {
    Namespace,
    ContainingClass,
    LeafClass,
}

/// One component of a class path.
#[derive(Debug)]
pub struct IdPart {
    pub kind: IdPartKind,
    pub name: String,
}

/// The first index at which `c` occurs in `s`.
pub open spec fn find_first(s: Seq<char>, c: char) -> Option<int>
    decreases s.len(),
{
    if s.len() == 0 {
        None
    } else if s[0] == c {
        Some(0)
    } else {
        match find_first(s.drop_first(), c) {
            Some(k) => Some(k + 1),
            None => None,
        }
    }
}

/// The class components of the last namespace segment: each `$` closes a
/// containing class, and what is left, if anything, is the leaf class.
pub open spec fn class_parts(s: Seq<char>) -> Seq<(IdPartKind, Seq<char>)>
    decreases s.len(),
{
    match find_first(s, '$') {
        Some(k) => if 0 <= k < s.len() {
            seq![(IdPartKind::ContainingClass, s.subrange(0, k))] + class_parts(
                s.subrange(k + 1, s.len() as int),
            )
        } else {
            Seq::empty()
        },
        None => if s.len() == 0 {
            Seq::empty()
        } else {
            seq![(IdPartKind::LeafClass, s)]
        },
    }
}

/// The components of a class path: each `/` closes a namespace segment.
pub open spec fn id_parts(s: Seq<char>) -> Seq<(IdPartKind, Seq<char>)>
    decreases s.len(),
{
    match find_first(s, '/') {
        Some(k) => if 0 <= k < s.len() {
            seq![(IdPartKind::Namespace, s.subrange(0, k))] + id_parts(
                s.subrange(k + 1, s.len() as int),
            )
        } else {
            Seq::empty()
        },
        None => class_parts(s),
    }
}

pub open spec fn parts_view(v: Seq<IdPart>) -> Seq<(IdPartKind, Seq<char>)> {
    v.map_values(|p: IdPart| (p.kind, p.name@))
}

/// Relies on jreflection's `class::Id::iter`, which yields the components of
/// a class path in order: a namespace up to each `/`, then a containing class
/// up to each `$`, then the non-empty rest as the leaf class.
#[verifier::external_body]
fn class_id_parts(path: &str) -> (r: Vec<IdPart>)
    ensures
        parts_view(r@) == id_parts(path@),
{
    jreflection::class::Id(path).iter().map(|p| match p {
        jreflection::class::IdPart::Namespace(s) => IdPart { kind: IdPartKind::Namespace, name: s.to_string() },
        jreflection::class::IdPart::ContainingClass(s) => IdPart { kind: IdPartKind::ContainingClass, name: s.to_string() },
        jreflection::class::IdPart::LeafClass(s) => IdPart { kind: IdPartKind::LeafClass, name: s.to_string() },
    }).collect()
}

/// The module path of a class's binding: its namespace segments, each spelled
/// as an identifier, joined by `::`.
pub open spec fn mod_of_parts(parts: Seq<(IdPartKind, Seq<char>)>) -> Option<Seq<char>>
    decreases parts.len(),
{
    if parts.len() == 0 {
        Some(Seq::empty())
    } else {
        let last = parts.last();
        match mod_of_parts(parts.drop_last()) {
            None => None,
            Some(prev) => if last.0 == IdPartKind::Namespace {
                match rust_id_spec(last.1) {
                    None => None,
                    Some(id) => if prev.len() == 0 {
                        Some(id)
                    } else {
                        Some(prev + "::"@ + id)
                    },
                }
            } else {
                Some(prev)
            },
        }
    }
}

/// The struct name of a class's binding: each containing class spelled as an
/// identifier and followed by `_`, then the leaf class, or its rename.
pub open spec fn name_of_parts(parts: Seq<(IdPartKind, Seq<char>)>, rename: Option<Seq<char>>) -> Option<
    Seq<char>,
>
    decreases parts.len(),
{
    if parts.len() == 0 {
        Some(Seq::empty())
    } else {
        let last = parts.last();
        match name_of_parts(parts.drop_last(), rename) {
            None => None,
            Some(prev) => if last.0 == IdPartKind::Namespace {
                Some(prev)
            } else if last.0 == IdPartKind::ContainingClass {
                match rust_id_spec(last.1) {
                    None => None,
                    Some(id) => Some(prev + id + "_"@),
                }
            } else {
                match rename {
                    Some(r) => Some(prev + r),
                    None => match rust_id_spec(last.1) {
                        None => None,
                        Some(id) => Some(prev + id),
                    },
                }
            },
        }
    }
}

pub open spec fn mod_for_spec(path: Seq<char>) -> Option<Seq<char>> {
    mod_of_parts(id_parts(path))
}

pub open spec fn name_for_spec(path: Seq<char>, rename: Option<Seq<char>>) -> Option<Seq<char>> {
    name_of_parts(id_parts(path), rename)
}

pub open spec fn opt_view(o: Option<String>) -> Option<Seq<char>> {
    match o {
        Some(s) => Some(s@),
        None => None,
    }
}

/// The module path of the binding of the class at `path`.
pub fn mod_for(path: &str) -> (r: Option<String>)
    ensures
        opt_view(r) == mod_for_spec(path@),
{
    let parts = class_id_parts(path);
    let ghost pv = parts_view(parts@);
    let mut buf = String::new();
    let mut i: usize = 0;
    while i < parts.len()
        invariant
            pv == parts_view(parts@),
            pv == id_parts(path@),
            0 <= i <= parts.len(),
            mod_of_parts(pv.subrange(0, i as int)) == Some(buf@),
        decreases parts.len() - i,
    {
        let part = &parts[i];
        proof {
            assert(pv.subrange(0, i + 1).drop_last() =~= pv.subrange(0, i as int));
            assert(pv.subrange(0, i + 1).last() == pv[i as int]);
        }
        if part.kind == IdPartKind::Namespace {
            match rust_id(part.name.as_str()) {
                Err(_) => {
                    proof { lemma_mod_none_extends(pv, i as int + 1); }
                    return None;
                },
                Ok(id) => {
                    if buf.unicode_len() != 0 {
                        buf.append("::");
                    }
                    buf.append(id.as_str());
                },
            }
        }
        i = i + 1;
    }
    assert(pv.subrange(0, parts.len() as int) =~= pv);
    Some(buf)
}

proof fn lemma_mod_none_extends(pv: Seq<(IdPartKind, Seq<char>)>, j: int)
    requires
        0 <= j <= pv.len(),
        mod_of_parts(pv.subrange(0, j)) is None,
    ensures
        mod_of_parts(pv) is None,
    decreases pv.len() - j,
{
    if j < pv.len() {
        assert(pv.subrange(0, j + 1).drop_last() =~= pv.subrange(0, j));
        lemma_mod_none_extends(pv, j + 1);
    } else {
        assert(pv.subrange(0, j) =~= pv);
    }
}

proof fn lemma_name_none_extends(pv: Seq<(IdPartKind, Seq<char>)>, rename: Option<Seq<char>>, j: int)
    requires
        0 <= j <= pv.len(),
        name_of_parts(pv.subrange(0, j), rename) is None,
    ensures
        name_of_parts(pv, rename) is None,
    decreases pv.len() - j,
{
    if j < pv.len() {
        assert(pv.subrange(0, j + 1).drop_last() =~= pv.subrange(0, j));
        lemma_name_none_extends(pv, rename, j + 1);
    } else {
        assert(pv.subrange(0, j) =~= pv);
    }
}

/// The struct name of the binding of the class at `path`; `rename`, where
/// given, replaces the leaf class's name verbatim.
pub fn name_for(path: &str, rename: Option<&str>) -> (r: Option<String>)
    ensures
        opt_view(r) == name_for_spec(
            path@,
            match rename {
                Some(s) => Some(s@),
                None => None,
            },
        ),
{
    let ghost rn: Option<Seq<char>> = match rename {
        Some(s) => Some(s@),
        None => None,
    };
    let parts = class_id_parts(path);
    let ghost pv = parts_view(parts@);
    let mut buf = String::new();
    let mut i: usize = 0;
    while i < parts.len()
        invariant
            pv == parts_view(parts@),
            pv == id_parts(path@),
            0 <= i <= parts.len(),
            rn == match rename {
                Some(s) => Some(s@),
                None => None::<Seq<char>>,
            },
            name_of_parts(pv.subrange(0, i as int), rn) == Some(buf@),
        decreases parts.len() - i,
    {
        let part = &parts[i];
        proof {
            assert(pv.subrange(0, i + 1).drop_last() =~= pv.subrange(0, i as int));
            assert(pv.subrange(0, i + 1).last() == pv[i as int]);
        }
        if part.kind == IdPartKind::ContainingClass {
            match rust_id(part.name.as_str()) {
                Err(_) => {
                    proof { lemma_name_none_extends(pv, rn, i as int + 1); }
                    return None;
                },
                Ok(id) => {
                    buf.append(id.as_str());
                    buf.append("_");
                },
            }
        } else if part.kind == IdPartKind::LeafClass {
            match rename {
                Some(r) => buf.append(r),
                None => match rust_id(part.name.as_str()) {
                    Err(_) => {
                        proof { lemma_name_none_extends(pv, rn, i as int + 1); }
                        return None;
                    },
                    Ok(id) => buf.append(id.as_str()),
                },
            }
        }
        i = i + 1;
    }
    assert(pv.subrange(0, parts.len() as int) =~= pv);
    Some(buf)
}

/// Where the binding of one class stands.
#[derive(Debug)]
pub struct StructPaths {
    pub mod_: String,
    pub struct_name: String,
}

impl StructPaths {
    /// The module path and struct name of the class at `path`, or `None` where
    /// a component has no identifier spelling.
    pub fn new(path: &str, rename: Option<&str>) -> (r: Option<StructPaths>)
        ensures
            r is Some <==> (mod_for_spec(path@) is Some && name_for_spec(
                path@,
                match rename {
                    Some(s) => Some(s@),
                    None => None,
                },
            ) is Some),
            r matches Some(p) ==> Some(p.mod_@) == mod_for_spec(path@) && Some(p.struct_name@)
                == name_for_spec(
                path@,
                match rename {
                    Some(s) => Some(s@),
                    None => None,
                },
            ),
    {
        match mod_for(path) {
            None => None,
            Some(m) => match name_for(path, rename) {
                None => None,
                Some(n) => Some(StructPaths { mod_: m, struct_name: n }),
            },
        }
    }
}

/// The first entry of `table` whose key is `key`.
pub open spec fn lookup_spec(table: Seq<(String, String)>, key: Seq<char>) -> Option<Seq<char>>
    decreases table.len(),
{
    if table.len() == 0 {
        None
    } else if table[0].0@ == key {
        Some(table[0].1@)
    } else {
        lookup_spec(table.drop_first(), key)
    }
}

pub fn lookup<'a>(table: &'a Vec<(String, String)>, key: &str) -> (r: Option<&'a String>)
    ensures
        opt_view(
            match r {
                Some(s) => Some(*s),
                None => None,
            },
        ) == lookup_spec(table@, key@),
{
    let mut i: usize = 0;
    assert(table@.subrange(0, table@.len() as int) =~= table@);
    while i < table.len()
        invariant
            0 <= i <= table.len(),
            lookup_spec(table@, key@) == lookup_spec(table@.subrange(i as int, table@.len() as int), key@),
        decreases table.len() - i,
    {
        proof {
            let t = table@.subrange(i as int, table@.len() as int);
            assert(t[0] == table@[i as int]);
            assert(t.drop_first() =~= table@.subrange(i + 1, table@.len() as int));
        }
        if str_eq(table[i].0.as_str(), key) {
            return Some(&table[i].1);
        }
        i = i + 1;
    }
    None
}

} // verus!
