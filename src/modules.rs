//! The module tree: bindings arranged as the managed namespaces are, with
//! children kept in name order so that output is the same on every run.

use vstd::prelude::*;
use crate::context::Context;
use crate::classpath::{lookup, lookup_spec};
use crate::structs::{struct_text, Struct};
use crate::text::{debug_quoted, debug_str};

verus! {

/// `a` sorts strictly before `b`, character by character.
pub open spec fn name_lt(a: Seq<char>, b: Seq<char>) -> bool
    decreases a.len(),
{
    if a.len() == 0 {
        b.len() > 0
    } else if b.len() == 0 {
        false
    } else if a[0] != b[0] {
        a[0] < b[0]
    } else {
        name_lt(a.drop_first(), b.drop_first())
    }
}

proof fn lemma_name_total(a: Seq<char>, b: Seq<char>)
    requires
        !name_lt(a, b),
        a != b,
    ensures
        name_lt(b, a),
    decreases a.len(),
{
    if a.len() > 0 && b.len() > 0 && a[0] == b[0] {
        if a.drop_first() == b.drop_first() {
            assert(a =~= seq![a[0]] + a.drop_first());
            assert(b =~= seq![b[0]] + b.drop_first());
        }
        lemma_name_total(a.drop_first(), b.drop_first());
    } else if a.len() == 0 && b.len() == 0 {
        assert(a =~= b);
    }
}

pub fn name_less(a: &str, b: &str) -> (r: bool)
    ensures
        r == name_lt(a@, b@),
{
    let n = a.unicode_len();
    let m = b.unicode_len();
    let mut i: usize = 0;
    assert(a@.subrange(0, n as int) =~= a@);
    assert(b@.subrange(0, m as int) =~= b@);
    while i < n && i < m
        invariant
            n == a@.len(),
            m == b@.len(),
            0 <= i <= n,
            i <= m,
            name_lt(a@, b@) == name_lt(a@.subrange(i as int, n as int), b@.subrange(i as int, m as int)),
        decreases n - i,
    {
        let x = a.get_char(i);
        let y = b.get_char(i);
        proof {
            let sa = a@.subrange(i as int, n as int);
            let sb = b@.subrange(i as int, m as int);
            assert(sa[0] == x && sb[0] == y);
            assert(sa.drop_first() =~= a@.subrange(i + 1, n as int));
            assert(sb.drop_first() =~= b@.subrange(i + 1, m as int));
        }
        if x != y {
            return x < y;
        }
        i = i + 1;
    }
    i < m
}

/// Each name sorts before the next.
pub open spec fn sorted_names(names: Seq<Seq<char>>) -> bool {
    forall|i: int| 0 <= i < names.len() - 1 ==> name_lt(#[trigger] names[i], names[i + 1])
}

/// One node of the tree: its child modules by name, and its structs by
/// name. `depth` bounds the height of the subtree below it.
#[derive(Debug)]
pub struct Module {
    pub structs: Vec<(String, Struct)>,
    pub modules: Vec<(String, Module)>,
    pub depth: usize,
}

pub open spec fn names_of<T>(v: Seq<(String, T)>) -> Seq<Seq<char>> {
    v.map_values(|p: (String, T)| p.0@)
}

impl Module {
    /// Children sorted by name, every child shallower, every struct
    /// well-formed, all the way down.
    pub open spec fn wf(&self) -> bool
        decreases self.depth,
    {
        &&& sorted_names(names_of(self.structs@))
        &&& sorted_names(names_of(self.modules@))
        &&& forall|i: int| 0 <= i < self.structs@.len() ==> (#[trigger] self.structs@[i]).1.java.wf()
        &&& forall|i: int|
            0 <= i < self.modules@.len() ==> (#[trigger] self.modules@[i]).1.depth < self.depth
                && self.modules@[i].1.wf()
    }
}

pub open spec fn struct_attrs(indent: Seq<char>, s: &Struct) -> Seq<char> {
    if indent.len() == 0 {
        (if s.rust.struct_name@.contains('_') {
            "#[allow(non_camel_case_types)] // We map Java inner classes to Outer_Inner\n"@
        } else {
            Seq::empty()
        }) + (if !s.java.public() {
            "#[allow(dead_code)] // We generate structs for private Java types too, just in case.\n"@
        } else {
            Seq::empty()
        }) + "#[allow(deprecated)]             // We're generating deprecated types/methods\n#[allow(non_upper_case_globals)] // We might be generating Java style fields/methods\n#[allow(non_snake_case)]         // We might be generating Java style fields/methods\n"@
    } else {
        Seq::empty()
    }
}

pub open spec fn module_attrs(indent: Seq<char>) -> Seq<char> {
    if indent.len() == 0 {
        "#[allow(non_camel_case_types)]   // We map Java inner classes to Outer_Inner\n#[allow(dead_code)]              // We generate structs for private Java types too, just in case.\n#[allow(deprecated)]             // We're generating deprecated types/methods\n#[allow(non_upper_case_globals)] // We might be generating Java style fields/methods\n#[allow(non_snake_case)]         // We might be generating Java style fields/methods\n"@
    } else {
        Seq::empty()
    }
}

/// What one struct contributes to its module. Without sharding, its
/// declaration; with sharding, an `include!` of the unit it was written to,
/// found in `shards` by class path. A struct that cannot be written, or has
/// no unit, contributes nothing.
pub open spec fn struct_entry_text(ctx: &Context, s: &Struct, indent: Seq<char>, shards: Seq<(String, String)>) -> Seq<
    char,
> {
    if ctx.config.shard_structs {
        match lookup_spec(shards, s.java.path@) {
            Some(p) => struct_attrs(indent, s) + indent + "include!("@ + debug_quoted(p) + ");\n"@,
            None => Seq::empty(),
        }
    } else {
        match struct_text(ctx, s, indent) {
            Some(b) => struct_attrs(indent, s) + b,
            None => Seq::empty(),
        }
    }
}

/// The text of the first `k` structs of a module.
pub open spec fn structs_text(
    ctx: &Context,
    v: Seq<(String, Struct)>,
    indent: Seq<char>,
    shards: Seq<(String, String)>,
    k: int,
) -> Seq<char>
    decreases k,
{
    if k <= 0 {
        Seq::empty()
    } else {
        structs_text(ctx, v, indent, shards, k - 1) + struct_entry_text(ctx, &v[k - 1].1, indent, shards)
    }
}

/// The text of a module's contents: its child modules, each wrapped in a
/// `pub mod` block one level deeper, then its structs.
pub open spec fn module_text(ctx: &Context, m: &Module, indent: Seq<char>, shards: Seq<(String, String)>) -> Seq<char>
    decreases 2 * m.depth + 1, 0int,
{
    modules_text(ctx, m, indent, shards, m.modules@.len() as int) + structs_text(
        ctx,
        m.structs@,
        indent,
        shards,
        m.structs@.len() as int,
    )
}

/// The text of the first `k` child modules of `m`.
pub open spec fn modules_text(ctx: &Context, m: &Module, indent: Seq<char>, shards: Seq<(String, String)>, k: int) -> Seq<char>
    decreases 2 * m.depth, k,
{
    if k <= 0 || k > m.modules@.len() {
        Seq::empty()
    } else {
        let child = &m.modules@[k - 1];
        if child.1.depth >= m.depth {
            modules_text(ctx, m, indent, shards, k - 1)
        } else {
            modules_text(ctx, m, indent, shards, k - 1) + "\n"@ + module_attrs(indent) + indent + "pub mod "@
                + child.0@ + " {\n"@ + indent + "    #[allow(unused_imports)] use super::__jni_bindgen;\n"@
                + module_text(ctx, &child.1, indent + "    "@, shards) + indent + "}\n"@
        }
    }
}

/// Entry `i` is the first in `v` named `x`.
pub open spec fn named_at<T>(v: Seq<(String, T)>, x: Seq<char>, i: int) -> bool {
    &&& 0 <= i < v.len()
    &&& v[i].0@ == x
    &&& forall|j: int| 0 <= j < i ==> (#[trigger] v[j]).0@ != x
}

/// The value of the first entry of `v` named `x`.
pub open spec fn entry<T>(v: Seq<(String, T)>, x: Seq<char>) -> Option<T> {
    if exists|i: int| named_at(v, x, i) {
        Some(v[choose|i: int| named_at(v, x, i)].1)
    } else {
        None
    }
}

proof fn lemma_named_at_unique<T>(v: Seq<(String, T)>, x: Seq<char>, i: int, j: int)
    requires
        named_at(v, x, i),
        named_at(v, x, j),
    ensures
        i == j,
{
    if i < j {
        assert(v[i].0@ != x);
    } else if j < i {
        assert(v[j].0@ != x);
    }
}

proof fn lemma_entry_at<T>(v: Seq<(String, T)>, x: Seq<char>, i: int)
    requires
        named_at(v, x, i),
    ensures
        entry(v, x) == Some(v[i].1),
{
    let k = choose|k: int| named_at(v, x, k);
    lemma_named_at_unique(v, x, i, k);
}

proof fn lemma_entry_none<T>(v: Seq<(String, T)>, x: Seq<char>)
    requires
        forall|i: int| 0 <= i < v.len() ==> (#[trigger] v[i]).0@ != x,
    ensures
        entry(v, x) is None,
{
}

/// The first index named `x`, where there is one.
proof fn lemma_first_named<T>(v: Seq<(String, T)>, x: Seq<char>, i: int)
    requires
        0 <= i < v.len(),
        v[i].0@ == x,
    ensures
        exists|k: int| named_at(v, x, k),
    decreases i,
{
    if forall|j: int| 0 <= j < i ==> (#[trigger] v[j]).0@ != x {
        assert(named_at(v, x, i));
    } else {
        let j = choose|j: int| 0 <= j < i && (#[trigger] v[j]).0@ != x ==> false;
        let j2 = choose|j2: int| 0 <= j2 < i && !((#[trigger] v[j2]).0@ != x);
        lemma_first_named(v, x, j2);
    }
}

/// Replacing the value of the first entry named `key` leaves every other
/// name's entry as it was.
proof fn lemma_entry_update<T>(v: Seq<(String, T)>, key: String, val: T, p: int, x: Seq<char>)
    requires
        named_at(v, key@, p),
    ensures
        entry(v.update(p, (key, val)), x) == if x == key@ {
            Some(val)
        } else {
            entry(v, x)
        },
{
    let w = v.update(p, (key, val));
    if x == key@ {
        assert(named_at(w, x, p));
        lemma_entry_at(w, x, p);
    } else if exists|i: int| named_at(v, x, i) {
        let i = choose|i: int| named_at(v, x, i);
        assert(named_at(w, x, i));
        lemma_entry_at(w, x, i);
        lemma_entry_at(v, x, i);
    } else {
        if exists|i: int| named_at(w, x, i) {
            let i = choose|i: int| named_at(w, x, i);
            assert(i != p);
            assert(w[i] == v[i]);
            assert forall|j: int| 0 <= j < i implies (#[trigger] v[j]).0@ != x by {
                if j != p {
                    assert(w[j] == v[j]);
                }
            }
            assert(named_at(v, x, i));
        }
    }
}

/// Inserting an entry under a name that was absent leaves every other
/// name's entry as it was.
proof fn lemma_entry_insert<T>(v: Seq<(String, T)>, key: String, val: T, p: int, x: Seq<char>)
    requires
        0 <= p <= v.len(),
        forall|i: int| 0 <= i < v.len() ==> (#[trigger] v[i]).0@ != key@,
    ensures
        entry(v.insert(p, (key, val)), x) == if x == key@ {
            Some(val)
        } else {
            entry(v, x)
        },
{
    let w = v.insert(p, (key, val));
    if x == key@ {
        assert(named_at(w, x, p));
        lemma_entry_at(w, x, p);
    } else if exists|i: int| named_at(v, x, i) {
        let i = choose|i: int| named_at(v, x, i);
        let i2 = if i < p {
            i
        } else {
            i + 1
        };
        assert forall|j: int| 0 <= j < i2 implies (#[trigger] w[j]).0@ != x by {
            if j < p {
                assert(w[j] == v[j]);
            } else if j > p {
                assert(w[j] == v[j - 1]);
            }
        }
        assert(named_at(w, x, i2));
        lemma_entry_at(w, x, i2);
        lemma_entry_at(v, x, i);
    } else {
        if exists|i: int| named_at(w, x, i) {
            let i = choose|i: int| named_at(w, x, i);
            let i0 = if i < p {
                i
            } else {
                i - 1
            };
            assert forall|j: int| 0 <= j < i0 implies (#[trigger] v[j]).0@ != x by {
                if j < p {
                    assert(w[j] == v[j]);
                } else {
                    assert(w[j + 1] == v[j]);
                }
            }
            assert(named_at(v, x, i0));
        }
    }
}

fn find_name<T>(v: &Vec<(String, T)>, key: &str) -> (r: Option<usize>)
    ensures
        match r {
            Some(p) => named_at(v@, key@, p as int),
            None => forall|i: int| 0 <= i < v@.len() ==> (#[trigger] v@[i]).0@ != key@,
        },
{
    let mut i: usize = 0;
    while i < v.len()
        invariant
            0 <= i <= v@.len(),
            forall|k: int| 0 <= k < i ==> (#[trigger] v@[k]).0@ != key@,
        decreases v.len() - i,
    {
        if crate::ident::str_eq(v[i].0.as_str(), key) {
            return Some(i);
        }
        i = i + 1;
    }
    None
}

/// Puts `value` under `key` in a list sorted by name: in place of the first
/// entry with that name, or, where there is none, at the position that keeps
/// the list sorted. Returns the position and whether an entry was replaced.
fn insert_sorted<T>(v: &mut Vec<(String, T)>, key: String, value: T) -> (r: (usize, bool))
    requires
        sorted_names(names_of(old(v)@)),
    ensures
        sorted_names(names_of(final(v)@)),
        r.1 ==> named_at(old(v)@, key@, r.0 as int) && final(v)@ == old(v)@.update(r.0 as int, (key, value)),
        !r.1 ==> r.0 <= old(v)@.len() && (forall|i: int|
            0 <= i < old(v)@.len() ==> (#[trigger] old(v)@[i]).0@ != key@) && final(v)@ == old(v)@.insert(
            r.0 as int,
            (key, value),
        ),
{
    let ghost names = names_of(v@);
    match find_name(v, key.as_str()) {
        Some(p) => {
            let ghost k = key;
            let ghost val = value;
            let _old = v.remove(p);
            v.insert(p, (key, value));
            proof {
                assert(v@ =~= old(v)@.update(p as int, (k, val)));
                assert(names_of(v@) =~= names.update(p as int, k@));
                assert(names.update(p as int, k@) =~= names);
            }
            (p, true)
        },
        None => {
            let mut p: usize = 0;
            while p < v.len() && name_less(v[p].0.as_str(), key.as_str())
                invariant
                    0 <= p <= v@.len(),
                    names == names_of(v@),
                    p > 0 ==> name_lt(names[p - 1], key@),
                decreases v@.len() - p,
            {
                p = p + 1;
            }
            proof {
                if p < v@.len() {
                    assert(v@[p as int].0@ != key@);
                    lemma_name_total(names[p as int], key@);
                }
            }
            let ghost k = key;
            let ghost val = value;
            v.insert(p, (key, value));
            proof {
                assert(v@ =~= old(v)@.insert(p as int, (k, val)));
                let nn = names_of(v@);
                assert(nn =~= names.insert(p as int, k@));
                assert forall|i: int| 0 <= i < nn.len() - 1 implies name_lt(#[trigger] nn[i], nn[i + 1]) by {
                    if i < p as int - 1 {
                        assert(nn[i] == names[i] && nn[i + 1] == names[i + 1]);
                    } else if i == p as int - 1 {
                    } else if i == p as int {
                    } else {
                        assert(nn[i] == names[i - 1] && nn[i + 1] == names[i]);
                    }
                }
            }
            (p, false)
        },
    }
}

fn contains_underscore(s: &str) -> (r: bool)
    ensures
        r == s@.contains('_'),
{
    let n = s.unicode_len();
    let mut i: usize = 0;
    while i < n
        invariant
            n == s@.len(),
            0 <= i <= n,
            forall|k: int| 0 <= k < i ==> s@[k] != '_',
        decreases n - i,
    {
        if s.get_char(i) == '_' {
            return true;
        }
        i = i + 1;
    }
    false
}

pub open spec fn max_nat(a: nat, b: nat) -> nat {
    if a >= b {
        a
    } else {
        b
    }
}

/// The node reached from `m` by following the child modules named `path`.
pub open spec fn node_at(m: Module, path: Seq<Seq<char>>) -> Option<Module>
    decreases path.len(),
{
    if path.len() == 0 {
        Some(m)
    } else {
        match entry(m.modules@, path[0]) {
            Some(c) => node_at(c, path.drop_first()),
            None => None,
        }
    }
}

/// The struct named `x` in the node reached by `path`.
pub open spec fn struct_at(m: Module, path: Seq<Seq<char>>, x: Seq<char>) -> Option<Struct> {
    match node_at(m, path) {
        Some(n) => entry(n.structs@, x),
        None => None,
    }
}

pub open spec fn path_view(path: Seq<String>) -> Seq<Seq<char>> {
    path.map_values(|s: String| s@)
}

impl Module {
    pub fn new() -> (r: Module)
        ensures
            r.wf(),
            r.depth == 0,
            r.structs@.len() == 0,
            r.modules@.len() == 0,
    {
        Module { structs: Vec::new(), modules: Vec::new(), depth: 0 }
    }

    /// Puts a struct under `name`, in place of the struct of that name or in
    /// name order; every other struct and module stays.
    pub fn insert_struct(&mut self, name: String, s: Struct)
        requires
            old(self).wf(),
            s.java.wf(),
        ensures
            final(self).wf(),
            final(self).modules == old(self).modules,
            final(self).depth == old(self).depth,
            forall|x: Seq<char>|
                #[trigger] entry(final(self).structs@, x) == if x == name@ {
                    Some(s)
                } else {
                    entry(old(self).structs@, x)
                },
    {
        let ghost n = name;
        let ghost st = s;
        let ghost before = self.structs@;
        let (p, replaced) = insert_sorted(&mut self.structs, name, s);
        proof {
            assert forall|x: Seq<char>| #[trigger] entry(self.structs@, x) == if x == n@ {
                Some(st)
            } else {
                entry(before, x)
            } by {
                if replaced {
                    lemma_entry_update(before, n, st, p as int, x);
                } else {
                    lemma_entry_insert(before, n, st, p as int, x);
                }
            }
        }
        assert forall|i: int| 0 <= i < self.structs@.len() implies (#[trigger] self.structs@[i]).1.java.wf() by {
            if i != p {
                if i < p || replaced {
                    assert(self.structs@[i] == before[i]);
                } else {
                    assert(self.structs@[i] == before[i - 1]);
                }
            }
        }
    }

    /// Puts a child module under `name`, in place of the module of that name
    /// or in name order; every other module and struct stays. Fails, leaving
    /// the tree as it was, where the child is as deep as a tree can be.
    pub fn insert_module(&mut self, name: String, m: Module) -> (r: bool)
        requires
            old(self).wf(),
            m.wf(),
        ensures
            final(self).wf(),
            r == (m.depth < usize::MAX),
            r ==> final(self).structs == old(self).structs && final(self).depth == max_nat(
                old(self).depth as nat,
                (m.depth + 1) as nat,
            ) && forall|x: Seq<char>|
                #[trigger] entry(final(self).modules@, x) == if x == name@ {
                    Some(m)
                } else {
                    entry(old(self).modules@, x)
                },
            !r ==> *final(self) == *old(self),
    {
        if m.depth == usize::MAX {
            return false;
        }
        let ghost n = name;
        let ghost mm = m;
        let ghost before = self.modules@;
        let d = m.depth + 1;
        let (p, replaced) = insert_sorted(&mut self.modules, name, m);
        if self.depth < d {
            self.depth = d;
        }
        proof {
            assert forall|x: Seq<char>| #[trigger] entry(self.modules@, x) == if x == n@ {
                Some(mm)
            } else {
                entry(before, x)
            } by {
                if replaced {
                    lemma_entry_update(before, n, mm, p as int, x);
                } else {
                    lemma_entry_insert(before, n, mm, p as int, x);
                }
            }
        }
        assert forall|i: int| 0 <= i < self.modules@.len() implies (#[trigger] self.modules@[i]).1.depth
            < self.depth && self.modules@[i].1.wf() by {
            if i != p {
                if i < p || replaced {
                    assert(self.modules@[i] == before[i]);
                } else {
                    assert(self.modules@[i] == before[i - 1]);
                }
            }
        }
        true
    }

    /// Puts a struct under `name` in the module reached by the names
    /// `path[idx..]`, making the modules on the way where they are missing.
    /// Afterwards that struct is found there, and every other struct is found
    /// where it was before.
    pub fn insert_struct_at(&mut self, path: &Vec<String>, idx: usize, name: String, s: Struct)
        requires
            old(self).wf(),
            s.java.wf(),
            idx <= path@.len(),
            old(self).depth < usize::MAX,
            path@.len() < usize::MAX,
        ensures
            final(self).wf(),
            final(self).depth <= max_nat(old(self).depth as nat, (path@.len() - idx) as nat),
            struct_at(*final(self), path_view(path@).subrange(idx as int, path@.len() as int), name@)
                == Some(s),
            forall|q: Seq<Seq<char>>, x: Seq<char>|
                !(q == path_view(path@).subrange(idx as int, path@.len() as int) && x == name@) ==> #[trigger] struct_at(
                    *final(self),
                    q,
                    x,
                ) == struct_at(*old(self), q, x),
        decreases path@.len() - idx,
    {
        assert(path_view(path@).len() == path@.len());
        let ghost target = path_view(path@).subrange(idx as int, path@.len() as int);
        let ghost nm = name;
        let ghost st = s;
        if idx == path.len() {
            self.insert_struct(name, s);
            proof {
                assert(target.len() == 0);
                assert forall|q: Seq<Seq<char>>, x: Seq<char>|
                    !(q == target && x == nm@) implies #[trigger] struct_at(*self, q, x) == struct_at(
                    *old(self),
                    q,
                    x,
                ) by {
                    if q.len() > 0 {
                        assert(node_at(*self, q) == node_at(*old(self), q));
                    } else {
                        assert(q =~= target);
                        assert(x != nm@);
                        assert(entry(self.structs@, x) == entry(old(self).structs@, x));
                    }
                }
                assert(entry(self.structs@, nm@) == Some(st));
            }
            return;
        }
        let key = path[idx].clone();
        let ghost k = key;
        proof {
            assert(target[0] == k@);
            assert(target.drop_first() =~= path_view(path@).subrange(idx + 1, path@.len() as int));
        }
        match find_name(&self.modules, key.as_str()) {
            Some(p) => {
                let ghost before = self.modules@;
                let ghost names = names_of(before);
                let (kk, mut child) = self.modules.remove(p);
                let ghost old_child = child;
                assert(old_child == before[p as int].1);
                assert(child.depth < old(self).depth && child.wf());
                child.insert_struct_at(path, idx + 1, name, s);
                let d = child.depth;
                let ghost kg = kk;
                let ghost cc = child;
                self.modules.insert(p, (kk, child));
                if self.depth <= d {
                    self.depth = d + 1;
                }
                proof {
                    assert(self.modules@ =~= before.update(p as int, (kg, cc)));
                    assert(names_of(self.modules@) =~= names.update(p as int, kg@));
                    assert(names.update(p as int, kg@) =~= names);
                    assert forall|i: int| 0 <= i < self.modules@.len() implies (
                    #[trigger] self.modules@[i]).1.depth < self.depth && self.modules@[i].1.wf() by {
                        if i != p {
                            assert(self.modules@[i] == before[i]);
                        }
                    }
                    lemma_entry_at(before, k@, p as int);
                    assert forall|x: Seq<char>| #[trigger] entry(self.modules@, x) == if x == k@ {
                        Some(cc)
                    } else {
                        entry(before, x)
                    } by {
                        lemma_entry_update(before, kg, cc, p as int, x);
                    }
                    self.lemma_frame(*old(self), target, nm@, st, cc, old_child);
                }
            },
            None => {
                let mut child = Module::new();
                let ghost empty = child;
                child.insert_struct_at(path, idx + 1, name, s);
                let ghost cc = child;
                proof {
                    lemma_entry_none(self.modules@, k@);
                }
                let ok = self.insert_module(key, child);
                assert(ok);
                proof {
                    assert forall|q: Seq<Seq<char>>, x: Seq<char>| #[trigger] struct_at(empty, q, x) is None by {
                        if q.len() > 0 {
                            lemma_entry_none(empty.modules@, q[0]);
                        }
                        lemma_entry_none(empty.structs@, x);
                    }
                    self.lemma_frame(*old(self), target, nm@, st, cc, empty);
                }
            },
        }
    }

    /// Where a node differs from `before` only in the child under
    /// `target[0]`, which got the struct at `target.drop_first()`, the node
    /// got the struct at `target` and nothing else changed.
    proof fn lemma_frame(
        &self,
        before: Module,
        target: Seq<Seq<char>>,
        name: Seq<char>,
        s: Struct,
        child: Module,
        old_child: Module,
    )
        requires
            target.len() > 0,
            self.structs == before.structs,
            forall|x: Seq<char>|
                #[trigger] entry(self.modules@, x) == if x == target[0] {
                    Some(child)
                } else {
                    entry(before.modules@, x)
                },
            entry(before.modules@, target[0]) is Some ==> entry(before.modules@, target[0]) == Some(
                old_child,
            ),
            entry(before.modules@, target[0]) is None ==> forall|q: Seq<Seq<char>>, x: Seq<char>|
                #[trigger] struct_at(old_child, q, x) is None,
            struct_at(child, target.drop_first(), name) == Some(s),
            forall|q: Seq<Seq<char>>, x: Seq<char>|
                !(q == target.drop_first() && x == name) ==> #[trigger] struct_at(child, q, x)
                    == struct_at(old_child, q, x),
        ensures
            struct_at(*self, target, name) == Some(s),
            forall|q: Seq<Seq<char>>, x: Seq<char>|
                !(q == target && x == name) ==> #[trigger] struct_at(*self, q, x) == struct_at(
                    before,
                    q,
                    x,
                ),
    {
        assert(entry(self.modules@, target[0]) == Some(child));
        assert forall|q: Seq<Seq<char>>, x: Seq<char>|
            !(q == target && x == name) implies #[trigger] struct_at(*self, q, x) == struct_at(before, q, x) by {
            if q.len() > 0 {
                let e = entry(self.modules@, q[0]);
                if q[0] == target[0] {
                    let rest = q.drop_first();
                    if rest == target.drop_first() {
                        assert(q =~= seq![target[0]] + rest);
                        assert(target =~= seq![target[0]] + target.drop_first());
                    }
                    assert(struct_at(child, rest, x) == struct_at(old_child, rest, x));
                    if entry(before.modules@, q[0]) is None {
                        assert(struct_at(old_child, rest, x) is None);
                    }
                } else {
                    assert(e == entry(before.modules@, q[0]));
                }
            }
        }
    }
}

fn struct_attrs_str(indent: &str, s: &Struct) -> (r: String)
    ensures
        r@ == struct_attrs(indent@, s),
{
    if indent.unicode_len() != 0 {
        return String::new();
    }
    let mut t = String::new();
    if contains_underscore(s.rust.struct_name.as_str()) {
        t.append("#[allow(non_camel_case_types)] // We map Java inner classes to Outer_Inner\n");
    }
    let ghost a = t@;
    if !s.java.is_public() {
        t.append("#[allow(dead_code)] // We generate structs for private Java types too, just in case.\n");
    }
    t.append(
        "#[allow(deprecated)]             // We're generating deprecated types/methods\n#[allow(non_upper_case_globals)] // We might be generating Java style fields/methods\n#[allow(non_snake_case)]         // We might be generating Java style fields/methods\n",
    );
    proof {
        let x: Seq<char> = if s.rust.struct_name@.contains('_') {
            "#[allow(non_camel_case_types)] // We map Java inner classes to Outer_Inner\n"@
        } else {
            Seq::empty()
        };
        let y: Seq<char> = if !s.java.public() {
            "#[allow(dead_code)] // We generate structs for private Java types too, just in case.\n"@
        } else {
            Seq::empty()
        };
        assert(a =~= x);
        assert(t@ =~= x + y
            + "#[allow(deprecated)]             // We're generating deprecated types/methods\n#[allow(non_upper_case_globals)] // We might be generating Java style fields/methods\n#[allow(non_snake_case)]         // We might be generating Java style fields/methods\n"@);
    }
    t
}

fn struct_entry(ctx: &Context, s: &Struct, indent: &str, shards: &Vec<(String, String)>) -> (r: String)
    requires
        s.java.wf(),
    ensures
        r@ == struct_entry_text(ctx, s, indent@, shards@),
{
    let mut t = String::new();
    if ctx.config.shard_structs {
        match lookup(shards, s.java.path.as_str()) {
            Some(p) => {
                t.append(struct_attrs_str(indent, s).as_str());
                t.append(indent);
                t.append("include!(");
                t.append(debug_str(p.as_str()).as_str());
                t.append(");\n");
            },
            None => {},
        }
    } else {
        let mut body = String::new();
        if s.write(ctx, indent, &mut body) {
            t.append(struct_attrs_str(indent, s).as_str());
            t.append(body.as_str());
            assert(body@ =~= Seq::<char>::empty() + struct_text(ctx, s, indent@)->0);
        }
    }
    t
}

impl Struct {
    /// The text of the unit a struct is written to when structs are sharded:
    /// a warning line, a blank line, then its declaration at the top level.
    pub fn shard_text(&self, ctx: &Context) -> (r: Option<String>)
        requires
            self.java.wf(),
        ensures
            (r is Some) == (struct_text(ctx, self, ""@) is Some),
            r matches Some(t) ==> t@ == "// WARNING:  Any changes to this file may be lost!!!\n\n"@ + struct_text(
                ctx,
                self,
                ""@,
            )->0,
    {
        let mut t = String::from_str("// WARNING:  Any changes to this file may be lost!!!\n\n");
        if self.write(ctx, "", &mut t) {
            Some(t)
        } else {
            None
        }
    }
}

impl Module {
    /// Appends the tree's text: child modules depth-first in name order, then
    /// structs in name order. A struct whose super class or a known interface
    /// has no path spelling is skipped; the rest are still written.
    pub fn write(&self, ctx: &Context, indent: &str, shards: &Vec<(String, String)>, out: &mut String)
        requires
            self.wf(),
        ensures
            final(out)@ == old(out)@ + module_text(ctx, self, indent@, shards@),
        decreases self.depth,
    {
        let mut next_indent = String::from_str(indent);
        next_indent.append("    ");
        let top = indent.unicode_len() == 0;
        let mut t = String::new();
        let mut i: usize = 0;
        while i < self.modules.len()
            invariant
                self.wf(),
                0 <= i <= self.modules@.len(),
                next_indent@ == indent@ + "    "@,
                top == (indent@.len() == 0),
                modules_text(ctx, self, indent@, shards@, i as int) == t@,
            decreases self.modules.len() - i,
        {
            let child = &self.modules[i].1;
            assert(self.modules@[i as int].1.depth < self.depth && self.modules@[i as int].1.wf());
            let mut body = String::new();
            child.write(ctx, next_indent.as_str(), shards, &mut body);
            let ghost before = t@;
            t.append("\n");
            if top {
                t.append(
                    "#[allow(non_camel_case_types)]   // We map Java inner classes to Outer_Inner\n#[allow(dead_code)]              // We generate structs for private Java types too, just in case.\n#[allow(deprecated)]             // We're generating deprecated types/methods\n#[allow(non_upper_case_globals)] // We might be generating Java style fields/methods\n#[allow(non_snake_case)]         // We might be generating Java style fields/methods\n",
                );
            }
            t.append(indent);
            t.append("pub mod ");
            t.append(self.modules[i].0.as_str());
            t.append(" {\n");
            t.append(indent);
            t.append("    #[allow(unused_imports)] use super::__jni_bindgen;\n");
            t.append(body.as_str());
            t.append(indent);
            t.append("}\n");
            proof {
                let c = &self.modules@[i as int];
                let b = module_text(ctx, &c.1, indent@ + "    "@, shards@);
                assert(body@ =~= Seq::<char>::empty() + b);
                assert(t@ =~= before + "\n"@ + module_attrs(indent@) + indent@ + "pub mod "@ + c.0@ + " {\n"@
                    + indent@ + "    #[allow(unused_imports)] use super::__jni_bindgen;\n"@ + b + indent@
                    + "}\n"@);
            }
            i = i + 1;
        }
        let mut j: usize = 0;
        let mut u = String::new();
        while j < self.structs.len()
            invariant
                self.wf(),
                0 <= j <= self.structs@.len(),
                structs_text(ctx, self.structs@, indent@, shards@, j as int) == u@,
            decreases self.structs.len() - j,
        {
            assert(self.structs@[j as int].1.java.wf());
            let e = struct_entry(ctx, &self.structs[j].1, indent, shards);
            u.append(e.as_str());
            j = j + 1;
        }
        t.append(u.as_str());
        out.append(t.as_str());
    }
}

} // verus!
