//! Per-class work: overload disambiguation and the struct declaration.

use vstd::prelude::*;
use crate::classpath::{opt_view, StructPaths};
use crate::context::Context;
use crate::ident::{mangle_spec, str_eq, MethodManglingStyle};
use crate::method::{emit_spec, method_name_spec, renamed_spec, Method};
use crate::model::{ClassInfo, FieldInfo, FieldNames, MethodInfo};
use crate::text::{debug_quoted, debug_str};

verus! {

/// How many public methods among `ms` get the identifier `n` under `style`.
pub open spec fn method_name_count(ms: Seq<MethodInfo>, style: MethodManglingStyle, n: Seq<char>) -> nat
    decreases ms.len(),
{
    if ms.len() == 0 {
        0
    } else {
        method_name_count(ms.drop_last(), style, n) + if ms.last().public() && mangle_spec(
            ms.last().name@,
            ms.last().descriptor@,
            style,
        ) == Some(n) {
            1nat
        } else {
            0nat
        }
    }
}

pub open spec fn field_count(f: FieldInfo, n: Seq<char>) -> nat {
    if !f.is_public {
        0
    } else {
        match f.names {
            FieldNames::ConstValue(c) => if c@ == n {
                1nat
            } else {
                0nat
            },
            FieldNames::GetSet(g, s) => (if g@ == n {
                1nat
            } else {
                0nat
            }) + (if s@ == n {
                1nat
            } else {
                0nat
            }),
            FieldNames::Unmangleable => 0,
        }
    }
}

/// How many public field accessors are named `n`: a constant counts once, a
/// getter and a setter each once.
pub open spec fn field_name_count(fs: Seq<FieldInfo>, n: Seq<char>) -> nat
    decreases fs.len(),
{
    if fs.len() == 0 {
        0
    } else {
        field_name_count(fs.drop_last(), n) + field_count(fs.last(), n)
    }
}

/// How many public members of a class are named `n` under `style`.
pub open spec fn name_count(c: &ClassInfo, style: MethodManglingStyle, n: Seq<char>) -> nat {
    method_name_count(c.methods@, style, n) + field_name_count(c.fields@, n)
}

/// The identifier method `i` is declared under: its default-style name, or,
/// where other public members share that name, its collision-style name.
pub open spec fn resolved_name(ctx: &Context, c: &ClassInfo, i: int) -> Option<Seq<char>> {
    let m = c.methods@[i];
    let style = ctx.config.method_naming_style;
    match mangle_spec(m.name@, m.descriptor@, style) {
        Some(n) => if name_count(c, style, n) > 1 {
            mangle_spec(m.name@, m.descriptor@, ctx.config.method_naming_style_collision)
        } else {
            Some(n)
        },
        None => None,
    }
}

fn count_methods(ms: &Vec<MethodInfo>, style: MethodManglingStyle, n: &str) -> (r: usize)
    requires
        ms@.len() < usize::MAX,
    ensures
        r == method_name_count(ms@, style, n@),
        r <= ms@.len(),
{
    let mut r: usize = 0;
    let mut j: usize = 0;
    while j < ms.len()
        invariant
            ms@.len() < usize::MAX,
            0 <= j <= ms@.len(),
            r == method_name_count(ms@.subrange(0, j as int), style, n@),
            r <= j,
        decreases ms.len() - j,
    {
        let m = &ms[j];
        proof {
            let next = ms@.subrange(0, j + 1);
            assert(next.drop_last() =~= ms@.subrange(0, j as int));
            assert(next.last() == ms@[j as int]);
        }
        if m.is_public() {
            match style.mangle(m.name.as_str(), m.descriptor.as_str()) {
                Some(x) => {
                    if str_eq(x.as_str(), n) {
                        r = r + 1;
                    }
                },
                None => {},
            }
        }
        j = j + 1;
    }
    assert(ms@.subrange(0, ms@.len() as int) =~= ms@);
    r
}

fn count_fields(fs: &Vec<FieldInfo>, n: &str) -> (r: usize)
    requires
        2 * fs@.len() < usize::MAX,
    ensures
        r == field_name_count(fs@, n@),
        r <= 2 * fs@.len(),
{
    let mut r: usize = 0;
    let mut j: usize = 0;
    while j < fs.len()
        invariant
            2 * fs@.len() < usize::MAX,
            0 <= j <= fs@.len(),
            r == field_name_count(fs@.subrange(0, j as int), n@),
            r <= 2 * j,
        decreases fs.len() - j,
    {
        let f = &fs[j];
        proof {
            let next = fs@.subrange(0, j + 1);
            assert(next.drop_last() =~= fs@.subrange(0, j as int));
            assert(next.last() == fs@[j as int]);
        }
        if f.is_public {
            match &f.names {
                FieldNames::ConstValue(c) => {
                    if str_eq(c.as_str(), n) {
                        r = r + 1;
                    }
                },
                FieldNames::GetSet(g, s) => {
                    if str_eq(g.as_str(), n) {
                        r = r + 1;
                    }
                    if str_eq(s.as_str(), n) {
                        r = r + 1;
                    }
                },
                FieldNames::Unmangleable => {},
            }
        }
        j = j + 1;
    }
    assert(fs@.subrange(0, fs@.len() as int) =~= fs@);
    r
}

/// The methods of a class, each named as `resolved_name` says.
pub fn resolve_methods<'a>(ctx: &Context, class: &'a ClassInfo) -> (r: Vec<Method<'a>>)
    requires
        class.wf(),
    ensures
        r@.len() == class.methods@.len(),
        forall|i: int|
            0 <= i < r@.len() ==> (#[trigger] r@[i]).class_of() == class && r@[i].java_of()
                == &class.methods@[i] && r@[i].name_view() == resolved_name(ctx, class, i),
{
    let style = ctx.config.method_naming_style;
    let mut methods: Vec<Method<'a>> = Vec::new();
    let mut i: usize = 0;
    while i < class.methods.len()
        invariant
            class.wf(),
            style == ctx.config.method_naming_style,
            0 <= i <= class.methods@.len(),
            methods@.len() == i,
            forall|k: int|
                0 <= k < i ==> (#[trigger] methods@[k]).class_of() == class && methods@[k].java_of()
                    == &class.methods@[k] && methods@[k].name_view() == resolved_name(ctx, class, k),
        decreases class.methods.len() - i,
    {
        let mut method = Method::new(ctx, class, &class.methods[i]);
        match method.rust_name() {
            Some(n) => {
                let repeats = count_methods(&class.methods, style, n) + count_fields(&class.fields, n);
                if repeats > 1 {
                    method.set_mangling_style(ctx.config.method_naming_style_collision);
                }
            },
            None => {},
        }
        methods.push(method);
        i = i + 1;
    }
    methods
}

/// With no other public member sharing its default-style name, a method is
/// named, and, unless renamed, declared, by the default style.
pub proof fn lemma_unique_name_kept(ctx: &Context, c: &ClassInfo, i: int, n: Seq<char>)
    requires
        0 <= i < c.methods@.len(),
        mangle_spec(c.methods@[i].name@, c.methods@[i].descriptor@, ctx.config.method_naming_style)
            == Some(n),
        name_count(c, ctx.config.method_naming_style, n) == 1,
    ensures
        resolved_name(ctx, c, i) == Some(n),
        renamed_spec(ctx, c.path@, &c.methods@[i]) is None ==> method_name_spec(
            ctx,
            c.path@,
            &c.methods@[i],
            resolved_name(ctx, c, i),
        ) == n,
{
}

proof fn lemma_count_positive(ms: Seq<MethodInfo>, style: MethodManglingStyle, n: Seq<char>, i: int)
    requires
        0 <= i < ms.len(),
        ms[i].public(),
        mangle_spec(ms[i].name@, ms[i].descriptor@, style) == Some(n),
    ensures
        method_name_count(ms, style, n) >= 1,
    decreases ms.len(),
{
    if i < ms.len() - 1 {
        assert(ms.drop_last()[i] == ms[i]);
        lemma_count_positive(ms.drop_last(), style, n, i);
    }
}

proof fn lemma_count_two(ms: Seq<MethodInfo>, style: MethodManglingStyle, n: Seq<char>, i: int, j: int)
    requires
        0 <= i < j < ms.len(),
        ms[i].public(),
        ms[j].public(),
        mangle_spec(ms[i].name@, ms[i].descriptor@, style) == Some(n),
        mangle_spec(ms[j].name@, ms[j].descriptor@, style) == Some(n),
    ensures
        method_name_count(ms, style, n) >= 2,
    decreases ms.len(),
{
    assert(ms.drop_last()[i] == ms[i]);
    if j == ms.len() - 1 {
        lemma_count_positive(ms.drop_last(), style, n, i);
    } else {
        assert(ms.drop_last()[j] == ms[j]);
        lemma_count_two(ms.drop_last(), style, n, i, j);
    }
}

/// Two public methods that share a default-style name are both named by the
/// collision style; under the long style, two such methods with distinct
/// descriptors get distinct names, and, unless renamed, are declared under
/// them.
pub proof fn lemma_shared_name_disambiguated(ctx: &Context, c: &ClassInfo, i: int, j: int, n: Seq<char>)
    requires
        0 <= i < c.methods@.len(),
        0 <= j < c.methods@.len(),
        i != j,
        c.methods@[i].public(),
        c.methods@[j].public(),
        mangle_spec(c.methods@[i].name@, c.methods@[i].descriptor@, ctx.config.method_naming_style)
            == Some(n),
        mangle_spec(c.methods@[j].name@, c.methods@[j].descriptor@, ctx.config.method_naming_style)
            == Some(n),
    ensures
        resolved_name(ctx, c, i) == mangle_spec(
            c.methods@[i].name@,
            c.methods@[i].descriptor@,
            ctx.config.method_naming_style_collision,
        ),
        resolved_name(ctx, c, j) == mangle_spec(
            c.methods@[j].name@,
            c.methods@[j].descriptor@,
            ctx.config.method_naming_style_collision,
        ),
        ctx.config.method_naming_style == MethodManglingStyle::Java
            && ctx.config.method_naming_style_collision == MethodManglingStyle::JavaLongSignature
            && c.methods@[i].descriptor@ != c.methods@[j].descriptor@ && resolved_name(ctx, c, i) is Some
            ==> resolved_name(ctx, c, i) != resolved_name(ctx, c, j),
        ctx.config.method_naming_style == MethodManglingStyle::Java
            && ctx.config.method_naming_style_collision == MethodManglingStyle::JavaLongSignature
            && c.methods@[i].descriptor@ != c.methods@[j].descriptor@ && resolved_name(ctx, c, i) is Some
            && resolved_name(ctx, c, j) is Some && renamed_spec(ctx, c.path@, &c.methods@[i]) is None
            && renamed_spec(ctx, c.path@, &c.methods@[j]) is None ==> method_name_spec(
            ctx,
            c.path@,
            &c.methods@[i],
            resolved_name(ctx, c, i),
        ) != method_name_spec(ctx, c.path@, &c.methods@[j], resolved_name(ctx, c, j)),
{
    let style = ctx.config.method_naming_style;
    if i < j {
        lemma_count_two(c.methods@, style, n, i, j);
    } else {
        lemma_count_two(c.methods@, style, n, j, i);
    }
    let mi = c.methods@[i];
    let mj = c.methods@[j];
    if style == MethodManglingStyle::Java
        && ctx.config.method_naming_style_collision == MethodManglingStyle::JavaLongSignature
        && mi.descriptor@ != mj.descriptor@ && resolved_name(ctx, c, i) is Some {
        crate::ident::lemma_long_names_distinct(mi.name@, mi.descriptor@, mj.name@, mj.descriptor@);
    }
}

/// Whether any class among `ifs` is known.
pub open spec fn any_known(ctx: &Context, ifs: Seq<String>) -> bool
    decreases ifs.len(),
{
    ifs.len() > 0 && (any_known(ctx, ifs.drop_last()) || ctx.knows(ifs.last()@))
}

/// The implemented interfaces that are known, the first introduced by
/// `implements`; unknown ones are left out.
pub open spec fn interfaces_text(ctx: &Context, ifs: Seq<String>) -> Option<Seq<char>>
    decreases ifs.len(),
{
    if ifs.len() == 0 {
        Some(Seq::empty())
    } else {
        match interfaces_text(ctx, ifs.drop_last()) {
            None => None,
            Some(t) => if !ctx.knows(ifs.last()@) {
                Some(t)
            } else {
                match ctx.rust_path_of(ifs.last()@) {
                    None => None,
                    Some(p) => Some(t + ", "@ + (if any_known(ctx, ifs.drop_last()) {
                        Seq::empty()
                    } else {
                        "implements "@
                    }) + p),
                }
            },
        }
    }
}

/// One class's binding: where it stands and what it binds.
#[derive(Debug)]
pub struct Struct {
    pub rust: StructPaths,
    pub java: ClassInfo,
}

pub open spec fn super_text(ctx: &Context, c: &ClassInfo) -> Option<Seq<char>> {
    match c.super_path {
        Some(s) => ctx.rust_path_of(s@),
        None => Some("()"@),
    }
}

pub open spec fn methods_text(ctx: &Context, c: &ClassInfo, indent: Seq<char>, k: int) -> Seq<char>
    decreases k,
{
    if k <= 0 {
        Seq::empty()
    } else {
        methods_text(ctx, c, indent, k - 1) + emit_spec(
            ctx,
            c.path@,
            &c.methods@[k - 1],
            resolved_name(ctx, c, k - 1),
            indent,
            None,
        )
    }
}

pub open spec fn visibility_text(c: &ClassInfo) -> Seq<char> {
    if c.public() {
        "public"@
    } else {
        "private"@
    }
}

pub open spec fn struct_header(s: &Struct, indent: Seq<char>) -> Seq<char> {
    "\n"@ + indent + "__jni_bindgen! {\n"@ + indent + "    /// "@ + visibility_text(&s.java) + " "@
        + s.java.keyword() + " "@ + s.java.path@ + "\n"@ + indent + "    "@ + (if s.java.deprecated {
        "#[deprecated] "@
    } else {
        Seq::empty()
    }) + visibility_text(&s.java) + " "@ + s.java.keyword() + " "@ + s.rust.struct_name@ + " ("@
        + debug_quoted(s.java.path@ + "\0"@) + ") extends "@
}

/// The declaration of a struct, or `None` where its super class or a known
/// interface has no path spelling.
pub open spec fn struct_text(ctx: &Context, s: &Struct, indent: Seq<char>) -> Option<Seq<char>> {
    match (super_text(ctx, &s.java), interfaces_text(ctx, s.java.interfaces@)) {
        (Some(sp), Some(it)) => Some(struct_header(s, indent) + sp + it + " {\n"@ + methods_text(
            ctx,
            &s.java,
            indent,
            s.java.methods@.len() as int,
        ) + indent + "    }\n"@ + indent + "}\n"@),
        _ => None,
    }
}

fn interfaces_str(ctx: &Context, ifs: &Vec<String>) -> (r: Option<String>)
    ensures
        opt_view(r) == interfaces_text(ctx, ifs@),
{
    let mut out = String::new();
    let mut implements = false;
    let mut i: usize = 0;
    while i < ifs.len()
        invariant
            0 <= i <= ifs@.len(),
            interfaces_text(ctx, ifs@.subrange(0, i as int)) == Some(out@),
            implements == any_known(ctx, ifs@.subrange(0, i as int)),
        decreases ifs.len() - i,
    {
        let ghost pre = ifs@.subrange(0, i as int);
        let ghost next = ifs@.subrange(0, i + 1);
        proof {
            assert(next.drop_last() =~= pre);
            assert(next.last() == ifs@[i as int]);
        }
        let itf = &ifs[i];
        if ctx.is_known(itf.as_str()) {
            match ctx.java_to_rust_path(itf.as_str()) {
                None => {
                    proof { lemma_interfaces_none_extends(ctx, ifs@, i + 1); }
                    return None;
                },
                Some(p) => {
                    out.append(", ");
                    if !implements {
                        out.append("implements ");
                        implements = true;
                    }
                    out.append(p.as_str());
                    proof {
                        let t = interfaces_text(ctx, pre)->0;
                        let mid: Seq<char> = if any_known(ctx, pre) {
                            Seq::empty()
                        } else {
                            "implements "@
                        };
                        assert(out@ =~= t + ", "@ + mid + p@);
                    }
                },
            }
        }
        i = i + 1;
    }
    assert(ifs@.subrange(0, ifs@.len() as int) =~= ifs@);
    Some(out)
}

proof fn lemma_interfaces_none_extends(ctx: &Context, ifs: Seq<String>, j: int)
    requires
        0 <= j <= ifs.len(),
        interfaces_text(ctx, ifs.subrange(0, j)) is None,
    ensures
        interfaces_text(ctx, ifs) is None,
    decreases ifs.len() - j,
{
    if j < ifs.len() {
        assert(ifs.subrange(0, j + 1).drop_last() =~= ifs.subrange(0, j));
        lemma_interfaces_none_extends(ctx, ifs, j + 1);
    } else {
        assert(ifs.subrange(0, j) =~= ifs);
    }
}

impl Struct {
    /// The binding of a class, or `None` where its path has no spelling.
    pub fn new(ctx: &Context, java: ClassInfo) -> (r: Option<Struct>)
        ensures
            r is Some <==> ctx.struct_paths_spec(java.path@) is Some,
            r matches Some(s) ==> s.java == java && Some((s.rust.mod_@, s.rust.struct_name@))
                == ctx.struct_paths_spec(java.path@),
    {
        match ctx.struct_paths(java.path.as_str()) {
            None => None,
            Some(rust) => Some(Struct { rust, java }),
        }
    }

    fn header_str(&self, indent: &str) -> (r: String)
        ensures
            r@ == struct_header(self, indent@),
    {
        let vis = if self.java.is_public() {
            "public"
        } else {
            "private"
        };
        let keyword = self.java.keyword_str();
        let mut t = String::from_str("\n");
        t.append(indent);
        t.append("__jni_bindgen! {\n");
        t.append(indent);
        t.append("    /// ");
        t.append(vis);
        t.append(" ");
        t.append(keyword);
        t.append(" ");
        t.append(self.java.path.as_str());
        t.append("\n");
        t.append(indent);
        t.append("    ");
        let ghost head = t@;
        if self.java.deprecated {
            t.append("#[deprecated] ");
        }
        assert(t@ == head + (if self.java.deprecated {
            "#[deprecated] "@
        } else {
            Seq::<char>::empty()
        })) by {
            if !self.java.deprecated {
                assert(head + Seq::<char>::empty() =~= head);
            }
        }
        t.append(vis);
        t.append(" ");
        t.append(keyword);
        t.append(" ");
        t.append(self.rust.struct_name.as_str());
        t.append(" (");
        let mut p = String::from_str(self.java.path.as_str());
        p.append("\0");
        t.append(debug_str(p.as_str()).as_str());
        t.append(") extends ");
        t
    }

    /// Appends the struct's declaration, with every method named as
    /// `resolved_name` says, and returns `true`; where the super class or a
    /// known interface has no path spelling, leaves `out` as it was and
    /// returns `false`.
    pub fn write(&self, ctx: &Context, indent: &str, out: &mut String) -> (r: bool)
        requires
            self.java.wf(),
        ensures
            r == struct_text(ctx, self, indent@) is Some,
            r ==> final(out)@ == old(out)@ + struct_text(ctx, self, indent@)->0,
            !r ==> final(out)@ == old(out)@,
    {
        let super_path = match &self.java.super_path {
            Some(sp) => match ctx.java_to_rust_path(sp.as_str()) {
                Some(p) => p,
                None => return false,
            },
            None => String::from_str("()"),
        };
        let ifs = match interfaces_str(ctx, &self.java.interfaces) {
            Some(t) => t,
            None => return false,
        };
        let mut t = self.header_str(indent);
        t.append(super_path.as_str());
        t.append(ifs.as_str());
        t.append(" {\n");
        let methods = resolve_methods(ctx, &self.java);
        let ghost start = t@;
        let mut i: usize = 0;
        while i < methods.len()
            invariant
                self.java.wf(),
                methods@.len() == self.java.methods@.len(),
                forall|k: int|
                    0 <= k < methods@.len() ==> (#[trigger] methods@[k]).class_of() == &self.java
                        && methods@[k].java_of() == &self.java.methods@[k] && methods@[k].name_view()
                        == resolved_name(ctx, &self.java, k),
                0 <= i <= methods@.len(),
                t@ == start + methods_text(ctx, &self.java, indent@, i as int),
            decreases methods.len() - i,
        {
            assert(self.java.methods@[i as int].wf());
            methods[i].emit(ctx, indent, None, &mut t);
            assert(t@ =~= start + methods_text(ctx, &self.java, indent@, i + 1));
            i = i + 1;
        }
        t.append(indent);
        t.append("    }\n");
        t.append(indent);
        t.append("}\n");
        out.append(t.as_str());
        true
    }
}

} // verus!
