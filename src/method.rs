//! Per-method decisions and declaration rendering.

use vstd::prelude::*;
use crate::classpath::{lookup, lookup_spec, opt_view};
use crate::context::{contains, contains_spec, throwable_class, Context};
use crate::ident::{constructor_name, mangle_spec, static_init_name, str_eq, MethodManglingStyle};
use crate::model::{ClassInfo, MethodInfo};
use crate::text::{debug_quoted, debug_str, decimal, decimal_str, emit_cstr, emit_cstr_spec};
use crate::types::{
    call_tag, expr_text, reject_text, tag_text, map_spec, map_type, render_type, tag_of, BasicType, CallTag, LeafView,
    Position, PrimKind, Reject, TypeSig,
};

verus! {

pub open spec fn method_key(class: Seq<char>, name: Seq<char>) -> Seq<char> {
    class + "\x1f"@ + name
}

pub open spec fn method_sig_key(class: Seq<char>, name: Seq<char>, desc: Seq<char>) -> Seq<char> {
    class + "\x1f"@ + name + "\x1f"@ + desc
}

pub open spec fn is_ctor(m: &MethodInfo) -> bool {
    m.name@ == constructor_name()
}

pub open spec fn is_static_init(m: &MethodInfo) -> bool {
    m.name@ == static_init_name()
}

pub open spec fn ignored_spec(ctx: &Context, class: Seq<char>, m: &MethodInfo) -> bool {
    contains_spec(ctx.config.ignore_class_methods@, method_key(class, m.name@)) || contains_spec(
        ctx.config.ignore_class_method_sigs@,
        method_sig_key(class, m.name@, m.descriptor@),
    )
}

pub open spec fn renamed_spec(ctx: &Context, class: Seq<char>, m: &MethodInfo) -> Option<Seq<char>> {
    match lookup_spec(ctx.config.rename_class_methods@, method_key(class, m.name@)) {
        Some(r) => Some(r),
        None => lookup_spec(
            ctx.config.rename_class_method_sigs@,
            method_sig_key(class, m.name@, m.descriptor@),
        ),
    }
}

/// The identifier a method is declared under: its rename, else its mangled
/// name, else (in a rejected stub) its managed name.
pub open spec fn method_name_spec(
    ctx: &Context,
    class: Seq<char>,
    m: &MethodInfo,
    rust_name: Option<Seq<char>>,
) -> Seq<char> {
    match renamed_spec(ctx, class, m) {
        Some(r) => r,
        None => match rust_name {
            Some(n) => n,
            None => m.name@,
        },
    }
}

pub open spec fn throwable_text(ctx: &Context) -> Seq<char> {
    match ctx.rust_path_of(throwable_class()) {
        Some(p) => p,
        None => "???"@,
    }
}

pub open spec fn param_rejects(ctx: &Context, p: &TypeSig) -> Seq<Reject> {
    if *p == (TypeSig::Single(BasicType::Prim(PrimKind::Void))) {
        seq![Reject::VoidParameter]
    } else {
        match map_spec(ctx, p, Position::Argument) {
            Ok(_) => Seq::empty(),
            Err(rs) => rs,
        }
    }
}

pub open spec fn is_object_sig(p: &TypeSig) -> bool {
    !(p matches TypeSig::Single(BasicType::Prim(_)))
}

pub open spec fn param_type_text(ctx: &Context, p: &TypeSig) -> Seq<char> {
    match map_spec(ctx, p, Position::Argument) {
        Ok((l, w)) => if is_object_sig(p) {
            "impl __jni_bindgen::std::convert::Into<__jni_bindgen::std::option::Option<&'env "@
                + expr_text(l, w, throwable_text(ctx)) + ">>"@
        } else {
            expr_text(l, w, throwable_text(ctx))
        },
        Err(_) => "???"@,
    }
}

pub open spec fn ret_type_text(ctx: &Context, p: &TypeSig) -> Seq<char> {
    match map_spec(ctx, p, Position::Return) {
        Ok((l, w)) => if is_object_sig(p) {
            "__jni_bindgen::std::option::Option<__jni_bindgen::Local<'env, "@ + expr_text(
                l,
                w,
                throwable_text(ctx),
            ) + ">>"@
        } else {
            expr_text(l, w, throwable_text(ctx))
        },
        Err(_) => "???"@,
    }
}

pub open spec fn params_rejects(ctx: &Context, ps: Seq<TypeSig>) -> Seq<Reject>
    decreases ps.len(),
{
    if ps.len() == 0 {
        Seq::empty()
    } else {
        params_rejects(ctx, ps.drop_last()) + param_rejects(ctx, &ps.last())
    }
}

pub open spec fn arg_name(i: nat) -> Seq<char> {
    "arg"@ + decimal(i)
}

pub open spec fn params_decl_text(ctx: &Context, ps: Seq<TypeSig>, base: Seq<char>) -> Seq<char>
    decreases ps.len(),
{
    if ps.len() == 0 {
        base
    } else {
        params_decl_text(ctx, ps.drop_last(), base) + ", "@ + arg_name((ps.len() - 1) as nat)
            + ": "@ + param_type_text(ctx, &ps.last())
    }
}

pub open spec fn arg_value_text(i: nat, p: &TypeSig) -> Seq<char> {
    "__jni_bindgen::AsJValue::as_jvalue(&"@ + arg_name(i) + (if is_object_sig(p) {
        ".into()"@
    } else {
        Seq::empty()
    }) + ")"@
}

pub open spec fn params_array_text(ps: Seq<TypeSig>) -> Seq<char>
    decreases ps.len(),
{
    if ps.len() == 0 {
        Seq::empty()
    } else if ps.len() == 1 {
        arg_value_text(0, &ps[0])
    } else {
        params_array_text(ps.drop_last()) + ", "@ + arg_value_text((ps.len() - 1) as nat, &ps.last())
    }
}

pub open spec fn receiver_text(m: &MethodInfo) -> Seq<char> {
    if is_ctor(m) || m.static_() {
        "__jni_env: __jni_bindgen::Env<'env>"@
    } else {
        "&'env self"@
    }
}

pub open spec fn ret_decl_spec(ctx: &Context, m: &MethodInfo) -> Seq<char> {
    if is_ctor(m) && m.ret == (TypeSig::Single(BasicType::Prim(PrimKind::Void))) {
        "__jni_bindgen::Local<'env, Self>"@
    } else {
        ret_type_text(ctx, &m.ret)
    }
}

pub open spec fn tag_spec(m: &MethodInfo) -> CallTag {
    if is_ctor(m) && m.ret == (TypeSig::Single(BasicType::Prim(PrimKind::Void))) {
        CallTag::Object
    } else {
        tag_of(&m.ret)
    }
}

pub open spec fn flag_reject(b: bool, r: Reject) -> Seq<Reject> {
    if b {
        seq![r]
    } else {
        Seq::empty()
    }
}

/// The reasons decided by a method's name, flags and the ignore lists; a
/// renamed method is emitted even where it is also ignored.
pub open spec fn head_rejects(
    ctx: &Context,
    class: Seq<char>,
    m: &MethodInfo,
    rust_name: Option<Seq<char>>,
) -> Seq<Reject> {
    flag_reject(
        renamed_spec(ctx, class, m) is None && rust_name is None,
        Reject::UnmangleableName,
    ) + flag_reject(!m.public(), Reject::NonPublic) + flag_reject(m.bridge(), Reject::Bridge)
        + flag_reject(ignored_spec(ctx, class, m) && renamed_spec(ctx, class, m) is None, Reject::Ignored)
}

/// The reasons decided by a method's return type.
pub open spec fn ret_rejects(ctx: &Context, m: &MethodInfo) -> Seq<Reject> {
    let mapped: Seq<Reject> = match map_spec(ctx, &m.ret, Position::Return) {
        Ok(_) => Seq::empty(),
        Err(rs) => rs,
    };
    mapped + flag_reject(
        is_ctor(m) && m.ret != (TypeSig::Single(BasicType::Prim(PrimKind::Void))),
        Reject::ConstructorNonVoid,
    )
}

/// Every reason a method is not emitted, in the order they are found.
pub open spec fn rejects_spec(
    ctx: &Context,
    class: Seq<char>,
    m: &MethodInfo,
    rust_name: Option<Seq<char>>,
) -> Seq<Reject> {
    head_rejects(ctx, class, m, rust_name) + params_rejects(ctx, m.params@) + ret_rejects(ctx, m)
        + flag_reject(ctx.rust_path_of(throwable_class()) is None, Reject::UnresolvedThrowablePath)
}

/// What is decided about one method before it is written.
#[derive(Debug)]
pub struct MethodPlan {
    pub name: String,
    pub rejects: Vec<Reject>,
    pub params_decl: String,
    pub params_array: String,
    pub ret_decl: String,
    pub tag: CallTag,
    pub throwable: String,
}

/// A method plan seen as mathematical values.
pub struct PlanView {
    pub name: Seq<char>,
    pub rejects: Seq<Reject>,
    pub params_decl: Seq<char>,
    pub params_array: Seq<char>,
    pub ret_decl: Seq<char>,
    pub tag: CallTag,
    pub throwable: Seq<char>,
}

impl MethodPlan {
    pub open spec fn view(&self) -> PlanView {
        PlanView {
            name: self.name@,
            rejects: self.rejects@,
            params_decl: self.params_decl@,
            params_array: self.params_array@,
            ret_decl: self.ret_decl@,
            tag: self.tag,
            throwable: self.throwable@,
        }
    }
}

/// How a method is declared, given the identifier its style gives it.
pub open spec fn plan_spec(ctx: &Context, class: Seq<char>, m: &MethodInfo, rust_name: Option<Seq<char>>) -> PlanView {
    PlanView {
        name: method_name_spec(ctx, class, m, rust_name),
        rejects: rejects_spec(ctx, class, m, rust_name),
        params_decl: params_decl_text(ctx, m.params@, receiver_text(m)),
        params_array: params_array_text(m.params@),
        ret_decl: ret_decl_spec(ctx, m),
        tag: tag_spec(m),
        throwable: throwable_text(ctx),
    }
}

fn type_text(ctx: &Context, p: &TypeSig, throwable: &str, is_return: bool) -> (r: String)
    requires
        p.wf(),
        throwable@ == throwable_text(ctx),
    ensures
        is_return ==> r@ == ret_type_text(ctx, p),
        !is_return ==> r@ == param_type_text(ctx, p),
{
    let object = match p {
        TypeSig::Single(BasicType::Prim(_)) => false,
        _ => true,
    };
    let pos = if is_return {
        Position::Return
    } else {
        Position::Argument
    };
    match map_type(ctx, p, pos) {
        Err(_) => String::from_str("???"),
        Ok(e) => {
            let inner = render_type(&e, throwable);
            if !object {
                inner
            } else {
                let mut s = if is_return {
                    String::from_str("__jni_bindgen::std::option::Option<__jni_bindgen::Local<'env, ")
                } else {
                    String::from_str(
                        "impl __jni_bindgen::std::convert::Into<__jni_bindgen::std::option::Option<&'env ",
                    )
                };
                s.append(inner.as_str());
                s.append(">>");
                s
            }
        },
    }
}

fn is_void_sig(p: &TypeSig) -> (r: bool)
    ensures
        r == (*p == (TypeSig::Single(BasicType::Prim(PrimKind::Void)))),
{
    match p {
        TypeSig::Single(BasicType::Prim(PrimKind::Void)) => true,
        _ => false,
    }
}

fn append_rejects(v: &mut Vec<Reject>, rs: &Vec<Reject>)
    ensures
        final(v)@ == old(v)@ + rs@,
{
    let mut i: usize = 0;
    let ghost start = v@;
    while i < rs.len()
        invariant
            0 <= i <= rs.len(),
            v@ == start + rs@.subrange(0, i as int),
        decreases rs.len() - i,
    {
        v.push(rs[i]);
        i = i + 1;
        assert(v@ =~= start + rs@.subrange(0, i as int));
    }
    assert(rs@.subrange(0, rs@.len() as int) =~= rs@);
}

fn param_reject_list(ctx: &Context, p: &TypeSig) -> (r: Vec<Reject>)
    requires
        p.wf(),
    ensures
        r@ == param_rejects(ctx, p),
{
    if is_void_sig(p) {
        let v = vec![Reject::VoidParameter];
        assert(v@ =~= seq![Reject::VoidParameter]);
        v
    } else {
        match map_type(ctx, p, Position::Argument) {
            Ok(_) => Vec::new(),
            Err(rs) => rs,
        }
    }
}

fn param_decl_piece(ctx: &Context, p: &TypeSig, i: usize, throwable: &str) -> (r: String)
    requires
        p.wf(),
        throwable@ == throwable_text(ctx),
    ensures
        r@ == ", "@ + arg_name(i as nat) + ": "@ + param_type_text(ctx, p),
{
    let arg = decimal_str(i);
    let mut s = String::from_str(", arg");
    s.append(arg.as_str());
    s.append(": ");
    let t = type_text(ctx, p, throwable, false);
    s.append(t.as_str());
    proof {
        reveal_strlit(", arg");
        reveal_strlit(", ");
        reveal_strlit("arg");
    }
    assert(s@ =~= ", "@ + arg_name(i as nat) + ": "@ + param_type_text(ctx, p));
    s
}

fn arg_value(p: &TypeSig, i: usize) -> (r: String)
    ensures
        r@ == arg_value_text(i as nat, p),
{
    let arg = decimal_str(i);
    let mut s = String::from_str("__jni_bindgen::AsJValue::as_jvalue(&arg");
    s.append(arg.as_str());
    match p {
        TypeSig::Single(BasicType::Prim(_)) => {},
        _ => s.append(".into()"),
    }
    s.append(")");
    proof {
        reveal_strlit("__jni_bindgen::AsJValue::as_jvalue(&arg");
        reveal_strlit("__jni_bindgen::AsJValue::as_jvalue(&");
        reveal_strlit("arg");
    }
    assert(s@ =~= arg_value_text(i as nat, p));
    s
}

/// The rejections, parameter declarations and argument values of a method's
/// parameters.
fn plan_params(ctx: &Context, m: &MethodInfo, throwable: &str, base: String) -> (r: (
    Vec<Reject>,
    String,
    String,
))
    requires
        m.wf(),
        throwable@ == throwable_text(ctx),
    ensures
        r.0@ == params_rejects(ctx, m.params@),
        r.1@ == params_decl_text(ctx, m.params@, base@),
        r.2@ == params_array_text(m.params@),
{
    let mut rejects: Vec<Reject> = Vec::new();
    let mut params_decl = base;
    let mut params_array = String::new();
    let mut i: usize = 0;
    while i < m.params.len()
        invariant
            m.wf(),
            0 <= i <= m.params@.len(),
            throwable@ == throwable_text(ctx),
            rejects@ == params_rejects(ctx, m.params@.subrange(0, i as int)),
            params_decl@ == params_decl_text(ctx, m.params@.subrange(0, i as int), base@),
            params_array@ == params_array_text(m.params@.subrange(0, i as int)),
        decreases m.params.len() - i,
    {
        let p = &m.params[i];
        let ghost pre = m.params@.subrange(0, i as int);
        let ghost next = m.params@.subrange(0, i + 1);
        proof {
            assert(next.drop_last() =~= pre);
            assert(next.last() == *p);
            if i == 0 {
                assert(next =~= seq![next[0]]);
            }
        }
        let rs = param_reject_list(ctx, p);
        append_rejects(&mut rejects, &rs);
        let piece = param_decl_piece(ctx, p, i, throwable);
        params_decl.append(piece.as_str());
        if i > 0 {
            params_array.append(", ");
        }
        let v = arg_value(p, i);
        params_array.append(v.as_str());
        proof {
            assert(rejects@ =~= params_rejects(ctx, next));
            assert(params_decl@ =~= params_decl_text(ctx, next, base@));
            assert(params_array@ =~= params_array_text(next));
        }
        i = i + 1;
    }
    assert(m.params@.subrange(0, m.params@.len() as int) =~= m.params@);
    (rejects, params_decl, params_array)
}

/// A method of a class, with the identifier its current style gives it.
pub struct Method<'a> {
    pub class: &'a ClassInfo,
    pub java: &'a MethodInfo,
    rust_name: Option<String>,
    mangling_style: MethodManglingStyle,
}

impl<'a> Method<'a> {
    pub closed spec fn name_view(&self) -> Option<Seq<char>> {
        opt_view(self.rust_name)
    }

    pub closed spec fn class_of(&self) -> &'a ClassInfo {
        self.class
    }

    pub closed spec fn java_of(&self) -> &'a MethodInfo {
        self.java
    }

    pub closed spec fn style(&self) -> MethodManglingStyle {
        self.mangling_style
    }

    /// A method named under the configured default style.
    pub fn new(ctx: &Context, class: &'a ClassInfo, java: &'a MethodInfo) -> (r: Method<'a>)
        ensures
            r.class_of() == class,
            r.java_of() == java,
            r.style() == ctx.config.method_naming_style,
            r.name_view() == mangle_spec(java.name@, java.descriptor@, ctx.config.method_naming_style),
    {
        let mut result = Method { class, java, rust_name: None, mangling_style: MethodManglingStyle::Java };
        result.set_mangling_style(ctx.config.method_naming_style);
        result
    }

    pub fn rust_name(&self) -> (r: Option<&str>)
        ensures
            match r {
                Some(s) => self.name_view() == Some(s@),
                None => self.name_view() is None,
            },
    {
        match &self.rust_name {
            Some(s) => Some(s.as_str()),
            None => None,
        }
    }

    /// Renames the method under `style`.
    pub fn set_mangling_style(&mut self, style: MethodManglingStyle)
        ensures
            final(self).class_of() == old(self).class_of(),
            final(self).java_of() == old(self).java_of(),
            final(self).style() == style,
            final(self).name_view() == mangle_spec(
                old(self).java_of().name@,
                old(self).java_of().descriptor@,
                style,
            ),
    {
        self.mangling_style = style;
        self.rust_name = style.mangle(self.java.name.as_str(), self.java.descriptor.as_str());
    }

    /// Decides how the method is declared, or `None` for a static
    /// initializer, which is never declared.
    pub fn plan(&self, ctx: &Context) -> (r: Option<MethodPlan>)
        requires
            self.java_of().wf(),
        ensures
            r is None <==> is_static_init(self.java_of()),
            r matches Some(p) ==> p.view() == plan_spec(
                ctx,
                self.class_of().path@,
                self.java_of(),
                self.name_view(),
            ),
    {
        let m = self.java;
        if str_eq(m.name.as_str(), "<clinit>") {
            return None;
        }
        let ctor = str_eq(m.name.as_str(), "<init>");
        let (name, mut rejects) = plan_name(ctx, self.class.path.as_str(), m, self.rust_name());
        let throwable_path = ctx.throwable_rust_path();
        let throwable = match &throwable_path {
            Some(t) => String::from_str(t.as_str()),
            None => String::from_str("???"),
        };
        let base = if ctor || m.is_static() {
            String::from_str("__jni_env: __jni_bindgen::Env<'env>")
        } else {
            String::from_str("&'env self")
        };
        let (param_rejects, params_decl, params_array) = plan_params(ctx, m, throwable.as_str(), base);
        append_rejects(&mut rejects, &param_rejects);
        let (ret_rejects, ret_decl, tag) = plan_return(ctx, m, ctor, throwable.as_str());
        append_rejects(&mut rejects, &ret_rejects);
        let ghost before = rejects@;
        if throwable_path.is_none() {
            rejects.push(Reject::UnresolvedThrowablePath);
        }
        assert(rejects@ =~= before + flag_reject(
            ctx.rust_path_of(throwable_class()) is None,
            Reject::UnresolvedThrowablePath,
        ));
        Some(MethodPlan { name, rejects, params_decl, params_array, ret_decl, tag, throwable })
    }
}

/// The identifier of a method and the rejections decided by its name, flags
/// and the configured ignore lists.
fn plan_name(ctx: &Context, class_path: &str, m: &MethodInfo, rust_name: Option<&str>) -> (r: (
    String,
    Vec<Reject>,
))
    ensures
        r.0@ == method_name_spec(
            ctx,
            class_path@,
            m,
            match rust_name {
                Some(n) => Some(n@),
                None => None,
            },
        ),
        r.1@ == head_rejects(
            ctx,
            class_path@,
            m,
            match rust_name {
                Some(n) => Some(n@),
                None => None,
            },
        ),
{
    let mut key = String::from_str(class_path);
    key.append("\x1f");
    key.append(m.name.as_str());
    let mut sig_key = String::from_str(key.as_str());
    sig_key.append("\x1f");
    sig_key.append(m.descriptor.as_str());
    let ignored = contains(&ctx.config.ignore_class_methods, key.as_str()) || contains(
        &ctx.config.ignore_class_method_sigs,
        sig_key.as_str(),
    );
    let renamed_to = match lookup(&ctx.config.rename_class_methods, key.as_str()) {
        Some(r) => Some(r),
        None => lookup(&ctx.config.rename_class_method_sigs, sig_key.as_str()),
    };
    let mut rejects: Vec<Reject> = Vec::new();
    let name = match renamed_to {
        Some(r) => String::from_str(r.as_str()),
        None => match rust_name {
            Some(n) => String::from_str(n),
            None => {
                rejects.push(Reject::UnmangleableName);
                String::from_str(m.name.as_str())
            },
        },
    };
    if !m.is_public() {
        rejects.push(Reject::NonPublic);
    }
    if m.is_bridge() {
        rejects.push(Reject::Bridge);
    }
    if ignored && renamed_to.is_none() {
        rejects.push(Reject::Ignored);
    }
    assert(rejects@ =~= flag_reject(
        renamed_spec(ctx, class_path@, m) is None && rust_name is None,
        Reject::UnmangleableName,
    ) + flag_reject(!m.public(), Reject::NonPublic) + flag_reject(m.bridge(), Reject::Bridge)
        + flag_reject(ignored_spec(ctx, class_path@, m) && renamed_spec(ctx, class_path@, m) is None, Reject::Ignored));
    (name, rejects)
}

/// The rejections, declared return type and call-dispatch tag of a method's
/// return type.
fn plan_return(ctx: &Context, m: &MethodInfo, ctor: bool, throwable: &str) -> (r: (
    Vec<Reject>,
    String,
    CallTag,
))
    requires
        m.wf(),
        ctor == is_ctor(m),
        throwable@ == throwable_text(ctx),
    ensures
        r.0@ == ret_rejects(ctx, m),
        r.1@ == ret_decl_spec(ctx, m),
        r.2 == tag_spec(m),
{
    let mut rejects = match map_type(ctx, &m.ret, Position::Return) {
        Ok(_) => Vec::new(),
        Err(rs) => rs,
    };
    let ret_void = is_void_sig(&m.ret);
    let (ret_decl, tag) = if ctor && ret_void {
        (String::from_str("__jni_bindgen::Local<'env, Self>"), CallTag::Object)
    } else {
        (type_text(ctx, &m.ret, throwable, true), call_tag(&m.ret))
    };
    let ghost before = rejects@;
    if ctor && !ret_void {
        rejects.push(Reject::ConstructorNonVoid);
    }
    assert(rejects@ =~= ret_rejects(ctx, m));
    (rejects, ret_decl, tag)
}

pub open spec fn line_prefix(indent: Seq<char>, rejected: bool) -> Seq<char> {
    if rejected {
        indent + "        // "@
    } else {
        indent + "        "@
    }
}

pub open spec fn reasons_text(prefix: Seq<char>, rs: Seq<Reject>) -> Seq<char>
    decreases rs.len(),
{
    if rs.len() == 0 {
        Seq::empty()
    } else {
        reasons_text(prefix, rs.drop_last()) + prefix + "// Not emitting: "@ + reject_text(rs.last())
            + "\n"@
    }
}

pub open spec fn doc_line(prefix: Seq<char>, m: &MethodInfo, docs_url: Option<Seq<char>>) -> Seq<char> {
    prefix + "/// "@ + match docs_url {
        Some(u) => u,
        None => m.name@,
    } + "\n"@
}

pub open spec fn signature_line(prefix: Seq<char>, m: &MethodInfo, p: PlanView) -> Seq<char> {
    prefix + (if m.deprecated {
        "#[deprecated] "@
    } else {
        Seq::empty()
    }) + (if m.public() {
        "pub "@
    } else {
        Seq::empty()
    }) + "fn "@ + p.name + "<'env>("@ + p.params_decl
        + ") -> __jni_bindgen::std::result::Result<"@ + p.ret_decl
        + ", __jni_bindgen::Local<'env, "@ + p.throwable + ">> {\n"@
}

pub open spec fn provenance_line(prefix: Seq<char>, class: Seq<char>, m: &MethodInfo) -> Seq<char> {
    prefix + "    // class.path == "@ + debug_quoted(class) + ", java.flags == "@ + m.flags_text@ + ", .name == "@ + debug_quoted(m.name@) + ", .descriptor == "@ + debug_quoted(m.descriptor@)
        + "\n"@
}

pub open spec fn env_line(prefix: Seq<char>, m: &MethodInfo) -> Seq<char> {
    if is_ctor(m) || m.static_() {
        Seq::empty()
    } else {
        prefix + "        let __jni_env = __jni_bindgen::Env::from_raw(self.0.env);\n"@
    }
}

pub open spec fn require_line(prefix: Seq<char>, class: Seq<char>, m: &MethodInfo) -> Seq<char> {
    prefix + "        let (__jni_class, __jni_method) = __jni_env.require_class_"@ + (if m.static_() {
        "static_"@
    } else {
        Seq::empty()
    }) + "method("@ + emit_cstr_spec(class) + ", "@ + emit_cstr_spec(m.name@) + ", "@
        + emit_cstr_spec(m.descriptor@) + ");\n"@
}

/// The foreign call a method is dispatched through: construct, static or
/// instance, by its tag.
pub open spec fn call_line(prefix: Seq<char>, m: &MethodInfo, tag: CallTag) -> Seq<char> {
    if is_ctor(m) {
        prefix + "        __jni_env.new_object_a(__jni_class, __jni_method, __jni_args.as_ptr())\n"@
    } else if m.static_() {
        prefix + "        __jni_env.call_static_"@ + tag_text(tag)
            + "_method_a(__jni_class, __jni_method, __jni_args.as_ptr())\n"@
    } else {
        prefix + "        __jni_env.call_"@ + tag_text(tag)
            + "_method_a(self.0.object, __jni_method, __jni_args.as_ptr())\n"@
    }
}

/// The declaration of a planned method.
pub open spec fn method_text(
    prefix: Seq<char>,
    class: Seq<char>,
    m: &MethodInfo,
    p: PlanView,
    docs_url: Option<Seq<char>>,
) -> Seq<char> {
    "\n"@ + reasons_text(prefix, p.rejects) + doc_line(prefix, m, docs_url) + signature_line(
        prefix,
        m,
        p,
    ) + provenance_line(prefix, class, m) + prefix + "    unsafe {\n"@ + prefix
        + "        let __jni_args = ["@ + p.params_array + "];\n"@ + env_line(prefix, m)
        + require_line(prefix, class, m) + call_line(prefix, m, p.tag) + prefix + "    }\n"@ + prefix
        + "}\n"@
}

fn reasons_str(prefix: &str, rs: &Vec<Reject>) -> (r: String)
    ensures
        r@ == reasons_text(prefix@, rs@),
{
    let mut out = String::new();
    let mut i: usize = 0;
    while i < rs.len()
        invariant
            0 <= i <= rs.len(),
            out@ == reasons_text(prefix@, rs@.subrange(0, i as int)),
        decreases rs.len() - i,
    {
        proof {
            let next = rs@.subrange(0, i + 1);
            assert(next.drop_last() =~= rs@.subrange(0, i as int));
            assert(next.last() == rs@[i as int]);
        }
        out.append(prefix);
        out.append("// Not emitting: ");
        out.append(rs[i].message());
        out.append("\n");
        i = i + 1;
    }
    assert(rs@.subrange(0, rs@.len() as int) =~= rs@);
    out
}

fn signature_str(prefix: &str, m: &MethodInfo, p: &MethodPlan) -> (r: String)
    ensures
        r@ == signature_line(prefix@, m, p.view()),
{
    let mut s = String::from_str(prefix);
    if m.deprecated {
        s.append("#[deprecated] ");
    }
    if m.is_public() {
        s.append("pub ");
    }
    let ghost head = s@;
    assert(head == prefix@ + (if m.deprecated {
        "#[deprecated] "@
    } else {
        Seq::<char>::empty()
    }) + (if m.public() {
        "pub "@
    } else {
        Seq::<char>::empty()
    })) by {
        if !m.deprecated {
            assert(prefix@ + Seq::<char>::empty() =~= prefix@);
        }
        if !m.public() {
            let x = prefix@ + (if m.deprecated {
                "#[deprecated] "@
            } else {
                Seq::<char>::empty()
            });
            assert(x + Seq::<char>::empty() =~= x);
        }
    }
    s.append("fn ");
    s.append(p.name.as_str());
    s.append("<'env>(");
    s.append(p.params_decl.as_str());
    s.append(") -> __jni_bindgen::std::result::Result<");
    s.append(p.ret_decl.as_str());
    s.append(", __jni_bindgen::Local<'env, ");
    s.append(p.throwable.as_str());
    s.append(">> {\n");
    s
}

fn provenance_str(prefix: &str, class: &str, m: &MethodInfo) -> (r: String)
    ensures
        r@ == provenance_line(prefix@, class@, m),
{
    let mut s = String::from_str(prefix);
    s.append("    // class.path == ");
    s.append(debug_str(class).as_str());
    s.append(", java.flags == ");
    s.append(m.flags_text.as_str());
    s.append(", .name == ");
    s.append(debug_str(m.name.as_str()).as_str());
    s.append(", .descriptor == ");
    s.append(debug_str(m.descriptor.as_str()).as_str());
    s.append("\n");
    s
}

fn require_str(prefix: &str, class: &str, m: &MethodInfo) -> (r: String)
    ensures
        r@ == require_line(prefix@, class@, m),
{
    let mut s = String::from_str(prefix);
    s.append("        let (__jni_class, __jni_method) = __jni_env.require_class_");
    let ghost head = s@;
    if m.is_static() {
        s.append("static_");
    }
    assert(s@ == head + (if m.static_() {
        "static_"@
    } else {
        Seq::<char>::empty()
    })) by {
        if !m.static_() {
            assert(head + Seq::<char>::empty() =~= head);
        }
    }
    s.append("method(");
    s.append(emit_cstr(class).as_str());
    s.append(", ");
    s.append(emit_cstr(m.name.as_str()).as_str());
    s.append(", ");
    s.append(emit_cstr(m.descriptor.as_str()).as_str());
    s.append(");\n");
    s
}

fn call_str(prefix: &str, m: &MethodInfo, tag: CallTag, ctor: bool) -> (r: String)
    requires
        ctor == is_ctor(m),
    ensures
        r@ == call_line(prefix@, m, tag),
{
    let mut s = String::from_str(prefix);
    if ctor {
        s.append("        __jni_env.new_object_a(__jni_class, __jni_method, __jni_args.as_ptr())\n");
    } else if m.is_static() {
        s.append("        __jni_env.call_static_");
        s.append(tag.fragment());
        s.append("_method_a(__jni_class, __jni_method, __jni_args.as_ptr())\n");
    } else {
        s.append("        __jni_env.call_");
        s.append(tag.fragment());
        s.append("_method_a(self.0.object, __jni_method, __jni_args.as_ptr())\n");
    }
    s
}

/// Writes the declaration of a planned method.
fn render_plan(prefix: &str, class: &str, m: &MethodInfo, p: &MethodPlan, docs_url: Option<&str>) -> (r: String)
    ensures
        r@ == method_text(
            prefix@,
            class@,
            m,
            p.view(),
            match docs_url {
                Some(u) => Some(u@),
                None => None,
            },
        ),
{
    let ctor = str_eq(m.name.as_str(), "<init>");
    let mut t = String::from_str("\n");
    t.append(reasons_str(prefix, &p.rejects).as_str());
    t.append(prefix);
    t.append("/// ");
    match docs_url {
        Some(u) => t.append(u),
        None => t.append(m.name.as_str()),
    }
    t.append("\n");
    proof {
        let d = doc_line(prefix@, m, match docs_url { Some(u) => Some(u@), None => None });
        assert(t@ =~= "\n"@ + reasons_text(prefix@, p.rejects@) + d);
    }
    t.append(signature_str(prefix, m, p).as_str());
    t.append(provenance_str(prefix, class, m).as_str());
    t.append(prefix);
    t.append("    unsafe {\n");
    t.append(prefix);
    t.append("        let __jni_args = [");
    t.append(p.params_array.as_str());
    t.append("];\n");
    let ghost before_env = t@;
    if !(ctor || m.is_static()) {
        t.append(prefix);
        t.append("        let __jni_env = __jni_bindgen::Env::from_raw(self.0.env);\n");
    }
    proof {
        if ctor || m.static_() {
            assert(before_env + env_line(prefix@, m) =~= before_env);
        } else {
            assert(t@ =~= before_env + env_line(prefix@, m));
        }
    }
    t.append(require_str(prefix, class, m).as_str());
    t.append(call_str(prefix, m, p.tag, ctor).as_str());
    t.append(prefix);
    t.append("    }\n");
    t.append(prefix);
    t.append("}\n");
    t
}

/// The text a method contributes to its struct's declaration: nothing for a
/// static initializer, nothing for a rejected method unless rejected methods
/// are kept, and otherwise its declaration, commented out when rejected.
pub open spec fn emit_spec(
    ctx: &Context,
    class: Seq<char>,
    m: &MethodInfo,
    rust_name: Option<Seq<char>>,
    indent: Seq<char>,
    docs_url: Option<Seq<char>>,
) -> Seq<char> {
    let p = plan_spec(ctx, class, m, rust_name);
    let rejected = p.rejects.len() > 0;
    if is_static_init(m) || (rejected && !ctx.config.keep_rejected_emits) {
        Seq::empty()
    } else {
        method_text(line_prefix(indent, rejected), class, m, p, docs_url)
    }
}

impl<'a> Method<'a> {
    /// Appends the method's declaration to `out`.
    pub fn emit(&self, ctx: &Context, indent: &str, docs_url: Option<&str>, out: &mut String)
        requires
            self.java_of().wf(),
        ensures
            final(out)@ == old(out)@ + emit_spec(
                ctx,
                self.class_of().path@,
                self.java_of(),
                self.name_view(),
                indent@,
                match docs_url {
                    Some(u) => Some(u@),
                    None => None,
                },
            ),
    {
        match self.plan(ctx) {
            None => {
                assert(old(out)@ + Seq::<char>::empty() =~= old(out)@);
            },
            Some(p) => {
                let rejected = p.rejects.len() > 0;
                if rejected && !ctx.config.keep_rejected_emits {
                    assert(old(out)@ + Seq::<char>::empty() =~= old(out)@);
                    return;
                }
                let mut prefix = String::from_str(indent);
                if rejected {
                    prefix.append("        // ");
                } else {
                    prefix.append("        ");
                }
                let t = render_plan(prefix.as_str(), self.class.path.as_str(), self.java, &p, docs_url);
                out.append(t.as_str());
            },
        }
    }
}

/// A static initializer contributes nothing, whatever is ignored or renamed.
pub proof fn lemma_static_init_never_emitted(
    ctx: &Context,
    class: Seq<char>,
    m: &MethodInfo,
    rust_name: Option<Seq<char>>,
    indent: Seq<char>,
    docs_url: Option<Seq<char>>,
)
    requires
        is_static_init(m),
    ensures
        emit_spec(ctx, class, m, rust_name, indent, docs_url) == Seq::<char>::empty(),
{
}

/// Whether a type signature names the class `c`, alone or as an array element.
pub open spec fn refers_to(t: &TypeSig, c: Seq<char>) -> bool {
    match t {
        TypeSig::Single(BasicType::Class(x)) => x@ == c,
        TypeSig::Array { inner: BasicType::Class(x), .. } => x@ == c,
        _ => false,
    }
}

proof fn lemma_params_rejects_contains(ctx: &Context, ps: Seq<TypeSig>, i: int, r: Reject)
    requires
        0 <= i < ps.len(),
        param_rejects(ctx, &ps[i]).contains(r),
    ensures
        params_rejects(ctx, ps).contains(r),
    decreases ps.len(),
{
    let k = choose|k: int| 0 <= k < param_rejects(ctx, &ps[i]).len() && param_rejects(ctx, &ps[i])[k] == r;
    if i == ps.len() - 1 {
        let pre = params_rejects(ctx, ps.drop_last());
        assert((pre + param_rejects(ctx, &ps.last()))[pre.len() + k] == r);
    } else {
        assert(ps.drop_last()[i] == ps[i]);
        lemma_params_rejects_contains(ctx, ps.drop_last(), i, r);
        let pre = params_rejects(ctx, ps.drop_last());
        let j = choose|j: int| 0 <= j < pre.len() && pre[j] == r;
        assert((pre + param_rejects(ctx, &ps.last()))[j] == r);
    }
}

proof fn lemma_unknown_class_rejected(ctx: &Context, t: &TypeSig, c: Seq<char>, pos: Position)
    requires
        refers_to(t, c),
        !ctx.knows(c),
    ensures
        map_spec(ctx, t, pos) is Err,
        map_spec(ctx, t, pos)->Err_0.contains(Reject::UnresolvedClassReference(pos)),
        pos == Position::Argument ==> param_rejects(ctx, t).contains(Reject::UnresolvedClassReference(pos)),
{
    let rs = crate::types::class_ref_rejects(ctx, c, pos);
    assert(rs[0] == Reject::UnresolvedClassReference(pos));
}

/// A method whose parameter `i` (or, with `i` out of range, whose return
/// type) names a class outside the known set is rejected for it: with
/// rejected methods kept it is written as a commented-out stub that lists the
/// reason, and otherwise it leaves no trace.
pub proof fn lemma_unresolved_class_rejected(
    ctx: &Context,
    class: Seq<char>,
    m: &MethodInfo,
    rust_name: Option<Seq<char>>,
    indent: Seq<char>,
    docs_url: Option<Seq<char>>,
    i: int,
    c: Seq<char>,
)
    requires
        !is_static_init(m),
        !ctx.knows(c),
        if 0 <= i < m.params@.len() {
            refers_to(&m.params@[i], c)
        } else {
            refers_to(&m.ret, c)
        },
    ensures
        plan_spec(ctx, class, m, rust_name).rejects.contains(
            Reject::UnresolvedClassReference(
                if 0 <= i < m.params@.len() {
                    Position::Argument
                } else {
                    Position::Return
                },
            ),
        ),
        ctx.config.keep_rejected_emits ==> emit_spec(ctx, class, m, rust_name, indent, docs_url)
            == method_text(
            indent + "        // "@,
            class,
            m,
            plan_spec(ctx, class, m, rust_name),
            docs_url,
        ),
        !ctx.config.keep_rejected_emits ==> emit_spec(ctx, class, m, rust_name, indent, docs_url)
            == Seq::<char>::empty(),
{
    let head = head_rejects(ctx, class, m, rust_name);
    let pr = params_rejects(ctx, m.params@);
    let rr = ret_rejects(ctx, m);
    let tr = flag_reject(ctx.rust_path_of(throwable_class()) is None, Reject::UnresolvedThrowablePath);
    let all = rejects_spec(ctx, class, m, rust_name);
    assert(all == head + pr + rr + tr);
    if 0 <= i < m.params@.len() {
        let r = Reject::UnresolvedClassReference(Position::Argument);
        lemma_unknown_class_rejected(ctx, &m.params@[i], c, Position::Argument);
        lemma_params_rejects_contains(ctx, m.params@, i, r);
        let j = choose|j: int| 0 <= j < pr.len() && pr[j] == r;
        assert(all[head.len() + j] == r);
    } else {
        let r = Reject::UnresolvedClassReference(Position::Return);
        lemma_unknown_class_rejected(ctx, &m.ret, c, Position::Return);
        let mr = map_spec(ctx, &m.ret, Position::Return)->Err_0;
        let j = choose|j: int| 0 <= j < mr.len() && mr[j] == r;
        assert(rr[j] == r);
        assert(all[head.len() + pr.len() + j] == r);
    }
}

/// A constructor is declared to return an owned reference to its struct and
/// is dispatched as an object construction when its descriptor returns void,
/// and is rejected otherwise.
pub proof fn lemma_constructor_returns_self(
    ctx: &Context,
    class: Seq<char>,
    m: &MethodInfo,
    rust_name: Option<Seq<char>>,
)
    requires
        is_ctor(m),
    ensures
        m.ret == (TypeSig::Single(BasicType::Prim(PrimKind::Void))) ==> plan_spec(
            ctx,
            class,
            m,
            rust_name,
        ).ret_decl == "__jni_bindgen::Local<'env, Self>"@ && plan_spec(ctx, class, m, rust_name).tag
            == CallTag::Object,
        m.ret != (TypeSig::Single(BasicType::Prim(PrimKind::Void))) ==> plan_spec(
            ctx,
            class,
            m,
            rust_name,
        ).rejects.contains(Reject::ConstructorNonVoid),
{
    if m.ret != (TypeSig::Single(BasicType::Prim(PrimKind::Void))) {
        let head = head_rejects(ctx, class, m, rust_name);
        let pr = params_rejects(ctx, m.params@);
        let mr: Seq<Reject> = match map_spec(ctx, &m.ret, Position::Return) {
            Ok(_) => Seq::empty(),
            Err(rs) => rs,
        };
        let rr = ret_rejects(ctx, m);
        assert(rr[mr.len() as int] == Reject::ConstructorNonVoid);
        let all = rejects_spec(ctx, class, m, rust_name);
        assert(all[(head.len() + pr.len() + mr.len()) as int] == Reject::ConstructorNonVoid);
    }
}

} // verus!
