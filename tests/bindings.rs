use jni_bindgen::classpath::{mod_for, name_for, StructPaths};
use jni_bindgen::context::{Config, Context};
use jni_bindgen::ident::{rust_id, MethodManglingStyle};
use jni_bindgen::method::Method;
use jni_bindgen::model::{ClassInfo, FieldInfo, FieldNames, MethodInfo, ACC_PUBLIC, ACC_STATIC};
use jni_bindgen::structs::{resolve_methods, Struct};
use jni_bindgen::text::{decimal_str, emit_cstr};
use jni_bindgen::types::{
    array_shape, call_tag, map_type, render_type, BasicType, CallTag, Position, PrimKind, Reject, TypeSig,
};

fn s(x: &str) -> String {
    x.to_string()
}

fn config() -> Config {
    Config {
        ignore_class_methods: Vec::new(),
        ignore_class_method_sigs: Vec::new(),
        rename_class_methods: Vec::new(),
        rename_class_method_sigs: Vec::new(),
        rename_classes: Vec::new(),
        method_naming_style: MethodManglingStyle::Java,
        method_naming_style_collision: MethodManglingStyle::JavaLongSignature,
        keep_rejected_emits: false,
        shard_structs: false,
    }
}

fn context(classes: &[&str]) -> Context {
    Context { config: config(), all_classes: classes.iter().map(|c| s(c)).collect() }
}

fn int_sig() -> TypeSig {
    TypeSig::Single(BasicType::Prim(PrimKind::Int))
}

fn void() -> TypeSig {
    TypeSig::Single(BasicType::Prim(PrimKind::Void))
}

fn class_sig(c: &str) -> TypeSig {
    TypeSig::Single(BasicType::Class(s(c)))
}

fn method(name: &str, descriptor: &str, flags: u16, params: Vec<TypeSig>, ret: TypeSig) -> MethodInfo {
    let mut names = Vec::new();
    for (bit, n) in [(0x0001u16, "PUBLIC"), (0x0008, "STATIC"), (0x0040, "BRIDGE")] {
        if flags & bit != 0 {
            names.push(n);
        }
    }
    let flags_text = if names.is_empty() { s("(empty)") } else { names.join(" | ") };
    MethodInfo { name: s(name), descriptor: s(descriptor), flags, flags_text, deprecated: false, params, ret }
}

fn class(path: &str, methods: Vec<MethodInfo>) -> ClassInfo {
    ClassInfo {
        path: s(path),
        flags: ACC_PUBLIC,
        deprecated: false,
        super_path: None,
        interfaces: Vec::new(),
        methods,
        fields: Vec::new(),
    }
}

fn emitted(ctx: &Context, c: &ClassInfo, i: usize) -> String {
    let methods = resolve_methods(ctx, c);
    let mut out = String::new();
    methods[i].emit(ctx, "", None, &mut out);
    out
}

#[test]
fn rust_id_spellings() {
    assert_eq!(rust_id("foo"), Ok(s("foo")));
    assert_eq!(rust_id("fn"), Ok(s("fn_")));
    assert_eq!(rust_id("Self"), Ok(s("Self_")));
    assert_eq!(rust_id("a-b"), Err(s("Unable to add_struct(): java identifier \"a-b\" has no rust equivalent (yet?)")));
    assert!(rust_id("1a").is_err());
    assert!(rust_id("").is_err());
}

#[test]
fn mangle_styles() {
    assert_eq!(MethodManglingStyle::Java.mangle("foo", "(I)V"), Some(s("foo")));
    assert_eq!(MethodManglingStyle::Java.mangle("<init>", "()V"), Some(s("new")));
    assert_eq!(MethodManglingStyle::Java.mangle("<clinit>", "()V"), None);
    assert_eq!(
        MethodManglingStyle::JavaLongSignature.mangle("foo", "(Ljava/lang/String;[I)V"),
        Some(s("foo__4Ljava_0lang_0String_2_3I_5V"))
    );
    assert_eq!(MethodManglingStyle::JavaLongSignature.mangle("foo", "(I)V+"), None);
}

#[test]
fn class_paths() {
    assert_eq!(mod_for("java/lang/String"), Some(s("java::lang")));
    assert_eq!(mod_for("Bar"), Some(s("")));
    assert_eq!(mod_for("java/fn/Bar"), Some(s("java::fn_")));
    assert_eq!(mod_for("java/a-b/Bar"), None);
    assert_eq!(name_for("java/foo/Bar$Inner$MoreInner", None), Some(s("Bar_Inner_MoreInner")));
    assert_eq!(name_for("java/foo/Bar$Inner", Some("Renamed")), Some(s("Bar_Renamed")));
    let p = StructPaths::new("pkg/Outer$Inner", None).unwrap();
    assert_eq!(p.mod_, "pkg");
    assert_eq!(p.struct_name, "Outer_Inner");
}

#[test]
fn context_paths() {
    let mut ctx = context(&["java/lang/Throwable"]);
    assert_eq!(ctx.java_to_rust_path("java/lang/String"), Some(s("crate::java::lang::String")));
    assert_eq!(ctx.throwable_rust_path(), Some(s("crate::java::lang::Throwable")));
    ctx.config.rename_classes.push((s("java/lang/String"), s("JString")));
    assert_eq!(ctx.java_to_rust_path("java/lang/String"), Some(s("crate::java::lang::JString")));
    assert!(ctx.is_known("java/lang/Throwable"));
    assert!(!ctx.is_known("java/lang/String"));
}

#[test]
fn cstr_and_decimal() {
    assert_eq!(emit_cstr("abc"), "\"abc\\0\"");
    assert_eq!(emit_cstr("a\"b"), "\"a\\\"b\\0\"");
    assert_eq!(decimal_str(0), "0");
    assert_eq!(decimal_str(1207), "1207");
}

#[test]
fn array_round_trip() {
    let ctx = context(&[]);
    for &(n, k) in &[(1usize, PrimKind::Int), (3, PrimKind::Boolean), (2, PrimKind::Double)] {
        let e = map_type(&ctx, &TypeSig::Array { levels: n, inner: BasicType::Prim(k) }, Position::Argument).unwrap();
        assert_eq!(array_shape(&e), Some((n, k)));
    }
}

#[test]
fn array_text_nests_object_arrays() {
    let ctx = context(&["java/lang/String"]);
    let e = map_type(&ctx, &TypeSig::Array { levels: 2, inner: BasicType::Prim(PrimKind::Int) }, Position::Return).unwrap();
    assert_eq!(
        render_type(&e, "T"),
        "__jni_bindgen::ObjectArray<__jni_bindgen::IntArray, T>"
    );
    let e = map_type(&ctx, &TypeSig::Array { levels: 1, inner: BasicType::Class(s("java/lang/String")) }, Position::Argument)
        .unwrap();
    assert_eq!(render_type(&e, "T"), "__jni_bindgen::ObjectArray<crate::java::lang::String, T>");
}

#[test]
fn void_arrays_and_unknown_classes_are_rejected() {
    let ctx = context(&[]);
    let void1 = TypeSig::Array { levels: 1, inner: BasicType::Prim(PrimKind::Void) };
    let void2 = TypeSig::Array { levels: 2, inner: BasicType::Prim(PrimKind::Void) };
    assert_eq!(map_type(&ctx, &void1, Position::Argument).unwrap_err(), vec![Reject::VoidArray]);
    assert_eq!(map_type(&ctx, &void1, Position::Return).unwrap_err(), vec![Reject::ReturnedVoidArray]);
    assert_eq!(map_type(&ctx, &void2, Position::Return).unwrap_err(), vec![Reject::VoidArray]);
    assert_eq!(Reject::ReturnedVoidArray.message(), "ERROR:  Returning arrays of void isn't a thing");
    let r = map_type(&ctx, &class_sig("a/B"), Position::Argument);
    assert_eq!(r.unwrap_err(), vec![Reject::UnresolvedClassReference(Position::Argument)]);
    let r = map_type(&ctx, &class_sig("a/b-c/D"), Position::Return);
    assert_eq!(
        r.unwrap_err(),
        vec![Reject::UnresolvedClassReference(Position::Return), Reject::UnresolvedClassPath(Position::Return)]
    );
    assert_eq!(
        Reject::UnresolvedClassPath(Position::Argument).message(),
        "ERROR:  Failed to resolve JNI path to Rust path for argument type"
    );
}

#[test]
fn call_tags() {
    assert_eq!(call_tag(&int_sig()), CallTag::Int);
    assert_eq!(call_tag(&void()), CallTag::Void);
    assert_eq!(call_tag(&class_sig("a/B")), CallTag::Object);
    assert_eq!(call_tag(&TypeSig::Array { levels: 1, inner: BasicType::Prim(PrimKind::Int) }), CallTag::Object);
    assert_eq!(CallTag::Long.fragment(), "long");
}

#[test]
fn overloads_use_long_names() {
    let ctx = context(&["java/lang/Throwable"]);
    let c = class(
        "pkg/Outer$Inner",
        vec![
            method("foo", "(I)V", ACC_PUBLIC, vec![int_sig()], void()),
            method("foo", "(II)V", ACC_PUBLIC, vec![int_sig(), int_sig()], void()),
        ],
    );
    let st = Struct::new(&ctx, c).unwrap();
    assert_eq!(st.rust.mod_, "pkg");
    assert_eq!(st.rust.struct_name, "Outer_Inner");
    let methods = resolve_methods(&ctx, &st.java);
    assert_eq!(methods[0].rust_name(), Some("foo__4I_5V"));
    assert_eq!(methods[1].rust_name(), Some("foo__4II_5V"));
    assert_ne!(methods[0].rust_name(), methods[1].rust_name());
    let mut out = String::new();
    assert!(st.write(&ctx, "", &mut out));
    assert!(out.contains("pub fn foo__4I_5V<'env>("));
    assert!(out.contains("pub fn foo__4II_5V<'env>("));
    assert!(out.contains("public class Outer_Inner (\"pkg/Outer$Inner\\0\") extends ()"));
}

#[test]
fn unique_names_stay_short() {
    let ctx = context(&["java/lang/Throwable"]);
    let c = class(
        "pkg/A",
        vec![
            method("foo", "(I)V", ACC_PUBLIC, vec![int_sig()], void()),
            method("bar", "()I", ACC_PUBLIC, vec![], int_sig()),
            method("bar", "(I)I", 0, vec![int_sig()], int_sig()),
        ],
    );
    let methods = resolve_methods(&ctx, &c);
    assert_eq!(methods[0].rust_name(), Some("foo"));
    assert_eq!(methods[1].rust_name(), Some("bar"));
}

#[test]
fn field_names_count_as_collisions() {
    let ctx = context(&["java/lang/Throwable"]);
    let mut c = class("pkg/A", vec![method("getX", "()I", ACC_PUBLIC, vec![], int_sig())]);
    c.fields.push(FieldInfo { is_public: true, names: FieldNames::GetSet(s("getX"), s("setX")) });
    let methods = resolve_methods(&ctx, &c);
    assert_eq!(methods[0].rust_name(), Some("getX__4_5I"));
}

#[test]
fn method_declaration_text() {
    let ctx = context(&["java/lang/Throwable", "java/lang/String"]);
    let c = class(
        "pkg/A",
        vec![method("len", "(Ljava/lang/String;)I", ACC_PUBLIC, vec![class_sig("java/lang/String")], int_sig())],
    );
    let out = emitted(&ctx, &c, 0);
    let expected = [
        "\n",
        "        /// len\n",
        "        pub fn len<'env>(&'env self, arg0: impl __jni_bindgen::std::convert::Into<__jni_bindgen::std::option::Option<&'env crate::java::lang::String>>) -> __jni_bindgen::std::result::Result<i32, __jni_bindgen::Local<'env, crate::java::lang::Throwable>> {\n",
        "            // class.path == \"pkg/A\", java.flags == PUBLIC, .name == \"len\", .descriptor == \"(Ljava/lang/String;)I\"\n",
        "            unsafe {\n",
        "                let __jni_args = [__jni_bindgen::AsJValue::as_jvalue(&arg0.into())];\n",
        "                let __jni_env = __jni_bindgen::Env::from_raw(self.0.env);\n",
        "                let (__jni_class, __jni_method) = __jni_env.require_class_method(\"pkg/A\\0\", \"len\\0\", \"(Ljava/lang/String;)I\\0\");\n",
        "                __jni_env.call_int_method_a(self.0.object, __jni_method, __jni_args.as_ptr())\n",
        "            }\n",
        "        }\n",
    ]
    .concat();
    assert_eq!(out, expected);
}

#[test]
fn static_initializers_never_appear() {
    let mut ctx = context(&["java/lang/Throwable"]);
    ctx.config.keep_rejected_emits = true;
    ctx.config.rename_class_methods.push((s("pkg/A\x1f<clinit>"), s("init")));
    let c = class("pkg/A", vec![method("<clinit>", "()V", ACC_STATIC, vec![], void())]);
    assert_eq!(emitted(&ctx, &c, 0), "");
    let methods = resolve_methods(&ctx, &c);
    assert!(methods[0].plan(&ctx).is_none());
}

#[test]
fn unresolved_class_with_and_without_kept_rejects() {
    let mut ctx = context(&["java/lang/Throwable"]);
    let c = class("pkg/A", vec![method("get", "()Lpkg/Missing;", ACC_PUBLIC, vec![], class_sig("pkg/Missing"))]);
    assert_eq!(emitted(&ctx, &c, 0), "");
    ctx.config.keep_rejected_emits = true;
    let out = emitted(&ctx, &c, 0);
    assert!(out.contains("        // // Not emitting: ERROR:  missing class for return type\n"));
    assert!(out.contains("        // pub fn get<'env>("));
    let methods = resolve_methods(&ctx, &c);
    let plan = methods[0].plan(&ctx).unwrap();
    assert_eq!(plan.rejects, vec![Reject::UnresolvedClassReference(Position::Return)]);
    let c = class("pkg/A", vec![method("put", "(Lpkg/Missing;)V", ACC_PUBLIC, vec![class_sig("pkg/Missing")], void())]);
    let out = emitted(&ctx, &c, 0);
    assert!(out.contains("        // // Not emitting: ERROR:  missing class for argument type\n"));
}

#[test]
fn void_parameters_are_rejected() {
    let ctx = context(&["java/lang/Throwable"]);
    let c = class("pkg/A", vec![method("f", "(V)V", ACC_PUBLIC, vec![void()], void())]);
    let methods = resolve_methods(&ctx, &c);
    assert_eq!(methods[0].plan(&ctx).unwrap().rejects, vec![Reject::VoidParameter]);
}

#[test]
fn ignored_and_private_methods_are_rejected() {
    let mut ctx = context(&["java/lang/Throwable"]);
    ctx.config.ignore_class_method_sigs.push(s("pkg/A\x1ff\x1f()V"));
    let c = class(
        "pkg/A",
        vec![method("f", "()V", ACC_PUBLIC, vec![], void()), method("g", "()V", 0x0040, vec![], void())],
    );
    let methods = resolve_methods(&ctx, &c);
    assert_eq!(methods[0].plan(&ctx).unwrap().rejects, vec![Reject::Ignored]);
    assert_eq!(methods[1].plan(&ctx).unwrap().rejects, vec![Reject::NonPublic, Reject::Bridge]);
    assert_eq!(Reject::Ignored.message(), "[[ignore]]d");
}

#[test]
fn renames_win() {
    let mut ctx = context(&["java/lang/Throwable"]);
    ctx.config.rename_class_methods.push((s("pkg/A\x1ff"), s("renamed")));
    ctx.config.ignore_class_methods.push(s("pkg/A\x1ff"));
    ctx.config.keep_rejected_emits = true;
    let c = class("pkg/A", vec![method("f", "()V", ACC_PUBLIC, vec![], void())]);
    let methods = resolve_methods(&ctx, &c);
    let plan = methods[0].plan(&ctx).unwrap();
    assert_eq!(plan.name, "renamed");
    assert!(plan.rejects.is_empty());
    ctx.config.rename_class_methods.clear();
    let methods = resolve_methods(&ctx, &c);
    assert_eq!(methods[0].plan(&ctx).unwrap().rejects, vec![Reject::Ignored]);
}

#[test]
fn constructors_return_self() {
    let ctx = context(&["java/lang/Throwable"]);
    let c = class(
        "pkg/A",
        vec![
            method("<init>", "(I)V", ACC_PUBLIC, vec![int_sig()], void()),
            method("<init>", "()I", ACC_PUBLIC, vec![], int_sig()),
        ],
    );
    let methods = resolve_methods(&ctx, &c);
    let plan = methods[0].plan(&ctx).unwrap();
    assert_eq!(plan.ret_decl, "__jni_bindgen::Local<'env, Self>");
    assert_eq!(plan.tag, CallTag::Object);
    assert_eq!(plan.params_decl, "__jni_env: __jni_bindgen::Env<'env>, arg0: i32");
    assert!(plan.rejects.is_empty());
    let out = emitted(&ctx, &c, 0);
    assert!(out.contains("__jni_env.new_object_a(__jni_class, __jni_method, __jni_args.as_ptr())"));
    let bad = methods[1].plan(&ctx).unwrap();
    assert!(bad.rejects.contains(&Reject::ConstructorNonVoid));
}

#[test]
fn static_methods_dispatch_statically() {
    let ctx = context(&["java/lang/Throwable"]);
    let c = class("pkg/A", vec![method("now", "()J", ACC_PUBLIC | ACC_STATIC, vec![], TypeSig::Single(BasicType::Prim(PrimKind::Long)))]);
    let out = emitted(&ctx, &c, 0);
    assert!(out.contains("require_class_static_method("));
    assert!(out.contains("__jni_env.call_static_long_method_a(__jni_class, __jni_method, __jni_args.as_ptr())"));
    assert!(!out.contains("from_raw(self.0.env)"));
}

#[test]
fn interfaces_and_super_class() {
    let ctx = context(&["java/lang/Throwable", "a/I", "a/J", "a/Base"]);
    let mut c = class("a/C", vec![]);
    c.super_path = Some(s("a/Base"));
    c.interfaces = vec![s("a/I"), s("a/Unknown"), s("a/J")];
    let st = Struct::new(&ctx, c).unwrap();
    let mut out = String::new();
    assert!(st.write(&ctx, "", &mut out));
    assert!(out.contains(") extends crate::a::Base, implements crate::a::I, crate::a::J {\n"));
}

#[test]
fn unspellable_super_class_writes_nothing() {
    let ctx = context(&["java/lang/Throwable"]);
    let mut c = class("a/C", vec![]);
    c.super_path = Some(s("a/b-c/Base"));
    let st = Struct::new(&ctx, c).unwrap();
    let mut out = s("x");
    assert!(!st.write(&ctx, "", &mut out));
    assert_eq!(out, "x");
}

#[test]
fn method_new_uses_default_style() {
    let ctx = context(&[]);
    let c = class("pkg/A", vec![method("type", "()V", ACC_PUBLIC, vec![], void())]);
    let mut m = Method::new(&ctx, &c, &c.methods[0]);
    assert_eq!(m.rust_name(), Some("type_"));
    m.set_mangling_style(MethodManglingStyle::JavaLongSignature);
    assert_eq!(m.rust_name(), Some("type___4_5V"));
}
