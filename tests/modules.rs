use jni_bindgen::context::{Config, Context};
use jni_bindgen::ident::MethodManglingStyle;
use jni_bindgen::model::{ClassInfo, ACC_PUBLIC};
use jni_bindgen::modules::{name_less, Module};
use jni_bindgen::structs::Struct;

fn ctx() -> Context {
    Context {
        config: Config {
            ignore_class_methods: Vec::new(),
            ignore_class_method_sigs: Vec::new(),
            rename_class_methods: Vec::new(),
            rename_class_method_sigs: Vec::new(),
            rename_classes: Vec::new(),
            method_naming_style: MethodManglingStyle::Java,
            method_naming_style_collision: MethodManglingStyle::JavaLongSignature,
            keep_rejected_emits: false,
            shard_structs: false,
        },
        all_classes: vec!["java/lang/Throwable".to_string()],
    }
}

fn bare(path: &str, flags: u16) -> ClassInfo {
    ClassInfo {
        path: path.to_string(),
        flags,
        deprecated: false,
        super_path: None,
        interfaces: Vec::new(),
        methods: Vec::new(),
        fields: Vec::new(),
    }
}

fn add(root: &mut Module, c: &Context, path: &str, flags: u16) {
    let st = Struct::new(c, bare(path, flags)).unwrap();
    let segments: Vec<String> = if st.rust.mod_.is_empty() {
        Vec::new()
    } else {
        st.rust.mod_.split("::").map(|s| s.to_string()).collect()
    };
    let name = st.rust.struct_name.clone();
    root.insert_struct_at(&segments, 0, name, st);
}

#[test]
fn names_order_by_characters() {
    assert!(name_less("a", "b"));
    assert!(name_less("a", "ab"));
    assert!(!name_less("ab", "a"));
    assert!(!name_less("a", "a"));
    assert!(name_less("", "a"));
    assert!(name_less("Z", "a"));
}

#[test]
fn children_are_sorted_whatever_the_insertion_order() {
    let c = ctx();
    let mut root = Module::new();
    add(&mut root, &c, "b/Y", ACC_PUBLIC);
    add(&mut root, &c, "a/X$In", ACC_PUBLIC);
    add(&mut root, &c, "b/W", 0);
    add(&mut root, &c, "a/c/V", ACC_PUBLIC);
    let names: Vec<&str> = root.modules.iter().map(|m| m.0.as_str()).collect();
    assert_eq!(names, vec!["a", "b"]);
    let b_structs: Vec<&str> = root.modules[1].1.structs.iter().map(|s| s.0.as_str()).collect();
    assert_eq!(b_structs, vec!["W", "Y"]);
    assert_eq!(root.depth, 2);
    let mut out = String::new();
    root.write(&c, "", &Vec::new(), &mut out);
    let a = out.find("pub mod a {").unwrap();
    let b = out.find("pub mod b {").unwrap();
    let inner = out.find("    pub mod c {").unwrap();
    let x = out.find("X_In").unwrap();
    let w = out.find("private class W").unwrap();
    let y = out.find("public class Y").unwrap();
    assert!(a < inner && inner < x && x < b && b < w && w < y);
    assert!(out.contains("#[allow(non_snake_case)]         // We might be generating Java style fields/methods\npub mod a {\n    #[allow(unused_imports)] use super::__jni_bindgen;\n"));
}

#[test]
fn top_level_struct_attributes() {
    let c = ctx();
    let mut root = Module::new();
    add(&mut root, &c, "Top$Inner", 0);
    let mut out = String::new();
    root.write(&c, "", &Vec::new(), &mut out);
    assert!(out.starts_with(
        "#[allow(non_camel_case_types)] // We map Java inner classes to Outer_Inner\n#[allow(dead_code)] // We generate structs for private Java types too, just in case.\n#[allow(deprecated)]             // We're generating deprecated types/methods\n"
    ));
}

#[test]
fn replacing_a_struct_keeps_one() {
    let c = ctx();
    let mut root = Module::new();
    add(&mut root, &c, "p/S", 0);
    add(&mut root, &c, "p/S", ACC_PUBLIC);
    assert_eq!(root.modules[0].1.structs.len(), 1);
    assert!(root.modules[0].1.structs[0].1.java.flags == ACC_PUBLIC);
}

#[test]
fn unwritable_struct_is_skipped() {
    let c = ctx();
    let mut root = Module::new();
    let mut bad = bare("p/Bad", ACC_PUBLIC);
    bad.super_path = Some("a/b-c/Base".to_string());
    let st = Struct::new(&c, bad).unwrap();
    root.insert_struct_at(&vec!["p".to_string()], 0, "Bad".to_string(), st);
    add(&mut root, &c, "p/Good", ACC_PUBLIC);
    let mut out = String::new();
    root.write(&c, "", &Vec::new(), &mut out);
    assert!(!out.contains("Bad"));
    assert!(out.contains("public class Good"));
}

#[test]
fn sharded_structs_are_included() {
    let mut c = ctx();
    c.config.shard_structs = true;
    let mut root = Module::new();
    add(&mut root, &c, "p/S", ACC_PUBLIC);
    add(&mut root, &c, "p/T", ACC_PUBLIC);
    let st = &root.modules[0].1.structs[0].1;
    let shard = st.shard_text(&c).unwrap();
    assert!(shard.starts_with("// WARNING:  Any changes to this file may be lost!!!\n\n\n__jni_bindgen! {\n"));
    assert!(shard.contains("public class S (\"p/S\\0\") extends ()"));
    let shards = vec![("p/S".to_string(), "p/S.rs".to_string())];
    let mut out = String::new();
    root.write(&c, "", &shards, &mut out);
    assert!(out.contains("    include!(\"p/S.rs\");\n"));
    assert!(!out.contains("__jni_bindgen! {"));
    assert!(!out.contains("T"));
}
