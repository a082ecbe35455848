//! What generation knows beyond one class: the known-class set and the
//! configuration.

use vstd::prelude::*;
use crate::classpath::{lookup, lookup_spec, mod_for_spec, name_for_spec, StructPaths};
use crate::ident::{str_eq, MethodManglingStyle};

verus! {

/// The configuration of one generation run.
#[derive(Debug)]
pub struct Config {
    /// Methods left out, keyed `class\x1fname`.
    pub ignore_class_methods: Vec<String>,
    /// Methods left out, keyed `class\x1fname\x1fdescriptor`.
    pub ignore_class_method_sigs: Vec<String>,
    /// Method renames, keyed `class\x1fname`.
    pub rename_class_methods: Vec<(String, String)>,
    /// Method renames, keyed `class\x1fname\x1fdescriptor`.
    pub rename_class_method_sigs: Vec<(String, String)>,
    /// Struct renames, keyed by class path.
    pub rename_classes: Vec<(String, String)>,
    pub method_naming_style: MethodManglingStyle,
    pub method_naming_style_collision: MethodManglingStyle,
    /// Whether a rejected method is rendered as a commented-out stub.
    pub keep_rejected_emits: bool,
    /// Whether each struct is written to a unit of its own and included.
    pub shard_structs: bool,
}

/// A generation run: its configuration and every class it knows.
#[derive(Debug)]
pub struct Context {
    pub config: Config,
    pub all_classes: Vec<String>,
}

pub open spec fn contains_spec(v: Seq<String>, s: Seq<char>) -> bool {
    exists|i: int| 0 <= i < v.len() && #[trigger] v[i]@ == s
}

pub fn contains(v: &Vec<String>, s: &str) -> (r: bool)
    ensures
        r == contains_spec(v@, s@),
{
    let mut i: usize = 0;
    while i < v.len()
        invariant
            0 <= i <= v.len(),
            forall|k: int| 0 <= k < i ==> (#[trigger] v@[k])@ != s@,
        decreases v.len() - i,
    {
        if str_eq(v[i].as_str(), s) {
            return true;
        }
        i = i + 1;
    }
    false
}

/// The path under which the binding of `class` is referred to.
pub open spec fn rust_path_spec(renames: Seq<(String, String)>, class: Seq<char>) -> Option<Seq<char>> {
    match (mod_for_spec(class), name_for_spec(class, lookup_spec(renames, class))) {
        (Some(m), Some(n)) => if m.len() == 0 {
            Some("crate::"@ + n)
        } else {
            Some("crate::"@ + m + "::"@ + n)
        },
        _ => None,
    }
}

/// The managed path of the class every thrown value is an instance of.
pub open spec fn throwable_class() -> Seq<char> {
    "java/lang/Throwable"@
}

impl Context {
    pub open spec fn knows(&self, class: Seq<char>) -> bool {
        contains_spec(self.all_classes@, class)
    }

    pub open spec fn rust_path_of(&self, class: Seq<char>) -> Option<Seq<char>> {
        rust_path_spec(self.config.rename_classes@, class)
    }

    pub open spec fn struct_paths_spec(&self, class: Seq<char>) -> Option<(Seq<char>, Seq<char>)> {
        match (mod_for_spec(class), name_for_spec(class, lookup_spec(self.config.rename_classes@, class))) {
            (Some(m), Some(n)) => Some((m, n)),
            _ => None,
        }
    }

    pub fn is_known(&self, class: &str) -> (r: bool)
        ensures
            r == self.knows(class@),
    {
        contains(&self.all_classes, class)
    }

    /// The module path and struct name of the binding of `class`, after the
    /// configured struct renames.
    pub fn struct_paths(&self, class: &str) -> (r: Option<StructPaths>)
        ensures
            r is Some <==> (mod_for_spec(class@) is Some && name_for_spec(
                class@,
                lookup_spec(self.config.rename_classes@, class@),
            ) is Some),
            r matches Some(p) ==> Some(p.mod_@) == mod_for_spec(class@) && Some(p.struct_name@)
                == name_for_spec(class@, lookup_spec(self.config.rename_classes@, class@)),
    {
        let rename = lookup(&self.config.rename_classes, class);
        match rename {
            Some(r) => StructPaths::new(class, Some(r.as_str())),
            None => StructPaths::new(class, None),
        }
    }

    /// The path under which the binding of `class` is referred to, or `None`
    /// where it has no spelling.
    pub fn java_to_rust_path(&self, class: &str) -> (r: Option<String>)
        ensures
            r matches Some(s) ==> self.rust_path_of(class@) == Some(s@),
            r is None ==> self.rust_path_of(class@) is None,
    {
        match self.struct_paths(class) {
            None => None,
            Some(p) => {
                let mut s = String::from_str("crate::");
                if p.mod_.unicode_len() != 0 {
                    s.append(p.mod_.as_str());
                    s.append("::");
                }
                s.append(p.struct_name.as_str());
                Some(s)
            },
        }
    }

    /// The path of the binding of the throwable class.
    pub fn throwable_rust_path(&self) -> (r: Option<String>)
        ensures
            r matches Some(s) ==> self.rust_path_of(throwable_class()) == Some(s@),
            r is None ==> self.rust_path_of(throwable_class()) is None,
    {
        self.java_to_rust_path("java/lang/Throwable")
    }
}

} // verus!
