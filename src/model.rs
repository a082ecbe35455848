//! The reflected class metadata that generation reads.

use vstd::prelude::*;
use crate::types::TypeSig;

verus! {

pub const ACC_PUBLIC: u16 = 0x0001;
pub const ACC_STATIC: u16 = 0x0008;
pub const ACC_FINAL: u16 = 0x0010;
pub const ACC_BRIDGE: u16 = 0x0040;
pub const ACC_INTERFACE: u16 = 0x0200;
pub const ACC_ENUM: u16 = 0x4000;

/// One method of a class, with its descriptor already split into types.
#[derive(Debug)]
pub struct MethodInfo {
    pub name: String,
    pub descriptor: String,
    pub flags: u16,
    /// The flags as the reflection model names them (`PUBLIC | STATIC`).
    pub flags_text: String,
    pub deprecated: bool,
    pub params: Vec<TypeSig>,
    pub ret: TypeSig,
}

impl MethodInfo {
    pub open spec fn wf(&self) -> bool {
        &&& forall|i: int| 0 <= i < self.params@.len() ==> (#[trigger] self.params@[i]).wf()
        &&& self.ret.wf()
        &&& self.params@.len() < usize::MAX
    }

    pub open spec fn public(&self) -> bool {
        self.flags & ACC_PUBLIC != 0
    }

    pub open spec fn static_(&self) -> bool {
        self.flags & ACC_STATIC != 0
    }

    pub open spec fn bridge(&self) -> bool {
        self.flags & ACC_BRIDGE != 0
    }

    pub fn is_public(&self) -> (r: bool)
        ensures
            r == self.public(),
    {
        self.flags & ACC_PUBLIC != 0
    }

    pub fn is_static(&self) -> (r: bool)
        ensures
            r == self.static_(),
    {
        self.flags & ACC_STATIC != 0
    }

    pub fn is_bridge(&self) -> (r: bool)
        ensures
            r == self.bridge(),
    {
        self.flags & ACC_BRIDGE != 0
    }
}

/// The identifiers a field's accessors are declared under.
#[derive(Debug)]
pub enum FieldNames {
    /// A constant: one identifier.
    ConstValue(String),
    /// A getter and a setter.
    GetSet(String, String),
    /// The field's name has no identifier spelling.
    Unmangleable,
}

#[derive(Debug)]
pub struct FieldInfo {
    pub is_public: bool,
    pub names: FieldNames,
}

/// One class: its path, flags, supertypes and members.
#[derive(Debug)]
pub struct ClassInfo {
    pub path: String,
    pub flags: u16,
    pub deprecated: bool,
    pub super_path: Option<String>,
    pub interfaces: Vec<String>,
    pub methods: Vec<MethodInfo>,
    pub fields: Vec<FieldInfo>,
}

impl ClassInfo {
    pub open spec fn wf(&self) -> bool {
        &&& forall|i: int| 0 <= i < self.methods@.len() ==> (#[trigger] self.methods@[i]).wf()
        &&& self.methods@.len() + 2 * self.fields@.len() < usize::MAX
    }

    pub open spec fn public(&self) -> bool {
        self.flags & ACC_PUBLIC != 0
    }

    pub fn is_public(&self) -> (r: bool)
        ensures
            r == self.public(),
    {
        self.flags & ACC_PUBLIC != 0
    }

    pub open spec fn keyword(&self) -> Seq<char> {
        if self.flags & ACC_INTERFACE != 0 {
            "interface"@
        } else if self.flags & ACC_ENUM != 0 {
            "enum"@
        } else if self.flags & ACC_STATIC != 0 {
            "static java"@
        } else if self.flags & ACC_FINAL != 0 {
            "final class"@
        } else {
            "class"@
        }
    }

    /// The word that describes what kind of class this is.
    pub fn keyword_str(&self) -> (r: &'static str)
        ensures
            r@ == self.keyword(),
    {
        if self.flags & ACC_INTERFACE != 0 {
            "interface"
        } else if self.flags & ACC_ENUM != 0 {
            "enum"
        } else if self.flags & ACC_STATIC != 0 {
            "static java"
        } else if self.flags & ACC_FINAL != 0 {
            "final class"
        } else {
            "class"
        }
    }
}

} // verus!
