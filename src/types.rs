//! The type mapper: from managed type signatures to native type expressions
//! and call-dispatch tags.

use vstd::prelude::*;
use crate::context::Context;

verus! {

#[derive(Clone, Copy, Debug, PartialEq, Eq, Structural)]
pub enum PrimKind {
    Void,
    Boolean,
    Byte,
    Char,
    Short,
    Int,
    Long,
    Float,
    Double,
}

/// A primitive or a class, named by its managed path.
#[derive(Debug)]
pub enum BasicType {
    Prim(PrimKind),
    Class(String),
}

/// A managed type signature.
#[derive(Debug)]
pub enum TypeSig {
    Single(BasicType),
    /// An array of `levels` dimensions (at least one).
    Array { levels: usize, inner: BasicType },
}

impl TypeSig {
    pub open spec fn wf(&self) -> bool {
        self matches TypeSig::Array { levels, .. } ==> levels >= 1
    }
}

/// The tag that picks the foreign call variant for a return type.
#[derive(Clone, Copy, Debug, PartialEq, Eq, Structural)]
pub enum CallTag {
    Void,
    Boolean,
    Byte,
    Char,
    Short,
    Int,
    Long,
    Float,
    Double,
    Object,
}

/// Where in a method signature a type stands.
#[derive(Clone, Copy, Debug, PartialEq, Eq, Structural)]
pub enum Position {
    Argument,
    Return,
}

/// Why a member is not emitted.
#[derive(Clone, Copy, Debug, PartialEq, Eq, Structural)]
pub enum Reject {
    /// The method's name has no identifier spelling.
    UnmangleableName,
    NonPublic,
    /// A bridge method the compiler made for type erasure.
    Bridge,
    /// Listed in the configured ignore lists.
    Ignored,
    /// A parameter of type void.
    VoidParameter,
    /// An array of void.
    VoidArray,
    /// A one-dimensional array of void as the return type.
    ReturnedVoidArray,
    /// A class referenced at this position is not among the known classes.
    UnresolvedClassReference(Position),
    /// A class referenced at this position has no native path spelling.
    UnresolvedClassPath(Position),
    /// A constructor whose descriptor does not return void.
    ConstructorNonVoid,
    /// The throwable class has no native path spelling.
    UnresolvedThrowablePath,
}

pub open spec fn reject_text(r: Reject) -> Seq<char> {
    match r {
        Reject::UnmangleableName => "ERROR:  Failed to mangle method name"@,
        Reject::NonPublic => "Non-public method"@,
        Reject::Bridge => "Bridge method - type erasure"@,
        Reject::Ignored => "[[ignore]]d"@,
        Reject::VoidParameter => "ERROR:  Void arguments aren't a thing"@,
        Reject::VoidArray => "ERROR:  Arrays of void isn't a thing"@,
        Reject::ReturnedVoidArray => "ERROR:  Returning arrays of void isn't a thing"@,
        Reject::UnresolvedClassReference(Position::Argument) => "ERROR:  missing class for argument type"@,
        Reject::UnresolvedClassReference(Position::Return) => "ERROR:  missing class for return type"@,
        Reject::UnresolvedClassPath(Position::Argument) => "ERROR:  Failed to resolve JNI path to Rust path for argument type"@,
        Reject::UnresolvedClassPath(Position::Return) => "ERROR:  Failed to resolve JNI path to Rust path for return type"@,
        Reject::ConstructorNonVoid => "ERROR:  Constructor should've returned void"@,
        Reject::UnresolvedThrowablePath => "ERROR:  Failed to resolve the throwable class's Rust path"@,
    }
}

impl Reject {
    /// The reason as it is written into a rejected stub.
    pub fn message(self) -> (r: &'static str)
        ensures
            r@ == reject_text(self),
    {
        match self {
            Reject::UnmangleableName => "ERROR:  Failed to mangle method name",
            Reject::NonPublic => "Non-public method",
            Reject::Bridge => "Bridge method - type erasure",
            Reject::Ignored => "[[ignore]]d",
            Reject::VoidParameter => "ERROR:  Void arguments aren't a thing",
            Reject::VoidArray => "ERROR:  Arrays of void isn't a thing",
            Reject::ReturnedVoidArray => "ERROR:  Returning arrays of void isn't a thing",
            Reject::UnresolvedClassReference(Position::Argument) => "ERROR:  missing class for argument type",
            Reject::UnresolvedClassReference(Position::Return) => "ERROR:  missing class for return type",
            Reject::UnresolvedClassPath(Position::Argument) => "ERROR:  Failed to resolve JNI path to Rust path for argument type",
            Reject::UnresolvedClassPath(Position::Return) => "ERROR:  Failed to resolve JNI path to Rust path for return type",
            Reject::ConstructorNonVoid => "ERROR:  Constructor should've returned void",
            Reject::UnresolvedThrowablePath => "ERROR:  Failed to resolve the throwable class's Rust path",
        }
    }
}

/// The innermost part of a native type expression.
#[derive(Debug)]
pub enum Leaf {
    Prim(PrimKind),
    /// The binding struct of a class, by its native path.
    Class(String),
    /// A one-dimensional array of a primitive.
    PrimArray(PrimKind),
}

/// A native type expression: `wrappers` levels of object array around a leaf.
#[derive(Debug)]
pub struct TypeExpr {
    pub leaf: Leaf,
    pub wrappers: usize,
}

/// A basic type, seen as a mathematical value.
pub enum BasicView {
    Prim(PrimKind),
    Class(Seq<char>),
}

pub enum LeafView {
    Prim(PrimKind),
    Class(Seq<char>),
    PrimArray(PrimKind),
}

pub open spec fn basic_view(b: &BasicType) -> BasicView {
    match b {
        BasicType::Prim(k) => BasicView::Prim(*k),
        BasicType::Class(c) => BasicView::Class(c@),
    }
}

pub open spec fn leaf_view(l: &Leaf) -> LeafView {
    match l {
        Leaf::Prim(k) => LeafView::Prim(*k),
        Leaf::Class(c) => LeafView::Class(c@),
        Leaf::PrimArray(k) => LeafView::PrimArray(*k),
    }
}

pub open spec fn tag_of(ty: &TypeSig) -> CallTag {
    match ty {
        TypeSig::Single(BasicType::Prim(k)) => match k {
            PrimKind::Void => CallTag::Void,
            PrimKind::Boolean => CallTag::Boolean,
            PrimKind::Byte => CallTag::Byte,
            PrimKind::Char => CallTag::Char,
            PrimKind::Short => CallTag::Short,
            PrimKind::Int => CallTag::Int,
            PrimKind::Long => CallTag::Long,
            PrimKind::Float => CallTag::Float,
            PrimKind::Double => CallTag::Double,
        },
        _ => CallTag::Object,
    }
}

/// The call-dispatch tag of a return type: its primitive kind, or object for
/// classes and arrays.
pub fn call_tag(ty: &TypeSig) -> (r: CallTag)
    ensures
        r == tag_of(ty),
{
    match ty {
        TypeSig::Single(BasicType::Prim(k)) => match k {
            PrimKind::Void => CallTag::Void,
            PrimKind::Boolean => CallTag::Boolean,
            PrimKind::Byte => CallTag::Byte,
            PrimKind::Char => CallTag::Char,
            PrimKind::Short => CallTag::Short,
            PrimKind::Int => CallTag::Int,
            PrimKind::Long => CallTag::Long,
            PrimKind::Float => CallTag::Float,
            PrimKind::Double => CallTag::Double,
        },
        _ => CallTag::Object,
    }
}

pub open spec fn tag_text(t: CallTag) -> Seq<char> {
    match t {
        CallTag::Void => "void"@,
        CallTag::Boolean => "boolean"@,
        CallTag::Byte => "byte"@,
        CallTag::Char => "char"@,
        CallTag::Short => "short"@,
        CallTag::Int => "int"@,
        CallTag::Long => "long"@,
        CallTag::Float => "float"@,
        CallTag::Double => "double"@,
        CallTag::Object => "object"@,
    }
}

impl CallTag {
    /// The fragment that names the foreign call variant (`call_int_method_a`).
    pub fn fragment(self) -> (r: &'static str)
        ensures
            r@ == tag_text(self),
    {
        match self {
            CallTag::Void => "void",
            CallTag::Boolean => "boolean",
            CallTag::Byte => "byte",
            CallTag::Char => "char",
            CallTag::Short => "short",
            CallTag::Int => "int",
            CallTag::Long => "long",
            CallTag::Float => "float",
            CallTag::Double => "double",
            CallTag::Object => "object",
        }
    }
}

/// The reasons a reference to `class` cannot be mapped, in order.
pub open spec fn class_ref_rejects(ctx: &Context, class: Seq<char>, pos: Position) -> Seq<Reject> {
    (if ctx.knows(class) {
        Seq::empty()
    } else {
        seq![Reject::UnresolvedClassReference(pos)]
    }) + (if ctx.rust_path_of(class) is Some {
        Seq::empty()
    } else {
        seq![Reject::UnresolvedClassPath(pos)]
    })
}

/// A reference to a class maps to its binding's path, when the class is known
/// and its path has a spelling.
pub open spec fn class_ref_spec(ctx: &Context, class: Seq<char>, pos: Position) -> Result<Seq<char>, Seq<Reject>> {
    if class_ref_rejects(ctx, class, pos).len() == 0 {
        Ok(ctx.rust_path_of(class)->0)
    } else {
        Err(class_ref_rejects(ctx, class, pos))
    }
}

/// The reason an array of void is rejected.
pub open spec fn void_array_reject(levels: usize, pos: Position) -> Reject {
    if pos == Position::Return && levels == 1 {
        Reject::ReturnedVoidArray
    } else {
        Reject::VoidArray
    }
}

/// What a type signature maps to: a leaf and the number of object-array
/// levels around it, or the reasons it cannot be mapped.
pub open spec fn map_spec(ctx: &Context, ty: &TypeSig, pos: Position) -> Result<(LeafView, nat), Seq<Reject>> {
    match ty {
        TypeSig::Single(b) => match basic_view(b) {
            BasicView::Prim(k) => Ok((LeafView::Prim(k), 0)),
            BasicView::Class(c) => match class_ref_spec(ctx, c, pos) {
                Ok(p) => Ok((LeafView::Class(p), 0)),
                Err(rs) => Err(rs),
            },
        },
        TypeSig::Array { levels, inner } => match basic_view(inner) {
            BasicView::Prim(k) => if k == PrimKind::Void {
                Err(seq![void_array_reject(*levels, pos)])
            } else {
                Ok((LeafView::PrimArray(k), (*levels - 1) as nat))
            },
            BasicView::Class(c) => match class_ref_spec(ctx, c, pos) {
                Ok(p) => Ok((LeafView::Class(p), *levels as nat)),
                Err(rs) => Err(rs),
            },
        },
    }
}

pub open spec fn expr_view(e: &TypeExpr) -> (LeafView, nat) {
    (leaf_view(&e.leaf), e.wrappers as nat)
}

pub open spec fn mapped(r: Result<TypeExpr, Vec<Reject>>) -> Result<(LeafView, nat), Seq<Reject>> {
    match r {
        Ok(e) => Ok(expr_view(&e)),
        Err(v) => Err(v@),
    }
}

fn map_class_ref(ctx: &Context, class: &String, pos: Position) -> (r: Result<String, Vec<Reject>>)
    ensures
        match r {
            Ok(p) => class_ref_spec(ctx, class@, pos) == Ok::<Seq<char>, Seq<Reject>>(p@),
            Err(v) => class_ref_spec(ctx, class@, pos) == Err::<Seq<char>, Seq<Reject>>(v@),
        },
{
    let mut reasons: Vec<Reject> = Vec::new();
    if !ctx.is_known(class.as_str()) {
        reasons.push(Reject::UnresolvedClassReference(pos));
    }
    let path = ctx.java_to_rust_path(class.as_str());
    if path.is_none() {
        reasons.push(Reject::UnresolvedClassPath(pos));
    }
    assert(reasons@ =~= class_ref_rejects(ctx, class@, pos));
    if reasons.len() == 0 {
        match path {
            Some(p) => Ok(p),
            None => Err(reasons),
        }
    } else {
        Err(reasons)
    }
}

/// Maps a type signature to a native type expression.
pub fn map_type(ctx: &Context, ty: &TypeSig, pos: Position) -> (r: Result<TypeExpr, Vec<Reject>>)
    requires
        ty.wf(),
    ensures
        mapped(r) == map_spec(ctx, ty, pos),
        r is Err ==> r->Err_0@.len() > 0,
{
    match ty {
        TypeSig::Single(BasicType::Prim(k)) => Ok(TypeExpr { leaf: Leaf::Prim(*k), wrappers: 0 }),
        TypeSig::Single(BasicType::Class(c)) => match map_class_ref(ctx, c, pos) {
            Ok(p) => Ok(TypeExpr { leaf: Leaf::Class(p), wrappers: 0 }),
            Err(rs) => Err(rs),
        },
        TypeSig::Array { levels, inner: BasicType::Prim(k) } => {
            if *k == PrimKind::Void {
                let reason = if pos == Position::Return && *levels == 1 {
                    Reject::ReturnedVoidArray
                } else {
                    Reject::VoidArray
                };
                let v = vec![reason];
                assert(v@ =~= seq![void_array_reject(*levels, pos)]);
                Err(v)
            } else {
                Ok(TypeExpr { leaf: Leaf::PrimArray(*k), wrappers: *levels - 1 })
            }
        },
        TypeSig::Array { levels, inner: BasicType::Class(c) } => match map_class_ref(ctx, c, pos) {
            Ok(p) => Ok(TypeExpr { leaf: Leaf::Class(p), wrappers: *levels }),
            Err(rs) => Err(rs),
        },
    }
}

/// The array shape a type expression declares: its dimensions and, for an
/// array of a primitive, the element kind.
pub open spec fn declared_array_shape(e: (LeafView, nat)) -> Option<(nat, PrimKind)> {
    match e.0 {
        LeafView::PrimArray(k) => Some(((e.1 + 1) as nat, k)),
        _ => None,
    }
}

pub fn array_shape(e: &TypeExpr) -> (r: Option<(usize, PrimKind)>)
    requires
        e.wrappers < usize::MAX,
    ensures
        match r {
            Some((n, k)) => declared_array_shape(expr_view(e)) == Some((n as nat, k)),
            None => declared_array_shape(expr_view(e)) is None,
        },
{
    match &e.leaf {
        Leaf::PrimArray(k) => Some((e.wrappers + 1, *k)),
        _ => None,
    }
}

/// An array of a non-void primitive kind maps to an expression that declares
/// the same number of dimensions and the same element kind.
pub proof fn lemma_array_round_trip(ctx: &Context, ty: &TypeSig, pos: Position, n: usize, k: PrimKind)
    requires
        n >= 1,
        k != PrimKind::Void,
        *ty == (TypeSig::Array { levels: n, inner: BasicType::Prim(k) }),
    ensures
        map_spec(ctx, ty, pos) is Ok,
        declared_array_shape(map_spec(ctx, ty, pos)->Ok_0) == Some((n as nat, k)),
{
}

pub open spec fn prim_text(k: PrimKind) -> Seq<char> {
    match k {
        PrimKind::Void => "()"@,
        PrimKind::Boolean => "bool"@,
        PrimKind::Byte => "i8"@,
        PrimKind::Char => "u16"@,
        PrimKind::Short => "i16"@,
        PrimKind::Int => "i32"@,
        PrimKind::Long => "i64"@,
        PrimKind::Float => "f32"@,
        PrimKind::Double => "f64"@,
    }
}

pub open spec fn prim_array_text(k: PrimKind) -> Seq<char> {
    match k {
        PrimKind::Void => "[()]"@,
        PrimKind::Boolean => "__jni_bindgen::BooleanArray"@,
        PrimKind::Byte => "__jni_bindgen::ByteArray"@,
        PrimKind::Char => "__jni_bindgen::CharArray"@,
        PrimKind::Short => "__jni_bindgen::ShortArray"@,
        PrimKind::Int => "__jni_bindgen::IntArray"@,
        PrimKind::Long => "__jni_bindgen::LongArray"@,
        PrimKind::Float => "__jni_bindgen::FloatArray"@,
        PrimKind::Double => "__jni_bindgen::DoubleArray"@,
    }
}

fn prim_str(k: PrimKind) -> (r: &'static str)
    ensures
        r@ == prim_text(k),
{
    match k {
        PrimKind::Void => "()",
        PrimKind::Boolean => "bool",
        PrimKind::Byte => "i8",
        PrimKind::Char => "u16",
        PrimKind::Short => "i16",
        PrimKind::Int => "i32",
        PrimKind::Long => "i64",
        PrimKind::Float => "f32",
        PrimKind::Double => "f64",
    }
}

fn prim_array_str(k: PrimKind) -> (r: &'static str)
    ensures
        r@ == prim_array_text(k),
{
    match k {
        PrimKind::Void => "[()]",
        PrimKind::Boolean => "__jni_bindgen::BooleanArray",
        PrimKind::Byte => "__jni_bindgen::ByteArray",
        PrimKind::Char => "__jni_bindgen::CharArray",
        PrimKind::Short => "__jni_bindgen::ShortArray",
        PrimKind::Int => "__jni_bindgen::IntArray",
        PrimKind::Long => "__jni_bindgen::LongArray",
        PrimKind::Float => "__jni_bindgen::FloatArray",
        PrimKind::Double => "__jni_bindgen::DoubleArray",
    }
}

pub open spec fn leaf_text(l: LeafView) -> Seq<char> {
    match l {
        LeafView::Prim(k) => prim_text(k),
        LeafView::Class(p) => p,
        LeafView::PrimArray(k) => prim_array_text(k),
    }
}

/// The text of a type expression: each object-array level names its element
/// type and the throwable type raised by element access.
pub open spec fn expr_text(l: LeafView, w: nat, throwable: Seq<char>) -> Seq<char>
    decreases w,
{
    if w == 0 {
        leaf_text(l)
    } else {
        "__jni_bindgen::ObjectArray<"@ + expr_text(l, (w - 1) as nat, throwable) + ", "@ + throwable
            + ">"@
    }
}

pub fn render_type(e: &TypeExpr, throwable: &str) -> (r: String)
    ensures
        r@ == expr_text(leaf_view(&e.leaf), e.wrappers as nat, throwable@),
{
    let mut s = match &e.leaf {
        Leaf::Prim(k) => String::from_str(prim_str(*k)),
        Leaf::Class(p) => String::from_str(p.as_str()),
        Leaf::PrimArray(k) => String::from_str(prim_array_str(*k)),
    };
    let mut i: usize = 0;
    while i < e.wrappers
        invariant
            0 <= i <= e.wrappers,
            s@ == expr_text(leaf_view(&e.leaf), i as nat, throwable@),
        decreases e.wrappers - i,
    {
        let mut t = String::from_str("__jni_bindgen::ObjectArray<");
        t.append(s.as_str());
        t.append(", ");
        t.append(throwable);
        t.append(">");
        s = t;
        i = i + 1;
    }
    s
}

} // verus!
