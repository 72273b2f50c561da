//! The records that LLVM lowering works with: function signatures, local
//! slots, rendered values, const bindings, native layouts of structs and enums,
//! and string literal globals.
use vstd::prelude::*;
use crate::mir::{Expr, Type};

verus! {

/// The native signature of a function or of a generic specialization.
#[derive(Debug, Clone)]
pub struct FunctionSignature {
    pub symbol: String,
    pub params: Vec<String>,
    pub param_ax_types: Vec<Type>,
    pub return_type: String,
    pub return_ax_type: Type,
}

/// The stack slot of a local: its pointer, LLVM type and AX type.
#[derive(Debug, Clone)]
pub struct LocalSlot {
    pub ptr: String,
    pub ty: String,
    pub ax_ty: Type,
}

/// A rendered LLVM value: its type, its textual representation and, when
/// known, its AX type.
#[derive(Debug, Clone)]
pub struct LlvmValue {
    pub ty: String,
    pub repr: String,
    pub ax_ty: Option<Type>,
}

/// A top-level const: its declared type and its initializer.
#[derive(Debug, Clone, Copy)]
pub struct ConstBinding<'a> {
    pub ty: &'a Type,
    pub value: &'a Expr,
}

/// The native layout of a struct or of a struct instance.
#[derive(Debug, Clone)]
pub struct StructLayout {
    pub name: String,
    pub ax_ty: Type,
    pub ty: String,
    pub fields: Vec<StructFieldLayout>,
}

/// A field of a struct layout: its name, position, LLVM type and AX type.
#[derive(Debug, Clone)]
pub struct StructFieldLayout {
    pub name: String,
    pub index: usize,
    pub ty: String,
    pub ax_ty: Type,
}

/// The native layout of an enum or of an enum instance: `i32` tags for unit
/// enums, `{ i32, ptr }` (tag and boxed payload) otherwise.
#[derive(Debug, Clone)]
pub struct EnumLayout {
    pub name: String,
    pub ax_ty: Type,
    pub ty: String,
    pub variants: Vec<EnumVariantLayout>,
}

/// A variant of an enum layout: its name, tag and payload type.
#[derive(Debug, Clone)]
pub struct EnumVariantLayout {
    pub name: String,
    pub tag: i32,
    pub payload_ax_ty: Option<Type>,
}

/// Variant `i` is the first one named `name`.
pub open spec fn is_first_variant(variants: Seq<EnumVariantLayout>, name: Seq<char>, i: int) -> bool {
    &&& 0 <= i < variants.len()
    &&& variants[i].name@ == name
    &&& forall|j: int| 0 <= j < i ==> variants[j].name@ != name
}

/// Some variant is named `name`.
pub open spec fn has_variant(variants: Seq<EnumVariantLayout>, name: Seq<char>) -> bool {
    exists|i: int| 0 <= i < variants.len() && variants[i].name@ == name
}

/// Field `i` is the first one named `name`.
pub open spec fn is_first_field(fields: Seq<StructFieldLayout>, name: Seq<char>, i: int) -> bool {
    &&& 0 <= i < fields.len()
    &&& fields[i].name@ == name
    &&& forall|j: int| 0 <= j < i ==> fields[j].name@ != name
}

/// Some field is named `name`.
pub open spec fn has_field(fields: Seq<StructFieldLayout>, name: Seq<char>) -> bool {
    exists|i: int| 0 <= i < fields.len() && fields[i].name@ == name
}

/// A private string constant of the module.
#[derive(Debug, Clone)]
pub struct StringLiteral {
    pub symbol: String,
    pub len: usize,
    pub encoded: String,
}

} // verus!
