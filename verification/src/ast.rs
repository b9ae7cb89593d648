//! The abstract model of type expressions and type declarations that the
//! synthesis core works on.
//!
//! Identifiers are interned symbols: the algorithms only ever compare names
//! for equality, so a symbol is an opaque number chosen by the front end.
//!
//! A `TypeExpr` is the shape of one type reference as it appears in a field.
//! Structurally opaque positions (function pointers, references, raw
//! pointers, slices, the never type, trait objects, inferred or macro-made
//! types) are collapsed into `Opaque`, which keeps the list of type
//! expressions syntactically nested inside it: those are never mapped into,
//! but a scan may still inspect them.
use vstd::prelude::*;

verus! {

/// An interned identifier.
#[derive(PartialEq, Eq, Structural, Clone, Copy, Hash, Debug)]
pub struct Sym(pub u32);

/// One generic argument in a type application.  Lifetime and const arguments
/// occupy a position but never participate in mapping.
#[derive(PartialEq, Eq, Debug)]
pub enum TypeArg {
    Type(TypeExpr),
    Lifetime,
    Const,
}

/// The abstract syntax of a type reference.
#[derive(PartialEq, Eq, Debug)]
pub enum TypeExpr {
    /// A bare single-segment path with no arguments: a possible reference to
    /// a declared type parameter.
    ParamRef(Sym),
    /// A named type applied to zero or more generic arguments.  `qualified`
    /// records whether the path had more than one segment (such a path can
    /// never be a parameter); `head` is the final segment, and `args` are the
    /// final segment's generic arguments.
    Named { qualified: bool, head: Sym, args: Vec<TypeArg> },
    /// A tuple type.
    Tuple(Vec<TypeExpr>),
    /// A fixed-size array; the length is kept but is irrelevant to mapping.
    Array(Box<TypeExpr>, u64),
    /// A parenthesized type: transparent.
    Grouping(Box<TypeExpr>),
    /// A structurally opaque position.  The contained expressions are the
    /// types syntactically nested inside it (function-pointer inputs and
    /// output, the referent of a reference or pointer, a slice element,
    /// trait-object bound paths); they are scanned but never mapped.
    Opaque(Vec<TypeExpr>),
}

/// The kind of one declared generic parameter.
#[derive(PartialEq, Eq, Structural, Clone, Copy, Debug)]
pub enum ParamKind {
    Type,
    Lifetime,
    Const,
}

/// One declared generic parameter, with any trait bounds written directly on
/// it (each bound kept as the bound's trait path).
#[derive(PartialEq, Eq, Debug)]
pub struct GenericParam {
    pub kind: ParamKind,
    pub name: Sym,
    pub bounds: Vec<TypeExpr>,
}

/// How one field is addressed.
#[derive(PartialEq, Eq, Structural, Clone, Copy, Debug)]
pub enum FieldId {
    Named(Sym),
    Position(u64),
}

/// One field: its address and its type.
#[derive(PartialEq, Eq, Debug)]
pub struct FieldDescriptor {
    pub id: FieldId,
    pub ty: TypeExpr,
}

/// The field list of a struct or of one enum variant.
#[derive(PartialEq, Eq, Debug)]
pub enum FieldsShape {
    Named(Vec<FieldDescriptor>),
    Positional(Vec<FieldDescriptor>),
    Unit,
}

/// One enum variant.
#[derive(PartialEq, Eq, Debug)]
pub struct VariantDescriptor {
    pub name: Sym,
    pub fields: FieldsShape,
}

/// The data part of a declaration.
#[derive(PartialEq, Eq, Debug)]
pub enum DataBody {
    Struct(FieldsShape),
    Enum(Vec<VariantDescriptor>),
}

/// One predicate of a `where` clause: a bounded type and its bound paths.
#[derive(PartialEq, Eq, Debug)]
pub struct WherePredicate {
    pub bounded_ty: TypeExpr,
    pub bounds: Vec<TypeExpr>,
}

/// A whole type declaration as handed over by the front end.
#[derive(PartialEq, Eq, Debug)]
pub struct TypeDeclaration {
    pub name: Sym,
    pub params: Vec<GenericParam>,
    pub where_clause: Vec<WherePredicate>,
    pub body: DataBody,
}

/// The parsed configuration directive: an optional default parameter and a
/// list of `parameter as exposed-name` pairs.
#[derive(PartialEq, Eq, Debug)]
pub struct Request {
    pub default: Option<Sym>,
    pub name_map: Vec<(Sym, Sym)>,
}

/// The place of a field inside a declaration, for error reports.
#[derive(PartialEq, Eq, Structural, Clone, Copy, Debug)]
pub struct FieldPath {
    /// The variant holding the field; `None` for a struct field.
    pub variant: Option<Sym>,
    pub field: FieldId,
}

/// Why a generation request was rejected.  Generation is all-or-nothing:
/// any of these aborts the whole invocation.
#[derive(PartialEq, Eq, Structural, Clone, Copy, Debug)]
pub enum GenError {
    /// The requested or default parameter is not a declared type parameter.
    NoMappableParameter,
    /// The chosen parameter occurs in no field of the declaration.
    NoDependentField(Sym),
    /// Two named-exposure requests collide on the same exposed name.
    DuplicateExposedName(Sym),
    /// A field mentions the parameter inside a structurally opaque position
    /// with no mapping strategy.
    UnsupportedFieldShape(Sym, FieldPath),
    /// The configuration directive did not parse; surfaced by the front end.
    MalformedDirective,
}

} // verus!
