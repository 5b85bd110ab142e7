//! The shape of a record type under derivation, as plain values.

use vstd::prelude::*;

verus! {

/// One token of an annotation's body.
pub enum Token {
    Ident(String),
    Punct(char),
    /// The source text of a literal token, quotes and escapes included.
    Literal(String),
    /// A delimited group: its opening delimiter and the tokens inside.
    Group(char, Vec<Token>),
}

/// What follows an annotation's path.
pub enum AttrBody {
    /// `#[name]`
    Word,
    /// `#[name(tokens)]`
    List(Vec<Token>),
    /// `#[name = tokens]`
    NameValue(Vec<Token>),
}

/// One annotation attached to a field.
pub struct Attribute {
    pub path: Vec<String>,
    pub body: AttrBody,
}

/// A generic argument inside a path segment's angle brackets.
pub enum GenericArg {
    Type(TypeExpr),
    /// A lifetime, a constant or a binding.
    Other,
}

/// One segment of a type path with its angle-bracketed arguments (empty when
/// there are none).
pub struct Segment {
    pub ident: String,
    pub args: Vec<GenericArg>,
}

pub enum TypeShape {
    Path(Vec<Segment>),
    /// Any type that is not a path: a reference, a tuple, an array.
    Other,
}

/// A type expression. `id` is the handle the front end gave it, so that a
/// plan can point back at the type it came from.
pub struct TypeExpr {
    pub id: usize,
    pub shape: TypeShape,
}

#[derive(Clone, Debug, PartialEq, Eq)]
pub enum GenericParam {
    Type(String),
    Lifetime(String),
    Const(String),
}

/// What kind of declaration carries the derivation.
#[derive(PartialEq, Eq, Structural, Clone, Copy, Debug)]
pub enum DeclKind {
    /// A struct with named fields (or none).
    Record,
    /// A tuple struct, an enum or a union.
    Other,
}

pub struct Field {
    pub name: String,
    pub ty: TypeExpr,
    pub attrs: Vec<Attribute>,
}

pub struct TypeDescriptor {
    pub name: String,
    pub kind: DeclKind,
    pub generics: Vec<GenericParam>,
    pub fields: Vec<Field>,
}

} // verus!
