//! Source locations and the types that expressions are annotated with.

use vstd::prelude::*;

verus! {

/// A position in the source text.
#[derive(Clone, Copy, Debug, PartialEq, Eq, Structural)]
pub struct Location {
    pub line: u32,
    pub column: u32,
}

impl Location {
    /// `self` stands at `other` or earlier in the text: lines first, then columns.
    pub open spec fn at_or_before(self, other: Location) -> bool {
        self.line < other.line || (self.line == other.line && self.column <= other.column)
    }

    /// `self` stands strictly later in the text than `other`.
    pub open spec fn after(self, other: Location) -> bool {
        !self.at_or_before(other)
    }

    pub fn new(line: u32, column: u32) -> (r: Location)
        ensures
            r.line == line,
            r.column == column,
    {
        Location { line, column }
    }

    /// Decides `after`.
    pub fn is_after(&self, other: &Location) -> (r: bool)
        ensures
            r == self.after(*other),
    {
        self.line > other.line || (self.line == other.line && self.column > other.column)
    }
}

/// The built-in scalar types.
#[derive(Clone, Copy, Debug, PartialEq, Eq, Structural)]
pub enum Primitive {
    Float64,
    Int64,
    Bool,
    Text,
    Unit,
}

/// A type as written in a declaration.
#[derive(Debug, PartialEq, Eq)]
pub enum Type {
    Primitive(Primitive),
    StructRef(String),
}

/// The mathematical value of a `Type`: names are sequences of characters.
pub enum TypeModel {
    Primitive(Primitive),
    StructRef(Seq<char>),
}

impl View for Type {
    type V = TypeModel;

    open spec fn view(&self) -> TypeModel {
        match self {
            Type::Primitive(p) => TypeModel::Primitive(*p),
            Type::StructRef(name) => TypeModel::StructRef(name@),
        }
    }
}

impl Clone for Type {
    fn clone(&self) -> (r: Type)
        ensures
            r@ == self@,
    {
        match self {
            Type::Primitive(p) => Type::Primitive(*p),
            Type::StructRef(name) => Type::StructRef(name.clone()),
        }
    }
}

/// What resolution found out about the type of an expression.
///
/// `Unresolved` marks a node whose resolution already failed; checks that
/// depend on it stay silent instead of reporting the failure a second time.
#[derive(Debug, PartialEq, Eq)]
pub enum TypeTag {
    Known(Type),
    Unresolved,
}

/// The mathematical value of a `TypeTag`.
pub enum TagModel {
    Known(TypeModel),
    Unresolved,
}

impl View for TypeTag {
    type V = TagModel;

    open spec fn view(&self) -> TagModel {
        match self {
            TypeTag::Known(t) => TagModel::Known(t@),
            TypeTag::Unresolved => TagModel::Unresolved,
        }
    }
}

impl Clone for TypeTag {
    fn clone(&self) -> (r: TypeTag)
        ensures
            r@ == self@,
    {
        match self {
            TypeTag::Known(t) => TypeTag::Known(t.clone()),
            TypeTag::Unresolved => TypeTag::Unresolved,
        }
    }
}

} // verus!
