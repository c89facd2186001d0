//! The parsed form of a compilation unit, as a parser hands it over.
//!
//! Every type comes with its mathematical value, reached with `@`: the same
//! shape with `Seq` in place of `Vec` and of `String`.

use vstd::prelude::*;
use crate::types::{Location, Primitive, Type, TypeModel};

verus! {

/// The values of the elements of a sequence, in order.
pub open spec fn models<T: View>(s: Seq<T>) -> Seq<T::V> {
    Seq::new(s.len(), |i: int| s[i]@)
}

/// An expression of the language.
#[derive(Debug, PartialEq, Eq)]
pub enum Expression {
    Literal { location: Location, kind: Primitive, lexeme: String },
    Identifier { location: Location, name: String },
    Call { location: Location, callee: String, args: Vec<Expression> },
    StructLiteral { location: Location, struct_name: String, field_inits: Vec<FieldInit> },
    FieldAccess { location: Location, base: Box<Expression>, field_name: String },
    FormatCall { location: Location, format_string: String, args: Vec<Expression> },
}

/// One `name: value` entry of a struct literal.
#[derive(Debug, PartialEq, Eq)]
pub struct FieldInit {
    pub location: Location,
    pub name: String,
    pub value: Expression,
}

pub enum ExpressionModel {
    Literal { location: Location, kind: Primitive, lexeme: Seq<char> },
    Identifier { location: Location, name: Seq<char> },
    Call { location: Location, callee: Seq<char>, args: Seq<ExpressionModel> },
    StructLiteral { location: Location, struct_name: Seq<char>, field_inits: Seq<FieldInitModel> },
    FieldAccess { location: Location, base: Box<ExpressionModel>, field_name: Seq<char> },
    FormatCall { location: Location, format_string: Seq<char>, args: Seq<ExpressionModel> },
}

pub struct FieldInitModel {
    pub location: Location,
    pub name: Seq<char>,
    pub value: ExpressionModel,
}

impl ExpressionModel {
    /// Where the expression starts.
    pub open spec fn location(self) -> Location {
        match self {
            ExpressionModel::Literal { location, .. } => location,
            ExpressionModel::Identifier { location, .. } => location,
            ExpressionModel::Call { location, .. } => location,
            ExpressionModel::StructLiteral { location, .. } => location,
            ExpressionModel::FieldAccess { location, .. } => location,
            ExpressionModel::FormatCall { location, .. } => location,
        }
    }
}

impl Expression {
    pub open spec fn model(self) -> ExpressionModel
        decreases self,
    {
        match self {
            Expression::Literal { location, kind, lexeme } => ExpressionModel::Literal {
                location,
                kind,
                lexeme: lexeme@,
            },
            Expression::Identifier { location, name } => ExpressionModel::Identifier {
                location,
                name: name@,
            },
            Expression::Call { location, callee, args } => ExpressionModel::Call {
                location,
                callee: callee@,
                args: Seq::new(
                    args.len() as nat,
                    |i: int|
                        if 0 <= i < args.len() {
                            args[i].model()
                        } else {
                            arbitrary()
                        },
                ),
            },
            Expression::StructLiteral { location, struct_name, field_inits } => ExpressionModel::StructLiteral {
                location,
                struct_name: struct_name@,
                field_inits: Seq::new(
                    field_inits.len() as nat,
                    |i: int|
                        if 0 <= i < field_inits.len() {
                            field_inits[i].model()
                        } else {
                            arbitrary()
                        },
                ),
            },
            Expression::FieldAccess { location, base, field_name } => ExpressionModel::FieldAccess {
                location,
                base: Box::new(base.model()),
                field_name: field_name@,
            },
            Expression::FormatCall { location, format_string, args } => ExpressionModel::FormatCall {
                location,
                format_string: format_string@,
                args: Seq::new(
                    args.len() as nat,
                    |i: int|
                        if 0 <= i < args.len() {
                            args[i].model()
                        } else {
                            arbitrary()
                        },
                ),
            },
        }
    }

    /// Where the expression starts.
    pub fn location(&self) -> (r: Location)
        ensures
            r == self@.location(),
    {
        match self {
            Expression::Literal { location, .. } => *location,
            Expression::Identifier { location, .. } => *location,
            Expression::Call { location, .. } => *location,
            Expression::StructLiteral { location, .. } => *location,
            Expression::FieldAccess { location, .. } => *location,
            Expression::FormatCall { location, .. } => *location,
        }
    }
}

impl FieldInit {
    pub open spec fn model(self) -> FieldInitModel
        decreases self,
    {
        FieldInitModel { location: self.location, name: self.name@, value: self.value.model() }
    }
}

impl View for Expression {
    type V = ExpressionModel;

    open spec fn view(&self) -> ExpressionModel {
        self.model()
    }
}

impl View for FieldInit {
    type V = FieldInitModel;

    open spec fn view(&self) -> FieldInitModel {
        self.model()
    }
}

/// A statement of a function body.
#[derive(Debug, PartialEq, Eq)]
pub enum Statement {
    /// Binds `name` to the value for the statements that follow.
    Let { location: Location, name: String, value: Expression },
    /// An expression evaluated for its effect or as the body's result.
    Expr(Expression),
}

pub enum StatementModel {
    Let { location: Location, name: Seq<char>, value: ExpressionModel },
    Expr(ExpressionModel),
}

impl View for Statement {
    type V = StatementModel;

    open spec fn view(&self) -> StatementModel {
        match self {
            Statement::Let { location, name, value } => StatementModel::Let {
                location: *location,
                name: name@,
                value: value@,
            },
            Statement::Expr(e) => StatementModel::Expr(e@),
        }
    }
}

/// A parameter of a function, with its declared type.
#[derive(Debug, PartialEq, Eq)]
pub struct Parameter {
    pub name: String,
    pub ty: Type,
}

pub struct ParameterModel {
    pub name: Seq<char>,
    pub ty: TypeModel,
}

impl View for Parameter {
    type V = ParameterModel;

    open spec fn view(&self) -> ParameterModel {
        ParameterModel { name: self.name@, ty: self.ty@ }
    }
}

impl Clone for Parameter {
    fn clone(&self) -> (r: Parameter)
        ensures
            r@ == self@,
    {
        Parameter { name: self.name.clone(), ty: self.ty.clone() }
    }
}

/// A field of a struct declaration, with its declared type.
#[derive(Debug, PartialEq, Eq)]
pub struct Field {
    pub name: String,
    pub ty: Type,
}

pub struct FieldModel {
    pub name: Seq<char>,
    pub ty: TypeModel,
}

impl View for Field {
    type V = FieldModel;

    open spec fn view(&self) -> FieldModel {
        FieldModel { name: self.name@, ty: self.ty@ }
    }
}

impl Clone for Field {
    fn clone(&self) -> (r: Field)
        ensures
            r@ == self@,
    {
        Field { name: self.name.clone(), ty: self.ty.clone() }
    }
}

/// A top-level declaration.
#[derive(Debug, PartialEq, Eq)]
pub enum Item {
    Function {
        location: Location,
        name: String,
        parameters: Vec<Parameter>,
        return_type: Type,
        body: Vec<Statement>,
    },
    Struct { location: Location, name: String, fields: Vec<Field> },
}

pub enum ItemModel {
    Function {
        location: Location,
        name: Seq<char>,
        parameters: Seq<ParameterModel>,
        return_type: TypeModel,
        body: Seq<StatementModel>,
    },
    Struct { location: Location, name: Seq<char>, fields: Seq<FieldModel> },
}

impl ItemModel {
    /// The name that the item declares.
    pub open spec fn name(self) -> Seq<char> {
        match self {
            ItemModel::Function { name, .. } => name,
            ItemModel::Struct { name, .. } => name,
        }
    }

    /// Where the item starts.
    pub open spec fn location(self) -> Location {
        match self {
            ItemModel::Function { location, .. } => location,
            ItemModel::Struct { location, .. } => location,
        }
    }
}

impl View for Item {
    type V = ItemModel;

    open spec fn view(&self) -> ItemModel {
        match self {
            Item::Function { location, name, parameters, return_type, body } => ItemModel::Function {
                location: *location,
                name: name@,
                parameters: models(parameters@),
                return_type: return_type@,
                body: models(body@),
            },
            Item::Struct { location, name, fields } => ItemModel::Struct {
                location: *location,
                name: name@,
                fields: models(fields@),
            },
        }
    }
}

impl Item {
    /// The name that the item declares.
    pub fn name(&self) -> (r: &String)
        ensures
            r@ == self@.name(),
    {
        match self {
            Item::Function { name, .. } => name,
            Item::Struct { name, .. } => name,
        }
    }

    /// Where the item starts.
    pub fn location(&self) -> (r: Location)
        ensures
            r == self@.location(),
    {
        match self {
            Item::Function { location, .. } => *location,
            Item::Struct { location, .. } => *location,
        }
    }
}

/// The top-level items of one source file, in source order.
#[derive(Debug, PartialEq, Eq)]
pub struct CompilationUnit {
    pub items: Vec<Item>,
}

impl View for CompilationUnit {
    type V = Seq<ItemModel>;

    open spec fn view(&self) -> Seq<ItemModel> {
        models(self.items@)
    }
}

} // verus!
