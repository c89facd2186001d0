//! The resolved form of a unit: the parsed tree with a type tag on every
//! expression and on every declared type.

use vstd::prelude::*;
use crate::ast::models;
use crate::types::{Location, Primitive, TagModel, TypeTag};

verus! {

/// What an identifier was found to stand for.
#[derive(Clone, Copy, Debug, PartialEq, Eq, Structural)]
pub enum BindingKind {
    /// A parameter or a `let` of the enclosing function.
    Local,
    /// A top-level declaration of the unit.
    TopLevel,
    /// Nothing: the name did not resolve.
    Unbound,
}

/// An expression with its type tag.
#[derive(Debug, PartialEq, Eq)]
pub struct ResolvedExpression {
    pub ty: TypeTag,
    pub node: ResolvedNode,
}

/// The shape of a resolved expression; its parts are resolved in turn.
#[derive(Debug, PartialEq, Eq)]
pub enum ResolvedNode {
    Literal { location: Location, kind: Primitive, lexeme: String },
    Identifier { location: Location, name: String, binding: BindingKind },
    Call { location: Location, callee: String, args: Vec<ResolvedExpression> },
    StructLiteral { location: Location, struct_name: String, field_inits: Vec<ResolvedFieldInit> },
    FieldAccess { location: Location, base: Box<ResolvedExpression>, field_name: String },
    FormatCall { location: Location, format_string: String, args: Vec<ResolvedExpression> },
}

#[derive(Debug, PartialEq, Eq)]
pub struct ResolvedFieldInit {
    pub location: Location,
    pub name: String,
    pub value: ResolvedExpression,
}

pub struct ResolvedExpressionModel {
    pub ty: TagModel,
    pub node: ResolvedNodeModel,
}

pub enum ResolvedNodeModel {
    Literal { location: Location, kind: Primitive, lexeme: Seq<char> },
    Identifier { location: Location, name: Seq<char>, binding: BindingKind },
    Call { location: Location, callee: Seq<char>, args: Seq<ResolvedExpressionModel> },
    StructLiteral { location: Location, struct_name: Seq<char>, field_inits: Seq<ResolvedFieldInitModel> },
    FieldAccess { location: Location, base: Box<ResolvedExpressionModel>, field_name: Seq<char> },
    FormatCall { location: Location, format_string: Seq<char>, args: Seq<ResolvedExpressionModel> },
}

pub struct ResolvedFieldInitModel {
    pub location: Location,
    pub name: Seq<char>,
    pub value: ResolvedExpressionModel,
}

impl ResolvedExpression {
    pub open spec fn model(self) -> ResolvedExpressionModel
        decreases self,
    {
        ResolvedExpressionModel { ty: self.ty@, node: self.node.model() }
    }
}

impl ResolvedNode {
    pub open spec fn model(self) -> ResolvedNodeModel
        decreases self,
    {
        match self {
            ResolvedNode::Literal { location, kind, lexeme } => ResolvedNodeModel::Literal {
                location,
                kind,
                lexeme: lexeme@,
            },
            ResolvedNode::Identifier { location, name, binding } => ResolvedNodeModel::Identifier {
                location,
                name: name@,
                binding,
            },
            ResolvedNode::Call { location, callee, args } => ResolvedNodeModel::Call {
                location,
                callee: callee@,
                args: Seq::new(
                    args.len() as nat,
                    |i: int|
                        if 0 <= i < args.len() {
                            args[i].model()
                        } else {
                            arbitrary()
                        },
                ),
            },
            ResolvedNode::StructLiteral { location, struct_name, field_inits } => ResolvedNodeModel::StructLiteral {
                location,
                struct_name: struct_name@,
                field_inits: Seq::new(
                    field_inits.len() as nat,
                    |i: int|
                        if 0 <= i < field_inits.len() {
                            field_inits[i].model()
                        } else {
                            arbitrary()
                        },
                ),
            },
            ResolvedNode::FieldAccess { location, base, field_name } => ResolvedNodeModel::FieldAccess {
                location,
                base: Box::new(base.model()),
                field_name: field_name@,
            },
            ResolvedNode::FormatCall { location, format_string, args } => ResolvedNodeModel::FormatCall {
                location,
                format_string: format_string@,
                args: Seq::new(
                    args.len() as nat,
                    |i: int|
                        if 0 <= i < args.len() {
                            args[i].model()
                        } else {
                            arbitrary()
                        },
                ),
            },
        }
    }
}

impl ResolvedFieldInit {
    pub open spec fn model(self) -> ResolvedFieldInitModel
        decreases self,
    {
        ResolvedFieldInitModel { location: self.location, name: self.name@, value: self.value.model() }
    }
}

impl View for ResolvedExpression {
    type V = ResolvedExpressionModel;

    open spec fn view(&self) -> ResolvedExpressionModel {
        self.model()
    }
}

impl View for ResolvedFieldInit {
    type V = ResolvedFieldInitModel;

    open spec fn view(&self) -> ResolvedFieldInitModel {
        self.model()
    }
}

/// A statement with its expressions resolved.
#[derive(Debug, PartialEq, Eq)]
pub enum ResolvedStatement {
    Let { location: Location, name: String, value: ResolvedExpression },
    Expr(ResolvedExpression),
}

pub enum ResolvedStatementModel {
    Let { location: Location, name: Seq<char>, value: ResolvedExpressionModel },
    Expr(ResolvedExpressionModel),
}

impl View for ResolvedStatement {
    type V = ResolvedStatementModel;

    open spec fn view(&self) -> ResolvedStatementModel {
        match self {
            ResolvedStatement::Let { location, name, value } => ResolvedStatementModel::Let {
                location: *location,
                name: name@,
                value: value@,
            },
            ResolvedStatement::Expr(e) => ResolvedStatementModel::Expr(e@),
        }
    }
}

/// A name with the tag of its declared type: a parameter, a field, or a
/// binding in scope.
#[derive(Debug, PartialEq, Eq)]
pub struct Binding {
    pub name: String,
    pub ty: TypeTag,
}

pub struct BindingModel {
    pub name: Seq<char>,
    pub ty: TagModel,
}

impl View for Binding {
    type V = BindingModel;

    open spec fn view(&self) -> BindingModel {
        BindingModel { name: self.name@, ty: self.ty@ }
    }
}

impl Clone for Binding {
    fn clone(&self) -> (r: Binding)
        ensures
            r@ == self@,
    {
        Binding { name: self.name.clone(), ty: self.ty.clone() }
    }
}

/// A top-level item with its declared types and its body resolved.
#[derive(Debug, PartialEq, Eq)]
pub enum ResolvedItem {
    Function {
        location: Location,
        name: String,
        parameters: Vec<Binding>,
        return_type: TypeTag,
        body: Vec<ResolvedStatement>,
    },
    Struct { location: Location, name: String, fields: Vec<Binding> },
}

pub enum ResolvedItemModel {
    Function {
        location: Location,
        name: Seq<char>,
        parameters: Seq<BindingModel>,
        return_type: TagModel,
        body: Seq<ResolvedStatementModel>,
    },
    Struct { location: Location, name: Seq<char>, fields: Seq<BindingModel> },
}

impl View for ResolvedItem {
    type V = ResolvedItemModel;

    open spec fn view(&self) -> ResolvedItemModel {
        match self {
            ResolvedItem::Function { location, name, parameters, return_type, body } => ResolvedItemModel::Function {
                location: *location,
                name: name@,
                parameters: models(parameters@),
                return_type: return_type@,
                body: models(body@),
            },
            ResolvedItem::Struct { location, name, fields } => ResolvedItemModel::Struct {
                location: *location,
                name: name@,
                fields: models(fields@),
            },
        }
    }
}

/// A unit in which every item resolved without a diagnostic.
#[derive(Debug, PartialEq, Eq)]
pub struct ResolvedCompilationUnit {
    pub items: Vec<ResolvedItem>,
}

impl View for ResolvedCompilationUnit {
    type V = Seq<ResolvedItemModel>;

    open spec fn view(&self) -> Seq<ResolvedItemModel> {
        models(self.items@)
    }
}

} // verus!
