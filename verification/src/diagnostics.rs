//! Diagnostics: what went wrong, and where.

use vstd::prelude::*;
use vstd::string::StringExecFns;
use crate::ast::models;
use crate::types::Location;

verus! {

/// The ways in which resolution of a unit can fail.
#[derive(Debug, PartialEq, Eq)]
pub enum DiagnosticKind {
    /// A top-level name is declared again; the first declaration stays in force.
    DuplicateDeclaration(String),
    /// A name that is neither a local binding nor a top-level declaration, or a
    /// struct name that no struct declares.
    UnresolvedName(String),
    /// A call of something that no function declares.
    UnknownFunction(String),
    /// A call with another number of arguments than the function has parameters.
    ArityMismatch { callee: String, expected: usize, found: usize },
    /// A struct literal that leaves a declared field out.
    MissingField(String),
    /// A struct literal that names a field the struct does not have.
    UnknownField(String),
    /// A field that is named a second time.
    DuplicateField(String),
    /// An access to a field that the struct, named first, does not have.
    NoSuchField(String, String),
    /// A field access on a value of a primitive type.
    NotAStruct,
}

pub enum KindModel {
    DuplicateDeclaration(Seq<char>),
    UnresolvedName(Seq<char>),
    UnknownFunction(Seq<char>),
    ArityMismatch { callee: Seq<char>, expected: nat, found: nat },
    MissingField(Seq<char>),
    UnknownField(Seq<char>),
    DuplicateField(Seq<char>),
    NoSuchField(Seq<char>, Seq<char>),
    NotAStruct,
}

impl View for DiagnosticKind {
    type V = KindModel;

    open spec fn view(&self) -> KindModel {
        match self {
            DiagnosticKind::DuplicateDeclaration(name) => KindModel::DuplicateDeclaration(name@),
            DiagnosticKind::UnresolvedName(name) => KindModel::UnresolvedName(name@),
            DiagnosticKind::UnknownFunction(name) => KindModel::UnknownFunction(name@),
            DiagnosticKind::ArityMismatch { callee, expected, found } => KindModel::ArityMismatch {
                callee: callee@,
                expected: *expected as nat,
                found: *found as nat,
            },
            DiagnosticKind::MissingField(field) => KindModel::MissingField(field@),
            DiagnosticKind::UnknownField(field) => KindModel::UnknownField(field@),
            DiagnosticKind::DuplicateField(field) => KindModel::DuplicateField(field@),
            DiagnosticKind::NoSuchField(owner, field) => KindModel::NoSuchField(owner@, field@),
            DiagnosticKind::NotAStruct => KindModel::NotAStruct,
        }
    }
}

/// The text that describes a diagnostic of the given kind to a reader.
pub open spec fn message_text(kind: KindModel) -> Seq<char> {
    match kind {
        KindModel::DuplicateDeclaration(name) => "duplicate declaration of "@ + name,
        KindModel::UnresolvedName(name) => "unresolved name "@ + name,
        KindModel::UnknownFunction(name) => "unknown function "@ + name,
        KindModel::ArityMismatch { callee, .. } => "wrong number of arguments in call of "@ + callee,
        KindModel::MissingField(field) => "missing field "@ + field,
        KindModel::UnknownField(field) => "unknown field "@ + field,
        KindModel::DuplicateField(field) => "duplicate field "@ + field,
        KindModel::NoSuchField(owner, field) => "no field "@ + field + " in struct "@ + owner,
        KindModel::NotAStruct => "field access on a value that is not a struct"@,
    }
}

fn prefixed(prefix: &str, name: &String) -> (r: String)
    ensures
        r@ == prefix@ + name@,
{
    let mut text = String::from_str(prefix);
    text.append(name.as_str());
    text
}

impl DiagnosticKind {
    /// Renders the kind as a sentence fragment for a reader.
    pub fn message(&self) -> (r: String)
        ensures
            r@ == message_text(self@),
    {
        match self {
            DiagnosticKind::DuplicateDeclaration(name) => prefixed("duplicate declaration of ", name),
            DiagnosticKind::UnresolvedName(name) => prefixed("unresolved name ", name),
            DiagnosticKind::UnknownFunction(name) => prefixed("unknown function ", name),
            DiagnosticKind::ArityMismatch { callee, .. } => prefixed(
                "wrong number of arguments in call of ",
                callee,
            ),
            DiagnosticKind::MissingField(field) => prefixed("missing field ", field),
            DiagnosticKind::UnknownField(field) => prefixed("unknown field ", field),
            DiagnosticKind::DuplicateField(field) => prefixed("duplicate field ", field),
            DiagnosticKind::NoSuchField(owner, field) => {
                let mut text = prefixed("no field ", field);
                text.append(" in struct ");
                text.append(owner.as_str());
                text
            },
            DiagnosticKind::NotAStruct => String::from_str("field access on a value that is not a struct"),
        }
    }
}

impl Clone for DiagnosticKind {
    fn clone(&self) -> (r: DiagnosticKind)
        ensures
            r@ == self@,
    {
        match self {
            DiagnosticKind::DuplicateDeclaration(name) => DiagnosticKind::DuplicateDeclaration(name.clone()),
            DiagnosticKind::UnresolvedName(name) => DiagnosticKind::UnresolvedName(name.clone()),
            DiagnosticKind::UnknownFunction(name) => DiagnosticKind::UnknownFunction(name.clone()),
            DiagnosticKind::ArityMismatch { callee, expected, found } => DiagnosticKind::ArityMismatch {
                callee: callee.clone(),
                expected: *expected,
                found: *found,
            },
            DiagnosticKind::MissingField(field) => DiagnosticKind::MissingField(field.clone()),
            DiagnosticKind::UnknownField(field) => DiagnosticKind::UnknownField(field.clone()),
            DiagnosticKind::DuplicateField(field) => DiagnosticKind::DuplicateField(field.clone()),
            DiagnosticKind::NoSuchField(owner, field) => DiagnosticKind::NoSuchField(
                owner.clone(),
                field.clone(),
            ),
            DiagnosticKind::NotAStruct => DiagnosticKind::NotAStruct,
        }
    }
}

/// One finding of resolution. It is data for the caller and never ends the run.
#[derive(Debug, PartialEq, Eq)]
pub struct Diagnostic {
    pub kind: DiagnosticKind,
    pub location: Location,
}

pub struct DiagnosticModel {
    pub kind: KindModel,
    pub location: Location,
}

impl View for Diagnostic {
    type V = DiagnosticModel;

    open spec fn view(&self) -> DiagnosticModel {
        DiagnosticModel { kind: self.kind@, location: self.location }
    }
}

impl Clone for Diagnostic {
    fn clone(&self) -> (r: Diagnostic)
        ensures
            r@ == self@,
    {
        Diagnostic { kind: self.kind.clone(), location: self.location }
    }
}

impl Diagnostic {
    pub fn new(kind: DiagnosticKind, location: Location) -> (r: Diagnostic)
        ensures
            r@ == (DiagnosticModel { kind: kind@, location }),
    {
        Diagnostic { kind, location }
    }

    /// The text of the diagnostic, without its location.
    pub fn message(&self) -> (r: String)
        ensures
            r@ == message_text(self@.kind),
    {
        self.kind.message()
    }
}

/// One diagnostic.
pub open spec fn finding(kind: KindModel, location: Location) -> Seq<DiagnosticModel> {
    seq![DiagnosticModel { kind, location }]
}

/// No diagnostic.
pub open spec fn nothing() -> Seq<DiagnosticModel> {
    Seq::empty()
}

/// Adds one diagnostic at the end of `sink`.
pub fn emit(sink: &mut Vec<Diagnostic>, kind: DiagnosticKind, location: Location)
    ensures
        models(final(sink)@) == models(old(sink)@) + finding(kind@, location),
{
    sink.push(Diagnostic { kind, location });
    assert(models(sink@) =~= models(old(sink)@) + finding(kind@, location));
}

} // verus!
