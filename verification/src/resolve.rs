//! The resolver: binds every name of a body to what it stands for and finds
//! the type of every expression, in one pass over the tree.

use vstd::prelude::*;
use crate::ast::{models, Expression, Field, FieldInit, Item, Parameter, Statement};
use crate::diagnostics::{emit, nothing, Diagnostic, DiagnosticKind};
use crate::resolved::{
    Binding,
    BindingKind,
    ResolvedExpression,
    ResolvedFieldInit,
    ResolvedItem,
    ResolvedNode,
    ResolvedStatement,
};
use crate::rules::{
    access_findings,
    access_type,
    annotation,
    annotation_findings,
    binding_of,
    body_findings,
    call_findings,
    call_type,
    coverage_findings,
    field_findings,
    field_names,
    field_type,
    findings,
    findings_of_first,
    findings_of_first_values,
    init_findings,
    init_names,
    is_function,
    is_struct,
    item_findings,
    literal_findings,
    literal_type,
    missing_findings,
    occurs_before,
    parameter_findings,
    parameter_scope,
    resolved,
    resolved_body,
    resolved_fields,
    resolved_item,
    resolved_statement,
    scope_after,
    scope_at,
    statement_findings,
    symbol_type,
};
use crate::symbols::{Declaration, Symbol, SymbolTable};
use crate::types::{Location, Primitive, Type, TypeTag};

verus! {

/// The fields of the struct called `name`, if the unit declares one.
fn struct_fields<'a>(table: &'a SymbolTable, name: &String) -> (r: Option<&'a Vec<Field>>)
    ensures
        match r {
            Some(fields) => is_struct(table@, name@) && models(fields@) == table@[name@].declaration->fields,
            None => !is_struct(table@, name@),
        },
{
    match table.lookup(name) {
        Some(symbol) => match &symbol.declaration {
            Declaration::Struct { fields } => Some(fields),
            Declaration::Function { .. } => None,
        },
        None => None,
    }
}

/// The parameters and the return type of the function called `name`, if the
/// unit declares one.
fn function_signature<'a>(table: &'a SymbolTable, name: &String) -> (r: Option<(&'a Vec<Parameter>, &'a Type)>)
    ensures
        match r {
            Some((parameters, return_type)) => {
                &&& is_function(table@, name@)
                &&& models(parameters@) == table@[name@].declaration->parameters
                &&& return_type@ == table@[name@].declaration->return_type
            },
            None => !is_function(table@, name@),
        },
{
    match table.lookup(name) {
        Some(symbol) => match &symbol.declaration {
            Declaration::Function { parameters, return_type } => Some((parameters, return_type)),
            Declaration::Struct { .. } => None,
        },
        None => None,
    }
}

/// The tag of a declared type.
pub fn annotate(table: &SymbolTable, ty: &Type) -> (r: TypeTag)
    ensures
        r@ == annotation(table@, ty@),
{
    match ty {
        Type::Primitive(p) => TypeTag::Known(Type::Primitive(*p)),
        Type::StructRef(name) => match struct_fields(table, name) {
            Some(_) => TypeTag::Known(Type::StructRef(name.clone())),
            None => TypeTag::Unresolved,
        },
    }
}

/// The tag of a type declared at `location`; a struct that the unit lacks is reported.
fn check_annotation(table: &SymbolTable, location: Location, ty: &Type, sink: &mut Vec<Diagnostic>) -> (r:
    TypeTag)
    ensures
        r@ == annotation(table@, ty@),
        models(final(sink)@) == models(old(sink)@) + annotation_findings(table@, location, ty@),
{
    let tag = annotate(table, ty);
    match ty {
        Type::Primitive(_) => {
            assert(models(sink@) + nothing() =~= models(sink@));
        },
        Type::StructRef(name) => {
            match &tag {
                TypeTag::Known(_) => {
                    assert(models(sink@) + nothing() =~= models(sink@));
                },
                TypeTag::Unresolved => {
                    emit(sink, DiagnosticKind::UnresolvedName(name.clone()), location);
                },
            }
        },
    }
    tag
}

/// The tag of the innermost binding of `name` in `scope`.
fn lookup_binding(scope: &Vec<Binding>, name: &String) -> (r: Option<TypeTag>)
    ensures
        match r {
            Some(tag) => binding_of(models(scope@), name@) == Some(tag@),
            None => binding_of(models(scope@), name@) is None,
        },
{
    let ghost all = models(scope@);
    let mut k: usize = scope.len();
    assert(all.take(k as int) =~= all);
    while k > 0
        invariant
            k <= scope.len(),
            all == models(scope@),
            binding_of(all, name@) == binding_of(all.take(k as int), name@),
        decreases k,
    {
        proof {
            assert(all.take(k as int).last() == scope[k - 1]@);
            assert(all.take(k as int).drop_last() =~= all.take(k - 1));
        }
        if scope[k - 1].name == *name {
            return Some(scope[k - 1].ty.clone());
        }
        k = k - 1;
    }
    None
}

/// The declared type of the first field of `fields` called `name`.
fn find_field<'a>(fields: &'a Vec<Field>, name: &String) -> (r: Option<&'a Type>)
    ensures
        match r {
            Some(ty) => field_type(models(fields@), name@) == Some(ty@),
            None => field_type(models(fields@), name@) is None,
        },
{
    let ghost all = models(fields@);
    let mut i: usize = 0;
    assert(all.skip(0) =~= all);
    while i < fields.len()
        invariant
            i <= fields.len(),
            all == models(fields@),
            field_type(all, name@) == field_type(all.skip(i as int), name@),
        decreases fields.len() - i,
    {
        proof {
            assert(all.skip(i as int).first() == fields[i as int]@);
            assert(all.skip(i as int).drop_first() =~= all.skip(i + 1));
        }
        if fields[i].name == *name {
            return Some(&fields[i].ty);
        }
        i = i + 1;
    }
    None
}

/// Whether an entry of `inits` in front of the `i`-th initialises `name`.
fn initialised_before(inits: &Vec<FieldInit>, i: usize, name: &String) -> (r: bool)
    requires
        i <= inits.len(),
    ensures
        r == occurs_before(init_names(models(inits@)), i as int, name@),
{
    let ghost names = init_names(models(inits@));
    let mut j: usize = 0;
    while j < i
        invariant
            j <= i <= inits.len(),
            names == init_names(models(inits@)),
            !occurs_before(names, j as int, name@),
        decreases i - j,
    {
        if inits[j].name == *name {
            assert(names[j as int] == name@);
            return true;
        }
        j = j + 1;
    }
    false
}

/// Whether a field of `fields` in front of the `i`-th is called `name`.
fn declared_before(fields: &Vec<Field>, i: usize, name: &String) -> (r: bool)
    requires
        i <= fields.len(),
    ensures
        r == occurs_before(field_names(models(fields@)), i as int, name@),
{
    let ghost names = field_names(models(fields@));
    let mut j: usize = 0;
    while j < i
        invariant
            j <= i <= fields.len(),
            names == field_names(models(fields@)),
            !occurs_before(names, j as int, name@),
        decreases i - j,
    {
        if fields[j].name == *name {
            assert(names[j as int] == name@);
            return true;
        }
        j = j + 1;
    }
    false
}

/// The type of a call of `callee` with `count` arguments; what is wrong with
/// the call is reported.
fn check_call(table: &SymbolTable, location: Location, callee: &String, count: usize, sink: &mut Vec<Diagnostic>) -> (r:
    TypeTag)
    ensures
        r@ == call_type(table@, callee@),
        models(final(sink)@) == models(old(sink)@) + call_findings(table@, location, callee@, count as nat),
{
    match function_signature(table, callee) {
        Some((parameters, return_type)) => {
            if parameters.len() == count {
                assert(models(sink@) + nothing() =~= models(sink@));
            } else {
                emit(
                    sink,
                    DiagnosticKind::ArityMismatch {
                        callee: callee.clone(),
                        expected: parameters.len(),
                        found: count,
                    },
                    location,
                );
            }
            annotate(table, return_type)
        },
        None => {
            emit(sink, DiagnosticKind::UnknownFunction(callee.clone()), location);
            TypeTag::Unresolved
        },
    }
}

/// The type of the field `field_name` of a value tagged `base`; what is wrong
/// with the access is reported.
fn check_access(
    table: &SymbolTable,
    location: Location,
    base: &TypeTag,
    field_name: &String,
    sink: &mut Vec<Diagnostic>,
) -> (r: TypeTag)
    ensures
        r@ == access_type(table@, base@, field_name@),
        models(final(sink)@) == models(old(sink)@) + access_findings(table@, location, base@, field_name@),
{
    match base {
        TypeTag::Unresolved => {
            assert(models(sink@) + nothing() =~= models(sink@));
            TypeTag::Unresolved
        },
        TypeTag::Known(Type::Primitive(_)) => {
            emit(sink, DiagnosticKind::NotAStruct, location);
            TypeTag::Unresolved
        },
        TypeTag::Known(Type::StructRef(owner)) => match struct_fields(table, owner) {
            Some(fields) => match find_field(fields, field_name) {
                Some(ty) => {
                    assert(models(sink@) + nothing() =~= models(sink@));
                    annotate(table, ty)
                },
                None => {
                    emit(sink, DiagnosticKind::NoSuchField(owner.clone(), field_name.clone()), location);
                    TypeTag::Unresolved
                },
            },
            None => {
                emit(sink, DiagnosticKind::NotAStruct, location);
                TypeTag::Unresolved
            },
        },
    }
}

/// Reports what is wrong with the field list of a literal of a struct with
/// the fields `fields`.
fn check_coverage(fields: &Vec<Field>, inits: &Vec<FieldInit>, location: Location, sink: &mut Vec<Diagnostic>)
    ensures
        models(final(sink)@) == models(old(sink)@) + coverage_findings(
            models(fields@),
            models(inits@),
            location,
        ),
{
    let ghost before = models(sink@);
    let ghost declared = models(fields@);
    let ghost given = models(inits@);
    let mut i: usize = 0;
    assert(before + init_findings(declared, given, 0) =~= before);
    while i < inits.len()
        invariant
            i <= inits.len(),
            declared == models(fields@),
            given == models(inits@),
            models(sink@) == before + init_findings(declared, given, i as nat),
        decreases inits.len() - i,
    {
        let ghost so_far = models(sink@);
        let name = &inits[i].name;
        if find_field(fields, name).is_none() {
            emit(sink, DiagnosticKind::UnknownField(name.clone()), inits[i].location);
        } else if initialised_before(inits, i, name) {
            emit(sink, DiagnosticKind::DuplicateField(name.clone()), inits[i].location);
        } else {
            assert(so_far + nothing() =~= so_far);
        }
        assert(models(sink@) =~= before + init_findings(declared, given, (i + 1) as nat));
        i = i + 1;
    }
    let ghost middle = models(sink@);
    let mut k: usize = 0;
    assert(middle + missing_findings(declared, given, location, 0) =~= middle);
    while k < fields.len()
        invariant
            k <= fields.len(),
            declared == models(fields@),
            given == models(inits@),
            models(sink@) == middle + missing_findings(declared, given, location, k as nat),
        decreases fields.len() - k,
    {
        let ghost so_far = models(sink@);
        let name = &fields[k].name;
        if initialised_before(inits, inits.len(), name) {
            assert(so_far + nothing() =~= so_far);
        } else {
            emit(sink, DiagnosticKind::MissingField(name.clone()), location);
        }
        assert(models(sink@) =~= middle + missing_findings(declared, given, location, (k + 1) as nat));
        k = k + 1;
    }
    assert(models(sink@) =~= before + coverage_findings(declared, given, location));
}

/// The type of a literal of the struct `struct_name`; what is wrong with the
/// literal itself is reported.
fn check_literal(
    table: &SymbolTable,
    location: Location,
    struct_name: &String,
    inits: &Vec<FieldInit>,
    sink: &mut Vec<Diagnostic>,
) -> (r: TypeTag)
    ensures
        r@ == literal_type(table@, struct_name@),
        models(final(sink)@) == models(old(sink)@) + literal_findings(
            table@,
            location,
            struct_name@,
            models(inits@),
        ),
{
    match struct_fields(table, struct_name) {
        Some(fields) => {
            check_coverage(fields, inits, location, sink);
            TypeTag::Known(Type::StructRef(struct_name.clone()))
        },
        None => {
            emit(sink, DiagnosticKind::UnresolvedName(struct_name.clone()), location);
            TypeTag::Unresolved
        },
    }
}

/// The type of a top-level symbol used as a value.
fn symbol_tag(table: &SymbolTable, symbol: &Symbol) -> (r: TypeTag)
    ensures
        r@ == symbol_type(table@, symbol@),
{
    match &symbol.declaration {
        Declaration::Struct { .. } => TypeTag::Known(Type::StructRef(symbol.name.clone())),
        Declaration::Function { return_type, .. } => annotate(table, return_type),
    }
}

/// Resolves one expression in the given scope.
///
/// The result is the expression with its type tag and those of its parts.
/// What is wrong with it is added to `sink`: the findings for its parts first,
/// left to right, then those for the expression itself. A failure is reported
/// where it happens and tags the node `Unresolved`; whatever depends on that
/// node stays silent.
pub fn resolve_expression(table: &SymbolTable, scope: &Vec<Binding>, e: &Expression, sink: &mut Vec<Diagnostic>) -> (r:
    ResolvedExpression)
    ensures
        r@ == resolved(table@, models(scope@), e@),
        models(final(sink)@) == models(old(sink)@) + findings(table@, models(scope@), e@),
    decreases e,
{
    let ghost before = models(sink@);
    match e {
        Expression::Literal { location, kind, lexeme } => {
            assert(before + nothing() =~= before);
            ResolvedExpression {
                ty: TypeTag::Known(Type::Primitive(*kind)),
                node: ResolvedNode::Literal { location: *location, kind: *kind, lexeme: lexeme.clone() },
            }
        },
        Expression::Identifier { location, name } => {
            let (ty, binding) = match lookup_binding(scope, name) {
                Some(tag) => {
                    assert(before + nothing() =~= before);
                    (tag, BindingKind::Local)
                },
                None => match table.lookup(name) {
                    Some(symbol) => {
                        assert(before + nothing() =~= before);
                        (symbol_tag(table, symbol), BindingKind::TopLevel)
                    },
                    None => {
                        emit(sink, DiagnosticKind::UnresolvedName(name.clone()), *location);
                        (TypeTag::Unresolved, BindingKind::Unbound)
                    },
                },
            };
            ResolvedExpression {
                ty,
                node: ResolvedNode::Identifier { location: *location, name: name.clone(), binding },
            }
        },
        Expression::Call { location, callee, args } => {
            assert(e@->Call_args =~= models(args@));
            let resolved_args = resolve_all(table, scope, args, sink);
            let ghost middle = models(sink@);
            let ty = check_call(table, *location, callee, args.len(), sink);
            let r = ResolvedExpression {
                ty,
                node: ResolvedNode::Call { location: *location, callee: callee.clone(), args: resolved_args },
            };
            proof {
                assert(r@.node->Call_args =~= resolved(table@, models(scope@), e@).node->Call_args);
                assert(models(sink@) =~= before + findings(table@, models(scope@), e@));
            }
            r
        },
        Expression::StructLiteral { location, struct_name, field_inits } => {
            assert(e@->StructLiteral_field_inits =~= models(field_inits@));
            let resolved_inits = resolve_values(table, scope, field_inits, sink);
            let ty = check_literal(table, *location, struct_name, field_inits, sink);
            let r = ResolvedExpression {
                ty,
                node: ResolvedNode::StructLiteral {
                    location: *location,
                    struct_name: struct_name.clone(),
                    field_inits: resolved_inits,
                },
            };
            proof {
                assert(r@.node->StructLiteral_field_inits =~= resolved(
                    table@,
                    models(scope@),
                    e@,
                ).node->StructLiteral_field_inits);
                assert(models(sink@) =~= before + findings(table@, models(scope@), e@));
            }
            r
        },
        Expression::FieldAccess { location, base, field_name } => {
            let resolved_base = resolve_expression(table, scope, base, sink);
            let ty = check_access(table, *location, &resolved_base.ty, field_name, sink);
            let r = ResolvedExpression {
                ty,
                node: ResolvedNode::FieldAccess {
                    location: *location,
                    base: Box::new(resolved_base),
                    field_name: field_name.clone(),
                },
            };
            proof {
                assert(models(sink@) =~= before + findings(table@, models(scope@), e@));
            }
            r
        },
        Expression::FormatCall { location, format_string, args } => {
            assert(e@->FormatCall_args =~= models(args@));
            let resolved_args = resolve_all(table, scope, args, sink);
            let r = ResolvedExpression {
                ty: TypeTag::Known(Type::Primitive(Primitive::Unit)),
                node: ResolvedNode::FormatCall {
                    location: *location,
                    format_string: format_string.clone(),
                    args: resolved_args,
                },
            };
            proof {
                assert(r@.node->FormatCall_args =~= resolved(table@, models(scope@), e@).node->FormatCall_args);
            }
            r
        },
    }
}

/// Resolves the expressions of `es`, first to last, in one scope.
fn resolve_all(table: &SymbolTable, scope: &Vec<Binding>, es: &Vec<Expression>, sink: &mut Vec<Diagnostic>) -> (r:
    Vec<ResolvedExpression>)
    ensures
        r.len() == es.len(),
        forall|i: int| 0 <= i < es.len() ==> (#[trigger] r[i])@ == resolved(table@, models(scope@), es[i]@),
        models(final(sink)@) == models(old(sink)@) + findings_of_first(
            table@,
            models(scope@),
            models(es@),
            es.len() as nat,
        ),
    decreases es,
{
    let ghost before = models(sink@);
    let ghost given = models(es@);
    let mut r: Vec<ResolvedExpression> = Vec::new();
    let mut i: usize = 0;
    assert(before + findings_of_first(table@, models(scope@), given, 0) =~= before);
    while i < es.len()
        invariant
            i <= es.len(),
            r.len() == i,
            given == models(es@),
            forall|j: int| 0 <= j < i ==> (#[trigger] r[j])@ == resolved(table@, models(scope@), es[j]@),
            models(sink@) == before + findings_of_first(table@, models(scope@), given, i as nat),
        decreases es.len() - i,
    {
        let one = resolve_expression(table, scope, &es[i], sink);
        r.push(one);
        assert(models(sink@) =~= before + findings_of_first(table@, models(scope@), given, (i + 1) as nat));
        i = i + 1;
    }
    r
}

/// Resolves the values of the entries of a struct literal, first to last.
fn resolve_values(table: &SymbolTable, scope: &Vec<Binding>, inits: &Vec<FieldInit>, sink: &mut Vec<Diagnostic>) -> (r:
    Vec<ResolvedFieldInit>)
    ensures
        r.len() == inits.len(),
        forall|i: int|
            0 <= i < inits.len() ==> {
                &&& (#[trigger] r[i])@.location == inits[i].location
                &&& r[i]@.name == inits[i].name@
                &&& r[i]@.value == resolved(table@, models(scope@), inits[i].value@)
            },
        models(final(sink)@) == models(old(sink)@) + findings_of_first_values(
            table@,
            models(scope@),
            models(inits@),
            inits.len() as nat,
        ),
    decreases inits,
{
    let ghost before = models(sink@);
    let ghost given = models(inits@);
    let mut r: Vec<ResolvedFieldInit> = Vec::new();
    let mut i: usize = 0;
    assert(before + findings_of_first_values(table@, models(scope@), given, 0) =~= before);
    while i < inits.len()
        invariant
            i <= inits.len(),
            r.len() == i,
            given == models(inits@),
            forall|j: int|
                0 <= j < i ==> {
                    &&& (#[trigger] r[j])@.location == inits[j].location
                    &&& r[j]@.name == inits[j].name@
                    &&& r[j]@.value == resolved(table@, models(scope@), inits[j].value@)
                },
            models(sink@) == before + findings_of_first_values(table@, models(scope@), given, i as nat),
        decreases inits.len() - i,
    {
        let value = resolve_expression(table, scope, &inits[i].value, sink);
        r.push(ResolvedFieldInit { location: inits[i].location, name: inits[i].name.clone(), value });
        assert(models(sink@) =~= before + findings_of_first_values(
            table@,
            models(scope@),
            given,
            (i + 1) as nat,
        ));
        i = i + 1;
    }
    r
}

/// Resolves one statement and extends `scope` by what it binds.
pub fn resolve_statement(
    table: &SymbolTable,
    scope: &mut Vec<Binding>,
    statement: &Statement,
    sink: &mut Vec<Diagnostic>,
) -> (r: ResolvedStatement)
    ensures
        r@ == resolved_statement(table@, models(old(scope)@), statement@),
        models(final(scope)@) == scope_after(table@, models(old(scope)@), statement@),
        models(final(sink)@) == models(old(sink)@) + statement_findings(
            table@,
            models(old(scope)@),
            statement@,
        ),
{
    match statement {
        Statement::Let { location, name, value } => {
            let resolved_value = resolve_expression(table, scope, value, sink);
            scope.push(Binding { name: name.clone(), ty: resolved_value.ty.clone() });
            assert(models(scope@) =~= scope_after(table@, models(old(scope)@), statement@));
            ResolvedStatement::Let { location: *location, name: name.clone(), value: resolved_value }
        },
        Statement::Expr(e) => ResolvedStatement::Expr(resolve_expression(table, scope, e, sink)),
    }
}

fn copy_bindings(bindings: &Vec<Binding>) -> (r: Vec<Binding>)
    ensures
        models(r@) == models(bindings@),
{
    let mut r: Vec<Binding> = Vec::new();
    let mut i: usize = 0;
    while i < bindings.len()
        invariant
            i <= bindings.len(),
            r.len() == i,
            forall|j: int| 0 <= j < i ==> r[j]@ == bindings[j]@,
        decreases bindings.len() - i,
    {
        r.push(bindings[i].clone());
        i = i + 1;
    }
    assert(models(r@) =~= models(bindings@));
    r
}

/// Resolves the statements of a body, first to last. The body starts in the
/// scope `initial`; each `let` is in scope for the statements after it.
pub fn resolve_body(
    table: &SymbolTable,
    initial: &Vec<Binding>,
    body: &Vec<Statement>,
    sink: &mut Vec<Diagnostic>,
) -> (r: Vec<ResolvedStatement>)
    ensures
        models(r@) == resolved_body(table@, models(initial@), models(body@)),
        models(final(sink)@) == models(old(sink)@) + body_findings(
            table@,
            models(initial@),
            models(body@),
            body.len() as nat,
        ),
{
    let ghost before = models(sink@);
    let ghost first = models(initial@);
    let ghost given = models(body@);
    let mut scope = copy_bindings(initial);
    let mut r: Vec<ResolvedStatement> = Vec::new();
    let mut i: usize = 0;
    assert(before + body_findings(table@, first, given, 0) =~= before);
    while i < body.len()
        invariant
            i <= body.len(),
            r.len() == i,
            given == models(body@),
            models(scope@) == scope_at(table@, first, given, i as nat),
            forall|j: int|
                0 <= j < i ==> (#[trigger] r[j])@ == resolved_statement(
                    table@,
                    scope_at(table@, first, given, j as nat),
                    given[j],
                ),
            models(sink@) == before + body_findings(table@, first, given, i as nat),
        decreases body.len() - i,
    {
        let one = resolve_statement(table, &mut scope, &body[i], sink);
        r.push(one);
        assert(models(sink@) =~= before + body_findings(table@, first, given, (i + 1) as nat));
        i = i + 1;
    }
    assert(models(r@) =~= resolved_body(table@, first, given));
    r
}

/// Resolves the declared types of the parameters of a function.
fn resolve_parameters(
    table: &SymbolTable,
    location: Location,
    parameters: &Vec<Parameter>,
    sink: &mut Vec<Diagnostic>,
) -> (r: Vec<Binding>)
    ensures
        models(r@) == parameter_scope(table@, models(parameters@)),
        models(final(sink)@) == models(old(sink)@) + parameter_findings(
            table@,
            location,
            models(parameters@),
            parameters.len() as nat,
        ),
{
    let ghost before = models(sink@);
    let ghost given = models(parameters@);
    let mut r: Vec<Binding> = Vec::new();
    let mut i: usize = 0;
    assert(before + parameter_findings(table@, location, given, 0) =~= before);
    while i < parameters.len()
        invariant
            i <= parameters.len(),
            r.len() == i,
            given == models(parameters@),
            forall|j: int| 0 <= j < i ==> (#[trigger] r[j])@ == parameter_scope(table@, given)[j],
            models(sink@) == before + parameter_findings(table@, location, given, i as nat),
        decreases parameters.len() - i,
    {
        let ty = check_annotation(table, location, &parameters[i].ty, sink);
        r.push(Binding { name: parameters[i].name.clone(), ty });
        assert(models(sink@) =~= before + parameter_findings(table@, location, given, (i + 1) as nat));
        i = i + 1;
    }
    assert(models(r@) =~= parameter_scope(table@, given));
    r
}

/// Resolves the declared types of the fields of a struct declaration and
/// reports the names that are declared twice.
fn resolve_fields(table: &SymbolTable, location: Location, fields: &Vec<Field>, sink: &mut Vec<Diagnostic>) -> (r:
    Vec<Binding>)
    ensures
        models(r@) == resolved_fields(table@, models(fields@)),
        models(final(sink)@) == models(old(sink)@) + field_findings(
            table@,
            location,
            models(fields@),
            fields.len() as nat,
        ),
{
    let ghost before = models(sink@);
    let ghost given = models(fields@);
    let mut r: Vec<Binding> = Vec::new();
    let mut i: usize = 0;
    assert(before + field_findings(table@, location, given, 0) =~= before);
    while i < fields.len()
        invariant
            i <= fields.len(),
            r.len() == i,
            given == models(fields@),
            forall|j: int| 0 <= j < i ==> (#[trigger] r[j])@ == resolved_fields(table@, given)[j],
            models(sink@) == before + field_findings(table@, location, given, i as nat),
        decreases fields.len() - i,
    {
        let ty = check_annotation(table, location, &fields[i].ty, sink);
        let ghost so_far = models(sink@);
        if declared_before(fields, i, &fields[i].name) {
            emit(sink, DiagnosticKind::DuplicateField(fields[i].name.clone()), location);
        } else {
            assert(so_far + nothing() =~= so_far);
        }
        r.push(Binding { name: fields[i].name.clone(), ty });
        assert(models(sink@) =~= before + field_findings(table@, location, given, (i + 1) as nat));
        i = i + 1;
    }
    assert(models(r@) =~= resolved_fields(table@, given));
    r
}

/// Resolves one top-level item against the table of the whole unit.
///
/// The result depends on the table and on the item alone, not on where the
/// item stands among the others: a body may use what is declared further down.
pub fn resolve_item(table: &SymbolTable, item: &Item, sink: &mut Vec<Diagnostic>) -> (r: ResolvedItem)
    ensures
        r@ == resolved_item(table@, item@),
        models(final(sink)@) == models(old(sink)@) + item_findings(table@, item@),
{
    let ghost before = models(sink@);
    match item {
        Item::Function { location, name, parameters, return_type, body } => {
            let bindings = resolve_parameters(table, *location, parameters, sink);
            let return_tag = check_annotation(table, *location, return_type, sink);
            let resolved_statements = resolve_body(table, &bindings, body, sink);
            assert(models(sink@) =~= before + item_findings(table@, item@));
            ResolvedItem::Function {
                location: *location,
                name: name.clone(),
                parameters: bindings,
                return_type: return_tag,
                body: resolved_statements,
            }
        },
        Item::Struct { location, name, fields } => {
            let bindings = resolve_fields(table, *location, fields, sink);
            ResolvedItem::Struct { location: *location, name: name.clone(), fields: bindings }
        },
    }
}

} // verus!
