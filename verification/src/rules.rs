//! The rules of resolution, stated over the mathematical values of the trees.
//!
//! `symbols` is the symbol table of the unit, complete before any body is
//! looked at. `scope` holds the local bindings of the enclosing function,
//! innermost last. Nothing here depends on where in the unit an item stands.

use vstd::prelude::*;
use crate::ast::{ExpressionModel, FieldInitModel, FieldModel, ItemModel, ParameterModel, StatementModel};
use crate::diagnostics::{finding, nothing, DiagnosticModel, KindModel};
use crate::resolved::{
    BindingKind,
    BindingModel,
    ResolvedExpressionModel,
    ResolvedFieldInitModel,
    ResolvedItemModel,
    ResolvedNodeModel,
    ResolvedStatementModel,
};
use crate::symbols::{symbol_of, DeclarationModel, SymbolModel};
use crate::types::{Location, Primitive, TagModel, TypeModel};

verus! {

/// `f(0) + f(1) + ... + f(n - 1)`.
pub open spec fn gather<T>(n: nat, f: spec_fn(int) -> Seq<T>) -> Seq<T>
    decreases n,
{
    if n == 0 {
        Seq::empty()
    } else {
        gather((n - 1) as nat, f) + f(n - 1)
    }
}

/// `name` stands in `names` at an index below `i`.
pub open spec fn occurs_before(names: Seq<Seq<char>>, i: int, name: Seq<char>) -> bool {
    exists|j: int| 0 <= j < i && j < names.len() && #[trigger] names[j] == name
}

/// `name` is the name of a struct of the unit.
pub open spec fn is_struct(symbols: Map<Seq<char>, SymbolModel>, name: Seq<char>) -> bool {
    symbols.contains_key(name) && symbols[name].declaration is Struct
}

/// `name` is the name of a function of the unit.
pub open spec fn is_function(symbols: Map<Seq<char>, SymbolModel>, name: Seq<char>) -> bool {
    symbols.contains_key(name) && symbols[name].declaration is Function
}

/// The tag of a type as written in a declaration: the type itself, unless it
/// refers to a struct that the unit does not declare.
pub open spec fn annotation(symbols: Map<Seq<char>, SymbolModel>, ty: TypeModel) -> TagModel {
    match ty {
        TypeModel::Primitive(_) => TagModel::Known(ty),
        TypeModel::StructRef(name) => if is_struct(symbols, name) {
            TagModel::Known(ty)
        } else {
            TagModel::Unresolved
        },
    }
}

/// What is reported for a type written in the declaration at `location`.
pub open spec fn annotation_findings(
    symbols: Map<Seq<char>, SymbolModel>,
    location: Location,
    ty: TypeModel,
) -> Seq<DiagnosticModel> {
    match ty {
        TypeModel::Primitive(_) => nothing(),
        TypeModel::StructRef(name) => if is_struct(symbols, name) {
            nothing()
        } else {
            finding(KindModel::UnresolvedName(name), location)
        },
    }
}

/// The type of a use of a top-level symbol as a value: the struct type for a
/// struct, the declared return type for a function.
pub open spec fn symbol_type(symbols: Map<Seq<char>, SymbolModel>, symbol: SymbolModel) -> TagModel {
    match symbol.declaration {
        DeclarationModel::Struct { .. } => TagModel::Known(TypeModel::StructRef(symbol.name)),
        DeclarationModel::Function { return_type, .. } => annotation(symbols, return_type),
    }
}

/// The tag of the innermost local binding of `name`, if `name` is bound.
pub open spec fn binding_of(scope: Seq<BindingModel>, name: Seq<char>) -> Option<TagModel>
    decreases scope.len(),
{
    if scope.len() == 0 {
        None
    } else if scope.last().name == name {
        Some(scope.last().ty)
    } else {
        binding_of(scope.drop_last(), name)
    }
}

/// The declared type of the first field called `name`, if there is one.
pub open spec fn field_type(fields: Seq<FieldModel>, name: Seq<char>) -> Option<TypeModel>
    decreases fields.len(),
{
    if fields.len() == 0 {
        None
    } else if fields.first().name == name {
        Some(fields.first().ty)
    } else {
        field_type(fields.drop_first(), name)
    }
}

/// The names of the fields that a struct literal initialises, in order.
pub open spec fn init_names(inits: Seq<FieldInitModel>) -> Seq<Seq<char>> {
    Seq::new(inits.len(), |i: int| inits[i].name)
}

/// The names of the fields that a struct declares, in order.
pub open spec fn field_names(fields: Seq<FieldModel>) -> Seq<Seq<char>> {
    Seq::new(fields.len(), |i: int| fields[i].name)
}

/// The type tag and the binding of the identifier `name`: a local binding
/// shadows a top-level symbol.
pub open spec fn identifier_binding(
    symbols: Map<Seq<char>, SymbolModel>,
    scope: Seq<BindingModel>,
    name: Seq<char>,
) -> (TagModel, BindingKind) {
    match binding_of(scope, name) {
        Some(tag) => (tag, BindingKind::Local),
        None => if symbols.contains_key(name) {
            (symbol_type(symbols, symbols[name]), BindingKind::TopLevel)
        } else {
            (TagModel::Unresolved, BindingKind::Unbound)
        },
    }
}

/// The type of a call of `callee`: its declared return type. Local bindings
/// play no part: only a function of the unit can be called.
pub open spec fn call_type(symbols: Map<Seq<char>, SymbolModel>, callee: Seq<char>) -> TagModel {
    if is_function(symbols, callee) {
        annotation(symbols, symbols[callee].declaration->return_type)
    } else {
        TagModel::Unresolved
    }
}

/// What is reported for a call of `callee` with `count` arguments.
pub open spec fn call_findings(
    symbols: Map<Seq<char>, SymbolModel>,
    location: Location,
    callee: Seq<char>,
    count: nat,
) -> Seq<DiagnosticModel> {
    if is_function(symbols, callee) {
        let expected = symbols[callee].declaration->parameters.len();
        if expected == count {
            nothing()
        } else {
            finding(KindModel::ArityMismatch { callee, expected, found: count }, location)
        }
    } else {
        finding(KindModel::UnknownFunction(callee), location)
    }
}

/// The type of the field `field_name` of a value whose type tag is `base`.
pub open spec fn access_type(symbols: Map<Seq<char>, SymbolModel>, base: TagModel, field_name: Seq<char>) -> TagModel {
    match base {
        TagModel::Known(TypeModel::StructRef(owner)) => if is_struct(symbols, owner) {
            match field_type(symbols[owner].declaration->fields, field_name) {
                Some(ty) => annotation(symbols, ty),
                None => TagModel::Unresolved,
            }
        } else {
            TagModel::Unresolved
        },
        _ => TagModel::Unresolved,
    }
}

/// What is reported for the access itself. Nothing is reported where the
/// base did not resolve: that failure was reported where it happened.
pub open spec fn access_findings(
    symbols: Map<Seq<char>, SymbolModel>,
    location: Location,
    base: TagModel,
    field_name: Seq<char>,
) -> Seq<DiagnosticModel> {
    match base {
        TagModel::Unresolved => nothing(),
        TagModel::Known(TypeModel::Primitive(_)) => finding(KindModel::NotAStruct, location),
        TagModel::Known(TypeModel::StructRef(owner)) => if is_struct(symbols, owner) {
            match field_type(symbols[owner].declaration->fields, field_name) {
                Some(_) => nothing(),
                None => finding(KindModel::NoSuchField(owner, field_name), location),
            }
        } else {
            finding(KindModel::NotAStruct, location)
        },
    }
}

/// The type of a literal of the struct `struct_name`. Faults in the field list
/// are reported and leave the type as it is.
pub open spec fn literal_type(symbols: Map<Seq<char>, SymbolModel>, struct_name: Seq<char>) -> TagModel {
    if is_struct(symbols, struct_name) {
        TagModel::Known(TypeModel::StructRef(struct_name))
    } else {
        TagModel::Unresolved
    }
}

/// What is reported for the `i`-th entry of a struct literal: a field that the
/// struct lacks, or else one that an earlier entry has initialised.
pub open spec fn init_finding(fields: Seq<FieldModel>, inits: Seq<FieldInitModel>, i: int) -> Seq<
    DiagnosticModel,
> {
    if field_type(fields, inits[i].name) is None {
        finding(KindModel::UnknownField(inits[i].name), inits[i].location)
    } else if occurs_before(init_names(inits), i, inits[i].name) {
        finding(KindModel::DuplicateField(inits[i].name), inits[i].location)
    } else {
        nothing()
    }
}

/// What is reported for the `k`-th declared field: that the literal leaves it out.
pub open spec fn missing_finding(
    fields: Seq<FieldModel>,
    inits: Seq<FieldInitModel>,
    location: Location,
    k: int,
) -> Seq<DiagnosticModel> {
    if occurs_before(init_names(inits), inits.len() as int, fields[k].name) {
        nothing()
    } else {
        finding(KindModel::MissingField(fields[k].name), location)
    }
}

/// What is reported for the first `n` entries of a struct literal, first to last.
pub open spec fn init_findings(fields: Seq<FieldModel>, inits: Seq<FieldInitModel>, n: nat) -> Seq<
    DiagnosticModel,
> {
    gather(n, |i: int| init_finding(fields, inits, i))
}

/// What is reported for the first `n` declared fields, first to last.
pub open spec fn missing_findings(
    fields: Seq<FieldModel>,
    inits: Seq<FieldInitModel>,
    location: Location,
    n: nat,
) -> Seq<DiagnosticModel> {
    gather(n, |k: int| missing_finding(fields, inits, location, k))
}

/// What is reported for the field list of a struct literal: the entries must
/// cover the declared fields, each once and no others. The faults of the
/// entries come first, in their order, then the fields left out, in the order
/// of the declaration.
pub open spec fn coverage_findings(fields: Seq<FieldModel>, inits: Seq<FieldInitModel>, location: Location) -> Seq<
    DiagnosticModel,
> {
    init_findings(fields, inits, inits.len()) + missing_findings(fields, inits, location, fields.len())
}

/// What is reported for a struct literal itself, its values apart.
pub open spec fn literal_findings(
    symbols: Map<Seq<char>, SymbolModel>,
    location: Location,
    struct_name: Seq<char>,
    inits: Seq<FieldInitModel>,
) -> Seq<DiagnosticModel> {
    if is_struct(symbols, struct_name) {
        coverage_findings(symbols[struct_name].declaration->fields, inits, location)
    } else {
        finding(KindModel::UnresolvedName(struct_name), location)
    }
}

/// The type tag of an expression.
pub open spec fn type_of(
    symbols: Map<Seq<char>, SymbolModel>,
    scope: Seq<BindingModel>,
    e: ExpressionModel,
) -> TagModel
    decreases e,
{
    match e {
        ExpressionModel::Literal { kind, .. } => TagModel::Known(TypeModel::Primitive(kind)),
        ExpressionModel::Identifier { name, .. } => identifier_binding(symbols, scope, name).0,
        ExpressionModel::Call { callee, .. } => call_type(symbols, callee),
        ExpressionModel::StructLiteral { struct_name, .. } => literal_type(symbols, struct_name),
        ExpressionModel::FieldAccess { base, field_name, .. } => access_type(
            symbols,
            type_of(symbols, scope, *base),
            field_name,
        ),
        ExpressionModel::FormatCall { .. } => TagModel::Known(TypeModel::Primitive(Primitive::Unit)),
    }
}

/// What is reported for an expression: for its parts first, left to right,
/// then for the expression itself.
pub open spec fn findings(
    symbols: Map<Seq<char>, SymbolModel>,
    scope: Seq<BindingModel>,
    e: ExpressionModel,
) -> Seq<DiagnosticModel>
    decreases e, 0nat,
{
    match e {
        ExpressionModel::Literal { .. } => nothing(),
        ExpressionModel::Identifier { location, name } => if identifier_binding(symbols, scope, name).1
            == BindingKind::Unbound {
            finding(KindModel::UnresolvedName(name), location)
        } else {
            nothing()
        },
        ExpressionModel::Call { location, callee, args } => findings_of_first(
            symbols,
            scope,
            args,
            args.len(),
        ) + call_findings(symbols, location, callee, args.len()),
        ExpressionModel::StructLiteral { location, struct_name, field_inits } => findings_of_first_values(
            symbols,
            scope,
            field_inits,
            field_inits.len(),
        ) + literal_findings(symbols, location, struct_name, field_inits),
        ExpressionModel::FieldAccess { location, base, field_name } => findings(symbols, scope, *base)
            + access_findings(symbols, location, type_of(symbols, scope, *base), field_name),
        ExpressionModel::FormatCall { args, .. } => findings_of_first(symbols, scope, args, args.len()),
    }
}

/// What is reported for the first `n` expressions of `es`, first to last.
pub open spec fn findings_of_first(
    symbols: Map<Seq<char>, SymbolModel>,
    scope: Seq<BindingModel>,
    es: Seq<ExpressionModel>,
    n: nat,
) -> Seq<DiagnosticModel>
    decreases es, 1nat,
{
    gather(
        n,
        |i: int|
            if 0 <= i < es.len() {
                findings(symbols, scope, es[i])
            } else {
                nothing()
            },
    )
}

/// What is reported for the values of the first `n` entries of a struct
/// literal, first to last.
pub open spec fn findings_of_first_values(
    symbols: Map<Seq<char>, SymbolModel>,
    scope: Seq<BindingModel>,
    inits: Seq<FieldInitModel>,
    n: nat,
) -> Seq<DiagnosticModel>
    decreases inits, 1nat,
{
    gather(
        n,
        |i: int|
            if 0 <= i < inits.len() {
                findings(symbols, scope, inits[i].value)
            } else {
                nothing()
            },
    )
}

/// The resolved form of an expression: its shape, with the type tag of each part.
pub open spec fn resolved(
    symbols: Map<Seq<char>, SymbolModel>,
    scope: Seq<BindingModel>,
    e: ExpressionModel,
) -> ResolvedExpressionModel
    decreases e,
{
    ResolvedExpressionModel {
        ty: type_of(symbols, scope, e),
        node: match e {
            ExpressionModel::Literal { location, kind, lexeme } => ResolvedNodeModel::Literal {
                location,
                kind,
                lexeme,
            },
            ExpressionModel::Identifier { location, name } => ResolvedNodeModel::Identifier {
                location,
                name,
                binding: identifier_binding(symbols, scope, name).1,
            },
            ExpressionModel::Call { location, callee, args } => ResolvedNodeModel::Call {
                location,
                callee,
                args: Seq::new(
                    args.len(),
                    |i: int|
                        if 0 <= i < args.len() {
                            resolved(symbols, scope, args[i])
                        } else {
                            arbitrary()
                        },
                ),
            },
            ExpressionModel::StructLiteral { location, struct_name, field_inits } => ResolvedNodeModel::StructLiteral {
                location,
                struct_name,
                field_inits: Seq::new(
                    field_inits.len(),
                    |i: int|
                        if 0 <= i < field_inits.len() {
                            ResolvedFieldInitModel {
                                location: field_inits[i].location,
                                name: field_inits[i].name,
                                value: resolved(symbols, scope, field_inits[i].value),
                            }
                        } else {
                            arbitrary()
                        },
                ),
            },
            ExpressionModel::FieldAccess { location, base, field_name } => ResolvedNodeModel::FieldAccess {
                location,
                base: Box::new(resolved(symbols, scope, *base)),
                field_name,
            },
            ExpressionModel::FormatCall { location, format_string, args } => ResolvedNodeModel::FormatCall {
                location,
                format_string,
                args: Seq::new(
                    args.len(),
                    |i: int|
                        if 0 <= i < args.len() {
                            resolved(symbols, scope, args[i])
                        } else {
                            arbitrary()
                        },
                ),
            },
        },
    }
}

/// The scope in which the statement after `s` is resolved.
pub open spec fn scope_after(
    symbols: Map<Seq<char>, SymbolModel>,
    scope: Seq<BindingModel>,
    s: StatementModel,
) -> Seq<BindingModel> {
    match s {
        StatementModel::Let { name, value, .. } => scope.push(
            BindingModel { name, ty: type_of(symbols, scope, value) },
        ),
        StatementModel::Expr(_) => scope,
    }
}

/// What is reported for a statement.
pub open spec fn statement_findings(
    symbols: Map<Seq<char>, SymbolModel>,
    scope: Seq<BindingModel>,
    s: StatementModel,
) -> Seq<DiagnosticModel> {
    match s {
        StatementModel::Let { value, .. } => findings(symbols, scope, value),
        StatementModel::Expr(e) => findings(symbols, scope, e),
    }
}

/// The resolved form of a statement.
pub open spec fn resolved_statement(
    symbols: Map<Seq<char>, SymbolModel>,
    scope: Seq<BindingModel>,
    s: StatementModel,
) -> ResolvedStatementModel {
    match s {
        StatementModel::Let { location, name, value } => ResolvedStatementModel::Let {
            location,
            name,
            value: resolved(symbols, scope, value),
        },
        StatementModel::Expr(e) => ResolvedStatementModel::Expr(resolved(symbols, scope, e)),
    }
}

/// The scope in which the `n`-th statement of a body is resolved, where the
/// body starts in the scope `initial`.
pub open spec fn scope_at(
    symbols: Map<Seq<char>, SymbolModel>,
    initial: Seq<BindingModel>,
    body: Seq<StatementModel>,
    n: nat,
) -> Seq<BindingModel>
    decreases n,
{
    if n == 0 {
        initial
    } else {
        scope_after(symbols, scope_at(symbols, initial, body, (n - 1) as nat), body[n - 1])
    }
}

/// What is reported for the first `n` statements of a body, first to last.
pub open spec fn body_findings(
    symbols: Map<Seq<char>, SymbolModel>,
    initial: Seq<BindingModel>,
    body: Seq<StatementModel>,
    n: nat,
) -> Seq<DiagnosticModel> {
    gather(
        n,
        |i: int| statement_findings(symbols, scope_at(symbols, initial, body, i as nat), body[i]),
    )
}

/// The resolved form of a body.
pub open spec fn resolved_body(
    symbols: Map<Seq<char>, SymbolModel>,
    initial: Seq<BindingModel>,
    body: Seq<StatementModel>,
) -> Seq<ResolvedStatementModel> {
    Seq::new(
        body.len(),
        |i: int| resolved_statement(symbols, scope_at(symbols, initial, body, i as nat), body[i]),
    )
}

/// The bindings that the parameters of a function put in scope.
pub open spec fn parameter_scope(
    symbols: Map<Seq<char>, SymbolModel>,
    parameters: Seq<ParameterModel>,
) -> Seq<BindingModel> {
    Seq::new(
        parameters.len(),
        |i: int| BindingModel { name: parameters[i].name, ty: annotation(symbols, parameters[i].ty) },
    )
}

/// The fields of a struct with the tags of their declared types.
pub open spec fn resolved_fields(symbols: Map<Seq<char>, SymbolModel>, fields: Seq<FieldModel>) -> Seq<
    BindingModel,
> {
    Seq::new(
        fields.len(),
        |i: int| BindingModel { name: fields[i].name, ty: annotation(symbols, fields[i].ty) },
    )
}

/// What is reported for the types of the first `n` parameters, first to last.
pub open spec fn parameter_findings(
    symbols: Map<Seq<char>, SymbolModel>,
    location: Location,
    parameters: Seq<ParameterModel>,
    n: nat,
) -> Seq<DiagnosticModel> {
    gather(n, |i: int| annotation_findings(symbols, location, parameters[i].ty))
}

/// What is reported for the signature of a function: for the types of its
/// parameters, first to last, then for its return type.
pub open spec fn signature_findings(
    symbols: Map<Seq<char>, SymbolModel>,
    location: Location,
    parameters: Seq<ParameterModel>,
    return_type: TypeModel,
) -> Seq<DiagnosticModel> {
    parameter_findings(symbols, location, parameters, parameters.len()) + annotation_findings(
        symbols,
        location,
        return_type,
    )
}

/// What is reported for the `i`-th field of a struct declaration: for its
/// type, and for its name where an earlier field has it.
pub open spec fn field_finding(
    symbols: Map<Seq<char>, SymbolModel>,
    location: Location,
    fields: Seq<FieldModel>,
    i: int,
) -> Seq<DiagnosticModel> {
    annotation_findings(symbols, location, fields[i].ty) + if occurs_before(
        field_names(fields),
        i,
        fields[i].name,
    ) {
        finding(KindModel::DuplicateField(fields[i].name), location)
    } else {
        nothing()
    }
}

/// What is reported for the first `n` fields of a struct declaration, first to last.
pub open spec fn field_findings(
    symbols: Map<Seq<char>, SymbolModel>,
    location: Location,
    fields: Seq<FieldModel>,
    n: nat,
) -> Seq<DiagnosticModel> {
    gather(n, |i: int| field_finding(symbols, location, fields, i))
}

/// What is reported for an item, whichever declaration its name refers to.
pub open spec fn item_findings(symbols: Map<Seq<char>, SymbolModel>, item: ItemModel) -> Seq<DiagnosticModel> {
    match item {
        ItemModel::Function { location, parameters, return_type, body, .. } => signature_findings(
            symbols,
            location,
            parameters,
            return_type,
        ) + body_findings(symbols, parameter_scope(symbols, parameters), body, body.len()),
        ItemModel::Struct { location, fields, .. } => field_findings(symbols, location, fields, fields.len()),
    }
}

/// The resolved form of an item.
pub open spec fn resolved_item(symbols: Map<Seq<char>, SymbolModel>, item: ItemModel) -> ResolvedItemModel {
    match item {
        ItemModel::Function { location, name, parameters, return_type, body } => ResolvedItemModel::Function {
            location,
            name,
            parameters: parameter_scope(symbols, parameters),
            return_type: annotation(symbols, return_type),
            body: resolved_body(symbols, parameter_scope(symbols, parameters), body),
        },
        ItemModel::Struct { location, name, fields } => ResolvedItemModel::Struct {
            location,
            name,
            fields: resolved_fields(symbols, fields),
        },
    }
}

/// The names that the items of a unit declare, in order.
pub open spec fn item_names(items: Seq<ItemModel>) -> Seq<Seq<char>> {
    Seq::new(items.len(), |i: int| items[i].name())
}

/// No two items of the unit declare the same name.
pub open spec fn unique_names(items: Seq<ItemModel>) -> bool {
    forall|i: int, j: int| 0 <= i < j < items.len() ==> (#[trigger] items[i]).name() != (#[trigger] items[j]).name()
}

/// The index at which `name` stands first in `names`.
pub open spec fn first_occurrence(names: Seq<Seq<char>>, name: Seq<char>) -> int {
    choose|i: int| 0 <= i < names.len() && #[trigger] names[i] == name && !occurs_before(names, i, name)
}

/// The symbol table after the first `n` items: it holds the names that they
/// declare, each with the symbol of the first item that declares it.
pub open spec fn symbols_within(items: Seq<ItemModel>, n: nat) -> Map<Seq<char>, SymbolModel> {
    Map::new(
        |name: Seq<char>| occurs_before(item_names(items), n as int, name),
        |name: Seq<char>| symbol_of(items[first_occurrence(item_names(items), name)]),
    )
}

/// The symbol table of a unit.
pub open spec fn symbols_of(items: Seq<ItemModel>) -> Map<Seq<char>, SymbolModel> {
    symbols_within(items, items.len())
}

/// What is reported when the `i`-th item is collected: that its name is
/// declared again, where an earlier item has declared it.
pub open spec fn redeclaration_finding(items: Seq<ItemModel>, i: int) -> Seq<DiagnosticModel> {
    if occurs_before(item_names(items), i, items[i].name()) {
        finding(KindModel::DuplicateDeclaration(items[i].name()), items[i].location())
    } else {
        nothing()
    }
}

/// What is reported while the first `n` items are collected, first to last.
pub open spec fn redeclaration_findings(items: Seq<ItemModel>, n: nat) -> Seq<DiagnosticModel> {
    gather(n, |i: int| redeclaration_finding(items, i))
}

/// What is reported for the first `n` items of a unit, first to last, when
/// they are resolved against `symbols`.
pub open spec fn items_findings(symbols: Map<Seq<char>, SymbolModel>, items: Seq<ItemModel>, n: nat) -> Seq<
    DiagnosticModel,
> {
    gather(n, |i: int| item_findings(symbols, items[i]))
}

/// Everything that is reported for a unit, in the order in which it is found:
/// first what collecting the declarations finds, then what resolving the
/// items finds, item by item.
pub open spec fn unit_findings(items: Seq<ItemModel>) -> Seq<DiagnosticModel> {
    redeclaration_findings(items, items.len()) + items_findings(symbols_of(items), items, items.len())
}

/// The resolved form of a unit: each item resolved against the table of the
/// whole unit.
pub open spec fn resolved_unit(items: Seq<ItemModel>) -> Seq<ResolvedItemModel> {
    Seq::new(items.len(), |i: int| resolved_item(symbols_of(items), items[i]))
}

} // verus!
