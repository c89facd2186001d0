//! A unit for which nothing is reported resolves completely: every
//! expression and every declared type of its resolved form has a known type.

use vstd::prelude::*;
use crate::ast::{ExpressionModel, FieldInitModel, FieldModel, ItemModel, ParameterModel, StatementModel};
use crate::collect::lemma_first_occurrence_exists;
use crate::resolved::{
    BindingModel,
    ResolvedExpressionModel,
    ResolvedItemModel,
    ResolvedNodeModel,
    ResolvedStatementModel,
};
use crate::rules::{
    annotation,
    annotation_findings,
    binding_of,
    body_findings,
    field_finding,
    field_findings,
    field_type,
    findings,
    findings_of_first,
    findings_of_first_values,
    first_occurrence,
    item_findings,
    item_names,
    items_findings,
    parameter_findings,
    parameter_scope,
    resolved,
    resolved_body,
    resolved_fields,
    resolved_item,
    resolved_statement,
    resolved_unit,
    scope_at,
    statement_findings,
    symbols_of,
    type_of,
    unit_findings,
};
use crate::symbols::{DeclarationModel, SymbolModel};
use crate::types::{Location, TypeModel};

verus! {

/// The expression and all its parts have a known type.
pub open spec fn fully_typed(r: ResolvedExpressionModel) -> bool
    decreases r,
{
    &&& r.ty is Known
    &&& match r.node {
        ResolvedNodeModel::Literal { .. } => true,
        ResolvedNodeModel::Identifier { .. } => true,
        ResolvedNodeModel::Call { args, .. } => forall|i: int| 0 <= i < args.len() ==> fully_typed(#[trigger] args[i]),
        ResolvedNodeModel::StructLiteral { field_inits, .. } => forall|i: int|
            0 <= i < field_inits.len() ==> fully_typed((#[trigger] field_inits[i]).value),
        ResolvedNodeModel::FieldAccess { base, .. } => fully_typed(*base),
        ResolvedNodeModel::FormatCall { args, .. } => forall|i: int|
            0 <= i < args.len() ==> fully_typed(#[trigger] args[i]),
    }
}

/// The expression of the statement is fully typed.
pub open spec fn statement_fully_typed(s: ResolvedStatementModel) -> bool {
    match s {
        ResolvedStatementModel::Let { value, .. } => fully_typed(value),
        ResolvedStatementModel::Expr(e) => fully_typed(e),
    }
}

/// Every binding has a known type.
pub open spec fn bindings_known(bindings: Seq<BindingModel>) -> bool {
    forall|i: int| 0 <= i < bindings.len() ==> (#[trigger] bindings[i]).ty is Known
}

/// The declared types of the item are known and its body is fully typed.
pub open spec fn item_fully_typed(item: ResolvedItemModel) -> bool {
    match item {
        ResolvedItemModel::Function { parameters, return_type, body, .. } => {
            &&& bindings_known(parameters)
            &&& return_type is Known
            &&& forall|i: int| 0 <= i < body.len() ==> statement_fully_typed(#[trigger] body[i])
        },
        ResolvedItemModel::Struct { fields, .. } => bindings_known(fields),
    }
}

/// Every item of the unit is fully typed.
pub open spec fn unit_fully_typed(unit: Seq<ResolvedItemModel>) -> bool {
    forall|i: int| 0 <= i < unit.len() ==> item_fully_typed(#[trigger] unit[i])
}

/// The declared types in the table refer to declared structs: the return
/// type of every function and the type of every field.
pub open spec fn declared_signatures(symbols: Map<Seq<char>, SymbolModel>) -> bool {
    forall|name: Seq<char>|
        symbols.contains_key(name) ==> match (#[trigger] symbols[name]).declaration {
            DeclarationModel::Function { return_type, .. } => annotation(symbols, return_type) is Known,
            DeclarationModel::Struct { fields } => forall|k: int|
                0 <= k < fields.len() ==> annotation(symbols, (#[trigger] fields[k]).ty) is Known,
        }
}

proof fn lemma_clean_prefix(
    symbols: Map<Seq<char>, SymbolModel>,
    scope: Seq<BindingModel>,
    es: Seq<ExpressionModel>,
    n: nat,
    i: int,
)
    requires
        findings_of_first(symbols, scope, es, n).len() == 0,
        0 <= i < n <= es.len(),
    ensures
        findings(symbols, scope, es[i]).len() == 0,
    decreases n,
{
    assert(findings_of_first(symbols, scope, es, n) == findings_of_first(symbols, scope, es, (n - 1) as nat)
        + findings(symbols, scope, es[n - 1]));
    if i < n - 1 {
        lemma_clean_prefix(symbols, scope, es, (n - 1) as nat, i);
    }
}

proof fn lemma_clean_values(
    symbols: Map<Seq<char>, SymbolModel>,
    scope: Seq<BindingModel>,
    inits: Seq<FieldInitModel>,
    n: nat,
    i: int,
)
    requires
        findings_of_first_values(symbols, scope, inits, n).len() == 0,
        0 <= i < n <= inits.len(),
    ensures
        findings(symbols, scope, inits[i].value).len() == 0,
    decreases n,
{
    assert(findings_of_first_values(symbols, scope, inits, n) == findings_of_first_values(
        symbols,
        scope,
        inits,
        (n - 1) as nat,
    ) + findings(symbols, scope, inits[n - 1].value));
    if i < n - 1 {
        lemma_clean_values(symbols, scope, inits, (n - 1) as nat, i);
    }
}

proof fn lemma_clean_parameters(
    symbols: Map<Seq<char>, SymbolModel>,
    location: Location,
    parameters: Seq<ParameterModel>,
    n: nat,
    i: int,
)
    requires
        parameter_findings(symbols, location, parameters, n).len() == 0,
        0 <= i < n <= parameters.len(),
    ensures
        annotation_findings(symbols, location, parameters[i].ty).len() == 0,
    decreases n,
{
    assert(parameter_findings(symbols, location, parameters, n) == parameter_findings(
        symbols,
        location,
        parameters,
        (n - 1) as nat,
    ) + annotation_findings(symbols, location, parameters[n - 1].ty));
    if i < n - 1 {
        lemma_clean_parameters(symbols, location, parameters, (n - 1) as nat, i);
    }
}

proof fn lemma_clean_fields(
    symbols: Map<Seq<char>, SymbolModel>,
    location: Location,
    fields: Seq<FieldModel>,
    n: nat,
    i: int,
)
    requires
        field_findings(symbols, location, fields, n).len() == 0,
        0 <= i < n <= fields.len(),
    ensures
        annotation_findings(symbols, location, fields[i].ty).len() == 0,
    decreases n,
{
    assert(field_findings(symbols, location, fields, n) == field_findings(symbols, location, fields, (n - 1) as nat)
        + field_finding(symbols, location, fields, n - 1));
    if i < n - 1 {
        lemma_clean_fields(symbols, location, fields, (n - 1) as nat, i);
    }
}

proof fn lemma_clean_statements(
    symbols: Map<Seq<char>, SymbolModel>,
    initial: Seq<BindingModel>,
    body: Seq<StatementModel>,
    n: nat,
    i: int,
)
    requires
        body_findings(symbols, initial, body, n).len() == 0,
        0 <= i < n <= body.len(),
    ensures
        statement_findings(symbols, scope_at(symbols, initial, body, i as nat), body[i]).len() == 0,
    decreases n,
{
    assert(body_findings(symbols, initial, body, n) == body_findings(symbols, initial, body, (n - 1) as nat)
        + statement_findings(symbols, scope_at(symbols, initial, body, (n - 1) as nat), body[n - 1]));
    if i < n - 1 {
        lemma_clean_statements(symbols, initial, body, (n - 1) as nat, i);
    }
}

proof fn lemma_clean_items(symbols: Map<Seq<char>, SymbolModel>, items: Seq<ItemModel>, n: nat, i: int)
    requires
        items_findings(symbols, items, n).len() == 0,
        0 <= i < n <= items.len(),
    ensures
        item_findings(symbols, items[i]).len() == 0,
    decreases n,
{
    assert(items_findings(symbols, items, n) == items_findings(symbols, items, (n - 1) as nat) + item_findings(
        symbols,
        items[n - 1],
    ));
    if i < n - 1 {
        lemma_clean_items(symbols, items, (n - 1) as nat, i);
    }
}

/// A type without findings has a known tag.
proof fn lemma_clean_annotation(
    symbols: Map<Seq<char>, SymbolModel>,
    location: Location,
    ty: TypeModel,
)
    requires
        annotation_findings(symbols, location, ty).len() == 0,
    ensures
        annotation(symbols, ty) is Known,
{
}

proof fn lemma_binding_is_known(scope: Seq<BindingModel>, name: Seq<char>)
    requires
        bindings_known(scope),
    ensures
        binding_of(scope, name) matches Some(tag) ==> tag is Known,
    decreases scope.len(),
{
    if scope.len() > 0 {
        if scope.last().name == name {
            assert(scope[scope.len() - 1].ty is Known);
        } else {
            let front = scope.drop_last();
            assert forall|i: int| 0 <= i < front.len() implies (#[trigger] front[i]).ty is Known by {
                assert(front[i] == scope[i]);
            }
            lemma_binding_is_known(front, name);
        }
    }
}

proof fn lemma_field_type_is_declared(fields: Seq<FieldModel>, name: Seq<char>) -> (k: int)
    requires
        field_type(fields, name) is Some,
    ensures
        0 <= k < fields.len(),
        field_type(fields, name) == Some(fields[k].ty),
    decreases fields.len(),
{
    if fields.first().name == name {
        0
    } else {
        let rest = fields.drop_first();
        let k = lemma_field_type_is_declared(rest, name);
        assert(rest[k] == fields[k + 1]);
        k + 1
    }
}

/// An expression for which nothing is reported is fully typed, where the
/// bindings in scope and the declared types in the table are known.
pub proof fn lemma_clean_expression_is_fully_typed(
    symbols: Map<Seq<char>, SymbolModel>,
    scope: Seq<BindingModel>,
    e: ExpressionModel,
)
    requires
        declared_signatures(symbols),
        bindings_known(scope),
        findings(symbols, scope, e).len() == 0,
    ensures
        fully_typed(resolved(symbols, scope, e)),
    decreases e,
{
    let r = resolved(symbols, scope, e);
    match e {
        ExpressionModel::Literal { .. } => {},
        ExpressionModel::Identifier { name, .. } => {
            lemma_binding_is_known(scope, name);
        },
        ExpressionModel::Call { args, .. } => {
            assert forall|i: int| 0 <= i < args.len() implies fully_typed(#[trigger] r.node->Call_args[i]) by {
                lemma_clean_prefix(symbols, scope, args, args.len(), i);
                lemma_clean_expression_is_fully_typed(symbols, scope, args[i]);
            }
        },
        ExpressionModel::StructLiteral { field_inits, .. } => {
            assert forall|i: int| 0 <= i < field_inits.len() implies fully_typed(
                (#[trigger] r.node->StructLiteral_field_inits[i]).value,
            ) by {
                lemma_clean_values(symbols, scope, field_inits, field_inits.len(), i);
                lemma_clean_expression_is_fully_typed(symbols, scope, field_inits[i].value);
            }
        },
        ExpressionModel::FieldAccess { base, field_name, .. } => {
            lemma_clean_expression_is_fully_typed(symbols, scope, *base);
            let owner = type_of(symbols, scope, *base)->Known_0->StructRef_0;
            let fields = symbols[owner].declaration->fields;
            let k = lemma_field_type_is_declared(fields, field_name);
            assert(annotation(symbols, fields[k].ty) is Known);
        },
        ExpressionModel::FormatCall { args, .. } => {
            assert forall|i: int| 0 <= i < args.len() implies fully_typed(#[trigger] r.node->FormatCall_args[i]) by {
                lemma_clean_prefix(symbols, scope, args, args.len(), i);
                lemma_clean_expression_is_fully_typed(symbols, scope, args[i]);
            }
        },
    }
}

proof fn lemma_clean_body_is_fully_typed(
    symbols: Map<Seq<char>, SymbolModel>,
    initial: Seq<BindingModel>,
    body: Seq<StatementModel>,
    n: nat,
)
    requires
        declared_signatures(symbols),
        bindings_known(initial),
        body_findings(symbols, initial, body, body.len()).len() == 0,
        n <= body.len(),
    ensures
        bindings_known(scope_at(symbols, initial, body, n)),
        forall|i: int|
            0 <= i < n ==> statement_fully_typed(
                resolved_statement(symbols, scope_at(symbols, initial, body, i as nat), #[trigger] body[i]),
            ),
    decreases n,
{
    if n > 0 {
        lemma_clean_body_is_fully_typed(symbols, initial, body, (n - 1) as nat);
        let before = scope_at(symbols, initial, body, (n - 1) as nat);
        let after = scope_at(symbols, initial, body, n);
        lemma_clean_statements(symbols, initial, body, body.len(), n - 1);
        match body[n - 1] {
            StatementModel::Let { value, .. } => {
                lemma_clean_expression_is_fully_typed(symbols, before, value);
                assert forall|i: int| 0 <= i < after.len() implies (#[trigger] after[i]).ty is Known by {
                    if i < before.len() {
                        assert(after[i] == before[i]);
                    }
                }
            },
            StatementModel::Expr(e) => {
                lemma_clean_expression_is_fully_typed(symbols, before, e);
            },
        }
    }
}

/// An item for which nothing is reported is fully typed, where the declared
/// types in the table are known.
pub proof fn lemma_clean_item_is_fully_typed(symbols: Map<Seq<char>, SymbolModel>, item: ItemModel)
    requires
        declared_signatures(symbols),
        item_findings(symbols, item).len() == 0,
    ensures
        item_fully_typed(resolved_item(symbols, item)),
{
    match item {
        ItemModel::Function { location, parameters, return_type, body, .. } => {
            let scope = parameter_scope(symbols, parameters);
            assert forall|i: int| 0 <= i < scope.len() implies (#[trigger] scope[i]).ty is Known by {
                lemma_clean_parameters(symbols, location, parameters, parameters.len(), i);
                lemma_clean_annotation(symbols, location, parameters[i].ty);
            }
            lemma_clean_annotation(symbols, location, return_type);
            lemma_clean_body_is_fully_typed(symbols, scope, body, body.len());
            let statements = resolved_body(symbols, scope, body);
            assert forall|i: int| 0 <= i < statements.len() implies statement_fully_typed(
                #[trigger] statements[i],
            ) by {
                assert(statement_fully_typed(
                    resolved_statement(symbols, scope_at(symbols, scope, body, i as nat), body[i]),
                ));
            }
        },
        ItemModel::Struct { location, fields, .. } => {
            let bindings = resolved_fields(symbols, fields);
            assert forall|i: int| 0 <= i < bindings.len() implies (#[trigger] bindings[i]).ty is Known by {
                lemma_clean_fields(symbols, location, fields, fields.len(), i);
                lemma_clean_annotation(symbols, location, fields[i].ty);
            }
        },
    }
}

/// In a unit for which nothing is reported, the declared types in the table
/// refer to declared structs.
pub proof fn lemma_clean_unit_has_declared_signatures(items: Seq<ItemModel>)
    requires
        unit_findings(items).len() == 0,
    ensures
        declared_signatures(symbols_of(items)),
{
    let symbols = symbols_of(items);
    assert forall|name: Seq<char>| symbols.contains_key(name) implies match (#[trigger] symbols[name]).declaration {
        DeclarationModel::Function { return_type, .. } => annotation(symbols, return_type) is Known,
        DeclarationModel::Struct { fields } => forall|k: int|
            0 <= k < fields.len() ==> annotation(symbols, (#[trigger] fields[k]).ty) is Known,
    } by {
        lemma_first_occurrence_exists(item_names(items), items.len() as int, name);
        let first = first_occurrence(item_names(items), name);
        lemma_clean_items(symbols, items, items.len(), first);
        match items[first] {
            ItemModel::Function { location, return_type, .. } => {
                lemma_clean_annotation(symbols, location, return_type);
            },
            ItemModel::Struct { location, fields, .. } => {
                assert forall|k: int| 0 <= k < fields.len() implies annotation(
                    symbols,
                    (#[trigger] fields[k]).ty,
                ) is Known by {
                    lemma_clean_fields(symbols, location, fields, fields.len(), k);
                    lemma_clean_annotation(symbols, location, fields[k].ty);
                }
            },
        }
    }
}

/// A unit for which nothing is reported resolves completely: in its
/// resolved form every expression, every parameter, every return type and
/// every field has a known type.
pub proof fn lemma_clean_unit_is_fully_typed(items: Seq<ItemModel>)
    requires
        unit_findings(items).len() == 0,
    ensures
        unit_fully_typed(resolved_unit(items)),
{
    let symbols = symbols_of(items);
    lemma_clean_unit_has_declared_signatures(items);
    assert forall|i: int| 0 <= i < items.len() implies item_fully_typed(#[trigger] resolved_unit(items)[i]) by {
        lemma_clean_items(symbols, items, items.len(), i);
        lemma_clean_item_is_fully_typed(symbols, items[i]);
    }
}

} // verus!
