//! What holds of resolution whatever the unit: the order of the items of a
//! unit has no bearing on the outcome.

use vstd::prelude::*;
use vstd::multiset::Multiset;
use crate::ast::{ExpressionModel, ItemModel, StatementModel};
use crate::collect::{lemma_first_occurrence_exists, lemma_unique_names_collect_cleanly};
use crate::diagnostics::DiagnosticModel;
use crate::report::{lemma_sorted_by_location, sorted_by_location};
use crate::resolved::{BindingModel, ResolvedItemModel};
use crate::rules::{
    binding_of,
    findings,
    first_occurrence,
    is_struct,
    item_findings,
    item_names,
    items_findings,
    occurs_before,
    resolved_item,
    resolved_unit,
    scope_at,
    symbols_of,
    type_of,
    unique_names,
    unit_findings,
};
use crate::symbols::{symbol_of, SymbolModel};
use crate::types::{TagModel, TypeModel};

verus! {

/// `a` and `b` hold the same items, each as often, in whatever order.
pub open spec fn same_items(a: Seq<ItemModel>, b: Seq<ItemModel>) -> bool {
    a.to_multiset() == b.to_multiset()
}

/// Items that declare one name declare the same thing.
pub open spec fn agreeing_declarations(items: Seq<ItemModel>) -> bool {
    forall|i: int, j: int|
        0 <= i < items.len() && 0 <= j < items.len() && (#[trigger] items[i]).name() == (#[trigger] items[j]).name()
            ==> symbol_of(items[i]) == symbol_of(items[j])
}

/// An item of `a` stands somewhere in `b`.
proof fn lemma_item_is_shared(a: Seq<ItemModel>, b: Seq<ItemModel>, i: int) -> (j: int)
    requires
        same_items(a, b),
        0 <= i < a.len(),
    ensures
        0 <= j < b.len(),
        b[j] == a[i],
{
    a.to_multiset_ensures();
    b.to_multiset_ensures();
    assert(a.contains(a[i]));
    assert(a.to_multiset().count(a[i]) > 0);
    assert(b.to_multiset().count(a[i]) > 0);
    assert(b.contains(a[i]));
    choose|j: int| 0 <= j < b.len() && b[j] == a[i]
}

/// Unique names make agreeing declarations.
pub proof fn lemma_unique_names_agree(items: Seq<ItemModel>)
    requires
        unique_names(items),
    ensures
        agreeing_declarations(items),
{
    assert forall|i: int, j: int|
        0 <= i < items.len() && 0 <= j < items.len() && (#[trigger] items[i]).name() == (#[trigger] items[j]).name()
        implies symbol_of(items[i]) == symbol_of(items[j]) by {
        if i < j {
            assert(items[i].name() != items[j].name());
        } else if j < i {
            assert(items[j].name() != items[i].name());
        }
    }
}

/// A unit with unique names keeps them when its items are reordered.
pub proof fn lemma_names_stay_unique(a: Seq<ItemModel>, b: Seq<ItemModel>)
    requires
        unique_names(a),
        same_items(a, b),
    ensures
        unique_names(b),
{
    assert(a.no_duplicates()) by {
        assert forall|i: int, j: int| 0 <= i < a.len() && 0 <= j < a.len() && i != j implies a[i] != a[j] by {
            if i < j {
                assert(a[i].name() != a[j].name());
            } else {
                assert(a[j].name() != a[i].name());
            }
        }
    }
    a.lemma_multiset_has_no_duplicates();
    b.lemma_multiset_has_no_duplicates_conv();
    assert forall|j1: int, j2: int| 0 <= j1 < j2 < b.len() implies (#[trigger] b[j1]).name() != (
    #[trigger] b[j2]).name() by {
        let i1 = lemma_item_is_shared(b, a, j1);
        let i2 = lemma_item_is_shared(b, a, j2);
        assert(b[j1] != b[j2]);
        if i1 < i2 {
            assert(a[i1].name() != a[i2].name());
        } else if i2 < i1 {
            assert(a[i2].name() != a[i1].name());
        }
    }
}

/// The symbol table does not depend on the order of the items, as long as
/// the items that declare one name declare the same thing. (Where two items
/// declare different things under one name, the first one counts, and so
/// does the order.)
pub proof fn lemma_table_ignores_order(a: Seq<ItemModel>, b: Seq<ItemModel>)
    requires
        agreeing_declarations(a),
        same_items(a, b),
    ensures
        symbols_of(a) == symbols_of(b),
{
    let names_a = item_names(a);
    let names_b = item_names(b);
    assert forall|name: Seq<char>| #[trigger] occurs_before(names_a, a.len() as int, name) implies occurs_before(
        names_b,
        b.len() as int,
        name,
    ) by {
        let i = choose|i: int| 0 <= i < a.len() && i < names_a.len() && #[trigger] names_a[i] == name;
        let j = lemma_item_is_shared(a, b, i);
        assert(names_b[j] == name);
    }
    assert forall|name: Seq<char>| #[trigger] occurs_before(names_b, b.len() as int, name) implies occurs_before(
        names_a,
        a.len() as int,
        name,
    ) && symbols_of(a)[name] == symbols_of(b)[name] by {
        let j = choose|j: int| 0 <= j < b.len() && j < names_b.len() && #[trigger] names_b[j] == name;
        let i = lemma_item_is_shared(b, a, j);
        assert(names_a[i] == name);
        lemma_first_occurrence_exists(names_a, a.len() as int, name);
        lemma_first_occurrence_exists(names_b, b.len() as int, name);
        let first_a = first_occurrence(names_a, name);
        let first_b = first_occurrence(names_b, name);
        let twin = lemma_item_is_shared(b, a, first_b);
        assert(a[twin].name() == a[first_a].name());
    }
    assert forall|name: Seq<char>| symbols_of(a).dom().contains(name) <==> #[trigger] symbols_of(b).dom().contains(
        name,
    ) by {
        assert(symbols_of(a).dom().contains(name) == occurs_before(names_a, a.len() as int, name));
        assert(symbols_of(b).dom().contains(name) == occurs_before(names_b, b.len() as int, name));
    }
    assert forall|name: Seq<char>| symbols_of(a).dom().contains(name) implies #[trigger] symbols_of(a)[name]
        == symbols_of(b)[name] by {
        assert(occurs_before(names_b, b.len() as int, name));
    }
    assert(symbols_of(a) =~= symbols_of(b));
}

/// Adds the findings for one item to a tally of findings.
pub open spec fn tally_findings(symbols: Map<Seq<char>, SymbolModel>) -> spec_fn(
    Multiset<DiagnosticModel>,
    ItemModel,
) -> Multiset<DiagnosticModel> {
    |tally: Multiset<DiagnosticModel>, item: ItemModel| tally.add(item_findings(symbols, item).to_multiset())
}

/// Adds the resolved form of one item to a tally of resolved items.
pub open spec fn tally_resolved(symbols: Map<Seq<char>, SymbolModel>) -> spec_fn(
    Multiset<ResolvedItemModel>,
    ItemModel,
) -> Multiset<ResolvedItemModel> {
    |tally: Multiset<ResolvedItemModel>, item: ItemModel| tally.insert(resolved_item(symbols, item))
}

proof fn lemma_findings_as_tally(symbols: Map<Seq<char>, SymbolModel>, items: Seq<ItemModel>, n: nat)
    requires
        n <= items.len(),
    ensures
        items_findings(symbols, items, n).to_multiset() == items.take(n as int).fold_left(
            Multiset::empty(),
            tally_findings(symbols),
        ),
    decreases n,
{
    if n == 0 {
        items_findings(symbols, items, 0).to_multiset_ensures();
        assert(items_findings(symbols, items, 0).to_multiset() =~= Multiset::empty());
    } else {
        lemma_findings_as_tally(symbols, items, (n - 1) as nat);
        let front = items_findings(symbols, items, (n - 1) as nat);
        let one = item_findings(symbols, items[n - 1]);
        assert(items_findings(symbols, items, n) == front + one);
        vstd::seq_lib::lemma_multiset_commutative(front, one);
        assert(items.take(n as int).drop_last() =~= items.take(n - 1));
        assert(items.take(n as int).last() == items[n - 1]);
    }
}

proof fn lemma_resolved_as_tally(symbols: Map<Seq<char>, SymbolModel>, items: Seq<ItemModel>, n: nat)
    requires
        n <= items.len(),
    ensures
        Seq::new(n, |i: int| resolved_item(symbols, items[i])).to_multiset() == items.take(n as int).fold_left(
            Multiset::empty(),
            tally_resolved(symbols),
        ),
    decreases n,
{
    let all = Seq::new(n, |i: int| resolved_item(symbols, items[i]));
    if n == 0 {
        all.to_multiset_ensures();
        assert(all.to_multiset() =~= Multiset::empty());
    } else {
        lemma_resolved_as_tally(symbols, items, (n - 1) as nat);
        let front = Seq::new((n - 1) as nat, |i: int| resolved_item(symbols, items[i]));
        assert(all =~= front.push(resolved_item(symbols, items[n - 1])));
        vstd::seq_lib::to_multiset_build(front, resolved_item(symbols, items[n - 1]));
        assert(items.take(n as int).drop_last() =~= items.take(n - 1));
        assert(items.take(n as int).last() == items[n - 1]);
    }
}

/// The order of the items of a unit has no bearing on the outcome of its
/// resolution.
///
/// Let a unit declare every name once, and let `b` hold the items of `a` in
/// another order. Then both have the same symbol table, so every item
/// resolves alike in both, whether it stands in front of what it uses or
/// behind it; the same findings are reported for both, each as often; and
/// both resolve to the same items. What the reporter hands out differs at
/// most in the order of findings that share a location.
pub proof fn lemma_order_of_items_is_irrelevant(a: Seq<ItemModel>, b: Seq<ItemModel>)
    requires
        unique_names(a),
        same_items(a, b),
    ensures
        unique_names(b),
        symbols_of(a) == symbols_of(b),
        unit_findings(a).to_multiset() == unit_findings(b).to_multiset(),
        unit_findings(a).len() == unit_findings(b).len(),
        sorted_by_location(unit_findings(a)).to_multiset() == sorted_by_location(unit_findings(b)).to_multiset(),
        resolved_unit(a).to_multiset() == resolved_unit(b).to_multiset(),
{
    lemma_names_stay_unique(a, b);
    lemma_unique_names_agree(a);
    lemma_table_ignores_order(a, b);
    let symbols = symbols_of(a);
    lemma_unique_names_collect_cleanly(a, a.len());
    lemma_unique_names_collect_cleanly(b, b.len());
    assert(unit_findings(a) =~= items_findings(symbols, a, a.len()));
    assert(unit_findings(b) =~= items_findings(symbols, b, b.len()));
    lemma_findings_as_tally(symbols, a, a.len());
    lemma_findings_as_tally(symbols, b, b.len());
    assert(a.take(a.len() as int) =~= a);
    assert(b.take(b.len() as int) =~= b);
    let f = tally_findings(symbols);
    assert forall|x: ItemModel, y: ItemModel, v: Multiset<DiagnosticModel>| #[trigger] f(f(v, x), y) == f(
        f(v, y),
        x,
    ) by {
        assert(f(f(v, x), y) =~= f(f(v, y), x));
    }
    vstd::seq_lib::lemma_fold_left_permutation(a, b, f, Multiset::empty());
    unit_findings(a).to_multiset_ensures();
    unit_findings(b).to_multiset_ensures();
    lemma_sorted_by_location(unit_findings(a));
    lemma_sorted_by_location(unit_findings(b));
    lemma_resolved_as_tally(symbols, a, a.len());
    lemma_resolved_as_tally(symbols, b, b.len());
    let g = tally_resolved(symbols);
    assert forall|x: ItemModel, y: ItemModel, v: Multiset<ResolvedItemModel>| #[trigger] g(g(v, x), y) == g(
        g(v, y),
        x,
    ) by {
        assert(g(g(v, x), y) =~= g(g(v, y), x));
    }
    vstd::seq_lib::lemma_fold_left_permutation(a, b, g, Multiset::empty());
    a.to_multiset_ensures();
    b.to_multiset_ensures();
    assert(resolved_unit(a) =~= Seq::new(a.len(), |i: int| resolved_item(symbols, a[i])));
    assert(resolved_unit(b) =~= Seq::new(b.len(), |i: int| resolved_item(symbols, b[i])));
}

/// Every symbol sits in the table under its own name.
pub open spec fn keyed_by_name(symbols: Map<Seq<char>, SymbolModel>) -> bool {
    forall|name: Seq<char>| symbols.contains_key(name) ==> (#[trigger] symbols[name]).name == name
}

/// A tag that names a struct names one that the unit declares.
pub open spec fn declared_tag(symbols: Map<Seq<char>, SymbolModel>, tag: TagModel) -> bool {
    match tag {
        TagModel::Known(TypeModel::StructRef(name)) => is_struct(symbols, name),
        _ => true,
    }
}

/// Every binding of the scope has a declared tag.
pub open spec fn declared_scope(symbols: Map<Seq<char>, SymbolModel>, scope: Seq<BindingModel>) -> bool {
    forall|i: int| 0 <= i < scope.len() ==> declared_tag(symbols, (#[trigger] scope[i]).ty)
}

/// The table of a unit holds every symbol under its own name.
pub proof fn lemma_symbols_are_keyed_by_name(items: Seq<ItemModel>)
    ensures
        keyed_by_name(symbols_of(items)),
{
    assert forall|name: Seq<char>| symbols_of(items).contains_key(name) implies (#[trigger] symbols_of(
        items,
    )[name]).name == name by {
        lemma_first_occurrence_exists(item_names(items), items.len() as int, name);
    }
}

proof fn lemma_binding_comes_from_scope(symbols: Map<Seq<char>, SymbolModel>, scope: Seq<BindingModel>, name: Seq<char>)
    requires
        declared_scope(symbols, scope),
    ensures
        binding_of(scope, name) matches Some(tag) ==> declared_tag(symbols, tag),
    decreases scope.len(),
{
    if scope.len() > 0 {
        if scope.last().name == name {
            assert(declared_tag(symbols, scope[scope.len() - 1].ty));
        } else {
            let front = scope.drop_last();
            assert forall|i: int| 0 <= i < front.len() implies declared_tag(symbols, (#[trigger] front[i]).ty) by {
                assert(front[i] == scope[i]);
            }
            lemma_binding_comes_from_scope(symbols, front, name);
        }
    }
}

/// A type tag never names a struct that the unit lacks: where every binding
/// in scope has a declared tag, so has every expression. A field access on a
/// value of a struct type therefore always finds the struct.
pub proof fn lemma_known_types_are_declared(
    symbols: Map<Seq<char>, SymbolModel>,
    scope: Seq<BindingModel>,
    e: ExpressionModel,
)
    requires
        keyed_by_name(symbols),
        declared_scope(symbols, scope),
    ensures
        declared_tag(symbols, type_of(symbols, scope, e)),
{
    match e {
        ExpressionModel::Identifier { name, .. } => {
            lemma_binding_comes_from_scope(symbols, scope, name);
        },
        _ => {},
    }
}

/// The statements of a body never put an undeclared tag in scope.
pub proof fn lemma_scope_stays_declared(
    symbols: Map<Seq<char>, SymbolModel>,
    initial: Seq<BindingModel>,
    body: Seq<StatementModel>,
    n: nat,
)
    requires
        keyed_by_name(symbols),
        declared_scope(symbols, initial),
    ensures
        declared_scope(symbols, scope_at(symbols, initial, body, n)),
    decreases n,
{
    if n > 0 {
        let before = scope_at(symbols, initial, body, (n - 1) as nat);
        lemma_scope_stays_declared(symbols, initial, body, (n - 1) as nat);
        match body[n - 1] {
            StatementModel::Let { value, .. } => {
                lemma_known_types_are_declared(symbols, before, value);
                let after = scope_at(symbols, initial, body, n);
                assert forall|i: int| 0 <= i < after.len() implies declared_tag(symbols, (#[trigger] after[i]).ty) by {
                    if i < before.len() {
                        assert(after[i] == before[i]);
                    }
                }
            },
            StatementModel::Expr(_) => {},
        }
    }
}

/// A failure is reported once: an access to a field of something that did
/// not resolve is itself unresolved and adds no finding to those of its base.
pub proof fn lemma_failed_base_is_silent(
    symbols: Map<Seq<char>, SymbolModel>,
    scope: Seq<BindingModel>,
    e: ExpressionModel,
)
    requires
        e is FieldAccess,
        type_of(symbols, scope, *e->FieldAccess_base) is Unresolved,
    ensures
        type_of(symbols, scope, e) is Unresolved,
        findings(symbols, scope, e) == findings(symbols, scope, *e->FieldAccess_base),
{
    assert(findings(symbols, scope, e) =~= findings(symbols, scope, *e->FieldAccess_base));
}

} // verus!
