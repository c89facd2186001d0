//! The collector: registers every top-level declaration of a unit before
//! anything is resolved against the table.

use vstd::prelude::*;
use crate::ast::{models, CompilationUnit, ItemModel};
use crate::diagnostics::{emit, finding, nothing, Diagnostic, DiagnosticKind, KindModel};
use crate::rules::{
    first_occurrence,
    item_names,
    occurs_before,
    redeclaration_findings,
    symbols_of,
    symbols_within,
    unique_names,
};
use crate::symbols::{Symbol, SymbolTable};

verus! {

/// Where no item in front of the `i`-th has its name, the `i`-th is the first
/// occurrence of its name.
pub proof fn lemma_first_occurrence(items: Seq<ItemModel>, i: int)
    requires
        0 <= i < items.len(),
        !occurs_before(item_names(items), i, items[i].name()),
    ensures
        first_occurrence(item_names(items), items[i].name()) == i,
{
    let names = item_names(items);
    let name = items[i].name();
    assert(names[i] == name);
    let k = first_occurrence(names, name);
    if k > i {
        assert(occurs_before(names, k, name));
    }
    if k < i {
        assert(names[k] == name);
        assert(occurs_before(names, i, name));
    }
}

/// A name that occurs in front of `n` has a first occurrence, and
/// `first_occurrence` is it.
pub proof fn lemma_first_occurrence_exists(names: Seq<Seq<char>>, n: int, name: Seq<char>)
    requires
        occurs_before(names, n, name),
    ensures
        0 <= first_occurrence(names, name) < names.len(),
        first_occurrence(names, name) < n,
        names[first_occurrence(names, name)] == name,
        !occurs_before(names, first_occurrence(names, name), name),
    decreases n,
{
    let j = choose|j: int| 0 <= j < n && j < names.len() && #[trigger] names[j] == name;
    if occurs_before(names, j, name) {
        lemma_first_occurrence_exists(names, j, name);
    } else {
        let k = first_occurrence(names, name);
        assert(0 <= k < names.len() && names[k] == name && !occurs_before(names, k, name));
        if k >= n {
            assert(occurs_before(names, k, name));
        }
    }
}

/// In a unit with unique names collecting reports nothing.
pub proof fn lemma_unique_names_collect_cleanly(items: Seq<ItemModel>, n: nat)
    requires
        unique_names(items),
        n <= items.len(),
    ensures
        redeclaration_findings(items, n) == nothing(),
    decreases n,
{
    if n > 0 {
        lemma_unique_names_collect_cleanly(items, (n - 1) as nat);
        let i = n - 1;
        if occurs_before(item_names(items), i, items[i].name()) {
            let names = item_names(items);
            let j = choose|j: int| 0 <= j < i && j < names.len() && #[trigger] names[j] == items[i].name();
            assert(items[j].name() != items[i].name());
        }
        assert(redeclaration_findings(items, n) =~= nothing());
    }
}

/// Collects the declarations of a unit into a symbol table.
///
/// Every item is visited once, in source order. An item whose name is taken
/// is reported as a duplicate at its own location and leaves the table as it
/// is, so the first declaration of a name stays in force. Bodies are not
/// looked at. Each symbol sits in the table under its own name.
///
/// Where no two items share a name nothing is reported, and the table has as
/// many symbols as the unit has items.
pub fn collect(unit: &CompilationUnit, sink: &mut Vec<Diagnostic>) -> (table: SymbolTable)
    ensures
        table@ == symbols_of(unit@),
        table@.dom().finite(),
        models(final(sink)@) == models(old(sink)@) + redeclaration_findings(unit@, unit@.len()),
        table@.len() + redeclaration_findings(unit@, unit@.len()).len() == unit@.len(),
        unique_names(unit@) ==> table@.len() == unit@.len() && final(sink)@.len() == old(sink)@.len(),
{
    let ghost before = models(sink@);
    let ghost items = unit@;
    let mut table = SymbolTable::new();
    let mut i: usize = 0;
    assert(table@ =~= symbols_within(items, 0));
    assert(before + redeclaration_findings(items, 0) =~= before);
    while i < unit.items.len()
        invariant
            i <= unit.items.len(),
            items == unit@,
            table@ == symbols_within(items, i as nat),
            table@.dom().finite(),
            table@.len() + redeclaration_findings(items, i as nat).len() == i,
            models(sink@) == before + redeclaration_findings(items, i as nat),
        decreases unit.items.len() - i,
    {
        let item = &unit.items[i];
        let ghost names = item_names(items);
        let ghost name = items[i as int].name();
        let ghost so_far = models(sink@);
        assert(names[i as int] == name);
        assert forall|other: Seq<char>| occurs_before(names, i + 1, other) <==> (occurs_before(names, i as int, other)
            || other == name) by {
            if occurs_before(names, i + 1, other) {
                let j = choose|j: int| 0 <= j < i + 1 && j < names.len() && #[trigger] names[j] == other;
                if j < i {
                    assert(occurs_before(names, i as int, other));
                }
            }
            if occurs_before(names, i as int, other) {
                let j = choose|j: int| 0 <= j < i && j < names.len() && #[trigger] names[j] == other;
                assert(0 <= j < i + 1 && names[j] == other);
            }
        }
        match table.insert(Symbol::of_item(item)) {
            Ok(()) => {
                proof {
                    lemma_first_occurrence(items, i as int);
                    assert(table@ =~= symbols_within(items, (i + 1) as nat));
                    assert(so_far + nothing() =~= so_far);
                    assert(redeclaration_findings(items, (i + 1) as nat) =~= redeclaration_findings(
                        items,
                        i as nat,
                    ));
                }
            },
            Err(e) => {
                emit(sink, DiagnosticKind::DuplicateDeclaration(e.name), item.location());
                proof {
                    assert(table@ =~= symbols_within(items, (i + 1) as nat));
                    assert(redeclaration_findings(items, (i + 1) as nat) =~= redeclaration_findings(
                        items,
                        i as nat,
                    ) + finding(KindModel::DuplicateDeclaration(name), items[i as int].location()));
                }
            },
        }
        assert(models(sink@) =~= before + redeclaration_findings(items, (i + 1) as nat));
        i = i + 1;
    }
    proof {
        if unique_names(items) {
            lemma_unique_names_collect_cleanly(items, items.len());
            assert(models(sink@).len() == before.len());
        }
    }
    table
}

} // verus!
