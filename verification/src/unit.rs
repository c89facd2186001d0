//! Resolution of a whole unit: collect, then resolve, then report.

use vstd::prelude::*;
use crate::ast::{models, CompilationUnit};
use crate::collect::collect;
use crate::diagnostics::Diagnostic;
use crate::complete::{lemma_clean_unit_is_fully_typed, unit_fully_typed};
use crate::report::{lemma_sorted_by_location, ordered, sorted_by_location, Reporter};
use crate::resolve::resolve_item;
use crate::resolved::{ResolvedCompilationUnit, ResolvedItem};
use crate::rules::{items_findings, resolved_item, resolved_unit, symbols_of, unit_findings};

verus! {

/// Resolves a unit.
///
/// The declarations are collected first, all of them, and only then are the
/// items resolved against the finished table, so the order of the items has
/// no bearing on what a name refers to. Resolution goes on after a finding,
/// so one run reports everything that can be reported.
///
/// The result is the resolved unit if nothing was found: then every
/// expression and every declared type in it has a known type. Otherwise it
/// is the findings, all of them, sorted by location, those at one location
/// in the order in which they were found.
pub fn resolve_unit(unit: &CompilationUnit) -> (r: Result<ResolvedCompilationUnit, Vec<Diagnostic>>)
    ensures
        match r {
            Ok(resolved) => {
                &&& unit_findings(unit@).len() == 0
                &&& resolved@ == resolved_unit(unit@)
                &&& unit_fully_typed(resolved@)
            },
            Err(diagnostics) => {
                &&& diagnostics@.len() > 0
                &&& diagnostics@.len() == unit_findings(unit@).len()
                &&& models(diagnostics@) == sorted_by_location(unit_findings(unit@))
                &&& ordered(models(diagnostics@))
            },
        },
{
    let ghost items = unit@;
    let mut sink: Vec<Diagnostic> = Vec::new();
    let table = collect(unit, &mut sink);
    let ghost collected = models(sink@);
    let mut resolved_items: Vec<ResolvedItem> = Vec::new();
    let mut i: usize = 0;
    assert(collected + items_findings(table@, items, 0) =~= collected);
    while i < unit.items.len()
        invariant
            i <= unit.items.len(),
            items == unit@,
            table@ == symbols_of(items),
            resolved_items.len() == i,
            forall|j: int| 0 <= j < i ==> (#[trigger] resolved_items[j])@ == resolved_item(table@, items[j]),
            models(sink@) == collected + items_findings(table@, items, i as nat),
        decreases unit.items.len() - i,
    {
        let one = resolve_item(&table, &unit.items[i], &mut sink);
        resolved_items.push(one);
        assert(models(sink@) =~= collected + items_findings(table@, items, (i + 1) as nat));
        i = i + 1;
    }
    assert(models(sink@) =~= unit_findings(items));
    if sink.len() == 0 {
        let resolved = ResolvedCompilationUnit { items: resolved_items };
        proof {
            assert(resolved@ =~= resolved_unit(items));
            lemma_clean_unit_is_fully_typed(items);
        }
        Ok(resolved)
    } else {
        let mut reporter = Reporter::new();
        reporter.report_all(&sink);
        proof {
            lemma_sorted_by_location(unit_findings(items));
        }
        Err(reporter.into_diagnostics())
    }
}

} // verus!
