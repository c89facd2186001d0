//! The reporter: collects diagnostics and keeps them in source order.

use vstd::prelude::*;
use crate::ast::models;
use crate::diagnostics::{Diagnostic, DiagnosticModel};
use crate::types::Location;

verus! {

/// No diagnostic of `s` stands before one that is located earlier in the text.
pub open spec fn ordered(s: Seq<DiagnosticModel>) -> bool {
    forall|i: int, j: int| 0 <= i < j < s.len() ==> s[i].location.at_or_before(s[j].location)
}

/// Where a diagnostic located at `location` joins `s`: directly in front of
/// the trailing run of entries that are located after it.
pub open spec fn insertion_point(s: Seq<DiagnosticModel>, location: Location) -> nat
    decreases s.len(),
{
    if s.len() > 0 && s.last().location.after(location) {
        insertion_point(s.drop_last(), location)
    } else {
        s.len()
    }
}

/// `s` with `d` added at its insertion point. Among diagnostics at one
/// location the one reported first stays first.
pub open spec fn with_reported(s: Seq<DiagnosticModel>, d: DiagnosticModel) -> Seq<DiagnosticModel> {
    s.insert(insertion_point(s, d.location) as int, d)
}

/// The result of reporting the first `n` diagnostics of `ds`, one after the other, to `s`.
pub open spec fn with_reported_first(s: Seq<DiagnosticModel>, ds: Seq<DiagnosticModel>, n: nat) -> Seq<
    DiagnosticModel,
>
    decreases n,
{
    if n == 0 || n > ds.len() {
        s
    } else {
        with_reported(with_reported_first(s, ds, (n - 1) as nat), ds[n - 1])
    }
}

/// `ds` sorted by location, diagnostics at one location in their order in `ds`.
pub open spec fn sorted_by_location(ds: Seq<DiagnosticModel>) -> Seq<DiagnosticModel> {
    with_reported_first(Seq::empty(), ds, ds.len())
}

/// In an ordered sequence everything in front of the insertion point is located
/// at or before `location`, and everything from it on is located after.
pub proof fn lemma_insertion_point(s: Seq<DiagnosticModel>, location: Location)
    requires
        ordered(s),
    ensures
        insertion_point(s, location) <= s.len(),
        forall|j: int| 0 <= j < insertion_point(s, location) ==> (#[trigger] s[j]).location.at_or_before(location),
        forall|j: int|
            insertion_point(s, location) <= j < s.len() ==> (#[trigger] s[j]).location.after(location),
    decreases s.len(),
{
    if s.len() > 0 && s.last().location.after(location) {
        let front = s.drop_last();
        lemma_insertion_point(front, location);
        assert forall|j: int| insertion_point(s, location) <= j < s.len() implies (#[trigger] s[j]).location.after(
            location,
        ) by {
            if j < s.len() - 1 {
                assert(front[j] == s[j]);
            }
        }
        assert forall|j: int| 0 <= j < insertion_point(s, location) implies (#[trigger] s[j]).location.at_or_before(
            location,
        ) by {
            assert(front[j] == s[j]);
        }
    } else if s.len() > 0 {
        let last = s.len() - 1;
        assert forall|j: int| 0 <= j < s.len() implies (#[trigger] s[j]).location.at_or_before(location) by {
            if j < last {
                assert(s[j].location.at_or_before(s[last].location));
            }
        }
    }
}

/// Reporting to an ordered sequence leaves it ordered, one longer, and holding
/// what it held before together with the new diagnostic.
pub proof fn lemma_report_keeps_order(s: Seq<DiagnosticModel>, d: DiagnosticModel)
    requires
        ordered(s),
    ensures
        ordered(with_reported(s, d)),
        with_reported(s, d).len() == s.len() + 1,
        with_reported(s, d).to_multiset() == s.to_multiset().insert(d),
{
    lemma_insertion_point(s, d.location);
    let k = insertion_point(s, d.location) as int;
    let t = with_reported(s, d);
    assert forall|i: int, j: int| 0 <= i < j < t.len() implies t[i].location.at_or_before(t[j].location) by {
        if j < k {
            assert(t[i] == s[i] && t[j] == s[j]);
        } else if j == k {
            assert(t[i] == s[i]);
        } else if i < k {
            assert(t[i] == s[i] && t[j] == s[j - 1]);
        } else if i == k {
            assert(t[j] == s[j - 1]);
        } else {
            assert(t[i] == s[i - 1] && t[j] == s[j - 1]);
        }
    }
    vstd::seq_lib::to_multiset_insert(s, k, d);
}

/// What the reporter hands out is sorted by location, and it is what was
/// reported, each diagnostic as often as it was reported.
pub proof fn lemma_reported_sorted(s: Seq<DiagnosticModel>, ds: Seq<DiagnosticModel>, n: nat)
    requires
        ordered(s),
        n <= ds.len(),
    ensures
        ordered(with_reported_first(s, ds, n)),
        with_reported_first(s, ds, n).len() == s.len() + n,
        with_reported_first(s, ds, n).to_multiset() == s.to_multiset().add(ds.take(n as int).to_multiset()),
    decreases n,
{
    if n == 0 {
        assert(ds.take(0) =~= Seq::empty());
        ds.take(0).to_multiset_ensures();
        assert(s.to_multiset().add(ds.take(0).to_multiset()) =~= s.to_multiset());
    } else {
        let before = with_reported_first(s, ds, (n - 1) as nat);
        lemma_reported_sorted(s, ds, (n - 1) as nat);
        lemma_report_keeps_order(before, ds[n - 1]);
        assert(ds.take(n as int) =~= ds.take(n - 1).push(ds[n - 1]));
        vstd::seq_lib::to_multiset_build(ds.take(n - 1), ds[n - 1]);
        assert(before.to_multiset().insert(ds[n - 1]) =~= s.to_multiset().add(
            ds.take(n as int).to_multiset(),
        ));
    }
}

/// Sorting by location orders the diagnostics and neither drops nor adds one.
pub proof fn lemma_sorted_by_location(ds: Seq<DiagnosticModel>)
    ensures
        ordered(sorted_by_location(ds)),
        sorted_by_location(ds).len() == ds.len(),
        sorted_by_location(ds).to_multiset() == ds.to_multiset(),
{
    lemma_reported_sorted(Seq::empty(), ds, ds.len());
    assert(ds.take(ds.len() as int) =~= ds);
    Seq::<DiagnosticModel>::empty().to_multiset_ensures();
    assert(Seq::<DiagnosticModel>::empty().to_multiset().add(ds.to_multiset()) =~= ds.to_multiset());
}

/// Accumulates the diagnostics of a run, sorted by source position.
pub struct Reporter {
    entries: Vec<Diagnostic>,
}

impl View for Reporter {
    type V = Seq<DiagnosticModel>;

    closed spec fn view(&self) -> Seq<DiagnosticModel> {
        models(self.entries@)
    }
}

impl Reporter {
    #[verifier::type_invariant]
    spec fn sorted(self) -> bool {
        ordered(models(self.entries@))
    }

    /// A reporter that holds nothing yet.
    pub fn new() -> (r: Reporter)
        ensures
            r@ == Seq::<DiagnosticModel>::empty(),
    {
        let r = Reporter { entries: Vec::new() };
        assert(r@ =~= Seq::<DiagnosticModel>::empty());
        r
    }

    /// Adds one diagnostic, behind those at its location and before those after it.
    pub fn report(&mut self, diagnostic: Diagnostic)
        ensures
            final(self)@ == with_reported(old(self)@, diagnostic@),
            ordered(old(self)@),
            ordered(final(self)@),
    {
        proof {
            use_type_invariant(&*self);
        }
        let ghost before = self@;
        let mut entries: Vec<Diagnostic> = Vec::new();
        core::mem::swap(&mut self.entries, &mut entries);
        let mut k: usize = entries.len();
        assert(before.take(k as int) =~= before);
        while k > 0 && entries[k - 1].location.is_after(&diagnostic.location)
            invariant
                k <= entries.len(),
                before == models(entries@),
                insertion_point(before, diagnostic.location) == insertion_point(
                    before.take(k as int),
                    diagnostic.location,
                ),
            decreases k,
        {
            proof {
                assert(before.take(k as int).last() == entries[k - 1]@);
                assert(before.take(k as int).drop_last() =~= before.take(k - 1));
            }
            k = k - 1;
        }
        proof {
            if k > 0 {
                assert(before.take(k as int).last() == entries[k - 1]@);
            }
            assert(insertion_point(before, diagnostic.location) == k);
            lemma_report_keeps_order(before, diagnostic@);
        }
        entries.insert(k, diagnostic);
        assert(models(entries@) =~= with_reported(before, diagnostic@));
        core::mem::swap(&mut self.entries, &mut entries);
    }

    /// Adds the diagnostics of `batch`, first to last.
    pub fn report_all(&mut self, batch: &Vec<Diagnostic>)
        ensures
            final(self)@ == with_reported_first(old(self)@, models(batch@), batch.len() as nat),
            ordered(final(self)@),
    {
        let ghost before = self@;
        let mut i: usize = 0;
        while i < batch.len()
            invariant
                i <= batch.len(),
                self@ == with_reported_first(before, models(batch@), i as nat),
            decreases batch.len() - i,
        {
            self.report(batch[i].clone());
            i = i + 1;
        }
        proof {
            use_type_invariant(&*self);
        }
    }

    /// Whether anything was reported.
    pub fn has_errors(&self) -> (r: bool)
        ensures
            r == (self@.len() > 0),
    {
        self.entries.len() > 0
    }

    /// The number of diagnostics held.
    pub fn len(&self) -> (r: usize)
        ensures
            r == self@.len(),
    {
        self.entries.len()
    }

    /// The diagnostics held, sorted by location.
    pub fn diagnostics(&self) -> (r: &Vec<Diagnostic>)
        ensures
            models(r@) == self@,
            ordered(self@),
    {
        proof {
            use_type_invariant(self);
        }
        &self.entries
    }

    /// Ends the run and hands the diagnostics over, sorted by location.
    pub fn into_diagnostics(self) -> (r: Vec<Diagnostic>)
        ensures
            models(r@) == self@,
            ordered(self@),
    {
        proof {
            use_type_invariant(&self);
        }
        self.entries
    }
}

} // verus!
