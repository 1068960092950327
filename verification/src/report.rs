use vstd::prelude::*;

use crate::errors::StepError;

verus! {

/// The recorded outcome of one batch entry: the member or file name, and
/// whether patching it succeeded or with which error it failed.
#[derive(Debug)]
pub struct ReportEntry {
    pub name: String,
    pub outcome: Result<(), StepError>,
}

impl View for ReportEntry {
    type V = (Seq<char>, Result<(), StepError>);

    open spec fn view(&self) -> (Seq<char>, Result<(), StepError>) {
        (self.name@, self.outcome)
    }
}

/// Whether any recorded entry failed.
pub open spec fn spec_has_errors(r: Seq<(Seq<char>, Result<(), StepError>)>) -> bool {
    exists|i: int| 0 <= i < r.len() && (#[trigger] r[i]).1 is Err
}

/// A batch run's report: one outcome per processed entry, in processing
/// order. A batch accumulates its report instead of short-circuiting, so
/// one bad entry never aborts the run.
#[derive(Debug)]
pub struct Report {
    pub entries: Vec<ReportEntry>,
}

impl View for Report {
    type V = Seq<(Seq<char>, Result<(), StepError>)>;

    open spec fn view(&self) -> Seq<(Seq<char>, Result<(), StepError>)> {
        self.entries@.map(|i: int, e: ReportEntry| e@)
    }
}

impl Report {
    /// An empty report.
    pub fn new() -> (r: Report)
        ensures
            r@ == Seq::<(Seq<char>, Result<(), StepError>)>::empty(),
    {
        let r = Report { entries: Vec::new() };
        proof {
            assert(r@ =~= Seq::<(Seq<char>, Result<(), StepError>)>::empty());
        }
        r
    }

    /// Appends one entry's outcome under its name.
    pub fn record(&mut self, name: String, outcome: Result<(), StepError>)
        ensures
            final(self)@ == old(self)@.push((name@, outcome)),
    {
        let ghost before = self@;
        let ghost name_view = name@;
        self.entries.push(ReportEntry { name, outcome });
        proof {
            assert(self@ =~= before.push((name_view, outcome)));
        }
    }

    /// Whether any entry of the report failed: the overall failure flag of
    /// a batch run.
    pub fn has_errors(&self) -> (b: bool)
        ensures
            b == spec_has_errors(self@),
    {
        let mut i: usize = 0;
        while i < self.entries.len()
            invariant
                i <= self.entries.len(),
                forall|j: int| 0 <= j < i ==> !((#[trigger] self@[j]).1 is Err),
            decreases self.entries.len() - i,
        {
            if self.entries[i].outcome.is_err() {
                proof {
                    assert((self@[i as int]).1 is Err);
                }
                return true;
            }
            i = i + 1;
        }
        false
    }
}

} // verus!
