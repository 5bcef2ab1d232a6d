//! The tally of a run: how many files were found, how many were converted,
//! how many sources were deleted, and which files failed with what.

use crate::error::ConvertError;
use crate::pipeline::{ConversionOutcome, OutcomeView};
use vstd::prelude::*;
use vstd::string::*;

verus! {

/// A file whose conversion failed, and the error it failed with.
#[derive(Debug)]
pub struct FailedFile {
    pub path: String,
    pub error: ConvertError,
}

impl View for FailedFile {
    type V = (Seq<char>, ConvertError);

    open spec fn view(&self) -> (Seq<char>, ConvertError) {
        (self.path@, self.error)
    }
}

/// The view of a [`RunReport`]: its counts as natural numbers, and its failures
/// as a sequence.
pub struct ReportView {
    /// Files found.
    pub total: nat,
    /// Files converted.
    pub converted: nat,
    /// Sources deleted.
    pub deleted: nat,
    /// Files that failed, in the order in which they were recorded.
    pub failures: Seq<(Seq<char>, ConvertError)>,
}

impl ReportView {
    /// Files whose outcome was recorded.
    pub open spec fn completed(self) -> nat {
        self.converted + self.failures.len()
    }

    /// Every converted file had its source deleted, and no more outcomes
    /// were recorded than files were found.
    pub open spec fn consistent(self) -> bool {
        self.deleted == self.converted && self.completed() <= self.total
    }

    /// The report of a run over `total` files before any outcome.
    pub open spec fn empty(total: nat) -> ReportView {
        ReportView { total, converted: 0, deleted: 0, failures: Seq::empty() }
    }

    /// The report after the outcome of the file at `path` was recorded. A
    /// report that already holds an outcome for every file takes no more.
    pub open spec fn record(self, path: Seq<char>, outcome: OutcomeView) -> ReportView {
        if self.completed() >= self.total {
            self
        } else {
            match outcome {
                OutcomeView::Converted { .. } => ReportView {
                    converted: self.converted + 1,
                    deleted: self.deleted + 1,
                    ..self
                },
                OutcomeView::Failed { error } => ReportView {
                    failures: self.failures.push((path, error)),
                    ..self
                },
            }
        }
    }
}

/// The tally of a run.
///
/// A source is deleted when, and only when, its file is converted, so one
/// count stands for both.
pub struct RunReport {
    total: usize,
    converted: usize,
    failures: Vec<FailedFile>,
}

impl View for RunReport {
    type V = ReportView;

    closed spec fn view(&self) -> ReportView {
        ReportView {
            total: self.total as nat,
            converted: self.converted as nat,
            deleted: self.converted as nat,
            failures: Seq::new(self.failures@.len(), |i: int| self.failures@[i]@),
        }
    }
}

impl RunReport {
    /// The report of a run over `total` files, before any outcome.
    pub fn new(total: usize) -> (r: RunReport)
        ensures
            r@ == ReportView::empty(total as nat),
            r@.consistent(),
    {
        let r = RunReport { total, converted: 0, failures: Vec::new() };
        assert(r@.failures =~= Seq::empty());
        r
    }

    /// Records the outcome of the file at `path`, and tells whether the
    /// report took it: it takes one outcome for every file of the run.
    pub fn record(&mut self, path: &str, outcome: &ConversionOutcome) -> (taken: bool)
        ensures
            final(self)@ == old(self)@.record(path@, outcome@),
            taken == (old(self)@.completed() < old(self)@.total),
            old(self)@.consistent() ==> final(self)@.consistent(),
    {
        let completed = match self.converted.checked_add(self.failures.len()) {
            Some(completed) => completed,
            None => {
                return false;
            },
        };
        if completed >= self.total {
            return false;
        }
        match outcome {
            ConversionOutcome::Converted { .. } => {
                self.converted = self.converted + 1;
            },
            ConversionOutcome::Failed { error } => {
                self.failures.push(FailedFile { path: String::from_str(path), error: *error });
                assert(self@.failures =~= old(self)@.failures.push((path@, *error)));
            },
        }
        true
    }

    /// The number of files found.
    pub fn total(&self) -> (r: usize)
        ensures
            r == self@.total,
    {
        self.total
    }

    /// The number of files converted.
    pub fn converted(&self) -> (r: usize)
        ensures
            r == self@.converted,
    {
        self.converted
    }

    /// The number of sources deleted.
    pub fn deleted(&self) -> (r: usize)
        ensures
            r == self@.deleted,
    {
        self.converted
    }

    /// The number of files that failed.
    pub fn failed(&self) -> (r: usize)
        ensures
            r == self@.failures.len(),
    {
        self.failures.len()
    }

    /// The files that failed, in the order in which they were recorded.
    pub fn failures(&self) -> (r: &Vec<FailedFile>)
        ensures
            r@.len() == self@.failures.len(),
            forall|i: int| 0 <= i < r@.len() ==> #[trigger] r@[i]@ == self@.failures[i],
    {
        &self.failures
    }
}

/// The report after the outcomes of `files` were recorded one by one.
pub open spec fn tally(report: ReportView, files: Seq<(Seq<char>, OutcomeView)>) -> ReportView
    decreases files.len(),
{
    if files.len() == 0 {
        report
    } else {
        tally(report, files.drop_last()).record(files.last().0, files.last().1)
    }
}

/// Whether the outcome is a failure.
pub open spec fn is_failure(file: (Seq<char>, OutcomeView)) -> bool {
    file.1 is Failed
}

/// Every file counts once: a report over as many files as the run found
/// holds, after all their outcomes were recorded, a conversion and a
/// deletion for every file that was converted, and for every file that
/// failed one entry, with its path and its error, in the order of the
/// outcomes.
pub proof fn lemma_tally_counts_each_file_once(files: Seq<(Seq<char>, OutcomeView)>, total: nat)
    requires
        files.len() <= total,
    ensures
        tally(ReportView::empty(total), files).consistent(),
        tally(ReportView::empty(total), files).total == total,
        tally(ReportView::empty(total), files).completed() == files.len(),
        tally(ReportView::empty(total), files).failures == files.filter(|f| is_failure(f)).map_values(
            |f: (Seq<char>, OutcomeView)| (f.0, f.1->error),
        ),
    decreases files.len(),
{
    let failed = |f| is_failure(f);
    let entry = |f: (Seq<char>, OutcomeView)| (f.0, f.1->error);
    if files.len() == 0 {
        assert(files.filter(failed) =~= Seq::empty()) by {
            reveal(Seq::filter);
        }
        assert(files.filter(failed).map_values(entry) =~= Seq::empty());
    } else {
        let before = files.drop_last();
        lemma_tally_counts_each_file_once(before, total);
        assert(files.filter(failed) == if is_failure(files.last()) {
            before.filter(failed).push(files.last())
        } else {
            before.filter(failed)
        }) by {
            reveal(Seq::filter);
        }
        if is_failure(files.last()) {
            assert(before.filter(failed).push(files.last()).map_values(entry) =~= before.filter(
                failed,
            ).map_values(entry).push(entry(files.last())));
        }
    }
}

} // verus!
