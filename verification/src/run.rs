//! The sequencing of a run: trial after trial, each one asking the optimizers,
//! awaiting the objective, scoring its rows and telling the optimizers, in
//! that order and without a way back.
//!
//! A [`Run`] performs nothing itself. It is told what happened (the optimizers
//! proposed values, the objective exited, the scores were read, the optimizers
//! took the score in) and answers with what is to be done next: the command
//! line of the objective, the rows for the result log, the score to tell.
//! Whatever goes wrong aborts the run for good.

use crate::binary64::Binary64;
use crate::command::{arguments, build_arguments, flag};
use crate::decimal::numeral_value;
use crate::ingest::{
    data_row, header_row, is_score, lemma_score_column, locate_score, make_data_row,
    make_header_row, score_column, select_best, selected,
};
use crate::param::{
    lemma_categorical_text_is_a_level, Observation, Param, ParamStateView, Proposal,
};
use crate::space::{observations, shown_values, with_proposals, AskError, ParamSet};
use crate::table::{header_fields, header_texts, read_table, record_fields, record_texts};
use crate::text::{ascending, copy_list, texts};
use vstd::prelude::*;
use vstd::string::*;

verus! {

/// Where a run stands.
#[derive(Clone, Copy, Debug, PartialEq, Eq, Structural)]
pub enum Phase {
    /// The optimizers are to propose the values of the next trial.
    Asking,
    /// The objective was started with the proposed values and has not exited.
    Awaiting,
    /// The objective's table was read; the scores of its rows are wanted.
    Scoring,
    /// The trial's score was selected; the optimizers are to take it in.
    Telling,
    /// Every trial was made.
    Completed,
    /// Something went wrong; nothing more will be done.
    Aborted,
}

/// Why a step was refused or the run was aborted.
#[derive(Clone, Copy, Debug, PartialEq, Eq, Structural)]
pub enum Abort {
    /// The step does not fit where the run stands, or its arguments do not fit
    /// the run. The run stays as it is.
    Misuse,
    /// The proposal at this position lies outside its parameter's search space.
    ProposalRejected(usize),
    /// The objective did not exit successfully.
    SubprocessFailed,
    /// The header of the objective's table could not be read.
    UnreadableHeader,
    /// No field of the header is `score`.
    MissingScore,
    /// The row at this position could not be read or has no score field.
    MalformedRow(usize),
    /// The score of the row at this position is no number.
    UnparsableScore(usize),
    /// An optimizer did not take the trial's score in.
    ObservationRejected,
}

/// The length of the longest prefix of flags that are all set.
pub open spec fn true_run(flags: Seq<bool>) -> int
    decreases flags.len(),
{
    if flags.len() == 0 || !flags[0] {
        0
    } else {
        1 + true_run(flags.drop_first())
    }
}

/// The first `k` flags are set, and the one after them, if there is one, is
/// not.
pub open spec fn ends_run(flags: Seq<bool>, k: int) -> bool {
    &&& 0 <= k <= flags.len()
    &&& forall|j: int| 0 <= j < k ==> flags[j]
    &&& (k < flags.len() ==> !flags[k])
}

/// The longest prefix of set flags ends where the first unset flag stands.
pub proof fn lemma_true_run(flags: Seq<bool>, k: int)
    requires
        ends_run(flags, k),
    ensures
        true_run(flags) == k,
    decreases flags.len(),
{
    if flags.len() > 0 && flags[0] {
        let rest = flags.drop_first();
        assert forall|j: int| 0 <= j < k - 1 implies rest[j] by {
            assert(rest[j] == flags[j + 1]);
        }
        lemma_true_run(rest, k - 1);
    }
}

/// For each parameter, whether the proposal at its position lies in its search
/// space.
pub open spec fn admitted_flags(states: Seq<ParamStateView>, proposals: Seq<Proposal>) -> Seq<
    bool,
> {
    Seq::new(states.len(), |i: int| states[i].param.admits(proposals[i].value))
}

/// Whether a record was read and has a field in the given column.
pub open spec fn usable(record: Option<Seq<Seq<char>>>, column: int) -> bool {
    record matches Some(fields) && column < fields.len()
}

/// For each record, whether it is usable.
pub open spec fn usable_flags(records: Seq<Option<Seq<Seq<char>>>>, column: int) -> Seq<bool> {
    Seq::new(records.len(), |i: int| usable(records[i], column))
}

/// The fields of the first `k` records.
pub open spec fn first_rows(records: Seq<Option<Seq<Seq<char>>>>, k: int) -> Seq<Seq<Seq<char>>> {
    Seq::new(k as nat, |i: int| records[i]->0)
}

/// The field that each row has in the given column.
pub open spec fn cells(rows: Seq<Seq<Seq<char>>>, column: int) -> Seq<Seq<char>> {
    Seq::new(rows.len(), |i: int| rows[i][column])
}

/// For each score, whether it is a number that was read.
pub open spec fn parsed_flags(scores: Seq<Option<Binary64>>) -> Seq<bool> {
    Seq::new(scores.len(), |i: int| scores[i] is Some)
}

/// The numbers of scores that were all read.
pub open spec fn values_of(scores: Seq<Option<Binary64>>) -> Seq<Binary64> {
    Seq::new(scores.len(), |i: int| scores[i]->0)
}

/// The rows of the result log for the first `k` rows of a trial.
pub open spec fn log_rows(
    stamp: Seq<char>,
    iteration: nat,
    values: Seq<Seq<char>>,
    rows: Seq<Seq<Seq<char>>>,
    k: int,
) -> Seq<Seq<Seq<char>>> {
    Seq::new(k as nat, |i: int| data_row(stamp, iteration, values, rows[i]))
}

/// The texts of a list of rows.
pub open spec fn row_texts(rows: Seq<Vec<String>>) -> Seq<Seq<Seq<char>>> {
    Seq::new(rows.len(), |i: int| texts(rows[i]@))
}

/// What is to be done with the objective's table once it was read.
#[derive(Debug)]
pub struct Reading {
    /// The header of the result log, where it has not been written yet.
    pub header: Option<Vec<String>>,
    /// The score field of each row, for the caller to read as a number.
    pub cells: Vec<String>,
}

/// What came of the rows of a trial.
#[derive(Debug)]
pub struct Scored {
    /// The rows to append to the result log, in order.
    pub rows: Vec<Vec<String>>,
    /// The score to tell the optimizers, or why the run was aborted.
    pub outcome: Result<Binary64, Abort>,
}

/// What a [`Run`] holds.
pub struct RunView {
    /// The parameters' names, in order.
    pub names: Seq<Seq<char>>,
    /// The parameters' states, each at the position of its name.
    pub states: Seq<ParamStateView>,
    /// The arguments that every invocation of the objective starts with.
    pub fixed: Seq<Seq<char>>,
    /// The number of trials to make.
    pub iterations: nat,
    /// Whether the greatest score is sought, not the least.
    pub maximize: bool,
    /// The number of trials that were completed: the index of the current one.
    pub iteration: nat,
    /// Where the run stands.
    pub phase: Phase,
    /// Whether the header of the result log was handed out.
    pub has_header: bool,
    /// The time stamp of the current trial.
    pub stamp: Seq<char>,
    /// The rows of the current trial that wait for their scores.
    pub pending: Seq<Seq<Seq<char>>>,
    /// The column of the score in those rows.
    pub column: nat,
    /// Whether a row that could not be used follows those rows.
    pub broken: bool,
    /// The score selected for the current trial.
    pub best: Binary64,
}

impl RunView {
    /// The names ascend and each has a sound state; no more
    /// trials are begun than were asked for; rows that wait for their scores
    /// have a score field.
    pub open spec fn wf(self) -> bool {
        &&& self.names.len() == self.states.len()
        &&& ascending(self.names)
        &&& forall|i: int| 0 <= i < self.states.len() ==> (#[trigger] self.states[i]).wf()
        &&& self.iteration <= self.iterations
        &&& self.iterations <= u32::MAX
        &&& (self.phase == Phase::Completed ==> self.iteration == self.iterations)
        &&& (self.active() ==> self.iteration < self.iterations)
        &&& (self.phase == Phase::Scoring ==> forall|i: int|
            0 <= i < self.pending.len() ==> self.column < (#[trigger] self.pending[i]).len())
    }

    /// Whether a trial is under way.
    pub open spec fn active(self) -> bool {
        self.phase == Phase::Asking || self.phase == Phase::Awaiting || self.phase
            == Phase::Scoring || self.phase == Phase::Telling
    }

    /// A run before its first trial.
    pub open spec fn start(
        names: Seq<Seq<char>>,
        states: Seq<ParamStateView>,
        fixed: Seq<Seq<char>>,
        iterations: nat,
        maximize: bool,
    ) -> RunView {
        RunView {
            names,
            states,
            fixed,
            iterations,
            maximize,
            iteration: 0,
            phase: if iterations == 0 {
                Phase::Completed
            } else {
                Phase::Asking
            },
            has_header: false,
            stamp: Seq::empty(),
            pending: Seq::empty(),
            column: 0,
            broken: false,
            best: Binary64 { bits: 0 },
        }
    }

    /// The run, aborted.
    pub open spec fn aborted(self) -> RunView {
        RunView { phase: Phase::Aborted, pending: Seq::empty(), ..self }
    }

    /// What one step makes of the run: nothing where the step was misused, an
    /// aborted run where it failed, and else what the step itself says.
    pub open spec fn step(self, fault: Option<Abort>, next: RunView) -> RunView {
        match fault {
            Some(Abort::Misuse) => self,
            Some(_) => self.aborted(),
            None => next,
        }
    }

    /// Why a round of proposals is not taken in, if it is not.
    pub open spec fn proposal_fault(self, proposals: Seq<Proposal>) -> Option<Abort> {
        if self.phase != Phase::Asking || proposals.len() != self.states.len() {
            Some(Abort::Misuse)
        } else {
            let k: int = true_run(admitted_flags(self.states, proposals));
            if k < self.states.len() {
                Some(Abort::ProposalRejected(k as usize))
            } else {
                None
            }
        }
    }

    /// The run after a round of proposals.
    pub open spec fn after_proposals(self, proposals: Seq<Proposal>) -> RunView {
        self.step(
            self.proposal_fault(proposals),
            RunView {
                states: with_proposals(self.states, proposals),
                phase: Phase::Awaiting,
                ..self
            },
        )
    }

    /// The arguments with which the objective is invoked for the current
    /// values.
    pub open spec fn invocation(self) -> Seq<Seq<char>> {
        arguments(self.fixed, self.names, shown_values(self.states))
    }

    /// Why the objective's output is not taken in, if it is not.
    pub open spec fn output_fault(self, success: bool, header: Option<Seq<Seq<char>>>) -> Option<
        Abort,
    > {
        if self.phase != Phase::Awaiting {
            Some(Abort::Misuse)
        } else if !success {
            Some(Abort::SubprocessFailed)
        } else if header is None {
            Some(Abort::UnreadableHeader)
        } else if score_column(header->0) is None {
            Some(Abort::MissingScore)
        } else {
            None
        }
    }

    /// The run after the objective exited.
    pub open spec fn after_output(
        self,
        success: bool,
        header: Option<Seq<Seq<char>>>,
        records: Seq<Option<Seq<Seq<char>>>>,
        stamp: Seq<char>,
    ) -> RunView {
        let column: int = score_column(header->0)->0;
        let k: int = true_run(usable_flags(records, column));
        self.step(
            self.output_fault(success, header),
            RunView {
                phase: Phase::Scoring,
                has_header: true,
                stamp,
                pending: first_rows(records, k),
                column: column as nat,
                broken: k < records.len(),
                ..self
            },
        )
    }

    /// The header of the result log that is handed out with a table: none once
    /// it was handed out.
    pub open spec fn log_header(self, header: Seq<Seq<char>>) -> Option<Seq<Seq<char>>> {
        if self.has_header {
            None
        } else {
            Some(header_row(self.names, header))
        }
    }

    /// Why the scores of a trial's rows are not taken in, if they are not.
    pub open spec fn scores_fault(self, scores: Seq<Option<Binary64>>) -> Option<Abort> {
        if self.phase != Phase::Scoring || scores.len() != self.pending.len() {
            Some(Abort::Misuse)
        } else {
            let k: int = true_run(parsed_flags(scores));
            if k < scores.len() {
                Some(Abort::UnparsableScore(k as usize))
            } else if self.broken {
                Some(Abort::MalformedRow(k as usize))
            } else {
                None
            }
        }
    }

    /// The rows that go to the result log with the scores of a trial: one for
    /// each row up to the first whose score is no number.
    pub open spec fn logged(self, scores: Seq<Option<Binary64>>) -> Seq<Seq<Seq<char>>> {
        if self.phase != Phase::Scoring || scores.len() != self.pending.len() {
            Seq::empty()
        } else {
            log_rows(
                self.stamp,
                self.iteration,
                shown_values(self.states),
                self.pending,
                true_run(parsed_flags(scores)),
            )
        }
    }

    /// The run after the scores of a trial's rows.
    pub open spec fn after_scores(self, scores: Seq<Option<Binary64>>) -> RunView {
        self.step(
            self.scores_fault(scores),
            RunView {
                phase: Phase::Telling,
                pending: Seq::empty(),
                best: selected(values_of(scores), self.maximize),
                ..self
            },
        )
    }

    /// What the optimizers are to be told: something only while the run waits
    /// for them to take a score in.
    pub open spec fn to_tell(self) -> Seq<Observation> {
        if self.phase == Phase::Telling {
            observations(self.states, self.best)
        } else {
            Seq::empty()
        }
    }

    /// Why the end of a trial is not taken in, if it is not.
    pub open spec fn told_fault(self, accepted: bool) -> Option<Abort> {
        if self.phase != Phase::Telling {
            Some(Abort::Misuse)
        } else if !accepted {
            Some(Abort::ObservationRejected)
        } else {
            None
        }
    }

    /// The run after the optimizers were told.
    pub open spec fn after_told(self, accepted: bool) -> RunView {
        self.step(
            self.told_fault(accepted),
            RunView {
                iteration: self.iteration + 1,
                phase: if self.iteration + 1 < self.iterations {
                    Phase::Asking
                } else {
                    Phase::Completed
                },
                ..self
            },
        )
    }
}

/// A run of trials.
#[derive(Debug)]
pub struct Run {
    params: ParamSet,
    fixed: Vec<String>,
    iterations: u32,
    maximize: bool,
    iteration: u32,
    phase: Phase,
    has_header: bool,
    stamp: String,
    pending: Vec<Vec<String>>,
    column: usize,
    broken: bool,
    best: Binary64,
}

impl View for Run {
    type V = RunView;

    closed spec fn view(&self) -> RunView {
        RunView {
            names: self.params.names(),
            states: self.params.states(),
            fixed: texts(self.fixed@),
            iterations: self.iterations as nat,
            maximize: self.maximize,
            iteration: self.iteration as nat,
            phase: self.phase,
            has_header: self.has_header,
            stamp: self.stamp@,
            pending: row_texts(self.pending@),
            column: self.column as nat,
            broken: self.broken,
            best: self.best,
        }
    }
}

impl Run {
    /// What the run holds is sound.
    pub closed spec fn wf(&self) -> bool {
        self.params.wf() && self@.wf()
    }

    /// A sound run holds what [`RunView::wf`] says.
    pub proof fn lemma_wf(&self)
        requires
            self.wf(),
        ensures
            self@.wf(),
    {
    }

    /// A run of the given number of trials over the given parameters.
    pub fn new(params: ParamSet, fixed: Vec<String>, iterations: u32, maximize: bool) -> (run: Run)
        requires
            params.wf(),
        ensures
            run.wf(),
            run@ == RunView::start(
                params.names(),
                params.states(),
                texts(fixed@),
                iterations as nat,
                maximize,
            ),
    {
        let run = Run {
            params,
            fixed,
            iterations,
            maximize,
            iteration: 0,
            phase: if iterations == 0 {
                Phase::Completed
            } else {
                Phase::Asking
            },
            has_header: false,
            stamp: String::new(),
            pending: Vec::new(),
            column: 0,
            broken: false,
            best: Binary64::zero(),
        };
        assert(run@.pending =~= Seq::empty());
        run
    }

    /// Where the run stands.
    pub fn phase(&self) -> (r: Phase)
        ensures
            r == self@.phase,
    {
        self.phase
    }

    /// The index of the current trial.
    pub fn iteration(&self) -> (r: u32)
        ensures
            r == self@.iteration,
    {
        self.iteration
    }

    /// The parameters' names, in order.
    pub fn names(&self) -> (r: Vec<String>)
        requires
            self.wf(),
        ensures
            texts(r@) == self@.names,
    {
        self.params.names_list()
    }

    /// The parameters' current values as the objective sees them, in the order
    /// of the names.
    pub fn values(&self) -> (r: Vec<String>)
        requires
            self.wf(),
        ensures
            texts(r@) == shown_values(self@.states),
    {
        self.params.values()
    }

    /// Takes in the values that the optimizers propose for the next trial, one
    /// for each parameter in the order of the names, and gives the arguments
    /// with which the objective is to be invoked.
    pub fn propose(&mut self, proposals: &Vec<Proposal>) -> (r: Result<Vec<String>, Abort>)
        requires
            old(self).wf(),
        ensures
            final(self).wf(),
            final(self)@ == old(self)@.after_proposals(proposals@),
            match r {
                Ok(args) => {
                    &&& old(self)@.proposal_fault(proposals@) is None
                    &&& texts(args@) == final(self)@.invocation()
                },
                Err(e) => old(self)@.proposal_fault(proposals@) == Some(e),
            },
    {
        if self.phase != Phase::Asking {
            return Err(Abort::Misuse);
        }
        let ghost before = self@;
        let ghost flags = admitted_flags(before.states, proposals@);
        match self.params.ask(proposals) {
            Ok(()) => {
                proof {
                    lemma_true_run(flags, before.states.len() as int);
                }
                self.phase = Phase::Awaiting;
                Ok(build_arguments(&self.fixed, &self.params))
            },
            Err(AskError::WrongCount) => Err(Abort::Misuse),
            Err(AskError::OutOfRange(k)) => {
                proof {
                    lemma_true_run(flags, k as int);
                }
                self.abort();
                Err(Abort::ProposalRejected(k))
            },
        }
    }

    /// Aborts the run.
    fn abort(&mut self)
        requires
            old(self).wf(),
        ensures
            final(self).wf(),
            final(self)@ == old(self)@.aborted(),
    {
        self.phase = Phase::Aborted;
        self.pending = Vec::new();
        assert(self@.pending =~= Seq::empty());
    }

    /// Takes in how the objective exited and what it wrote to its standard
    /// output, with the time at which it exited.
    ///
    /// The output is read as a table only where the objective succeeded.
    pub fn read_output(&mut self, success: bool, output: &[u8], stamp: String) -> (r: Result<
        Reading,
        Abort,
    >)
        requires
            old(self).wf(),
        ensures
            final(self).wf(),
            final(self)@ == old(self)@.after_output(
                success,
                header_fields(output@),
                record_fields(output@),
                stamp@,
            ),
            match r {
                Ok(reading) => {
                    &&& old(self)@.output_fault(success, header_fields(output@)) is None
                    &&& header_texts(reading.header) == old(self)@.log_header(
                        header_fields(output@)->0,
                    )
                    &&& texts(reading.cells@) == cells(
                        final(self)@.pending,
                        final(self)@.column as int,
                    )
                },
                Err(e) => old(self)@.output_fault(success, header_fields(output@)) == Some(e),
            },
    {
        if self.phase != Phase::Awaiting {
            return Err(Abort::Misuse);
        }
        if !success {
            self.abort();
            return Err(Abort::SubprocessFailed);
        }
        let table = read_table(output);
        self.accept_output(true, &table.header, &table.records, stamp)
    }

    /// Takes in how the objective exited and the table that it wrote, with the
    /// time at which it exited.
    ///
    /// A failed objective, a header that could not be read and a header
    /// without a `score` field each abort the run. Else the rows up to the
    /// first that could not be read, or that is too short to have a score, wait
    /// for their scores; the header of the result log is handed out if it was
    /// not before, and with it the score field of each of those rows.
    pub fn accept_output(
        &mut self,
        success: bool,
        header: &Option<Vec<String>>,
        records: &Vec<Option<Vec<String>>>,
        stamp: String,
    ) -> (r: Result<Reading, Abort>)
        requires
            old(self).wf(),
        ensures
            final(self).wf(),
            final(self)@ == old(self)@.after_output(
                success,
                header_texts(*header),
                record_texts(records@),
                stamp@,
            ),
            match r {
                Ok(reading) => {
                    &&& old(self)@.output_fault(success, header_texts(*header)) is None
                    &&& header_texts(reading.header) == old(self)@.log_header(
                        header_texts(*header)->0,
                    )
                    &&& texts(reading.cells@) == cells(
                        final(self)@.pending,
                        final(self)@.column as int,
                    )
                },
                Err(e) => old(self)@.output_fault(success, header_texts(*header)) == Some(e),
            },
    {
        if self.phase != Phase::Awaiting {
            return Err(Abort::Misuse);
        }
        if !success {
            self.abort();
            return Err(Abort::SubprocessFailed);
        }
        let fields = match header {
            Some(fields) => fields,
            None => {
                self.abort();
                return Err(Abort::UnreadableHeader);
            },
        };
        let column: usize = match locate_score(fields) {
            Some(column) => column,
            None => {
                self.abort();
                return Err(Abort::MissingScore);
            },
        };
        let ghost found = record_texts(records@);
        let ghost flags = usable_flags(found, column as int);
        let mut pending: Vec<Vec<String>> = Vec::new();
        let mut picked: Vec<String> = Vec::new();
        let mut k: usize = 0;
        let mut broken = false;
        while k < records.len() && !broken
            invariant
                k <= records@.len(),
                found == record_texts(records@),
                flags == usable_flags(found, column as int),
                pending@.len() == k,
                picked@.len() == k,
                forall|j: int| 0 <= j < k ==> flags[j],
                forall|j: int| 0 <= j < k ==> texts(#[trigger] pending@[j]@) == found[j]->0,
                forall|j: int| 0 <= j < k ==> (#[trigger] picked@[j])@ == (found[j]->0)[column as int],
                broken ==> k < records@.len() && !flags[k as int],
            decreases records@.len() - k + (if broken { 0int } else { 1int }),
        {
            match &records[k] {
                Some(row) => {
                    if column < row.len() {
                        pending.push(copy_list(row));
                        picked.push(row[column].clone());
                        k = k + 1;
                    } else {
                        broken = true;
                    }
                },
                None => {
                    broken = true;
                },
            }
        }
        proof {
            lemma_true_run(flags, k as int);
            assert(row_texts(pending@) =~= first_rows(found, k as int));
        }
        let log_header = if self.has_header {
            None
        } else {
            Some(make_header_row(&self.params.names_list(), fields))
        };
        self.phase = Phase::Scoring;
        self.has_header = true;
        self.stamp = stamp;
        self.pending = pending;
        self.column = column;
        self.broken = broken;
        assert forall|i: int| 0 <= i < self@.pending.len() implies self@.column < (
        #[trigger] self@.pending[i]).len() by {
            assert(flags[i]);
        }
        Ok(Reading { header: log_header, cells: picked })
    }

    /// Takes in the score of each row that waits for one, `None` standing for
    /// a score field that is no number, and gives the rows for the result log
    /// and the score that stands for the trial.
    ///
    /// Rows are logged up to the first whose score is no number. Such a row
    /// aborts the run, and so does a row that could not be used, after the rows
    /// before it were logged. Else the trial's score is selected and waits to be
    /// told.
    pub fn score(&mut self, scores: &Vec<Option<Binary64>>) -> (r: Scored)
        requires
            old(self).wf(),
        ensures
            final(self).wf(),
            final(self)@ == old(self)@.after_scores(scores@),
            row_texts(r.rows@) == old(self)@.logged(scores@),
            match r.outcome {
                Ok(best) => {
                    &&& old(self)@.scores_fault(scores@) is None
                    &&& best == selected(values_of(scores@), old(self)@.maximize)
                },
                Err(e) => old(self)@.scores_fault(scores@) == Some(e),
            },
    {
        if self.phase != Phase::Scoring || scores.len() != self.pending.len() {
            let r = Scored { rows: Vec::new(), outcome: Err(Abort::Misuse) };
            return r;
        }
        let ghost before = self@;
        let ghost flags = parsed_flags(scores@);
        let values = self.params.values();
        let n: usize = scores.len();
        let mut rows: Vec<Vec<String>> = Vec::new();
        let mut numbers: Vec<Binary64> = Vec::new();
        let mut k: usize = 0;
        let mut stopped = false;
        while k < n && !stopped
            invariant
                self.wf(),
                self@ == before,
                before.phase == Phase::Scoring,
                n == scores@.len(),
                n == self.pending@.len(),
                k <= n,
                flags == parsed_flags(scores@),
                texts(values@) == shown_values(before.states),
                rows@.len() == k,
                numbers@.len() == k,
                forall|j: int| 0 <= j < k ==> flags[j],
                forall|j: int| 0 <= j < k ==> numbers@[j] == scores@[j]->0,
                forall|j: int|
                    0 <= j < k ==> texts(#[trigger] rows@[j]@) == data_row(
                        before.stamp,
                        before.iteration,
                        shown_values(before.states),
                        before.pending[j],
                    ),
                stopped ==> k < n && !flags[k as int],
            decreases n - k + (if stopped { 0int } else { 1int }),
        {
            match scores[k] {
                Some(number) => {
                    rows.push(
                        make_data_row(
                            self.stamp.as_str(),
                            self.iteration,
                            &values,
                            &self.pending[k],
                        ),
                    );
                    numbers.push(number);
                    k = k + 1;
                },
                None => {
                    stopped = true;
                },
            }
        }
        proof {
            lemma_true_run(flags, k as int);
        }
        if stopped {
            self.abort();
            return Scored { rows, outcome: Err(Abort::UnparsableScore(k)) };
        }
        if self.broken {
            self.abort();
            return Scored { rows, outcome: Err(Abort::MalformedRow(k)) };
        }
        assert(numbers@ =~= values_of(scores@));
        let best = select_best(&numbers, self.maximize);
        self.phase = Phase::Telling;
        self.pending = Vec::new();
        self.best = best;
        assert(self@.pending =~= Seq::empty());
        Scored { rows, outcome: Ok(best) }
    }

    /// What the optimizers are to be told, one observation per parameter in
    /// the order of the names: the parameter's value in the trial and the
    /// trial's score. Nothing unless the run waits for them to take the score
    /// in.
    pub fn observations(&self) -> (r: Vec<Observation>)
        requires
            self.wf(),
        ensures
            r@ == self@.to_tell(),
    {
        if self.phase == Phase::Telling {
            self.params.tell(self.best)
        } else {
            Vec::new()
        }
    }

    /// Takes in whether every optimizer took the trial's score in, which ends
    /// the trial. Says whether another trial follows.
    pub fn told(&mut self, accepted: bool) -> (r: Result<bool, Abort>)
        requires
            old(self).wf(),
        ensures
            final(self).wf(),
            final(self)@ == old(self)@.after_told(accepted),
            match r {
                Ok(more) => {
                    &&& old(self)@.told_fault(accepted) is None
                    &&& more == (final(self)@.phase == Phase::Asking)
                },
                Err(e) => old(self)@.told_fault(accepted) == Some(e),
            },
    {
        if self.phase != Phase::Telling {
            return Err(Abort::Misuse);
        }
        if !accepted {
            self.abort();
            return Err(Abort::ObservationRejected);
        }
        self.iteration = self.iteration + 1;
        if self.iteration < self.iterations {
            self.phase = Phase::Asking;
            Ok(true)
        } else {
            self.phase = Phase::Completed;
            Ok(false)
        }
    }
}

/// In a sound run, the objective is handed each categorical parameter as the
/// numeral of one of its levels: the argument that follows the parameter's
/// flag reads as a number below the number of levels.
pub proof fn lemma_levels_on_the_command_line(run: RunView, i: int, levels: usize)
    requires
        run.wf(),
        0 <= i < run.states.len(),
        run.states[i].param == Param::Categorical(levels),
    ensures
        run.invocation()[run.fixed.len() + 2 * i] == flag(run.names[i]),
        run.invocation()[run.fixed.len() + 2 * i + 1] == run.states[i].text(),
        numeral_value(run.states[i].text()) == Some(run.states[i].value.level() as nat),
        run.states[i].value.level() < levels,
{
    lemma_categorical_text_is_a_level(run.states[i], levels);
}

/// An aborted run stays aborted and yields nothing: whatever step is tried, it
/// is refused as misuse and leaves the run as it is, no row goes to the result
/// log, and there is nothing to tell the optimizers. The same holds of a
/// completed run.
pub proof fn lemma_ended_run_does_nothing(
    run: RunView,
    proposals: Seq<Proposal>,
    success: bool,
    header: Option<Seq<Seq<char>>>,
    records: Seq<Option<Seq<Seq<char>>>>,
    stamp: Seq<char>,
    scores: Seq<Option<Binary64>>,
    accepted: bool,
)
    requires
        run.phase == Phase::Aborted || run.phase == Phase::Completed,
    ensures
        run.proposal_fault(proposals) == Some(Abort::Misuse),
        run.after_proposals(proposals) == run,
        run.output_fault(success, header) == Some(Abort::Misuse),
        run.after_output(success, header, records, stamp) == run,
        run.scores_fault(scores) == Some(Abort::Misuse),
        run.after_scores(scores) == run,
        run.logged(scores) == Seq::<Seq<Seq<char>>>::empty(),
        run.told_fault(accepted) == Some(Abort::Misuse),
        run.after_told(accepted) == run,
        run.to_tell() == Seq::<Observation>::empty(),
{
}

/// Where the objective does not exit successfully, the run is aborted at
/// once, whatever the objective wrote: the step fails, so that it hands out
/// neither a header nor a score field, and the run it leaves is aborted, so
/// that no row is logged and no optimizer is told from then on.
pub proof fn lemma_failed_objective_aborts(
    run: RunView,
    header: Option<Seq<Seq<char>>>,
    records: Seq<Option<Seq<Seq<char>>>>,
    stamp: Seq<char>,
)
    requires
        run.phase == Phase::Awaiting,
    ensures
        run.output_fault(false, header) == Some(Abort::SubprocessFailed),
        run.after_output(false, header, records, stamp) == run.aborted(),
        run.aborted().phase == Phase::Aborted,
        run.aborted().to_tell() == Seq::<Observation>::empty(),
        forall|scores: Seq<Option<Binary64>>| #[trigger]
            run.aborted().logged(scores) == Seq::<Seq<Seq<char>>>::empty(),
{
}

/// Where the header of the objective's table has no `score` field, the run is
/// aborted at once, whatever rows follow the header: the step fails, and the
/// run it leaves is aborted, so that no row is logged and no optimizer is told
/// from then on.
pub proof fn lemma_missing_score_aborts(
    run: RunView,
    header: Seq<Seq<char>>,
    records: Seq<Option<Seq<Seq<char>>>>,
    stamp: Seq<char>,
)
    requires
        run.phase == Phase::Awaiting,
        forall|i: int| 0 <= i < header.len() ==> !is_score(header[i]),
    ensures
        run.output_fault(true, Some(header)) == Some(Abort::MissingScore),
        run.after_output(true, Some(header), records, stamp) == run.aborted(),
        run.aborted().phase == Phase::Aborted,
        run.aborted().to_tell() == Seq::<Observation>::empty(),
        forall|scores: Seq<Option<Binary64>>| #[trigger]
            run.aborted().logged(scores) == Seq::<Seq<Seq<char>>>::empty(),
{
    lemma_score_column(header);
}

/// A step left the run as it was, or it came in its turn, at `from`, and led
/// the run on to `to` or aborted it.
pub open spec fn led_on(run: RunView, next: RunView, from: Phase, to: Phase) -> bool {
    next == run || (run.phase == from && (next.phase == to || next.phase == Phase::Aborted))
}

/// The steps of a trial follow in one order. A step changes where the run
/// stands only if it comes in its turn, and then the run goes on to the next
/// step or is aborted: proposals lead from asking to awaiting, the output from
/// awaiting to scoring, the scores from scoring to telling, and the end of the
/// trial from telling to the asking of the next trial or, after the last
/// trial, to completion.
pub proof fn lemma_steps_follow_in_order(
    run: RunView,
    proposals: Seq<Proposal>,
    success: bool,
    header: Option<Seq<Seq<char>>>,
    records: Seq<Option<Seq<Seq<char>>>>,
    stamp: Seq<char>,
    scores: Seq<Option<Binary64>>,
    accepted: bool,
)
    ensures
        led_on(run, run.after_proposals(proposals), Phase::Asking, Phase::Awaiting),
        led_on(
            run,
            run.after_output(success, header, records, stamp),
            Phase::Awaiting,
            Phase::Scoring,
        ),
        led_on(run, run.after_scores(scores), Phase::Scoring, Phase::Telling),
        led_on(
            run,
            run.after_told(accepted),
            Phase::Telling,
            if run.iteration + 1 < run.iterations {
                Phase::Asking
            } else {
                Phase::Completed
            },
        ),
        run.after_told(accepted).phase == Phase::Asking && run.phase == Phase::Telling
            ==> run.after_told(accepted).iteration == run.iteration + 1,
{
}

/// The header of the result log is handed out once: with the first table that
/// is taken in, and never again, whatever steps follow.
pub proof fn lemma_header_goes_out_once(
    run: RunView,
    proposals: Seq<Proposal>,
    success: bool,
    header: Option<Seq<Seq<char>>>,
    records: Seq<Option<Seq<Seq<char>>>>,
    stamp: Seq<char>,
    scores: Seq<Option<Binary64>>,
    accepted: bool,
)
    ensures
        header is Some ==> (run.log_header(header->0) is Some <==> !run.has_header),
        run.output_fault(success, header) is None ==> run.after_output(
            success,
            header,
            records,
            stamp,
        ).has_header,
        run.has_header ==> {
            &&& run.after_proposals(proposals).has_header
            &&& run.after_output(success, header, records, stamp).has_header
            &&& run.after_scores(scores).has_header
            &&& run.after_told(accepted).has_header
        },
{
}

} // verus!
