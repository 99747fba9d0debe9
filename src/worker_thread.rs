//! Running a rule script against a program: the operations of a script,
//! the verdicts, and the decisions of a single trial and of a run of
//! trials. Whoever runs the program performs what these decisions ask
//! for and reports back what happened.

use vstd::prelude::*;
use crate::communicator::{CommReport, Exchange, History, render};
use crate::rule_data::{RuleData, RuleType, ContentType, rule_read_from};
use crate::rules::{Rule, RuleError, observed_text, read_lossy, ranges_meaning};
use crate::synth::has_any_look;

verus! {

/// std's owned path, carried as it is.
#[verifier::external_type_specification]
#[verifier::external_body]
pub struct ExPathBuf(std::path::PathBuf);

/// The verdict of one rule on one observed line.
#[derive(Debug)]
pub enum OpReport {
    Success,
    Failure { error_message: String },
}

/// The outcome of a trial, or of a run of trials.
#[derive(Debug)]
pub enum TestReport {
    /// Every check passed.
    Success,
    /// A check failed, or the program misbehaved at its end: the
    /// transcript so far and what was wrong.
    Failure { history: History, error_message: String },
    /// The tooling failed (the program could not be run, a pipe broke, a
    /// rule could not produce a line); no verdict on the program.
    Error(String),
    /// The run was stopped between two trials.
    Cancelled,
}

/// A job for the worker: the program, its script and how many trials
/// must pass.
#[derive(Debug)]
pub struct TestingData {
    pub program_path: std::path::PathBuf,
    pub rules: Vec<RuleData>,
    pub successes_required: u32,
}

/// One step of a script: a line to write, made by the rule, or a line to
/// read, checked by it.
#[derive(Debug)]
pub enum Operation {
    Output(Rule),
    Input(Rule),
}

/// Does the entry's text read as a rule whatever it holds (literal text),
/// or is it integer-range text that reads?
pub open spec fn always_reads(d: RuleData) -> bool {
    d.content_type == ContentType::PlainText || (d.content_type == ContentType::IntRanges
        && (ranges_meaning(d.text@) matches Ok(rs) && rs.len() > 0))
}

/// Is `op` the operation the script entry `d` asks for?
pub open spec fn operation_of(d: RuleData, op: Operation) -> bool {
    match op {
        Operation::Input(rule) => d.rule_type == RuleType::Input && rule_read_from(
            d.content_type,
            d.text@,
            rule,
        ),
        Operation::Output(rule) => d.rule_type == RuleType::Output && rule_read_from(
            d.content_type,
            d.text@,
            rule,
        ),
    }
}

impl Operation {
    /// The operations of a script, in its order; the first rule that does
    /// not read stops it.
    pub fn process(rules: &Vec<RuleData>) -> (r: Result<Vec<Operation>, RuleError>)
        ensures
            r matches Ok(ops) ==> (ops.len() == rules.len() && forall|i: int|
                0 <= i < rules.len() ==> operation_of(#[trigger] rules[i], ops[i])),
            (forall|i: int| 0 <= i < rules.len() ==> always_reads(#[trigger] rules[i])) ==> r is Ok,
            r is Err ==> exists|i: int| 0 <= i < rules.len() && !always_reads(#[trigger] rules[i]),
    {
        let mut ops: Vec<Operation> = Vec::new();
        for k in 0..rules.len()
            invariant
                ops.len() == k,
                forall|i: int| 0 <= i < k ==> operation_of(#[trigger] rules[i], ops[i]),
        {
            let rule = match rules[k].to_rule() {
                Ok(rule) => rule,
                Err(e) => {
                    return Err(e);
                },
            };
            match rules[k].rule_type {
                RuleType::Input => ops.push(Operation::Input(rule)),
                RuleType::Output => ops.push(Operation::Output(rule)),
            }
        }
        Ok(ops)
    }
}

/// What a trial asks of whoever runs the program.
#[derive(Debug)]
pub enum Action {
    /// Write this line (a line break follows it) to the program.
    WriteLine(Vec<u8>),
    /// Read one line from the program and hand it to `line_read`.
    ReadLine,
    /// The script is done: wait for the program to end and hand the
    /// result to `exited`.
    AwaitExit,
    /// The trial is over.
    Conclude(TestReport),
}

/// The state of one trial of a script: how far it got, and its transcript.
#[derive(Debug)]
pub struct Trial {
    next: usize,
    history: History,
    over: bool,
}

impl Trial {
    /// How many operations are done.
    pub closed spec fn position(&self) -> nat {
        self.next as nat
    }

    /// The transcript so far.
    pub closed spec fn transcript(&self) -> Seq<Exchange> {
        self.history.view()
    }

    /// Has the trial ended with a report (a failed check, or a fault)?
    /// After that no operation of the script runs any more.
    pub closed spec fn is_over(&self) -> bool {
        self.over
    }

    /// A trial that has done nothing yet.
    pub fn new() -> (r: Trial)
        ensures
            r.position() == 0,
            r.transcript() == Seq::<Exchange>::empty(),
            !r.is_over(),
    {
        Trial { next: 0, history: History::new(), over: false }
    }

    /// The transcript so far, as text.
    pub fn transcript_text(&self) -> (r: Vec<u8>)
        ensures
            r@ == render(self.transcript()),
    {
        self.history.to_text()
    }

    /// What the next operation asks for: a line to write (made now, and
    /// noted in the transcript), a line to read, or the end of the script.
    pub fn next_action(&mut self, ops: &Vec<Operation>) -> (r: Action)
        requires
            old(self).position() <= ops.len(),
        ensures
            final(self).position() <= ops.len(),
            old(self).is_over() ==> (r matches Action::Conclude(TestReport::Error(_)) && *final(self)
                == *old(self)),
            !old(self).is_over() && old(self).position() == ops.len() ==> r is AwaitExit && *final(self) == *old(self),
            !old(self).is_over() && old(self).position() < ops.len() ==> match ops[old(self).position() as int] {
                Operation::Output(_) => r is ReadLine && *final(self) == *old(self),
                Operation::Input(rule) => match r {
                    Action::WriteLine(line) => {
                        &&& rule.can_write(line@)
                        &&& final(self).position() == old(self).position() + 1
                        &&& final(self).transcript() == old(self).transcript().push(
                            Exchange::Sent(line@),
                        )
                        &&& !final(self).is_over()
                    },
                    Action::Conclude(TestReport::Error(_)) => {
                        &&& rule matches Rule::RegExpr(x) && has_any_look(x.tree())
                        &&& final(self).is_over()
                        &&& final(self).transcript() == old(self).transcript()
                    },
                    _ => false,
                },
            },
    {
        if self.over {
            return Action::Conclude(TestReport::Error("The trial is over".to_owned()));
        }
        if self.next >= ops.len() {
            return Action::AwaitExit;
        }
        match &ops[self.next] {
            Operation::Output(_) => Action::ReadLine,
            Operation::Input(rule) => match rule.generate() {
                Ok(line) => {
                    self.history.record_sent(&line);
                    self.next = self.next + 1;
                    Action::WriteLine(line)
                },
                Err(e) => {
                    self.over = true;
                    Action::Conclude(TestReport::Error(e.message()))
                },
            },
        }
    }

    /// Checks a line read from the program against the current operation.
    /// `None`: it passed, go on with `next_action`. A failed check ends the
    /// trial with the transcript, the line included, and the rule's words.
    pub fn line_read(&mut self, ops: &Vec<Operation>, line: Vec<u8>) -> (r: Option<TestReport>)
        requires
            old(self).position() <= ops.len(),
        ensures
            final(self).position() <= ops.len(),
            old(self).is_over() ==> (r matches Some(TestReport::Error(_)) && *final(self) == *old(self)),
            !old(self).is_over() ==> (r is Some <==> final(self).is_over()),
            !old(self).is_over() && old(self).position() < ops.len() ==> match ops[old(self).position() as int] {
                Operation::Output(rule) => {
                    &&& final(self).transcript() == old(self).transcript().push(
                        Exchange::Received(line@),
                    )
                    &&& r is None <==> rule.passes(line@)
                    &&& r is None ==> final(self).position() == old(self).position() + 1
                    &&& r is Some ==> (r matches Some(TestReport::Failure { history, error_message })
                        && history.view() == final(self).transcript() && error_message@
                        == rule.failure_text(line@))
                },
                Operation::Input(_) => r matches Some(TestReport::Error(_)),
            },
            !old(self).is_over() && old(self).position() == ops.len() ==> r matches Some(
                TestReport::Error(_),
            ),
    {
        if self.over {
            return Some(TestReport::Error("The trial is over".to_owned()));
        }
        if self.next >= ops.len() {
            self.over = true;
            return Some(TestReport::Error("The script reads no more lines".to_owned()));
        }
        match &ops[self.next] {
            Operation::Input(_) => {
                self.over = true;
                Some(TestReport::Error("The script writes a line here, it reads none".to_owned()))
            },
            Operation::Output(rule) => {
                self.history.record_received(&line);
                match rule.validate(&line) {
                    OpReport::Success => {
                        self.next = self.next + 1;
                        None
                    },
                    OpReport::Failure { error_message } => {
                        self.over = true;
                        let history = self.history.duplicate();
                        Some(TestReport::Failure { history, error_message })
                    },
                }
            },
        }
    }

    /// Judges the end of the program once the script is done: whether it
    /// exited with success, the output it left unread and its error stream.
    pub fn exited(self, ops: &Vec<Operation>, success: bool, rest: Vec<u8>, stderr: Vec<u8>) -> (r:
        TestReport)
        ensures
            !self.is_over() && self.position() == ops.len() ==> {
                let h = if rest@.len() > 0 {
                    self.transcript().push(Exchange::Received(rest@))
                } else {
                    self.transcript()
                };
                match r {
                    TestReport::Success => success && rest@.len() == 0,
                    TestReport::Failure { history, error_message } => {
                        &&& !success || rest@.len() > 0
                        &&& history.view() == h
                        &&& success ==> error_message@ == "The program printed extra output"@
                        &&& !success ==> error_message@
                            == "The program did not finish successfully:\n"@ + observed_text(stderr@)
                    },
                    _ => false,
                }
            },
            self.is_over() || self.position() != ops.len() ==> r is Error,
    {
        if self.over || self.next != ops.len() {
            return TestReport::Error("The program was waited for before the script was done".to_owned());
        }
        match CommReport::classify(self.history, success, rest, stderr) {
            CommReport::Success(_) => TestReport::Success,
            CommReport::NonEmptyStdout(history) => TestReport::Failure {
                history,
                error_message: "The program printed extra output".to_owned(),
            },
            CommReport::ProgramError(history, err) => {
                let mut m = "The program did not finish successfully:\n".to_owned();
                m.append(read_lossy(&err).as_str());
                TestReport::Failure { history, error_message: m }
            },
        }
    }
}

/// What a run of trials asks for at a trial boundary.
#[derive(Debug)]
pub enum RunStep {
    /// Start one more trial.
    StartTrial,
    /// The run is over with this report.
    Finish(TestReport),
}

/// The decision at a trial boundary: the new count of passing trials,
/// and whether another trial starts. `passed` is `None` before the first
/// trial, then whether the trial just ended passed.
pub open spec fn boundary(solved: nat, required: nat, passed: Option<bool>, stop: bool) -> (nat, bool) {
    let s = if passed == Some(true) && solved < required {
        solved + 1
    } else {
        solved
    };
    (s, passed != Some(false) && s < required && !stop)
}

/// The count of passing trials after `k` trials of a run in which every
/// trial passes.
pub open spec fn solved_after_passes(required: nat, k: nat) -> nat
    decreases k,
{
    if k == 0 {
        boundary(0, required, None, false).0
    } else {
        boundary(solved_after_passes(required, (k - 1) as nat), required, Some(true), false).0
    }
}

/// Does a run in which every trial passes start another trial once `k`
/// trials have passed?
pub open spec fn starts_after_passes(required: nat, k: nat) -> bool {
    if k == 0 {
        boundary(0, required, None, false).1
    } else {
        boundary(solved_after_passes(required, (k - 1) as nat), required, Some(true), false).1
    }
}

/// A run in which every trial passes starts exactly as many trials as its
/// quota asks for: after `k` passing trials the count is the smaller of
/// `k` and the quota, and another trial starts exactly when `k` is below
/// the quota.
pub proof fn lemma_quota_caps_trials(required: nat, k: nat)
    ensures
        solved_after_passes(required, k) == if k < required {
            k
        } else {
            required
        },
        starts_after_passes(required, k) == (k < required),
    decreases k,
{
    if k > 0 {
        lemma_quota_caps_trials(required, (k - 1) as nat);
    }
}

/// Asking for a stop never lets another trial start, and leaves the
/// report of a trial that did not pass as it is.
pub proof fn lemma_stop_prevents_next_trial(solved: nat, required: nat, passed: Option<bool>)
    ensures
        !boundary(solved, required, passed, true).1,
        boundary(solved, required, passed, true).0 == boundary(solved, required, passed, false).0,
{
}

/// Whether the report is that of a passing trial.
pub open spec fn passed_of(last: Option<TestReport>) -> Option<bool> {
    match last {
        Some(rep) => Some(rep is Success),
        None => None,
    }
}

/// The progress of a run of trials towards its quota of passing trials.
#[derive(Debug)]
pub struct RunControl {
    solved: u32,
    required: u32,
}

impl RunControl {
    #[verifier::type_invariant]
    spec fn inv(&self) -> bool {
        self.solved <= self.required
    }

    pub closed spec fn solved_count(&self) -> nat {
        self.solved as nat
    }

    pub closed spec fn quota(&self) -> nat {
        self.required as nat
    }

    /// A run that needs `required` passing trials and has none yet.
    pub fn new(required: u32) -> (r: RunControl)
        ensures
            r.solved_count() == 0,
            r.quota() == required,
    {
        RunControl { solved: 0, required }
    }

    /// How many trials have passed.
    pub fn solved(&self) -> (r: u32)
        ensures
            r == self.solved_count(),
    {
        self.solved
    }

    /// How many trials must pass.
    pub fn required(&self) -> (r: u32)
        ensures
            r == self.quota(),
    {
        self.required
    }

    /// The decision at a trial boundary, given the report of the trial
    /// just ended (`None` before the first) and whether a stop was asked
    /// for. A trial that did not pass ends the run with its report, stop
    /// or not; a passing one counts. Then the run ends with success once
    /// the quota is met, ends cancelled when a stop was asked for, and
    /// otherwise starts another trial.
    pub fn next_step(&mut self, last: Option<TestReport>, stop_requested: bool) -> (r: RunStep)
        ensures
            final(self).quota() == old(self).quota(),
            final(self).solved_count() <= final(self).quota(),
            (final(self).solved_count(), r is StartTrial) == boundary(
                old(self).solved_count(),
                old(self).quota(),
                passed_of(last),
                stop_requested,
            ),
            (last is Some && !(last->0 is Success)) ==> {
                &&& r == RunStep::Finish(last->0)
                &&& final(self).solved_count() == old(self).solved_count()
            },
            !(last is Some && !(last->0 is Success)) ==> {
                &&& final(self).solved_count() == if last is Some && old(self).solved_count()
                    < old(self).quota() {
                    old(self).solved_count() + 1
                } else {
                    old(self).solved_count()
                }
                &&& (r is StartTrial) == (final(self).solved_count() < final(self).quota()
                    && !stop_requested)
                &&& (r matches RunStep::Finish(TestReport::Success)) == (final(self).solved_count()
                    >= final(self).quota())
                &&& (r matches RunStep::Finish(TestReport::Cancelled)) == (final(self).solved_count()
                    < final(self).quota() && stop_requested)
            },
    {
        proof {
            use_type_invariant(&*self);
        }
        match last {
            Some(TestReport::Success) => {
                if self.solved < self.required {
                    self.solved = self.solved + 1;
                }
            },
            Some(rep) => {
                return RunStep::Finish(rep);
            },
            None => {},
        }
        if self.solved >= self.required {
            RunStep::Finish(TestReport::Success)
        } else if stop_requested {
            RunStep::Finish(TestReport::Cancelled)
        } else {
            RunStep::StartTrial
        }
    }
}

} // verus!
