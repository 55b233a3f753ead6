//! The startup driver: it hands out the actions of a script one at a time and
//! stops for good at the first failure, naming the stage that failed.
use vstd::prelude::*;
use crate::plan::{Action, Step, steps_of};

verus! {

/// The stages of a container startup, in order.
#[derive(Clone, Copy, Debug, PartialEq, Eq, Structural)]
pub enum Stage {
    Isolate,
    BuildMountNamespace,
    Launch,
}

/// The stage a step belongs to.
pub open spec fn stage_of(s: Step) -> Stage {
    match s {
        Step::Lock(_) | Step::Unshare | Step::SetHostname(_) => Stage::Isolate,
        Step::Fork => Stage::Launch,
        _ => Stage::BuildMountNamespace,
    }
}

/// Returns the stage an action belongs to.
pub fn stage_of_action(a: &Action) -> (r: Stage)
    ensures
        r == stage_of(a@),
{
    match a {
        Action::Lock { .. } | Action::Unshare | Action::SetHostname { .. } => Stage::Isolate,
        Action::Fork => Stage::Launch,
        _ => Stage::BuildMountNamespace,
    }
}

/// A failed startup: the stage, the index of the action that failed, and the
/// operating system's error code.
#[derive(Clone, Copy, Debug, PartialEq, Eq, Structural)]
pub struct Failure {
    pub stage: Stage,
    pub step: usize,
    pub code: i32,
}

/// What came of the action last handed out.
#[derive(Clone, Copy, Debug, PartialEq, Eq, Structural)]
pub enum Outcome {
    Done,
    Failed { code: i32 },
}

/// What the caller is to do next.
pub enum Next<'a> {
    /// Carry out this action and report its outcome.
    Perform(&'a Action),
    /// The startup failed and does nothing more.
    Aborted(Failure),
    /// Every action was carried out.
    Finished,
}

/// The progress of a startup: how many actions of the script are done, and
/// the failure that stopped it, if any.
pub struct Startup {
    pub script: Vec<Action>,
    pub done: usize,
    pub failure: Option<Failure>,
}

/// The progress after one more outcome is reported: a stopped or finished
/// startup stays as it is; a success moves on by one action; a failure stops it
/// at the current action.
pub open spec fn advanced(script: Seq<Step>, done: nat, failure: Option<Failure>, o: Outcome) -> (
    nat,
    Option<Failure>,
) {
    if failure is Some || done >= script.len() {
        (done, failure)
    } else {
        match o {
            Outcome::Done => (done + 1, None),
            Outcome::Failed { code } => (
                done,
                Some(Failure { stage: stage_of(script[done as int]), step: done as usize, code }),
            ),
        }
    }
}

/// The progress after the outcomes `os` are reported in order, from the start.
pub open spec fn progress(script: Seq<Step>, os: Seq<Outcome>) -> (nat, Option<Failure>)
    decreases os.len(),
{
    if os.len() == 0 {
        (0, None)
    } else {
        let p = progress(script, os.drop_last());
        advanced(script, p.0, p.1, os.last())
    }
}

impl Startup {
    /// The count of actions done stays within the script, and a failure
    /// names the action it stopped at.
    pub open spec fn wf(&self) -> bool {
        &&& self.done <= self.script@.len()
        &&& self.failure matches Some(f) ==> self.done < self.script@.len() && f.step == self.done
    }

    /// Starts a run of `script` with nothing done.
    pub fn new(script: Vec<Action>) -> (r: Startup)
        ensures
            r.wf(),
            r.script@ == script@,
            r.done == 0,
            r.failure is None,
    {
        Startup { script, done: 0, failure: None }
    }

    /// Returns what is to be done next.
    pub fn pending(&self) -> (r: Next<'_>)
        requires
            self.wf(),
        ensures
            self.failure matches Some(f) ==> r == Next::Aborted(f),
            self.failure is None && self.done < self.script@.len() ==> r == Next::Perform(
                &self.script@[self.done as int],
            ),
            self.failure is None && self.done == self.script@.len() ==> r is Finished,
    {
        match self.failure {
            Some(f) => Next::Aborted(f),
            None => if self.done < self.script.len() {
                Next::Perform(&self.script[self.done])
            } else {
                Next::Finished
            },
        }
    }

    /// Records the outcome of the action last handed out.
    pub fn record(&mut self, outcome: Outcome)
        requires
            old(self).wf(),
        ensures
            final(self).wf(),
            final(self).script@ == old(self).script@,
            (final(self).done as nat, final(self).failure) == advanced(
                steps_of(old(self).script@),
                old(self).done as nat,
                old(self).failure,
                outcome,
            ),
    {
        if self.failure.is_some() || self.done >= self.script.len() {
            return;
        }
        match outcome {
            Outcome::Done => {
                self.done = self.done + 1;
            },
            Outcome::Failed { code } => {
                let stage = stage_of_action(&self.script[self.done]);
                self.failure = Some(Failure { stage, step: self.done, code });
            },
        }
    }
}

} // verus!
