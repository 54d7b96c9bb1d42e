//! The order of work when packages are vendored: for each package in
//! turn fetch the tarball, create its directory, unpack; stop at the
//! first failure. The caller does the work and reports each outcome.

use crate::digest::{file_digest, sha256_hex_digest};
use crate::lockfile::{resolved_models, ResolvedDependency, ResolvedModel};
use crate::text::same_text;
use vstd::prelude::*;

verus! {

/// Where a run stands.
#[derive(Clone, Copy, Debug, PartialEq, Eq)]
pub enum Phase {
    /// The tarball of the current package is to be fetched.
    Fetching,
    /// The vendor directory of the current package is to be created.
    CreatingDirectory,
    /// The tarball is to be unpacked into the directory.
    Unpacking,
    /// Every package is vendored.
    Finished,
    /// A step failed; nothing more is done.
    Failed,
}

/// What the caller is to do next.
#[derive(Clone, Copy, Debug, PartialEq, Eq)]
pub enum Action {
    /// Fetch the tarball of the package at `index`.
    Fetch { index: usize },
    /// Create the vendor directory of the package at `index`, with any
    /// missing parents.
    CreateDirectory { index: usize },
    /// Unpack the fetched tarball into the directory of the package at
    /// `index`.
    Unpack { index: usize },
    /// Nothing: the run is complete.
    Finish,
    /// Nothing: the run has failed.
    Abort,
}

/// How the last action went.
pub enum Outcome {
    Success,
    /// The transport's or the unpacker's own diagnostic.
    Failure { detail: String },
}

/// The failure that ended a run.
#[derive(Debug)]
pub struct VendorError {
    /// The step that failed.
    pub phase: Phase,
    /// The package it failed for.
    pub index: usize,
    /// The diagnostic that came with the failure.
    pub detail: String,
}

/// A run as plain mathematical values.
pub struct RunState {
    /// How many packages there are.
    pub total: nat,
    /// The current package; `total` once the run is finished.
    pub index: nat,
    pub phase: Phase,
    /// How many vendor directories exist: those of the first `created`
    /// packages.
    pub created: nat,
}

/// The states that a run can be in.
pub open spec fn reachable(s: RunState) -> bool {
    match s.phase {
        Phase::Fetching | Phase::CreatingDirectory => s.index < s.total && s.created == s.index,
        Phase::Unpacking => s.index < s.total && s.created == s.index + 1,
        Phase::Finished => s.index == s.total && s.created == s.total,
        Phase::Failed => s.index < s.total && s.index <= s.created <= s.index + 1,
    }
}

/// The first state of a run over `total` packages.
pub open spec fn initial(total: nat) -> RunState {
    RunState {
        total,
        index: 0,
        phase: if total == 0 {
            Phase::Finished
        } else {
            Phase::Fetching
        },
        created: 0,
    }
}

/// The action that a state asks for.
pub open spec fn action_of(s: RunState) -> Action {
    match s.phase {
        Phase::Fetching => Action::Fetch { index: s.index as usize },
        Phase::CreatingDirectory => Action::CreateDirectory { index: s.index as usize },
        Phase::Unpacking => Action::Unpack { index: s.index as usize },
        Phase::Finished => Action::Finish,
        Phase::Failed => Action::Abort,
    }
}

/// The state after the action of `s` succeeded or failed.
pub open spec fn next_state(s: RunState, success: bool) -> RunState {
    match s.phase {
        Phase::Finished | Phase::Failed => s,
        _ => if !success {
            RunState { phase: Phase::Failed, ..s }
        } else {
            match s.phase {
                Phase::Fetching => RunState { phase: Phase::CreatingDirectory, ..s },
                Phase::CreatingDirectory => RunState {
                    phase: Phase::Unpacking,
                    created: s.created + 1,
                    ..s
                },
                _ => RunState {
                    index: s.index + 1,
                    phase: if s.index + 1 == s.total {
                        Phase::Finished
                    } else {
                        Phase::Fetching
                    },
                    ..s
                },
            }
        },
    }
}

/// The state after a sequence of outcomes, each reported in its turn.
pub open spec fn after(s: RunState, outcomes: Seq<bool>) -> RunState
    decreases outcomes.len(),
{
    if outcomes.len() == 0 {
        s
    } else {
        next_state(after(s, outcomes.drop_last()), outcomes.last())
    }
}

/// A run over resolved dependencies.
pub struct VendorRun {
    deps: Vec<ResolvedDependency>,
    index: usize,
    phase: Phase,
    created: usize,
    failure: Option<VendorError>,
}

impl View for VendorRun {
    type V = RunState;

    closed spec fn view(&self) -> RunState {
        RunState {
            total: self.deps@.len(),
            index: self.index as nat,
            phase: self.phase,
            created: self.created as nat,
        }
    }
}

impl VendorRun {
    /// The packages of the run, in order.
    pub closed spec fn deps(&self) -> Seq<ResolvedModel> {
        resolved_models(self.deps@)
    }

    /// The failure that ended the run: the step, the package and the
    /// diagnostic.
    pub closed spec fn failure(&self) -> Option<(Phase, usize, Seq<char>)> {
        match self.failure {
            Some(e) => Some((e.phase, e.index, e.detail@)),
            None => None,
        }
    }

    /// The run is in a reachable state, and holds a failure exactly when
    /// it has failed.
    pub closed spec fn well_formed(&self) -> bool {
        &&& reachable(self@)
        &&& self.failure is Some <==> self.phase is Failed
        &&& self.failure matches Some(e) ==> e.index == self.index && (e.phase is Fetching
            || e.phase is CreatingDirectory || e.phase is Unpacking) && (e.phase is Unpacking
            <==> self.created == self.index + 1)
    }

    /// Starts a run over `deps`.
    pub fn new(deps: Vec<ResolvedDependency>) -> (run: Self)
        ensures
            run.well_formed(),
            run@ == initial(deps@.len()),
            run.deps() == resolved_models(deps@),
            run.failure() is None,
    {
        let phase = if deps.len() == 0 {
            Phase::Finished
        } else {
            Phase::Fetching
        };
        VendorRun { deps, index: 0, phase, created: 0, failure: None }
    }

    /// The action to perform now.
    pub fn pending(&self) -> (action: Action)
        requires
            self.well_formed(),
        ensures
            action == action_of(self@),
    {
        match self.phase {
            Phase::Fetching => Action::Fetch { index: self.index },
            Phase::CreatingDirectory => Action::CreateDirectory { index: self.index },
            Phase::Unpacking => Action::Unpack { index: self.index },
            Phase::Finished => Action::Finish,
            Phase::Failed => Action::Abort,
        }
    }

    /// Takes the outcome of the pending action and moves on. A failure
    /// ends the run and is kept with its step, package and diagnostic.
    /// A run that is finished or has failed stays as it is.
    pub fn advance(&mut self, outcome: Outcome)
        requires
            old(self).well_formed(),
        ensures
            final(self).well_formed(),
            final(self)@ == next_state(old(self)@, outcome is Success),
            final(self).deps() == old(self).deps(),
            final(self).failure() == match outcome {
                Outcome::Failure { detail } if !(old(self)@.phase is Finished || old(
                    self,
                )@.phase is Failed) => Some(
                    (old(self)@.phase, old(self)@.index as usize, detail@),
                ),
                _ => old(self).failure(),
            },
    {
        let total = self.deps.len();
        match self.phase {
            Phase::Finished | Phase::Failed => {},
            _ => match outcome {
                Outcome::Failure { detail } => {
                    self.failure = Some(
                        VendorError { phase: self.phase, index: self.index, detail },
                    );
                    self.phase = Phase::Failed;
                },
                Outcome::Success => match self.phase {
                    Phase::Fetching => {
                        self.phase = Phase::CreatingDirectory;
                    },
                    Phase::CreatingDirectory => {
                        self.created = self.created + 1;
                        self.phase = Phase::Unpacking;
                    },
                    _ => {
                        self.index = self.index + 1;
                        self.phase = if self.index == total {
                            Phase::Finished
                        } else {
                            Phase::Fetching
                        };
                    },
                },
            },
        }
    }

    /// The package at `index`.
    pub fn dependency(&self, index: usize) -> (dep: &ResolvedDependency)
        requires
            index < self.deps().len(),
        ensures
            dep@ == self.deps()[index as int],
    {
        &self.deps[index]
    }

    /// How many packages the run has.
    pub fn len(&self) -> (total: usize)
        ensures
            total == self@.total,
            total == self.deps().len(),
    {
        self.deps.len()
    }

    /// How many vendor directories the run has had created: those of the
    /// first so many packages.
    pub fn directories_created(&self) -> (created: usize)
        ensures
            created == self@.created,
    {
        self.created
    }

    /// The failure that ended the run, if it has failed.
    pub fn error(&self) -> (error: Option<&VendorError>)
        requires
            self.well_formed(),
        ensures
            error is Some <==> self@.phase is Failed,
            match error {
                Some(e) => self.failure() == Some((e.phase, e.index, e.detail@)),
                None => self.failure() is None,
            },
    {
        self.failure.as_ref()
    }
}

/// Tells whether a fetched tarball has the digest that the lockfile
/// declares for the package.
pub fn tarball_matches(dep: &ResolvedDependency, tarball: &Vec<u8>) -> (matches: bool)
    ensures
        matches == (sha256_hex_digest(tarball@) == dep@.expected_checksum),
{
    let digest = file_digest(tarball);
    same_text(digest.as_str(), dep.expected_checksum.as_str())
}

/// Every state that follows a reachable state is reachable.
pub proof fn lemma_reachable(s: RunState, outcomes: Seq<bool>)
    requires
        reachable(s),
    ensures
        reachable(after(s, outcomes)),
        after(s, outcomes).total == s.total,
        s.created <= after(s, outcomes).created,
    decreases outcomes.len(),
{
    if outcomes.len() > 0 {
        lemma_reachable(s, outcomes.drop_last());
    }
}

/// A run that has failed or is finished stays as it is, whatever is
/// reported to it.
pub proof fn lemma_stopped(s: RunState, outcomes: Seq<bool>)
    requires
        s.phase is Failed || s.phase is Finished,
    ensures
        after(s, outcomes) == s,
    decreases outcomes.len(),
{
    if outcomes.len() > 0 {
        lemma_stopped(s, outcomes.drop_last());
    }
}

/// Fail-fast: when unpacking fails for the package at `s.index`, the
/// run has failed, the directories of the packages up to and including
/// that one exist and no others, and whatever is reported afterwards no
/// further directory is created and no further action is asked for.
pub proof fn lemma_fail_fast(s: RunState, later: Seq<bool>)
    requires
        reachable(s),
        s.phase is Unpacking,
    ensures
        after(next_state(s, false), later).phase is Failed,
        after(next_state(s, false), later).created == s.index + 1,
        action_of(after(next_state(s, false), later)) == Action::Abort,
{
    lemma_stopped(next_state(s, false), later);
}

/// When fetching or creating the directory fails for the package at
/// `s.index`, only the directories of the packages before it exist, and
/// none is created afterwards.
pub proof fn lemma_fail_before_unpack(s: RunState, later: Seq<bool>)
    requires
        reachable(s),
        s.phase is Fetching || s.phase is CreatingDirectory,
    ensures
        after(next_state(s, false), later).phase is Failed,
        after(next_state(s, false), later).created == s.index,
        action_of(after(next_state(s, false), later)) == Action::Abort,
{
    lemma_stopped(next_state(s, false), later);
}

} // verus!
