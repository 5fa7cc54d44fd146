//! The decisions of a worker that runs one guest script: it creates an
//! interpreter, installs the native bridge, loads the file, calls it, and
//! releases the interpreter on every way out.
//!
//! The worker does no work itself. Whoever drives it performs each action
//! that `step` returns and reports what came of it as the next event.

use vstd::prelude::*;

verus! {

/// Why a script did not run to completion.
#[derive(Debug, Clone, PartialEq, Eq)]
pub enum ExecError {
    /// The file could not be read or did not compile; the interpreter's text.
    Load(String),
    /// The script raised an error that it did not handle, or was stopped;
    /// the interpreter's text.
    Runtime(String),
}

/// How one execution ended.
#[derive(Debug, Clone, PartialEq, Eq)]
pub enum RunOutcome {
    Completed,
    /// No interpreter could be created.
    InitFailed,
    Failed(ExecError),
}

/// Where the worker stands.
#[derive(Debug, Clone, Copy, PartialEq, Eq, Structural)]
pub enum WorkerState {
    /// Nothing asked yet.
    Idle,
    /// Waiting for the interpreter to be created.
    Creating,
    /// The interpreter lives; waiting for the bridge to be installed.
    Installing,
    /// The interpreter lives; waiting for the file to be loaded.
    Loading,
    /// The interpreter lives; waiting for the script to return.
    Calling,
    /// The execution is over and the interpreter, if one was made, released.
    Done,
}

/// What came of the last action.
#[derive(Debug, Clone, PartialEq, Eq)]
pub enum WorkerEvent {
    /// The driver is ready to begin.
    Begin,
    /// The interpreter was created (`true`) or could not be (`false`).
    Created(bool),
    /// The bridge functions are registered in the interpreter.
    BridgeInstalled,
    /// The file was loaded with this status (0 for success) and, otherwise,
    /// this diagnostic text.
    Loaded(i32, String),
    /// The protected call returned this status (0 for success) and,
    /// otherwise, this diagnostic text.
    Called(i32, String),
}

/// What the driver is to do next.
#[derive(Debug, Clone, PartialEq, Eq)]
pub enum WorkerAction {
    CreateInterpreter,
    InstallBridge,
    /// Load, without running, the script at this path.
    LoadFile(String),
    /// Run the loaded script under protected evaluation.
    Call,
    /// Release the interpreter where `release` is true, then report the
    /// outcome; nothing follows.
    Finish { release: bool, outcome: RunOutcome },
}

/// The decisions of one execution of the script at `path`.
pub struct Worker {
    state: WorkerState,
    path: String,
}

/// The interpreter exists in this state and is not yet released.
pub open spec fn handle_live(s: WorkerState) -> bool {
    s == WorkerState::Installing || s == WorkerState::Loading || s == WorkerState::Calling
}

/// The event is the one that the state waits for.
pub open spec fn fits(s: WorkerState, ev: WorkerEvent) -> bool {
    match ev {
        WorkerEvent::Begin => s == WorkerState::Idle,
        WorkerEvent::Created(_) => s == WorkerState::Creating,
        WorkerEvent::BridgeInstalled => s == WorkerState::Installing,
        WorkerEvent::Loaded(_, _) => s == WorkerState::Loading,
        WorkerEvent::Called(_, _) => s == WorkerState::Calling,
    }
}

impl Worker {
    pub closed spec fn state(&self) -> WorkerState {
        self.state
    }

    pub closed spec fn path(&self) -> Seq<char> {
        self.path@
    }

    /// A worker for the script at `path`, that has asked nothing yet.
    pub fn new(path: String) -> (w: Worker)
        ensures
            w.state() == WorkerState::Idle,
            w.path() == path@,
    {
        Worker { state: WorkerState::Idle, path }
    }

    pub fn current(&self) -> (r: WorkerState)
        ensures
            r == self.state(),
    {
        self.state
    }

    pub fn is_done(&self) -> (r: bool)
        ensures
            r == (self.state() == WorkerState::Done),
    {
        self.state == WorkerState::Done
    }

    /// Takes what came of the last action and says what to do next; an event
    /// that the state does not wait for changes nothing and asks nothing.
    pub fn step(&mut self, ev: WorkerEvent) -> (r: Option<WorkerAction>)
        ensures
            final(self).path() == old(self).path(),
            r is None <==> !fits(old(self).state(), ev),
            r is None ==> final(self).state() == old(self).state(),
            // The interpreter is released once, by the action that ends a run
            // in which it was created, and never otherwise.
            r matches Some(WorkerAction::Finish { release, outcome: _ }) ==> release == handle_live(
                old(self).state(),
            ) && final(self).state() == WorkerState::Done,
            handle_live(old(self).state()) && !handle_live(final(self).state()) ==> (r matches Some(
                WorkerAction::Finish { release, outcome: _ },
            ) && release),
            fits(old(self).state(), ev) ==> match ev {
                WorkerEvent::Begin => final(self).state() == WorkerState::Creating && r
                    == Some(WorkerAction::CreateInterpreter),
                WorkerEvent::Created(ok) => if ok {
                    final(self).state() == WorkerState::Installing && r == Some(
                        WorkerAction::InstallBridge,
                    )
                } else {
                    r == Some(
                        WorkerAction::Finish { release: false, outcome: RunOutcome::InitFailed },
                    )
                },
                WorkerEvent::BridgeInstalled => final(self).state() == WorkerState::Loading && (r
                    matches Some(WorkerAction::LoadFile(p)) && p@ == old(self).path()),
                WorkerEvent::Loaded(status, msg) => if status == 0 {
                    final(self).state() == WorkerState::Calling && r == Some(WorkerAction::Call)
                } else {
                    r == Some(
                        WorkerAction::Finish {
                            release: true,
                            outcome: RunOutcome::Failed(ExecError::Load(msg)),
                        },
                    )
                },
                WorkerEvent::Called(status, msg) => if status == 0 {
                    r == Some(WorkerAction::Finish { release: true, outcome: RunOutcome::Completed })
                } else {
                    r == Some(
                        WorkerAction::Finish {
                            release: true,
                            outcome: RunOutcome::Failed(ExecError::Runtime(msg)),
                        },
                    )
                },
            },
    {
        match ev {
            WorkerEvent::Begin => {
                if self.state != WorkerState::Idle {
                    return None;
                }
                self.state = WorkerState::Creating;
                Some(WorkerAction::CreateInterpreter)
            },
            WorkerEvent::Created(ok) => {
                if self.state != WorkerState::Creating {
                    return None;
                }
                if ok {
                    self.state = WorkerState::Installing;
                    Some(WorkerAction::InstallBridge)
                } else {
                    self.state = WorkerState::Done;
                    Some(WorkerAction::Finish { release: false, outcome: RunOutcome::InitFailed })
                }
            },
            WorkerEvent::BridgeInstalled => {
                if self.state != WorkerState::Installing {
                    return None;
                }
                self.state = WorkerState::Loading;
                Some(WorkerAction::LoadFile(self.path.clone()))
            },
            WorkerEvent::Loaded(status, msg) => {
                if self.state != WorkerState::Loading {
                    return None;
                }
                if status == 0 {
                    self.state = WorkerState::Calling;
                    Some(WorkerAction::Call)
                } else {
                    self.state = WorkerState::Done;
                    Some(
                        WorkerAction::Finish {
                            release: true,
                            outcome: RunOutcome::Failed(ExecError::Load(msg)),
                        },
                    )
                }
            },
            WorkerEvent::Called(status, msg) => {
                if self.state != WorkerState::Calling {
                    return None;
                }
                self.state = WorkerState::Done;
                if status == 0 {
                    Some(WorkerAction::Finish { release: true, outcome: RunOutcome::Completed })
                } else {
                    Some(
                        WorkerAction::Finish {
                            release: true,
                            outcome: RunOutcome::Failed(ExecError::Runtime(msg)),
                        },
                    )
                }
            },
        }
    }
}

} // verus!
