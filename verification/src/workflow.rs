//! The workflow state machine.
//!
//! The machine decides every step of the run: which command to send next,
//! when to pause, when to probe the filesystem for the derived output, and
//! when the run has finished or failed.  The surrounding program performs
//! each returned [`Action`] — an HTTP call, a fixed settle delay, or a
//! filesystem probe — and feeds its outcome back as an [`Event`].  Transport
//! and filesystem failures are fatal and are handled at that boundary; the
//! machine itself never sees them.

use vstd::prelude::*;
use crate::command::{
    add_docs_command, add_docs_command_spec, close_command, close_command_spec, cmd_view,
    doc_start_command, doc_start_command_spec, open_command, open_command_spec, tabs_command,
    tabs_command_spec,
};
use crate::listing::{contains_fresh_entry, extract_stale_indices, has_fresh_entry, stale_indices};
use crate::order::{
    closing_order, closing_seq, lemma_closing_seq, lemma_descending_drop_first,
    strictly_descending,
};
use crate::paths::{derivable, normalize_path, normalized, path_derivable};

verus! {

/// The bounded budget of the workspace verification loop.
pub const MAX_ATTEMPTS: u8 = 3;

/// Why a run failed, as far as the machine itself decides it.
#[derive(Debug)]
pub enum WorkflowError {
    /// The fresh workspace entry never became visible within the bounded
    /// retry budget.
    VerificationTimeout,
    /// The watched output file existed when the watch began and vanished
    /// while waiting for it to be overwritten.
    OutputVanished,
}

/// What a filesystem probe of the output path observed.
#[derive(Debug)]
pub enum Observation {
    /// The output path does not exist.
    Absent,
    /// The output path exists, with this modification stamp.
    Present { modified: u64 },
}

/// The outcome of the action the machine last asked for.
#[derive(Debug)]
pub enum Event {
    /// The text the remote endpoint returned for the sent command.
    Response(String),
    /// The requested settle delay has elapsed.
    Slept,
    /// The requested filesystem probe observed this.
    Output(Observation),
}

/// What the surrounding program must do next.
#[derive(Debug)]
pub enum Action {
    /// Send this command to the control endpoint and feed back the response.
    Send(Vec<String>),
    /// Pause for one fixed delay unit and feed back `Slept`.
    Sleep,
    /// Probe the output path and feed back the observation.
    Probe,
    /// The run completed: the output file was produced or overwritten.
    Finish,
    /// The run failed; no further step follows.
    Fail(WorkflowError),
}

/// Which completion signal the watch is waiting for, fixed at watch start.
#[derive(Debug)]
pub enum WatchPhase {
    /// The output already existed: wait for a modification stamp that
    /// differs from the recorded one.
    AwaitOverwrite { baseline: u64 },
    /// The output did not exist: wait for it to appear.
    AwaitExistence,
}

/// What the machine is waiting for.
#[derive(Debug)]
pub enum State {
    /// The listing used to find stale entries was requested.
    AwaitingStaleListing,
    /// A close command was sent; these indices are still to be closed.
    AwaitingCloseAck { remaining: Vec<u16> },
    /// Settling after a close; these indices are still to be closed.
    SettlingAfterClose { remaining: Vec<u16> },
    /// The open command was sent.
    AwaitingOpenAck,
    /// Settling after the open command.
    SettlingAfterOpen,
    /// A verification listing was requested for this attempt.
    AwaitingVerifyListing { attempt: u8 },
    /// Settling before the next verification attempt.
    SettlingBeforeRetry { attempt: u8 },
    /// The add-documents command was sent.
    AwaitingAddAck,
    /// Settling between adding documents and starting processing.
    SettlingAfterAdd,
    /// The start-processing command was sent.
    AwaitingStartAck,
    /// The probe that selects the watch branch was requested.
    AwaitingFirstProbe,
    /// Settling before the next watch probe.
    SettlingBeforeProbe { watch: WatchPhase },
    /// A watch probe was requested.
    AwaitingProbe { watch: WatchPhase },
    /// The run completed.
    Finished,
    /// The run failed.
    Failed { error: WorkflowError },
}

/// The workflow: the normalized document path and what is awaited.
#[derive(Debug)]
pub struct Workflow {
    /// The normalized document path handed to the remote application.
    pub doc_path: String,
    /// What the machine is waiting for.
    pub state: State,
}

impl Workflow {
    /// Internal sanity of a workflow: attempt counters stay within the
    /// bounded budget, and the pending close list stays strictly
    /// descending.
    pub open spec fn wf(self) -> bool {
        match self.state {
            State::AwaitingVerifyListing { attempt } => 1 <= attempt <= MAX_ATTEMPTS,
            State::SettlingBeforeRetry { attempt } => 1 <= attempt < MAX_ATTEMPTS,
            State::AwaitingCloseAck { remaining } => strictly_descending(remaining@),
            State::SettlingAfterClose { remaining } => strictly_descending(remaining@),
            _ => true,
        }
    }

    /// The run has ended, in success or failure; no further step follows.
    pub open spec fn is_terminal_spec(self) -> bool {
        self.state is Finished || self.state is Failed
    }

    /// Exec view of `is_terminal_spec`.
    pub fn is_terminal(&self) -> (b: bool)
        ensures
            b == self.is_terminal_spec(),
    {
        match self.state {
            State::Finished => true,
            State::Failed { .. } => true,
            _ => false,
        }
    }
}

/// The event kind this state waits for.
pub open spec fn accepts_spec(state: State, event: Event) -> bool {
    match state {
        State::AwaitingStaleListing => event is Response,
        State::AwaitingCloseAck { .. } => event is Response,
        State::AwaitingOpenAck => event is Response,
        State::AwaitingVerifyListing { .. } => event is Response,
        State::AwaitingAddAck => event is Response,
        State::AwaitingStartAck => event is Response,
        State::SettlingAfterClose { .. } => event is Slept,
        State::SettlingAfterOpen => event is Slept,
        State::SettlingBeforeRetry { .. } => event is Slept,
        State::SettlingAfterAdd => event is Slept,
        State::SettlingBeforeProbe { .. } => event is Slept,
        State::AwaitingFirstProbe => event is Output,
        State::AwaitingProbe { .. } => event is Output,
        State::Finished => false,
        State::Failed { .. } => false,
    }
}

impl Workflow {
    /// Exec view of `accepts_spec`: whether `event` answers what this
    /// workflow is waiting for.
    pub fn accepts(&self, event: &Event) -> (b: bool)
        ensures
            b == accepts_spec(self.state, *event),
    {
        match (&self.state, event) {
            (State::AwaitingStaleListing, Event::Response(_)) => true,
            (State::AwaitingCloseAck { .. }, Event::Response(_)) => true,
            (State::AwaitingOpenAck, Event::Response(_)) => true,
            (State::AwaitingVerifyListing { .. }, Event::Response(_)) => true,
            (State::AwaitingAddAck, Event::Response(_)) => true,
            (State::AwaitingStartAck, Event::Response(_)) => true,
            (State::SettlingAfterClose { .. }, Event::Slept) => true,
            (State::SettlingAfterOpen, Event::Slept) => true,
            (State::SettlingBeforeRetry { .. }, Event::Slept) => true,
            (State::SettlingAfterAdd, Event::Slept) => true,
            (State::SettlingBeforeProbe { .. }, Event::Slept) => true,
            (State::AwaitingFirstProbe, Event::Output(_)) => true,
            (State::AwaitingProbe { .. }, Event::Output(_)) => true,
            _ => false,
        }
    }
}

/// The transition relation of the machine: from the pre-state `pre`, the
/// event `event` yields the post-state `post` and the action `act`.
///
/// It pins down the whole run: stale entries are closed strictly highest
/// index first with a settle delay after each close, the open command
/// follows (and follows immediately when no entry was stale), the fresh
/// entry is verified with at most `MAX_ATTEMPTS` listing fetches separated
/// by one delay each, the documents are added and processing started with a
/// delay between, and completion is watched by overwrite detection when the
/// output already existed — never reported on an unchanged stamp — or by
/// existence otherwise, reported on the first probe that sees the file.
pub open spec fn next_ok(pre: Workflow, event: Event, post: Workflow, act: Action) -> bool {
    &&& post.doc_path@ == pre.doc_path@
    &&& match pre.state {
        State::AwaitingStaleListing => event matches Event::Response(text) && {
            let order = closing_seq(stale_indices(text@));
            if order.len() == 0 {
                &&& post.state is AwaitingOpenAck
                &&& act matches Action::Send(c) && cmd_view(c) == open_command_spec()
            } else {
                &&& post.state matches State::AwaitingCloseAck { remaining } && remaining@
                    == order.drop_first()
                &&& act matches Action::Send(c) && cmd_view(c) == close_command_spec(order[0])
            }
        },
        State::AwaitingCloseAck { remaining } => event is Response && {
            &&& post.state matches State::SettlingAfterClose { remaining: r2 } && r2@ == remaining@
            &&& act is Sleep
        },
        State::SettlingAfterClose { remaining } => event is Slept && {
            if remaining@.len() == 0 {
                &&& post.state is AwaitingOpenAck
                &&& act matches Action::Send(c) && cmd_view(c) == open_command_spec()
            } else {
                &&& post.state matches State::AwaitingCloseAck { remaining: r2 } && r2@
                    == remaining@.drop_first()
                &&& act matches Action::Send(c) && cmd_view(c) == close_command_spec(remaining@[0])
            }
        },
        State::AwaitingOpenAck => event is Response && {
            &&& post.state is SettlingAfterOpen
            &&& act is Sleep
        },
        State::SettlingAfterOpen => event is Slept && {
            &&& post.state matches State::AwaitingVerifyListing { attempt } && attempt == 1
            &&& act matches Action::Send(c) && cmd_view(c) == tabs_command_spec()
        },
        State::AwaitingVerifyListing { attempt } => event matches Event::Response(text) && {
            if has_fresh_entry(text@) {
                &&& post.state is AwaitingAddAck
                &&& act matches Action::Send(c) && cmd_view(c) == add_docs_command_spec(
                    pre.doc_path@,
                )
            } else if attempt < MAX_ATTEMPTS {
                &&& post.state matches State::SettlingBeforeRetry { attempt: a2 } && a2 == attempt
                &&& act is Sleep
            } else {
                &&& post.state matches State::Failed { error } && error is VerificationTimeout
                &&& act matches Action::Fail(e) && e is VerificationTimeout
            }
        },
        State::SettlingBeforeRetry { attempt } => event is Slept && {
            &&& post.state matches State::AwaitingVerifyListing { attempt: a2 } && a2 == attempt
                + 1
            &&& act matches Action::Send(c) && cmd_view(c) == tabs_command_spec()
        },
        State::AwaitingAddAck => event is Response && {
            &&& post.state is SettlingAfterAdd
            &&& act is Sleep
        },
        State::SettlingAfterAdd => event is Slept && {
            &&& post.state is AwaitingStartAck
            &&& act matches Action::Send(c) && cmd_view(c) == doc_start_command_spec()
        },
        State::AwaitingStartAck => event is Response && {
            &&& post.state is AwaitingFirstProbe
            &&& act is Probe
        },
        State::AwaitingFirstProbe => event matches Event::Output(obs) && match obs {
            Observation::Present { modified } => {
                &&& post.state matches State::SettlingBeforeProbe { watch }
                    && watch matches WatchPhase::AwaitOverwrite { baseline } && baseline
                    == modified
                &&& act is Sleep
            },
            Observation::Absent => {
                &&& post.state matches State::SettlingBeforeProbe { watch }
                    && watch is AwaitExistence
                &&& act is Sleep
            },
        },
        State::SettlingBeforeProbe { watch } => event is Slept && {
            &&& post.state matches State::AwaitingProbe { watch: w2 } && w2 == watch
            &&& act is Probe
        },
        State::AwaitingProbe { watch } => event matches Event::Output(obs) && match watch {
            WatchPhase::AwaitOverwrite { baseline } => match obs {
                Observation::Present { modified } => if modified != baseline {
                    &&& post.state is Finished
                    &&& act is Finish
                } else {
                    &&& post.state matches State::SettlingBeforeProbe { watch: w2 }
                        && w2 matches WatchPhase::AwaitOverwrite { baseline: b2 } && b2 == baseline
                    &&& act is Sleep
                },
                Observation::Absent => {
                    &&& post.state matches State::Failed { error } && error is OutputVanished
                    &&& act matches Action::Fail(e) && e is OutputVanished
                },
            },
            WatchPhase::AwaitExistence => match obs {
                Observation::Present { .. } => {
                    &&& post.state is Finished
                    &&& act is Finish
                },
                Observation::Absent => {
                    &&& post.state matches State::SettlingBeforeProbe { watch: w2 }
                        && w2 is AwaitExistence
                    &&& act is Sleep
                },
            },
        },
        State::Finished => false,
        State::Failed { .. } => false,
    }
}

impl Workflow {
    /// Begins a run for the document at `raw_path`.
    ///
    /// The path is normalized; if no output path can be derived from it —
    /// the run could never detect completion — no workflow is begun.
    /// Otherwise the first action requests the listing used to find stale
    /// entries.
    pub fn start(raw_path: &str) -> (r: Option<(Workflow, Action)>)
        ensures
            r is Some <==> derivable(normalized(raw_path@)),
            r matches Some((w, act)) ==> {
                &&& w.wf()
                &&& !w.is_terminal_spec()
                &&& w.state is AwaitingStaleListing
                &&& w.doc_path@ == normalized(raw_path@)
                &&& act matches Action::Send(c) && cmd_view(c) == tabs_command_spec()
            },
    {
        let norm = normalize_path(raw_path);
        if path_derivable(norm.as_str()) {
            Some(
                (
                    Workflow { doc_path: norm, state: State::AwaitingStaleListing },
                    Action::Send(tabs_command()),
                ),
            )
        } else {
            None
        }
    }

    /// One step of the machine: consumes the outcome of the previous
    /// action and decides the next state and action.
    pub fn step(self, event: Event) -> (r: (Workflow, Action))
        requires
            self.wf(),
            !self.is_terminal_spec(),
            accepts_spec(self.state, event),
        ensures
            r.0.wf(),
            next_ok(self, event, r.0, r.1),
    {
        let Workflow { doc_path, state } = self;
        match (state, event) {
            (State::AwaitingStaleListing, Event::Response(text)) => {
                let ghost t = text@;
                let stale = extract_stale_indices(text.as_str());
                let order = closing_order(stale);
                proof {
                    lemma_closing_seq(stale_indices(t));
                }
                if order.len() == 0 {
                    (
                        Workflow { doc_path, state: State::AwaitingOpenAck },
                        Action::Send(open_command()),
                    )
                } else {
                    let first = order[0];
                    let ghost o0 = order@;
                    let mut rest = order;
                    rest.remove(0);
                    proof {
                        assert(rest@ =~= o0.drop_first());
                        lemma_descending_drop_first(o0);
                    }
                    (
                        Workflow { doc_path, state: State::AwaitingCloseAck { remaining: rest } },
                        Action::Send(close_command(first)),
                    )
                }
            },
            (State::AwaitingCloseAck { remaining }, Event::Response(_)) => {
                (Workflow { doc_path, state: State::SettlingAfterClose { remaining } }, Action::Sleep)
            },
            (State::SettlingAfterClose { remaining }, Event::Slept) => {
                if remaining.len() == 0 {
                    (
                        Workflow { doc_path, state: State::AwaitingOpenAck },
                        Action::Send(open_command()),
                    )
                } else {
                    let first = remaining[0];
                    let ghost r0 = remaining@;
                    let mut rest = remaining;
                    rest.remove(0);
                    proof {
                        assert(rest@ =~= r0.drop_first());
                        lemma_descending_drop_first(r0);
                    }
                    (
                        Workflow { doc_path, state: State::AwaitingCloseAck { remaining: rest } },
                        Action::Send(close_command(first)),
                    )
                }
            },
            (State::AwaitingOpenAck, Event::Response(_)) => {
                (Workflow { doc_path, state: State::SettlingAfterOpen }, Action::Sleep)
            },
            (State::SettlingAfterOpen, Event::Slept) => {
                (
                    Workflow { doc_path, state: State::AwaitingVerifyListing { attempt: 1 } },
                    Action::Send(tabs_command()),
                )
            },
            (State::AwaitingVerifyListing { attempt }, Event::Response(text)) => {
                if contains_fresh_entry(text.as_str()) {
                    let c = add_docs_command(doc_path.as_str());
                    (Workflow { doc_path, state: State::AwaitingAddAck }, Action::Send(c))
                } else if attempt < MAX_ATTEMPTS {
                    (
                        Workflow { doc_path, state: State::SettlingBeforeRetry { attempt } },
                        Action::Sleep,
                    )
                } else {
                    (
                        Workflow {
                            doc_path,
                            state: State::Failed { error: WorkflowError::VerificationTimeout },
                        },
                        Action::Fail(WorkflowError::VerificationTimeout),
                    )
                }
            },
            (State::SettlingBeforeRetry { attempt }, Event::Slept) => {
                (
                    Workflow {
                        doc_path,
                        state: State::AwaitingVerifyListing { attempt: attempt + 1 },
                    },
                    Action::Send(tabs_command()),
                )
            },
            (State::AwaitingAddAck, Event::Response(_)) => {
                (Workflow { doc_path, state: State::SettlingAfterAdd }, Action::Sleep)
            },
            (State::SettlingAfterAdd, Event::Slept) => {
                (
                    Workflow { doc_path, state: State::AwaitingStartAck },
                    Action::Send(doc_start_command()),
                )
            },
            (State::AwaitingStartAck, Event::Response(_)) => {
                (Workflow { doc_path, state: State::AwaitingFirstProbe }, Action::Probe)
            },
            (State::AwaitingFirstProbe, Event::Output(obs)) => {
                match obs {
                    Observation::Present { modified } => {
                        (
                            Workflow {
                                doc_path,
                                state: State::SettlingBeforeProbe {
                                    watch: WatchPhase::AwaitOverwrite { baseline: modified },
                                },
                            },
                            Action::Sleep,
                        )
                    },
                    Observation::Absent => {
                        (
                            Workflow {
                                doc_path,
                                state: State::SettlingBeforeProbe {
                                    watch: WatchPhase::AwaitExistence,
                                },
                            },
                            Action::Sleep,
                        )
                    },
                }
            },
            (State::SettlingBeforeProbe { watch }, Event::Slept) => {
                (Workflow { doc_path, state: State::AwaitingProbe { watch } }, Action::Probe)
            },
            (State::AwaitingProbe { watch }, Event::Output(obs)) => {
                match (watch, obs) {
                    (WatchPhase::AwaitOverwrite { baseline }, Observation::Present { modified }) => {
                        if modified != baseline {
                            (Workflow { doc_path, state: State::Finished }, Action::Finish)
                        } else {
                            (
                                Workflow {
                                    doc_path,
                                    state: State::SettlingBeforeProbe {
                                        watch: WatchPhase::AwaitOverwrite { baseline },
                                    },
                                },
                                Action::Sleep,
                            )
                        }
                    },
                    (WatchPhase::AwaitOverwrite { .. }, Observation::Absent) => {
                        (
                            Workflow {
                                doc_path,
                                state: State::Failed { error: WorkflowError::OutputVanished },
                            },
                            Action::Fail(WorkflowError::OutputVanished),
                        )
                    },
                    (WatchPhase::AwaitExistence, Observation::Present { .. }) => {
                        (Workflow { doc_path, state: State::Finished }, Action::Finish)
                    },
                    (WatchPhase::AwaitExistence, Observation::Absent) => {
                        (
                            Workflow {
                                doc_path,
                                state: State::SettlingBeforeProbe {
                                    watch: WatchPhase::AwaitExistence,
                                },
                            },
                            Action::Sleep,
                        )
                    },
                }
            },
            _ => unreached(),
        }
    }
}

/// The closing order the machine derives from a listing is strictly
/// descending — whatever order the stale entries appeared in — and covers
/// exactly the stale indices of that listing.
pub proof fn lemma_stale_close_order(text: Seq<char>)
    ensures
        strictly_descending(closing_seq(stale_indices(text))),
        closing_seq(stale_indices(text)).to_set() == stale_indices(text).to_set(),
{
    lemma_closing_seq(stale_indices(text));
}

/// The verification loop never runs past its budget: a well-formed workflow
/// awaiting a verification listing is on attempt 1 to `MAX_ATTEMPTS`, and
/// `next_ok` fails a run whose last allowed attempt finds no fresh entry.
pub proof fn lemma_verify_attempts_bounded(w: Workflow)
    requires
        w.wf(),
    ensures
        w.state matches State::AwaitingVerifyListing { attempt } ==> 1 <= attempt <= MAX_ATTEMPTS,
{
}

} // verus!
