//! The correction oracle client as a state machine. The caller performs each
//! action against the correction service and feeds back what happened.

use vstd::prelude::*;
use crate::text::{is_blank, text_is_blank};

verus! {

/// Milliseconds to wait before each sample of the output surface.
pub const POLL_INTERVAL_MS: u64 = 500;

/// Samples per round before the batch is submitted again.
pub const MAX_SAMPLES: u32 = 30;

/// Where the correction of one batch stands.
#[derive(Debug, PartialEq, Eq)]
pub enum OracleState {
    /// The output surface is to be read once, as the baseline.
    Baseline { batch: String },
    /// The batch was handed to the input surface; the caller confirms this.
    Submitted { batch: String, prev: String },
    /// The output surface is being sampled; `prev` is the last text seen.
    Polling { batch: String, prev: String, samples: u32 },
    /// The output changed; an external confirmation is awaited.
    AwaitingConfirmation,
    /// The correction of the batch.
    Done { result: String },
}

/// What the caller observed after performing an action.
#[derive(Debug, PartialEq, Eq)]
pub enum OracleEvent {
    /// The output surface was read and held this text.
    Snapshot(String),
    /// The input surface now holds the batch.
    InputReplaced,
    /// The confirmation signal fired; the output surface then held this text.
    Confirmed(String),
}

/// What the caller is to do next.
#[derive(Debug, PartialEq, Eq)]
pub enum OracleAction {
    /// Read the output surface and report it as a snapshot.
    ReadOutput,
    /// Clear the input surface and write this text into it.
    ReplaceInput(String),
    /// Wait `POLL_INTERVAL_MS`, then read the output surface.
    SampleOutput,
    /// Block until the confirmation signal fires, then read the output surface.
    AwaitConfirmation,
    /// The batch is corrected to this text.
    Finish(String),
    /// The event does not fit the state; nothing is to be done.
    Ignore,
}

pub enum OracleStateView {
    Baseline { batch: Seq<char> },
    Submitted { batch: Seq<char>, prev: Seq<char> },
    Polling { batch: Seq<char>, prev: Seq<char>, samples: nat },
    AwaitingConfirmation,
    Done { result: Seq<char> },
}

pub enum OracleEventView {
    Snapshot(Seq<char>),
    InputReplaced,
    Confirmed(Seq<char>),
}

pub enum OracleActionView {
    ReadOutput,
    ReplaceInput(Seq<char>),
    SampleOutput,
    AwaitConfirmation,
    Finish(Seq<char>),
    Ignore,
}

impl View for OracleState {
    type V = OracleStateView;

    open spec fn view(&self) -> OracleStateView {
        match self {
            OracleState::Baseline { batch } => OracleStateView::Baseline { batch: batch@ },
            OracleState::Submitted { batch, prev } => OracleStateView::Submitted {
                batch: batch@,
                prev: prev@,
            },
            OracleState::Polling { batch, prev, samples } => OracleStateView::Polling {
                batch: batch@,
                prev: prev@,
                samples: *samples as nat,
            },
            OracleState::AwaitingConfirmation => OracleStateView::AwaitingConfirmation,
            OracleState::Done { result } => OracleStateView::Done { result: result@ },
        }
    }
}

impl View for OracleEvent {
    type V = OracleEventView;

    open spec fn view(&self) -> OracleEventView {
        match self {
            OracleEvent::Snapshot(t) => OracleEventView::Snapshot(t@),
            OracleEvent::InputReplaced => OracleEventView::InputReplaced,
            OracleEvent::Confirmed(t) => OracleEventView::Confirmed(t@),
        }
    }
}

impl View for OracleAction {
    type V = OracleActionView;

    open spec fn view(&self) -> OracleActionView {
        match self {
            OracleAction::ReadOutput => OracleActionView::ReadOutput,
            OracleAction::ReplaceInput(t) => OracleActionView::ReplaceInput(t@),
            OracleAction::SampleOutput => OracleActionView::SampleOutput,
            OracleAction::AwaitConfirmation => OracleActionView::AwaitConfirmation,
            OracleAction::Finish(t) => OracleActionView::Finish(t@),
            OracleAction::Ignore => OracleActionView::Ignore,
        }
    }
}

/// How the correction of `batch` begins: a blank batch is done at once with
/// an empty result; any other first takes a baseline of the output surface.
pub open spec fn start_view(batch: Seq<char>) -> (OracleStateView, OracleActionView) {
    if is_blank(batch) {
        (OracleStateView::Done { result: Seq::empty() }, OracleActionView::Finish(Seq::empty()))
    } else {
        (OracleStateView::Baseline { batch }, OracleActionView::ReadOutput)
    }
}

/// One transition: the baseline snapshot leads to submitting the batch; the
/// submission to sampling; a sample that differs from the previous text to
/// awaiting confirmation; the last unchanged sample of a round to submitting
/// the batch again; the confirmation to the result. Any other pair of state
/// and event leaves the state as it is.
pub open spec fn next_view(s: OracleStateView, e: OracleEventView) -> (
    OracleStateView,
    OracleActionView,
) {
    match s {
        OracleStateView::Baseline { batch } => match e {
            OracleEventView::Snapshot(t) => (
                OracleStateView::Submitted { batch, prev: t },
                OracleActionView::ReplaceInput(batch),
            ),
            _ => (s, OracleActionView::Ignore),
        },
        OracleStateView::Submitted { batch, prev } => match e {
            OracleEventView::InputReplaced => (
                OracleStateView::Polling { batch, prev, samples: 0 },
                OracleActionView::SampleOutput,
            ),
            _ => (s, OracleActionView::Ignore),
        },
        OracleStateView::Polling { batch, prev, samples } => match e {
            OracleEventView::Snapshot(t) => if t != prev {
                (OracleStateView::AwaitingConfirmation, OracleActionView::AwaitConfirmation)
            } else if samples + 1 >= MAX_SAMPLES {
                (OracleStateView::Submitted { batch, prev: t }, OracleActionView::ReplaceInput(batch))
            } else {
                (
                    OracleStateView::Polling { batch, prev: t, samples: samples + 1 },
                    OracleActionView::SampleOutput,
                )
            },
            _ => (s, OracleActionView::Ignore),
        },
        OracleStateView::AwaitingConfirmation => match e {
            OracleEventView::Confirmed(t) => (
                OracleStateView::Done { result: t },
                OracleActionView::Finish(t),
            ),
            _ => (s, OracleActionView::Ignore),
        },
        OracleStateView::Done { .. } => (s, OracleActionView::Ignore),
    }
}

/// A blank batch never reaches the service: its correction starts finished
/// with an empty result, and no later event leads to any action.
pub proof fn lemma_blank_batch_untouched(batch: Seq<char>, e: OracleEventView)
    requires
        is_blank(batch),
    ensures
        start_view(batch).0 == (OracleStateView::Done { result: Seq::empty() }),
        start_view(batch).1 == OracleActionView::Finish(Seq::empty()),
        next_view(start_view(batch).0, e) == (start_view(batch).0, OracleActionView::Ignore),
{
}

/// Begins the correction of one batch. A blank batch never reaches the
/// service: it is done at once with an empty result.
pub fn start_batch(batch: String) -> (r: (OracleState, OracleAction))
    ensures
        (r.0@, r.1@) == start_view(batch@),
{
    if text_is_blank(batch.as_str()) {
        (OracleState::Done { result: String::new() }, OracleAction::Finish(String::new()))
    } else {
        (OracleState::Baseline { batch }, OracleAction::ReadOutput)
    }
}

/// Advances the correction by one observed event.
pub fn step(state: OracleState, event: OracleEvent) -> (r: (OracleState, OracleAction))
    ensures
        (r.0@, r.1@) == next_view(state@, event@),
{
    match state {
        OracleState::Baseline { batch } => match event {
            OracleEvent::Snapshot(t) => {
                let again = batch.clone();
                (OracleState::Submitted { batch, prev: t }, OracleAction::ReplaceInput(again))
            },
            _ => (OracleState::Baseline { batch }, OracleAction::Ignore),
        },
        OracleState::Submitted { batch, prev } => match event {
            OracleEvent::InputReplaced => (
                OracleState::Polling { batch, prev, samples: 0 },
                OracleAction::SampleOutput,
            ),
            _ => (OracleState::Submitted { batch, prev }, OracleAction::Ignore),
        },
        OracleState::Polling { batch, prev, samples } => match event {
            OracleEvent::Snapshot(t) => {
                if t != prev {
                    (OracleState::AwaitingConfirmation, OracleAction::AwaitConfirmation)
                } else if samples >= MAX_SAMPLES - 1 {
                    let again = batch.clone();
                    (OracleState::Submitted { batch, prev: t }, OracleAction::ReplaceInput(again))
                } else {
                    (
                        OracleState::Polling { batch, prev: t, samples: samples + 1 },
                        OracleAction::SampleOutput,
                    )
                }
            },
            _ => (OracleState::Polling { batch, prev, samples }, OracleAction::Ignore),
        },
        OracleState::AwaitingConfirmation => match event {
            OracleEvent::Confirmed(t) => {
                let result = t.clone();
                (OracleState::Done { result }, OracleAction::Finish(t))
            },
            _ => (OracleState::AwaitingConfirmation, OracleAction::Ignore),
        },
        OracleState::Done { result } => (OracleState::Done { result }, OracleAction::Ignore),
    }
}

} // verus!
