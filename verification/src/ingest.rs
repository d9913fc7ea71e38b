//! The ingestion loop as a state machine.
//!
//! The loop takes one feed event at a time: it looks the author up, accrues
//! and hands the aggregate to the store. A driver performs what the machine
//! asks for and reports what came of it. No failure of the store and no
//! malformed event ends the loop: the event is dropped and the next one is
//! awaited. Only the end of the feed closes the machine.

use vstd::prelude::*;
use crate::accrual::{accrual_fits, accrue, can_accrue, is_accrual, payout_rate, view_of};
use crate::error::ErrorKind;
use crate::feed::{ChatMessage, FeedMessage};
use crate::models::{Group, User};
use crate::settings::Settings;
use crate::time::Timestamp;

verus! {

/// What the loop is doing with the one event in flight.
#[derive(Clone, Debug, PartialEq, Eq)]
pub enum InFlight {
    /// The author of this message is being looked up.
    Lookup(ChatMessage),
    /// The new aggregate is on its way to the store.
    Upsert,
}

/// The state of the ingestion loop.
#[derive(Clone, Debug, PartialEq, Eq)]
pub enum IngestState {
    /// Blocked on the next feed event.
    Waiting,
    /// One event is in flight.
    Processing(InFlight),
    /// The feed has ended.
    Closed,
}

/// What the store and the clock say when an author is looked up.
#[derive(Clone, Debug, PartialEq, Eq)]
pub struct Snapshot {
    /// The aggregate the store holds for the author, if any.
    pub prior: Option<User>,
    /// The groups the author belongs to.
    pub user_groups: Vec<Group>,
    /// The time of the lookup.
    pub now: Timestamp,
    /// The configuration in force.
    pub settings: Settings,
}

/// What the driver reports to the machine.
#[derive(Clone, Debug, PartialEq, Eq)]
pub enum IngestEvent {
    /// The feed delivered a message.
    Delivered(FeedMessage),
    /// The feed has ended or the process is shutting down.
    FeedEnded,
    /// The lookup was answered.
    Found(Snapshot),
    /// The store has taken the aggregate.
    Stored,
    /// The store is unreachable or rejected the operation.
    StoreFailed,
}

/// What the machine asks the driver to do next.
#[derive(Clone, Debug, PartialEq, Eq)]
pub enum IngestAction {
    /// Wait for the next feed event.
    Receive,
    /// Look up the user with this identity key, the user's groups, the
    /// time and the settings.
    Lookup(String),
    /// Create or replace the aggregate of this user.
    Upsert(User),
    /// Log that the event in flight was dropped for this reason, then wait
    /// for the next feed event.
    Skip(ErrorKind),
    /// Nothing: the event reported is not one that the machine awaits in
    /// its state.
    Ignore,
    /// Stop: the loop has ended.
    Stop,
}

/// The message that a complete feed message carries.
pub open spec fn message_of(delivered: FeedMessage) -> ChatMessage {
    ChatMessage {
        channel_id: delivered.channel_id.unwrap(),
        display_name: delivered.display_name.unwrap(),
    }
}

/// Whether the aggregate of the author of `message` can be held after the
/// accrual that `snapshot` calls for.
pub open spec fn snapshot_fits(snapshot: Snapshot) -> bool {
    accrual_fits(
        view_of(snapshot.prior),
        snapshot.now@,
        snapshot.settings.window_nanos(),
        payout_rate(snapshot.settings, snapshot.user_groups@),
    )
}

/// The transition relation: whether the machine, in `state` and told of
/// `event`, goes to `next` and asks for `action`.
///
/// A closed machine stays closed, and the end of the feed closes it from
/// any state. A waiting machine takes a complete message into processing
/// and drops a malformed one. While processing, the answer to the lookup
/// leads to the upsert of the accrued aggregate; an aggregate that 64-bit
/// fields cannot hold is dropped as one that the store rejects. The store's
/// success or failure ends the processing. An event that the state does not
/// await changes nothing.
pub open spec fn steps_to(
    state: IngestState,
    event: IngestEvent,
    next: IngestState,
    action: IngestAction,
) -> bool {
    if state is Closed || event is FeedEnded {
        next is Closed && action is Stop
    } else {
        match (state, event) {
            (IngestState::Waiting, IngestEvent::Delivered(delivered)) => {
                if delivered.complete() {
                    &&& next == IngestState::Processing(InFlight::Lookup(message_of(delivered)))
                    &&& action == IngestAction::Lookup(delivered.channel_id.unwrap())
                } else {
                    &&& next is Waiting
                    &&& action == IngestAction::Skip(ErrorKind::MalformedEvent)
                }
            },
            (
                IngestState::Processing(InFlight::Lookup(message)),
                IngestEvent::Found(snapshot),
            ) => {
                if snapshot_fits(snapshot) {
                    &&& next == IngestState::Processing(InFlight::Upsert)
                    &&& action matches IngestAction::Upsert(user)
                    &&& is_accrual(
                        user,
                        snapshot.prior,
                        message,
                        snapshot.now,
                        snapshot.settings,
                        snapshot.user_groups@,
                    )
                } else {
                    &&& next is Waiting
                    &&& action == IngestAction::Skip(ErrorKind::StoreUnavailable)
                }
            },
            (IngestState::Processing(InFlight::Upsert), IngestEvent::Stored) => {
                &&& next is Waiting
                &&& action is Receive
            },
            (IngestState::Processing(_), IngestEvent::StoreFailed) => {
                &&& next is Waiting
                &&& action == IngestAction::Skip(ErrorKind::StoreUnavailable)
            },
            _ => {
                &&& next == state
                &&& action is Ignore
            },
        }
    }
}

impl IngestState {
    /// The state in which the loop starts.
    pub fn new() -> (state: IngestState)
        ensures
            state is Waiting,
    {
        IngestState::Waiting
    }

    /// Whether the loop has ended.
    pub fn is_closed(&self) -> (closed: bool)
        ensures
            closed == (*self is Closed),
    {
        match self {
            IngestState::Closed => true,
            _ => false,
        }
    }
}

/// One step of the loop: the state after `event` and what the driver is to
/// do next.
pub fn step(state: IngestState, event: IngestEvent) -> (next: (IngestState, IngestAction))
    ensures
        steps_to(state, event, next.0, next.1),
{
    match (state, event) {
        (IngestState::Closed, _) => (IngestState::Closed, IngestAction::Stop),
        (_, IngestEvent::FeedEnded) => (IngestState::Closed, IngestAction::Stop),
        (IngestState::Waiting, IngestEvent::Delivered(delivered)) => {
            match delivered.validate() {
                Ok(message) => {
                    let channel_id = message.channel_id.clone();
                    (
                        IngestState::Processing(InFlight::Lookup(message)),
                        IngestAction::Lookup(channel_id),
                    )
                },
                Err(kind) => (IngestState::Waiting, IngestAction::Skip(kind)),
            }
        },
        (IngestState::Processing(InFlight::Lookup(message)), IngestEvent::Found(snapshot)) => {
            let fits = can_accrue(
                &snapshot.prior,
                &snapshot.now,
                &snapshot.settings,
                &snapshot.user_groups,
            );
            if fits {
                let user = accrue(
                    snapshot.prior,
                    &message,
                    snapshot.now,
                    &snapshot.settings,
                    &snapshot.user_groups,
                );
                (IngestState::Processing(InFlight::Upsert), IngestAction::Upsert(user))
            } else {
                (IngestState::Waiting, IngestAction::Skip(ErrorKind::StoreUnavailable))
            }
        },
        (IngestState::Processing(InFlight::Upsert), IngestEvent::Stored) => {
            (IngestState::Waiting, IngestAction::Receive)
        },
        (IngestState::Processing(_), IngestEvent::StoreFailed) => {
            (IngestState::Waiting, IngestAction::Skip(ErrorKind::StoreUnavailable))
        },
        (state, _) => (state, IngestAction::Ignore),
    }
}

/// Only the end of the feed closes the loop: the machine is closed after a
/// step exactly where it was closed before or was told that the feed ended.
pub proof fn lemma_only_the_feed_closes(
    state: IngestState,
    event: IngestEvent,
    next: IngestState,
    action: IngestAction,
)
    requires
        steps_to(state, event, next, action),
    ensures
        next is Closed <==> state is Closed || event is FeedEnded,
        action is Stop <==> next is Closed,
{
}

/// At most one event is in flight: a message that is delivered while
/// another is processed is not taken up.
pub proof fn lemma_one_event_in_flight(
    state: IngestState,
    delivered: FeedMessage,
    next: IngestState,
    action: IngestAction,
)
    requires
        state is Processing,
        steps_to(state, IngestEvent::Delivered(delivered), next, action),
    ensures
        next == state,
        action is Ignore,
{
}

/// A failure leaves the loop waiting for the next event: after a malformed
/// message or a failure of the store the machine waits, and it asks for the
/// drop to be logged where an event was in flight.
pub proof fn lemma_failures_are_skipped(
    state: IngestState,
    event: IngestEvent,
    next: IngestState,
    action: IngestAction,
)
    requires
        !(state is Closed),
        steps_to(state, event, next, action),
        event is StoreFailed || (state is Waiting && event is Delivered
            && !event->Delivered_0.complete()),
    ensures
        next is Waiting,
        state is Processing ==> action == IngestAction::Skip(ErrorKind::StoreUnavailable),
        event is Delivered ==> action == IngestAction::Skip(ErrorKind::MalformedEvent),
{
}

} // verus!
