//! The broadcast hub's decisions. The hub reads one event at a time from the
//! relay and publishes it to the fan-out; the program performs each action and
//! comes back with what happened.

use vstd::prelude::*;
use crate::event::Event;

verus! {

/// How many events the fan-out keeps for subscribers that lag.
pub const HISTORY_CAPACITY: usize = 128;

/// What happened to the hub's last action.
#[derive(Debug, PartialEq, Eq)]
pub enum HubInput {
    /// The relay handed over an event.
    Relayed(Event),
    /// The relay is closed: the capture loop has ended.
    RelayClosed,
    /// The fan-out took the event.
    Published,
    /// The fan-out has no subscriber and gave the event back.
    NoSubscribers(Event),
    /// The fan-out's buffer is full and it gave the event back.
    BufferFull(Event),
}

/// What the hub does next.
#[derive(Debug, PartialEq, Eq)]
pub enum HubAction {
    /// Publish this event to the fan-out.
    Publish(Event),
    /// Read the next event from the relay.
    Receive,
    /// End the hub's task.
    Stop,
}

/// The hub's rule: an event from the relay is published; an event that found
/// no subscriber is dropped; an event that a full buffer gave back is
/// published again, the very value that came back; a closed relay ends the
/// hub.
pub open spec fn hub_next(input: HubInput) -> HubAction {
    match input {
        HubInput::Relayed(event) => HubAction::Publish(event),
        HubInput::RelayClosed => HubAction::Stop,
        HubInput::Published => HubAction::Receive,
        HubInput::NoSubscribers(_) => HubAction::Receive,
        HubInput::BufferFull(event) => HubAction::Publish(event),
    }
}

/// Decides the hub's next action.
pub fn hub_step(input: HubInput) -> (action: HubAction)
    ensures
        action == hub_next(input),
        action is Stop <==> input is RelayClosed,
{
    match input {
        HubInput::Relayed(event) => HubAction::Publish(event),
        HubInput::RelayClosed => HubAction::Stop,
        HubInput::Published => HubAction::Receive,
        HubInput::NoSubscribers(_) => HubAction::Receive,
        HubInput::BufferFull(event) => HubAction::Publish(event),
    }
}

/// The actions of the hub for one event that the fan-out's full buffer gives
/// back `full` times: every one of them publishes that same event, so the
/// event is not lost at the hub.
pub open spec fn retries(event: Event, full: nat) -> Seq<HubAction>
    decreases full,
{
    if full == 0 {
        seq![hub_next(HubInput::Relayed(event))]
    } else {
        retries(event, (full - 1) as nat).push(hub_next(HubInput::BufferFull(event)))
    }
}

/// However often the buffer is full, the hub keeps publishing the event that
/// the relay handed over, and makes one attempt more than there were
/// refusals.
pub proof fn lemma_hub_keeps_event(event: Event, full: nat)
    ensures
        retries(event, full).len() == full + 1,
        forall|i: int|
            0 <= i < retries(event, full).len() ==> #[trigger] retries(event, full)[i]
                == HubAction::Publish(event),
    decreases full,
{
    if full > 0 {
        lemma_hub_keeps_event(event, (full - 1) as nat);
    }
}

} // verus!
