//! The update loop's decision logic, as a state machine.
//!
//! The surrounding process drains the platform's update feed and performs the
//! two outward actions (the completion request and the reply send); this
//! module decides, from the current state and the event that just happened,
//! what the next state is and which action, if any, to perform. One update is
//! fully handled — completion requested, reply sent or its send concluded —
//! before the machine accepts the next one.

use vstd::prelude::*;

use crate::completion::reply_for;
use crate::completion::reply_text;
use crate::completion::CompletionFailure;

verus! {

/// One inbound update, reduced to what the loop reads of it: either a plain
/// text chat message, or anything else, which is ignored.
#[derive(Clone, Debug, PartialEq)]
pub enum UpdateEvent {
    /// A text chat message: the sender's display name and the message text.
    TextMessage { sender: String, text: String },
    /// An update of any other kind.
    Other,
}

/// An event handed to the state machine: an update arrived from the feed, the
/// completion call concluded, or the reply send concluded.
#[derive(Debug, PartialEq)]
pub enum LoopEvent {
    /// The feed delivered an update.
    UpdateArrived(UpdateEvent),
    /// The completion call concluded with this outcome.
    CompletionFinished(Result<String, CompletionFailure>),
    /// The reply send concluded; `true` on success.
    SendFinished(bool),
}

/// An outward action the machine asks for.
#[derive(Clone, Debug, PartialEq)]
pub enum Command {
    /// Call the completion service with this prompt.
    RequestCompletion { prompt: String },
    /// Send this reply to the chat the inbound message came from.
    SendReply { reply: String },
}

/// Where the machine stands with the update in hand.
#[derive(Clone, Copy, PartialEq, Eq, Structural, Debug)]
pub enum LoopState {
    /// Waiting for the next update.
    Idle,
    /// A text message is in hand; the completion call is under way.
    AwaitingCompletion,
    /// The reply is computed; the send is under way.
    AwaitingSend,
}

/// The mathematical form of an event: message and completion text as
/// character sequences.
pub ghost enum EventModel {
    /// An update arrived; `Some(text)` for a text message, `None` otherwise.
    UpdateArrived { text: Option<Seq<char>> },
    /// The completion call concluded.
    CompletionFinished { outcome: Result<Seq<char>, CompletionFailure> },
    /// The reply send concluded.
    SendFinished { ok: bool },
}

/// The mathematical form of a command.
pub ghost enum CommandModel {
    /// Call the completion service with this prompt.
    RequestCompletion { prompt: Seq<char> },
    /// Send this reply.
    SendReply { reply: Seq<char> },
}

impl LoopEvent {
    /// What this event is, mathematically.
    pub open spec fn model(self) -> EventModel {
        match self {
            LoopEvent::UpdateArrived(UpdateEvent::TextMessage { sender, text }) => {
                EventModel::UpdateArrived { text: Some(text@) }
            },
            LoopEvent::UpdateArrived(UpdateEvent::Other) => {
                EventModel::UpdateArrived { text: None }
            },
            LoopEvent::CompletionFinished(outcome) => {
                EventModel::CompletionFinished {
                    outcome: match outcome {
                        Ok(text) => Ok(text@),
                        Err(e) => Err(e),
                    },
                }
            },
            LoopEvent::SendFinished(ok) => EventModel::SendFinished { ok },
        }
    }
}

impl Command {
    /// What this command is, mathematically.
    pub open spec fn model(self) -> CommandModel {
        match self {
            Command::RequestCompletion { prompt } => {
                CommandModel::RequestCompletion { prompt: prompt@ }
            },
            Command::SendReply { reply } => CommandModel::SendReply { reply: reply@ },
        }
    }
}

/// One step of the update loop: from the current state and an event to the
/// next state and the action to perform.
///
/// A text message arriving while idle starts a completion request with the
/// message text as prompt; any other update is ignored. A concluded
/// completion yields the reply send, with the completion text sanitized or,
/// on failure, the fixed fallback reply. A concluded send — successful or
/// not — returns the machine to idle. An event that does not belong to the
/// current state changes nothing.
pub open spec fn step(state: LoopState, event: EventModel) -> (LoopState, Option<CommandModel>) {
    match (state, event) {
        (LoopState::Idle, EventModel::UpdateArrived { text: Some(t) }) => (
            LoopState::AwaitingCompletion,
            Some(CommandModel::RequestCompletion { prompt: t }),
        ),
        (LoopState::AwaitingCompletion, EventModel::CompletionFinished { outcome }) => (
            LoopState::AwaitingSend,
            Some(CommandModel::SendReply { reply: reply_text(outcome) }),
        ),
        (LoopState::AwaitingSend, EventModel::SendFinished { .. }) => (LoopState::Idle, None),
        (s, _) => (s, None),
    }
}

/// Performs one step of the update loop.
pub fn transition(state: LoopState, event: LoopEvent) -> (r: (LoopState, Option<Command>))
    ensures
        r.0 == step(state, event.model()).0,
        r.1 is Some <==> step(state, event.model()).1 is Some,
        r.1 matches Some(cmd) ==> Some(cmd.model()) == step(state, event.model()).1,
{
    match (state, event) {
        (LoopState::Idle, LoopEvent::UpdateArrived(update)) => match update {
            UpdateEvent::TextMessage { sender: _, text } => (
                LoopState::AwaitingCompletion,
                Some(Command::RequestCompletion { prompt: text }),
            ),
            UpdateEvent::Other => (LoopState::Idle, None),
        },
        (LoopState::AwaitingCompletion, LoopEvent::CompletionFinished(outcome)) => {
            let reply = reply_for(&outcome);
            (LoopState::AwaitingSend, Some(Command::SendReply { reply }))
        },
        (LoopState::AwaitingSend, LoopEvent::SendFinished(_)) => (LoopState::Idle, None),
        (s, _) => (s, None),
    }
}

/// The state after feeding `events` to the machine one at a time, starting
/// from `state`.
pub open spec fn state_after(state: LoopState, events: Seq<EventModel>) -> LoopState
    decreases events.len(),
{
    if events.len() == 0 {
        state
    } else {
        state_after(step(state, events[0]).0, events.drop_first())
    }
}

/// An update that is not a text message produces no action at all, and
/// leaves the machine where it stood.
pub proof fn lemma_non_text_update_ignored(state: LoopState)
    ensures
        step(state, EventModel::UpdateArrived { text: None }) == (state, None::<CommandModel>),
{
}

/// A completion request is issued only when a text message arrives while the
/// machine is idle, and its prompt is that message's text.
pub proof fn lemma_completion_requested_only_when_idle(state: LoopState, event: EventModel)
    ensures
        step(state, event).1 matches Some(CommandModel::RequestCompletion { prompt }) ==> {
            &&& state is Idle
            &&& event matches EventModel::UpdateArrived { text: Some(t) } && prompt == t
        },
{
}

/// Feeding `a + b` to the machine is feeding `a`, then `b`.
pub proof fn lemma_state_after_concat(state: LoopState, a: Seq<EventModel>, b: Seq<EventModel>)
    ensures
        state_after(state, a + b) == state_after(state_after(state, a), b),
    decreases a.len(),
{
    if a.len() == 0 {
        assert(a + b =~= b);
    } else {
        assert((a + b)[0] == a[0]);
        assert((a + b).drop_first() =~= a.drop_first() + b);
        lemma_state_after_concat(step(state, a[0]).0, a.drop_first(), b);
    }
}

/// Feeding one event is one step.
pub proof fn lemma_state_after_one(state: LoopState, event: EventModel)
    ensures
        state_after(state, seq![event]) == step(state, event).0,
{
    assert(seq![event].drop_first() =~= Seq::<EventModel>::empty());
    assert(state_after(step(state, event).0, Seq::<EventModel>::empty()) == step(state, event).0);
}

/// While an update is in hand, the machine returns to idle — the only state
/// in which a further completion request can be issued — only after the
/// event that concludes the reply send.
pub proof fn lemma_busy_until_send_concluded(state: LoopState, events: Seq<EventModel>)
    requires
        state is AwaitingCompletion || state is AwaitingSend,
        state_after(state, events) is Idle,
    ensures
        exists|k: int| 0 <= k < events.len() && events[k] is SendFinished,
    decreases events.len(),
{
    if events.len() == 0 {
    } else {
        let next = step(state, events[0]).0;
        if events[0] is SendFinished {
            assert(0 <= 0 < events.len() && events[0] is SendFinished);
        } else {
            assert(next is AwaitingCompletion || next is AwaitingSend);
            lemma_busy_until_send_concluded(next, events.drop_first());
            let k = choose|k: int|
                0 <= k < events.drop_first().len() && events.drop_first()[k] is SendFinished;
            assert(events[k + 1] is SendFinished);
        }
    }
}

/// Updates are handled strictly one after the other: when a text message is
/// accepted at position `i` of the event trace (the machine is idle there, so
/// it issues that message's completion request), and a later one is accepted
/// at position `j`, then some event strictly between the two concluded the
/// first one's reply send.
pub proof fn lemma_sequential_processing(
    state: LoopState,
    events: Seq<EventModel>,
    i: int,
    j: int,
)
    requires
        0 <= i < j < events.len(),
        state_after(state, events.take(i)) is Idle,
        events[i] matches EventModel::UpdateArrived { text: Some(_) },
        state_after(state, events.take(j)) is Idle,
    ensures
        exists|k: int| i < k < j && events[k] is SendFinished,
{
    let after_i = state_after(state, events.take(i + 1));
    assert(events.take(i + 1) =~= events.take(i) + seq![events[i]]);
    lemma_state_after_concat(state, events.take(i), seq![events[i]]);
    lemma_state_after_one(state_after(state, events.take(i)), events[i]);
    assert(after_i is AwaitingCompletion);

    let mid = events.subrange(i + 1, j);
    assert(events.take(j) =~= events.take(i + 1) + mid);
    lemma_state_after_concat(state, events.take(i + 1), mid);
    lemma_busy_until_send_concluded(after_i, mid);
    let k = choose|k: int| 0 <= k < mid.len() && mid[k] is SendFinished;
    assert(events[i + 1 + k] is SendFinished);
    assert(i < i + 1 + k < j);
}

} // verus!
