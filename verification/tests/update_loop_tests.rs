use chat_relay::completion::CompletionFailure;
use chat_relay::update_loop::{transition, Command, LoopEvent, LoopState, UpdateEvent};

fn text_update(sender: &str, text: &str) -> LoopEvent {
    LoopEvent::UpdateArrived(UpdateEvent::TextMessage {
        sender: sender.to_string(),
        text: text.to_string(),
    })
}

#[test]
fn text_message_while_idle_requests_completion() {
    let (state, cmd) = transition(LoopState::Idle, text_update("ann", "ping"));
    assert_eq!(state, LoopState::AwaitingCompletion);
    assert_eq!(
        cmd,
        Some(Command::RequestCompletion {
            prompt: "ping".to_string()
        })
    );
}

#[test]
fn non_text_update_produces_no_call_at_all() {
    let (state, cmd) = transition(LoopState::Idle, LoopEvent::UpdateArrived(UpdateEvent::Other));
    assert_eq!(state, LoopState::Idle);
    assert_eq!(cmd, None);
}

#[test]
fn successful_completion_is_sanitized_into_the_reply() {
    let outcome = Ok("\"pong\"".to_string());
    let (state, cmd) = transition(
        LoopState::AwaitingCompletion,
        LoopEvent::CompletionFinished(outcome),
    );
    assert_eq!(state, LoopState::AwaitingSend);
    assert_eq!(
        cmd,
        Some(Command::SendReply {
            reply: "pong".to_string()
        })
    );
}

#[test]
fn failed_completion_sends_the_fallback_reply() {
    let (state, cmd) = transition(
        LoopState::AwaitingCompletion,
        LoopEvent::CompletionFinished(Err(CompletionFailure::Transport)),
    );
    assert_eq!(state, LoopState::AwaitingSend);
    assert_eq!(
        cmd,
        Some(Command::SendReply {
            reply: "ChatGPT API currently is not working. Try again later...".to_string()
        })
    );
}

#[test]
fn send_conclusion_returns_to_idle_whether_it_worked_or_not() {
    assert_eq!(
        transition(LoopState::AwaitingSend, LoopEvent::SendFinished(true)),
        (LoopState::Idle, None)
    );
    assert_eq!(
        transition(LoopState::AwaitingSend, LoopEvent::SendFinished(false)),
        (LoopState::Idle, None)
    );
}

#[test]
fn two_updates_are_handled_strictly_in_order() {
    // first update accepted: its completion request goes out
    let (state, cmd) = transition(LoopState::Idle, text_update("ann", "first"));
    assert_eq!(
        cmd,
        Some(Command::RequestCompletion {
            prompt: "first".to_string()
        })
    );

    // a second update while the first is in hand causes no request
    let (state, cmd) = transition(state, text_update("bob", "second"));
    assert_eq!(state, LoopState::AwaitingCompletion);
    assert_eq!(cmd, None);

    // the first update runs to its send conclusion
    let (state, cmd) = transition(
        state,
        LoopEvent::CompletionFinished(Ok("\"ok\"".to_string())),
    );
    assert_eq!(
        cmd,
        Some(Command::SendReply {
            reply: "ok".to_string()
        })
    );
    let (state, cmd) = transition(state, LoopEvent::SendFinished(true));
    assert_eq!(state, LoopState::Idle);
    assert_eq!(cmd, None);

    // only now can the second update's completion request be issued
    let (_, cmd) = transition(state, text_update("bob", "second"));
    assert_eq!(
        cmd,
        Some(Command::RequestCompletion {
            prompt: "second".to_string()
        })
    );
}
