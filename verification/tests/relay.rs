use keycast::capture::{KeyOccurrence, KEY_PRESS, LOOKUP_BOTH};
use keycast::grab::{GrabState, InputCommand};
use keycast::hub::{hub_step, HubAction, HubInput};
use keycast::session::{session_step, SessionAction, SessionInput};
use keycast::{Event, Request};

fn key(label: &str, code: u32) -> Event {
    Event::Key { key: label.to_string(), modifiers: vec![], code }
}

#[test]
fn hub_publishes_what_the_relay_hands_over() {
    assert_eq!(hub_step(HubInput::Relayed(key("a", 38))), HubAction::Publish(key("a", 38)));
}

#[test]
fn hub_retries_the_event_a_full_buffer_gave_back() {
    let event = Event::Text { value: "x".to_string() };
    assert_eq!(hub_step(HubInput::BufferFull(event.clone())), HubAction::Publish(event));
}

#[test]
fn hub_drops_an_event_without_subscribers() {
    assert_eq!(hub_step(HubInput::NoSubscribers(key("a", 38))), HubAction::Receive);
}

#[test]
fn hub_reads_on_after_publishing() {
    assert_eq!(hub_step(HubInput::Published), HubAction::Receive);
}

#[test]
fn hub_stops_when_the_relay_closes() {
    assert_eq!(hub_step(HubInput::RelayClosed), HubAction::Stop);
}

#[test]
fn hub_loses_no_event_under_pressure() {
    let mut published = Vec::new();
    let mut refusals = 3;
    let mut action = hub_step(HubInput::Relayed(key("k", 1)));
    loop {
        match action {
            HubAction::Publish(event) => {
                if refusals > 0 {
                    refusals -= 1;
                    action = hub_step(HubInput::BufferFull(event));
                } else {
                    published.push(event);
                    action = hub_step(HubInput::Published);
                }
            }
            HubAction::Receive => break,
            HubAction::Stop => panic!("the hub stopped"),
        }
    }
    assert_eq!(published, vec![key("k", 1)]);
}

#[test]
fn session_forwards_valid_requests() {
    assert_eq!(
        session_step(SessionInput::ClientText(r#"{"type":"Grab","enabled":true}"#.to_string())),
        SessionAction::Forward(Request::Grab { enabled: true })
    );
}

#[test]
fn session_discards_malformed_text() {
    assert_eq!(
        session_step(SessionInput::ClientText("not json".to_string())),
        SessionAction::Continue
    );
    assert_eq!(
        session_step(SessionInput::ClientText(r#"{"type":"Nope"}"#.to_string())),
        SessionAction::Continue
    );
}

#[test]
fn session_ignores_other_messages() {
    assert_eq!(session_step(SessionInput::ClientOther), SessionAction::Continue);
}

#[test]
fn session_sends_events_as_frames() {
    assert_eq!(
        session_step(SessionInput::Delivery(Event::Text { value: "A".to_string() })),
        SessionAction::Send(r#"{"type":"Text","value":"A"}"#.to_string())
    );
}

#[test]
fn session_outlives_transient_conditions() {
    assert_eq!(session_step(SessionInput::Written), SessionAction::Continue);
    assert_eq!(session_step(SessionInput::WouldBlock), SessionAction::Continue);
    assert_eq!(session_step(SessionInput::Lagged), SessionAction::Continue);
}

#[test]
fn session_ends_quietly_on_closure() {
    assert_eq!(session_step(SessionInput::PeerClosed), SessionAction::End { report: false });
    assert_eq!(session_step(SessionInput::HubGone), SessionAction::End { report: false });
    assert_eq!(session_step(SessionInput::ClientClosed), SessionAction::End { report: false });
}

#[test]
fn session_reports_a_failed_write() {
    assert_eq!(session_step(SessionInput::WriteFailed), SessionAction::End { report: true });
}

#[test]
fn malformed_message_does_not_end_the_session() {
    let inputs = vec![
        SessionInput::ClientText("{broken".to_string()),
        SessionInput::ClientText(r#"{"type":"Grab","enabled":false}"#.to_string()),
        SessionInput::ClientText("".to_string()),
        SessionInput::Delivery(key("a", 38)),
    ];
    let actions: Vec<SessionAction> = inputs.into_iter().map(session_step).collect();
    assert_eq!(
        actions,
        vec![
            SessionAction::Continue,
            SessionAction::Forward(Request::Grab { enabled: false }),
            SessionAction::Continue,
            SessionAction::Send(r#"{"type":"Key","key":"a","modifiers":[],"code":38}"#.to_string()),
        ]
    );
}

#[test]
fn grab_then_shifted_press_reaches_the_other_client() {
    // Client A asks for the grab.
    let forwarded =
        match session_step(SessionInput::ClientText(r#"{"type":"Grab","enabled":true}"#.to_string())) {
            SessionAction::Forward(request) => request,
            other => panic!("unexpected action {:?}", other),
        };
    let mut grab = GrabState::new();
    assert_eq!(grab.apply(&forwarded), Some(InputCommand::Acquire));

    // The press of key code 38 with Shift held.
    let occurrence = KeyOccurrence {
        kind: KEY_PRESS,
        filtered: false,
        code: 38,
        state: 0x01,
        label: Some(b"a".to_vec()),
        lookup: LOOKUP_BOTH,
        decoded: b"A".to_vec(),
    };

    // Through the hub to client B.
    let mut frames = Vec::new();
    for event in occurrence.translate() {
        let published = match hub_step(HubInput::Relayed(event)) {
            HubAction::Publish(event) => event,
            other => panic!("unexpected action {:?}", other),
        };
        match session_step(SessionInput::Delivery(published)) {
            SessionAction::Send(frame) => frames.push(frame),
            other => panic!("unexpected action {:?}", other),
        }
    }
    assert_eq!(
        frames,
        vec![
            r#"{"type":"Key","key":"a","modifiers":["Shift"],"code":38}"#.to_string(),
            r#"{"type":"Text","value":"A"}"#.to_string(),
        ]
    );
}

#[test]
fn acceptor_listens_on_the_default_address_when_none_is_set() {
    assert_eq!(keycast::acceptor::bind_address(None), "127.0.0.1:2100");
}

#[test]
fn acceptor_listens_on_the_configured_address() {
    assert_eq!(
        keycast::acceptor::bind_address(Some("0.0.0.0:9000".to_string())),
        "0.0.0.0:9000"
    );
    assert_eq!(keycast::acceptor::bind_address(Some(String::new())), "");
}

#[test]
fn fan_out_keeps_a_bounded_history() {
    assert_eq!(keycast::hub::HISTORY_CAPACITY, 128);
}
