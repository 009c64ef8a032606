//! A client session's decisions. The program reads from the client and from
//! the hub and writes to the client; for each thing that happens it asks here
//! what to do.

use vstd::prelude::*;
use crate::event::{Event, Request};
use crate::wire::{encode_event, event_frame, parse_request, parsed_request};

verus! {

/// Something that happened in a session.
#[derive(Debug, PartialEq, Eq)]
pub enum SessionInput {
    /// The client sent a text message.
    ClientText(String),
    /// The client sent a message that is no text, or reading one failed.
    ClientOther,
    /// The client's stream has ended.
    ClientClosed,
    /// The hub delivered an event.
    Delivery(Event),
    /// The session fell behind and the hub dropped its oldest unread events.
    Lagged,
    /// The hub can no longer be reached.
    HubGone,
    /// The last frame was written.
    Written,
    /// The last write could not proceed for the moment.
    WouldBlock,
    /// The last write found the connection closed.
    PeerClosed,
    /// The last write failed for another reason.
    WriteFailed,
}

/// What the session does next.
#[derive(Debug, PartialEq, Eq)]
pub enum SessionAction {
    /// Forward the request to the capture loop.
    Forward(Request),
    /// Write this frame to the client.
    Send(String),
    /// Nothing to do: go on in both directions.
    Continue,
    /// End the session, both directions together; `report` says whether the
    /// operator is told of a failure.
    End { report: bool },
}

/// The mathematical content of a [`SessionAction`].
pub enum ActionView {
    Forward(Request),
    Send(Seq<char>),
    Continue,
    End { report: bool },
}

impl View for SessionAction {
    type V = ActionView;

    open spec fn view(&self) -> ActionView {
        match self {
            SessionAction::Forward(request) => ActionView::Forward(*request),
            SessionAction::Send(frame) => ActionView::Send(frame@),
            SessionAction::Continue => ActionView::Continue,
            SessionAction::End { report } => ActionView::End { report: *report },
        }
    }
}

/// The session's rule. Inbound: a text that parses as a request is
/// forwarded, any other message is discarded. Outbound: an event is sent as
/// its frame; a write that would block is no failure; a closed connection, a
/// failed write, the end of the client's stream and the loss of the hub end
/// the session, and only a failed write is reported.
pub open spec fn session_next(input: SessionInput) -> ActionView {
    match input {
        SessionInput::ClientText(text) => match parsed_request(text@) {
            Some(request) => ActionView::Forward(request),
            None => ActionView::Continue,
        },
        SessionInput::ClientOther => ActionView::Continue,
        SessionInput::ClientClosed => ActionView::End { report: false },
        SessionInput::Delivery(event) => ActionView::Send(event_frame(event@)),
        SessionInput::Lagged => ActionView::Continue,
        SessionInput::HubGone => ActionView::End { report: false },
        SessionInput::Written => ActionView::Continue,
        SessionInput::WouldBlock => ActionView::Continue,
        SessionInput::PeerClosed => ActionView::End { report: false },
        SessionInput::WriteFailed => ActionView::End { report: true },
    }
}

/// Whether an input ends the session.
pub open spec fn ends_session(input: SessionInput) -> bool {
    input is ClientClosed || input is HubGone || input is PeerClosed || input is WriteFailed
}

/// Decides the session's next action.
pub fn session_step(input: SessionInput) -> (action: SessionAction)
    ensures
        action@ == session_next(input),
        action is End <==> ends_session(input),
{
    match input {
        SessionInput::ClientText(text) => match parse_request(text.as_str()) {
            Some(request) => SessionAction::Forward(request),
            None => SessionAction::Continue,
        },
        SessionInput::ClientOther => SessionAction::Continue,
        SessionInput::ClientClosed => SessionAction::End { report: false },
        SessionInput::Delivery(event) => SessionAction::Send(encode_event(&event)),
        SessionInput::Lagged => SessionAction::Continue,
        SessionInput::HubGone => SessionAction::End { report: false },
        SessionInput::Written => SessionAction::Continue,
        SessionInput::WouldBlock => SessionAction::Continue,
        SessionInput::PeerClosed => SessionAction::End { report: false },
        SessionInput::WriteFailed => SessionAction::End { report: true },
    }
}

/// The actions of a session over a run of inputs: one for each input, up to
/// and including the first that ends the session.
pub open spec fn session_trace(inputs: Seq<SessionInput>) -> Seq<ActionView>
    decreases inputs.len(),
{
    if inputs.len() == 0 {
        Seq::empty()
    } else if ends_session(inputs[0]) {
        seq![session_next(inputs[0])]
    } else {
        seq![session_next(inputs[0])] + session_trace(inputs.drop_first())
    }
}

/// A client's text never ends its session, whether it parses or not, and a
/// text that does not parse causes nothing.
pub proof fn lemma_text_never_ends(text: String)
    ensures
        !ends_session(SessionInput::ClientText(text)),
        !(session_next(SessionInput::ClientText(text)) is End),
        parsed_request(text@) is None ==> session_next(SessionInput::ClientText(text))
            == ActionView::Continue,
{
}

/// As long as no input ends the session, what came before changes nothing:
/// after any number of malformed messages each valid request is still
/// forwarded and each event is still sent.
pub proof fn lemma_session_goes_on(inputs: Seq<SessionInput>, n: int)
    requires
        0 <= n < inputs.len(),
        forall|i: int| 0 <= i < n ==> !ends_session(#[trigger] inputs[i]),
    ensures
        session_trace(inputs).len() > n,
        session_trace(inputs)[n] == session_next(inputs[n]),
    decreases n,
{
    if n > 0 {
        let rest = inputs.drop_first();
        assert forall|i: int| 0 <= i < n - 1 implies !ends_session(#[trigger] rest[i]) by {
            assert(rest[i] == inputs[i + 1]);
        }
        assert(!ends_session(inputs[0]));
        lemma_session_goes_on(rest, n - 1);
        assert(rest[n - 1] == inputs[n]);
    }
}

} // verus!
