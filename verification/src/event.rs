//! The two message types that cross between the capture loop and the clients.

use vstd::prelude::*;

verus! {

/// What the capture loop reports for a key press.
#[derive(Debug, Clone, PartialEq, Eq)]
pub enum Event {
    /// The pressed key: its symbol's label (empty if the symbol has none), the
    /// modifiers held, and the hardware key code.
    Key { key: String, modifiers: Vec<String>, code: u32 },
    /// The text that the input method composed for the press.
    Text { value: String },
}

/// What a client may ask of the capture loop.
#[derive(Debug, Clone, Copy, PartialEq, Eq, Structural)]
pub enum Request {
    /// Acquire (`true`) or release (`false`) exclusive capture of the keyboard.
    Grab { enabled: bool },
}

/// The mathematical content of an [`Event`].
pub enum EventView {
    Key { key: Seq<char>, modifiers: Seq<Seq<char>>, code: u32 },
    Text { value: Seq<char> },
}

/// The texts that a vector of strings holds, in order.
pub open spec fn texts(names: Seq<String>) -> Seq<Seq<char>> {
    Seq::new(names.len(), |i: int| names[i]@)
}

/// The contents of a vector of events, in order.
pub open spec fn event_views(events: Seq<Event>) -> Seq<EventView> {
    Seq::new(events.len(), |i: int| events[i]@)
}

impl View for Event {
    type V = EventView;

    open spec fn view(&self) -> EventView {
        match self {
            Event::Key { key, modifiers, code } => EventView::Key {
                key: key@,
                modifiers: texts(modifiers@),
                code: *code,
            },
            Event::Text { value } => EventView::Text { value: value@ },
        }
    }
}

impl EventView {
    /// Whether this is a `Key` event.
    pub open spec fn is_key(self) -> bool {
        self is Key
    }

    /// Whether this is a `Text` event.
    pub open spec fn is_text(self) -> bool {
        self is Text
    }
}

} // verus!
