//! The capture loop's reading of the input source: which events a raw
//! occurrence produces, and what a poll result means.

use vstd::prelude::*;
use crate::event::{Event, EventView, event_views};
use crate::modifiers::{active_modifiers, modifier_names};

verus! {

/// The lookup status with which the input method reports composed characters
/// and no key symbol.
pub const LOOKUP_CHARS: i32 = 2;

/// The lookup status with which the input method reports composed characters
/// together with a key symbol.
pub const LOOKUP_BOTH: i32 = 4;

/// The kind of occurrence with which the input source reports a key press.
pub const KEY_PRESS: i32 = 2;

/// The kind of occurrence with which the input source reports a key release.
pub const KEY_RELEASE: i32 = 3;

/// The time, in milliseconds, that one poll of the input source may take.
pub const POLL_TIMEOUT_MS: i32 = 1;

/// One raw occurrence, as the input source hands it over.
#[derive(Debug)]
pub struct KeyOccurrence {
    /// The kind of occurrence: only `KEY_PRESS` produces events.
    pub kind: i32,
    /// Whether the input method's own filter consumed the occurrence.
    pub filtered: bool,
    /// The hardware key code.
    pub code: u32,
    /// The modifier state word.
    pub state: u32,
    /// The bytes of the key symbol's name, or `None` where the symbol has none.
    pub label: Option<Vec<u8>>,
    /// The status of the input method's lookup.
    pub lookup: i32,
    /// The bytes that the lookup wrote.
    pub decoded: Vec<u8>,
}

/// The text that lossy UTF-8 decoding gives for a byte string.
pub uninterp spec fn utf8_lossy(bytes: Seq<u8>) -> Seq<char>;

/// Calls `String::from_utf8_lossy` and takes the result as an owned string.
/// Not proved: that the result is a function of the bytes alone, which
/// `utf8_lossy` names.
#[verifier::external_body]
fn decode_lossy(bytes: &Vec<u8>) -> (text: String)
    ensures
        text@ == utf8_lossy(bytes@),
{
    String::from_utf8_lossy(bytes.as_slice()).into_owned()
}

/// Whether a lookup status says that the input method produced characters.
pub open spec fn lookup_has_text(lookup: i32) -> bool {
    lookup == LOOKUP_CHARS || lookup == LOOKUP_BOTH
}

/// The events of one occurrence whose symbol label is `label` and whose
/// composed text is `text`: none for a release; for a press a `Key` event,
/// followed by a `Text` event where the lookup produced characters and the
/// occurrence was not filtered.
pub open spec fn events_of(
    press: bool,
    filtered: bool,
    code: u32,
    state: u32,
    lookup: i32,
    label: Seq<char>,
    text: Seq<char>,
) -> Seq<EventView> {
    if !press {
        Seq::empty()
    } else {
        let key = EventView::Key { key: label, modifiers: active_modifiers(state), code };
        if !filtered && lookup_has_text(lookup) {
            seq![key, EventView::Text { value: text }]
        } else {
            seq![key]
        }
    }
}

impl KeyOccurrence {
    /// Whether the occurrence is a key press.
    pub open spec fn press(self) -> bool {
        self.kind == KEY_PRESS
    }

    /// Whether the occurrence is a key press.
    pub fn is_press(&self) -> (press: bool)
        ensures
            press == self.press(),
    {
        self.kind == KEY_PRESS
    }

    /// The label of the occurrence's key symbol: empty where it has none.
    pub open spec fn label_text(self) -> Seq<char> {
        match self.label {
            Some(bytes) => utf8_lossy(bytes@),
            None => Seq::empty(),
        }
    }

    /// The events that the occurrence produces.
    pub open spec fn events(self) -> Seq<EventView> {
        events_of(
            self.press(),
            self.filtered,
            self.code,
            self.state,
            self.lookup,
            self.label_text(),
            utf8_lossy(self.decoded@),
        )
    }

    /// Whether the occurrence yields a `Text` event.
    pub fn yields_text(&self) -> (yes: bool)
        ensures
            yes == (self.press() && !self.filtered && lookup_has_text(self.lookup)),
    {
        self.is_press() && !self.filtered && (self.lookup == LOOKUP_CHARS || self.lookup == LOOKUP_BOTH)
    }

    /// Translates the occurrence into its events, decoding the label and the
    /// composed text from their bytes.
    pub fn translate(&self) -> (events: Vec<Event>)
        ensures
            event_views(events@) == self.events(),
            events@.len() == self.events().len(),
            forall|i: int| 0 <= i < events@.len() ==> (#[trigger] events@[i])@ == self.events()[i],
    {
        if !self.is_press() {
            let none: Vec<Event> = Vec::new();
            assert(event_views(none@) =~= self.events());
            return none;
        }
        let label = match &self.label {
            Some(bytes) => decode_lossy(bytes),
            None => String::new(),
        };
        let text = if self.yields_text() {
            Some(decode_lossy(&self.decoded))
        } else {
            None
        };
        let events = assemble_events(label, self.state, self.code, text);
        assert forall|i: int| 0 <= i < events@.len() implies (#[trigger] events@[i])@
            == self.events()[i] by {
            assert(event_views(events@)[i] == events@[i]@);
        }
        events
    }
}

/// The `Key` event of a press with the given symbol label.
pub fn key_event(label: String, state: u32, code: u32) -> (event: Event)
    ensures
        event@ == (EventView::Key { key: label@, modifiers: active_modifiers(state), code }),
{
    Event::Key { key: label, modifiers: modifier_names(state), code }
}

/// The events of a press: the `Key` event, and after it a `Text` event where
/// the press composed text.
pub fn assemble_events(label: String, state: u32, code: u32, text: Option<String>) -> (events:
    Vec<Event>)
    ensures
        event_views(events@) == match text {
            Some(value) => seq![
                EventView::Key { key: label@, modifiers: active_modifiers(state), code },
                EventView::Text { value: value@ },
            ],
            None => seq![EventView::Key { key: label@, modifiers: active_modifiers(state), code }],
        },
        events@.len() == if text is Some {
            2int
        } else {
            1int
        },
{
    let mut events: Vec<Event> = Vec::new();
    events.push(key_event(label, state, code));
    match text {
        Some(value) => {
            events.push(Event::Text { value });
            assert(event_views(events@) =~= seq![events@[0]@, events@[1]@]);
        },
        None => {
            assert(event_views(events@) =~= seq![events@[0]@]);
        },
    }
    events
}

/// The events of a batch of occurrences, each occurrence's events in turn.
pub open spec fn batch_events(batch: Seq<KeyOccurrence>) -> Seq<EventView>
    decreases batch.len(),
{
    if batch.len() == 0 {
        Seq::empty()
    } else {
        batch_events(batch.drop_last()) + batch.last().events()
    }
}

/// Translates every occurrence that the input source had queued, in order.
pub fn translate_all(batch: &Vec<KeyOccurrence>) -> (events: Vec<Event>)
    ensures
        event_views(events@) == batch_events(batch@),
        events@.len() == batch_events(batch@).len(),
        forall|i: int|
            0 <= i < events@.len() ==> (#[trigger] events@[i])@ == batch_events(batch@)[i],
{
    let mut events: Vec<Event> = Vec::new();
    let mut i: usize = 0;
    assert(event_views(events@) =~= batch_events(batch@.take(0)));
    while i < batch.len()
        invariant
            i <= batch.len(),
            event_views(events@) == batch_events(batch@.take(i as int)),
        decreases batch.len() - i,
    {
        let ghost before = events@;
        let mut more = batch[i].translate();
        let ghost added = more@;
        events.append(&mut more);
        proof {
            let next = batch@.take(i + 1);
            assert(next.drop_last() =~= batch@.take(i as int));
            assert(next.last() == batch@[i as int]);
            assert(event_views(events@) =~= event_views(before) + event_views(added));
        }
        i += 1;
    }
    assert(batch@.take(i as int) =~= batch@);
    assert forall|i: int| 0 <= i < events@.len() implies (#[trigger] events@[i])@ == batch_events(
        batch@,
    )[i] by {
        assert(event_views(events@)[i] == events@[i]@);
    }
    events
}

/// Every press produces exactly one `Key` event, which comes first and
/// carries the occurrence's label, its hardware code and the modifiers of its
/// state word.
pub proof fn lemma_press_yields_one_key(occ: KeyOccurrence)
    requires
        occ.press(),
    ensures
        occ.events().len() >= 1,
        occ.events()[0] == (EventView::Key {
            key: occ.label_text(),
            modifiers: active_modifiers(occ.state),
            code: occ.code,
        }),
        forall|i: int| 1 <= i < occ.events().len() ==> !(#[trigger] occ.events()[i]).is_key(),
{
}

/// A press that composed text and was not filtered produces the `Key` event
/// and then the `Text` event with that text, and nothing else; a filtered
/// occurrence produces no `Text` event.
pub proof fn lemma_text_follows_key(occ: KeyOccurrence)
    ensures
        occ.press() && !occ.filtered && lookup_has_text(occ.lookup) ==> occ.events().len() == 2
            && occ.events()[0].is_key() && occ.events()[1] == (EventView::Text {
            value: utf8_lossy(occ.decoded@),
        }),
        occ.filtered ==> forall|i: int|
            0 <= i < occ.events().len() ==> !(#[trigger] occ.events()[i]).is_text(),
{
}

/// A release produces no event.
pub proof fn lemma_release_is_silent(occ: KeyOccurrence)
    requires
        !occ.press(),
    ensures
        occ.events().len() == 0,
{
}

/// How many of the events are `Key` events.
pub open spec fn key_count(events: Seq<EventView>) -> nat
    decreases events.len(),
{
    if events.len() == 0 {
        0
    } else if events.last().is_key() {
        key_count(events.drop_last()) + 1
    } else {
        key_count(events.drop_last())
    }
}

/// How many of the occurrences are presses.
pub open spec fn press_count(batch: Seq<KeyOccurrence>) -> nat
    decreases batch.len(),
{
    if batch.len() == 0 {
        0
    } else if batch.last().press() {
        press_count(batch.drop_last()) + 1
    } else {
        press_count(batch.drop_last())
    }
}

/// The `Key` events of two runs of events are those of the one and those of
/// the other.
pub proof fn lemma_key_count_concat(first: Seq<EventView>, second: Seq<EventView>)
    ensures
        key_count(first + second) == key_count(first) + key_count(second),
    decreases second.len(),
{
    if second.len() == 0 {
        assert(first + second =~= first);
    } else {
        assert((first + second).drop_last() =~= first + second.drop_last());
        assert((first + second).last() == second.last());
        lemma_key_count_concat(first, second.drop_last());
    }
}

/// Over any batch of occurrences there is exactly one `Key` event for each
/// press.
pub proof fn lemma_one_key_per_press(batch: Seq<KeyOccurrence>)
    ensures
        key_count(batch_events(batch)) == press_count(batch),
    decreases batch.len(),
{
    if batch.len() > 0 {
        let last = batch.last().events();
        lemma_one_key_per_press(batch.drop_last());
        lemma_key_count_concat(batch_events(batch.drop_last()), last);
        reveal_with_fuel(key_count, 3);
        if last.len() == 2 {
            assert(last.drop_last().len() == 1);
            assert(last.drop_last().last() == last[0]);
            assert(last.drop_last().drop_last().len() == 0);
        } else if last.len() == 1 {
            assert(last.drop_last().len() == 0);
        }
    }
}

/// A batch of releases produces no event.
pub proof fn lemma_releases_are_silent(batch: Seq<KeyOccurrence>)
    requires
        forall|i: int| 0 <= i < batch.len() ==> !(#[trigger] batch[i]).press(),
    ensures
        batch_events(batch).len() == 0,
    decreases batch.len(),
{
    if batch.len() > 0 {
        lemma_releases_are_silent(batch.drop_last());
    }
}

/// What a poll of the input source's descriptor means for the loop.
#[derive(Debug, Clone, Copy, PartialEq, Eq, Structural)]
pub enum PollOutcome {
    /// The timeout passed with nothing to read: go round again.
    Idle,
    /// Input is waiting: drain all of it.
    Ready,
    /// The poll failed: the loop ends.
    Failed,
}

/// Reads the result of a poll: 0 is a timeout, -1 a failure, anything else
/// says that input is ready.
pub fn classify_poll(ready: i32) -> (outcome: PollOutcome)
    ensures
        outcome == if ready == 0 {
            PollOutcome::Idle
        } else if ready == -1 {
            PollOutcome::Failed
        } else {
            PollOutcome::Ready
        },
{
    if ready == 0 {
        PollOutcome::Idle
    } else if ready == -1 {
        PollOutcome::Failed
    } else {
        PollOutcome::Ready
    }
}

} // verus!
