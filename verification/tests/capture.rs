use keycast::capture::{
    assemble_events, classify_poll, key_event, KeyOccurrence, PollOutcome, KEY_PRESS, KEY_RELEASE,
    LOOKUP_BOTH, LOOKUP_CHARS,
};
use keycast::grab::{GrabState, InputCommand};
use keycast::modifiers::{mask_at, modifier_names, name_at, MODIFIER_COUNT};
use keycast::{Event, Request};

fn press(code: u32, state: u32, label: &str, lookup: i32, decoded: &[u8]) -> KeyOccurrence {
    KeyOccurrence {
        kind: KEY_PRESS,
        filtered: false,
        code,
        state,
        label: Some(label.as_bytes().to_vec()),
        lookup,
        decoded: decoded.to_vec(),
    }
}

fn names(list: &[&str]) -> Vec<String> {
    list.iter().map(|s| s.to_string()).collect()
}

#[test]
fn no_modifier_gives_empty_list() {
    assert_eq!(modifier_names(0), Vec::<String>::new());
}

#[test]
fn single_modifiers_are_named() {
    let all = ["Shift", "Lock", "Control", "Mod1", "Mod2", "Mod3", "Mod4", "Mod5"];
    for i in 0..MODIFIER_COUNT {
        assert_eq!(mask_at(i), 1u32 << i);
        assert_eq!(name_at(i), all[i]);
        assert_eq!(modifier_names(1u32 << i), names(&[all[i]]));
    }
}

#[test]
fn all_modifiers_come_in_canonical_order() {
    assert_eq!(
        modifier_names(0xff),
        names(&["Shift", "Lock", "Control", "Mod1", "Mod2", "Mod3", "Mod4", "Mod5"])
    );
}

#[test]
fn mixed_modifiers_keep_the_order() {
    assert_eq!(modifier_names(0x01 | 0x04 | 0x40), names(&["Shift", "Control", "Mod4"]));
    assert_eq!(modifier_names(0x80 | 0x02), names(&["Lock", "Mod5"]));
}

#[test]
fn bits_above_the_modifiers_are_ignored() {
    assert_eq!(modifier_names(0x100), Vec::<String>::new());
    assert_eq!(modifier_names(0xffff_ff00 | 0x08), names(&["Mod1"]));
}

#[test]
fn press_with_text_gives_key_then_text() {
    let occ = press(38, 0x01, "a", LOOKUP_BOTH, b"A");
    assert!(occ.yields_text());
    assert_eq!(
        occ.translate(),
        vec![
            Event::Key { key: "a".to_string(), modifiers: names(&["Shift"]), code: 38 },
            Event::Text { value: "A".to_string() },
        ]
    );
}

#[test]
fn chars_status_also_gives_text() {
    let occ = press(24, 0, "q", LOOKUP_CHARS, "é".as_bytes());
    assert_eq!(
        occ.translate(),
        vec![
            Event::Key { key: "q".to_string(), modifiers: vec![], code: 24 },
            Event::Text { value: "é".to_string() },
        ]
    );
}

#[test]
fn filtered_press_gives_only_the_key() {
    let mut occ = press(38, 0, "a", LOOKUP_BOTH, b"a");
    occ.filtered = true;
    assert!(!occ.yields_text());
    assert_eq!(
        occ.translate(),
        vec![Event::Key { key: "a".to_string(), modifiers: vec![], code: 38 }]
    );
}

#[test]
fn press_without_characters_gives_only_the_key() {
    for status in [-1, 0, 1, 3, 5] {
        let occ = press(50, 0x01, "Shift_L", status, b"ignored");
        assert!(!occ.yields_text());
        assert_eq!(
            occ.translate(),
            vec![Event::Key { key: "Shift_L".to_string(), modifiers: names(&["Shift"]), code: 50 }]
        );
    }
}

#[test]
fn release_gives_nothing() {
    let mut occ = press(38, 0x01, "a", LOOKUP_BOTH, b"A");
    occ.kind = KEY_RELEASE;
    assert!(!occ.yields_text());
    assert_eq!(occ.translate(), Vec::<Event>::new());
}

#[test]
fn unresolved_symbol_gives_empty_label() {
    let mut occ = press(255, 0, "", 1, b"");
    occ.label = None;
    assert_eq!(
        occ.translate(),
        vec![Event::Key { key: String::new(), modifiers: vec![], code: 255 }]
    );
}

#[test]
fn invalid_bytes_are_decoded_lossily() {
    let mut occ = press(10, 0, "x", LOOKUP_CHARS, &[b'a', 0xff, b'b']);
    occ.label = Some(vec![0xc3]);
    assert_eq!(
        occ.translate(),
        vec![
            Event::Key { key: "\u{fffd}".to_string(), modifiers: vec![], code: 10 },
            Event::Text { value: "a\u{fffd}b".to_string() },
        ]
    );
}

#[test]
fn batch_is_translated_in_order() {
    let mut release = press(38, 0, "a", LOOKUP_BOTH, b"a");
    release.kind = KEY_RELEASE;
    let batch = vec![
        press(38, 0, "a", LOOKUP_BOTH, b"a"),
        release,
        press(56, 0x04, "b", 3, b""),
    ];
    assert_eq!(
        keycast::capture::translate_all(&batch),
        vec![
            Event::Key { key: "a".to_string(), modifiers: vec![], code: 38 },
            Event::Text { value: "a".to_string() },
            Event::Key { key: "b".to_string(), modifiers: names(&["Control"]), code: 56 },
        ]
    );
    assert_eq!(keycast::capture::translate_all(&Vec::new()), Vec::<Event>::new());
}

#[test]
fn key_event_carries_label_modifiers_and_code() {
    assert_eq!(
        key_event("Return".to_string(), 0x08 | 0x01, 36),
        Event::Key { key: "Return".to_string(), modifiers: names(&["Shift", "Mod1"]), code: 36 }
    );
}

#[test]
fn assemble_events_adds_text_when_given() {
    assert_eq!(
        assemble_events("a".to_string(), 0, 38, Some("A".to_string())),
        vec![
            Event::Key { key: "a".to_string(), modifiers: vec![], code: 38 },
            Event::Text { value: "A".to_string() },
        ]
    );
    assert_eq!(
        assemble_events("a".to_string(), 0, 38, None),
        vec![Event::Key { key: "a".to_string(), modifiers: vec![], code: 38 }]
    );
}

#[test]
fn grab_state_starts_released() {
    let state = GrabState::new();
    assert!(!state.is_held());
}

#[test]
fn grab_then_release_issues_one_command_each() {
    let mut state = GrabState::new();
    let mut commands = Vec::new();
    for enabled in [true, true, true, false, false] {
        if let Some(command) = state.apply(&Request::Grab { enabled }) {
            commands.push(command);
        }
    }
    assert_eq!(commands, vec![InputCommand::Acquire, InputCommand::Release]);
    assert!(!state.is_held());
}

#[test]
fn release_while_released_is_not_sent() {
    let mut state = GrabState::new();
    assert_eq!(state.apply(&Request::Grab { enabled: false }), None);
    assert!(!state.is_held());
    assert_eq!(state.apply(&Request::Grab { enabled: true }), Some(InputCommand::Acquire));
    assert!(state.is_held());
    assert_eq!(state.apply(&Request::Grab { enabled: true }), None);
    assert!(state.is_held());
}

#[test]
fn commands_alternate_over_a_mixed_run() {
    let mut state = GrabState::new();
    let mut commands = Vec::new();
    for enabled in [false, true, false, false, true, true, false] {
        if let Some(command) = state.apply(&Request::Grab { enabled }) {
            commands.push(command);
        }
    }
    assert_eq!(
        commands,
        vec![
            InputCommand::Acquire,
            InputCommand::Release,
            InputCommand::Acquire,
            InputCommand::Release,
        ]
    );
}

#[test]
fn poll_results_are_classified() {
    assert_eq!(classify_poll(0), PollOutcome::Idle);
    assert_eq!(classify_poll(-1), PollOutcome::Failed);
    assert_eq!(classify_poll(1), PollOutcome::Ready);
    assert_eq!(classify_poll(7), PollOutcome::Ready);
    assert_eq!(classify_poll(-2), PollOutcome::Ready);
}

#[test]
fn acquire_status_is_judged() {
    assert!(!keycast::grab::acquire_failed(0));
    assert!(!keycast::grab::acquire_failed(1));
    assert!(keycast::grab::acquire_failed(2));
    assert!(keycast::grab::acquire_failed(3));
    assert!(keycast::grab::acquire_failed(4));
    assert!(keycast::grab::acquire_failed(-1));
}

#[test]
fn only_key_presses_count_as_presses() {
    let mut occ = press(38, 0, "a", LOOKUP_BOTH, b"a");
    assert!(occ.is_press());
    occ.kind = KEY_RELEASE;
    assert!(!occ.is_press());
    occ.kind = 34;
    assert!(!occ.is_press());
    assert_eq!(occ.translate(), Vec::<Event>::new());
    assert_eq!(KEY_PRESS, 2);
    assert_eq!(keycast::capture::POLL_TIMEOUT_MS, 1);
}
