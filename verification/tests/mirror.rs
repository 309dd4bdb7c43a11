use watari::mirror::{Content, Decision, MirrorState, SkipReason};

fn text(value: &str) -> Content {
    Content::Text(value.as_bytes().to_vec())
}

#[test]
fn new_text_is_selected_and_recorded() {
    let mut state = MirrorState::new();
    let decision = state.decide(text("secret"), true);
    assert_eq!(decision, Decision::SetText(b"secret".to_vec()));
    state.record(&decision);
    assert_eq!(state.last(), Some(b"secret".as_slice()));
}

#[test]
fn identical_text_is_skipped() {
    let mut state = MirrorState::new();
    state.record(&Decision::SetText(b"same".to_vec()));
    assert_eq!(
        state.decide(text("same"), true),
        Decision::Skip(SkipReason::Unchanged)
    );
}

#[test]
fn invalid_utf8_is_made_lossy() {
    let state = MirrorState::new();
    let decision = state.decide(Content::Text(vec![0xff, 0xfe, b'a']), true);
    assert_eq!(
        decision,
        Decision::SetText("\u{FFFD}\u{FFFD}a".as_bytes().to_vec())
    );
}

#[test]
fn non_text_is_never_mirrored() {
    let state = MirrorState::new();
    assert_eq!(
        state.decide(Content::NonText, true),
        Decision::Skip(SkipReason::NoText)
    );
}

#[test]
fn cleared_empty_and_owner_gone_all_map_to_clear() {
    let state = MirrorState::new();
    assert_eq!(state.decide(Content::Cleared, true), Decision::Clear);
    assert_eq!(state.decide(text(""), true), Decision::Clear);
}

#[test]
fn clears_can_be_disabled() {
    let state = MirrorState::new();
    assert_eq!(
        state.decide(Content::Cleared, false),
        Decision::Skip(SkipReason::ClearsDisabled)
    );
    assert_eq!(
        state.decide(text(""), false),
        Decision::Skip(SkipReason::ClearsDisabled)
    );
}

#[test]
fn repeated_clears_are_deduplicated() {
    let mut state = MirrorState::new();
    let decision = state.decide(Content::Cleared, true);
    assert_eq!(decision, Decision::Clear);
    state.record(&decision);
    assert_eq!(
        state.decide(Content::Cleared, true),
        Decision::Skip(SkipReason::AlreadyCleared)
    );
}

#[test]
fn text_replaces_a_recorded_clear() {
    let mut state = MirrorState::new();
    state.record(&Decision::Clear);
    assert_eq!(
        state.decide(text("after"), true),
        Decision::SetText(b"after".to_vec())
    );
}

#[test]
fn skipped_decisions_do_not_change_state() {
    let mut state = MirrorState::new();
    state.record(&Decision::SetText(b"keep".to_vec()));
    state.record(&Decision::Skip(SkipReason::Unchanged));
    assert_eq!(state.last(), Some(b"keep".as_slice()));
}

#[test]
fn deciding_again_after_recording_never_publishes() {
    let contents = vec![
        text("secret"),
        text(""),
        Content::Cleared,
        Content::NonText,
        Content::Text(vec![0xff]),
    ];
    for content in contents {
        for mirror_clears in [true, false] {
            let mut state = MirrorState::new();
            let first = state.decide(content.clone(), mirror_clears);
            state.record(&first);
            let second = state.decide(content.clone(), mirror_clears);
            assert!(matches!(second, Decision::Skip(_)), "{content:?} published twice");
        }
    }
}

#[test]
fn a_fresh_state_remembers_nothing() {
    let state = MirrorState::new();
    assert_eq!(state.last(), None);
}

#[test]
fn a_recorded_clear_is_remembered_as_empty() {
    let mut state = MirrorState::new();
    state.record(&Decision::Clear);
    assert_eq!(state.last(), Some(&[][..]));
}

#[test]
fn skip_reasons_have_log_messages() {
    assert_eq!(SkipReason::NoText.message(), "CLIPBOARD has no textual target");
    assert_eq!(SkipReason::Unchanged.message(), "CLIPBOARD is unchanged");
    assert_eq!(
        SkipReason::ClearsDisabled.message(),
        "CLIPBOARD was cleared but MIRROR_CLEARS is off"
    );
    assert_eq!(SkipReason::AlreadyCleared.message(), "CLIPBOARD is already cleared");
}

#[test]
fn decide_text_works_on_already_converted_text() {
    let mut state = MirrorState::new();
    assert_eq!(state.decide_text(b"a".to_vec(), true), Decision::SetText(b"a".to_vec()));
    assert_eq!(state.decide_text(Vec::new(), false), Decision::Skip(SkipReason::ClearsDisabled));
    state.record(&Decision::SetText(b"a".to_vec()));
    assert_eq!(state.decide_text(b"a".to_vec(), true), Decision::Skip(SkipReason::Unchanged));
}
