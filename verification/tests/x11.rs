use watari::mirror::Content;
use watari::x11::{
    choose_target, classify_owner, is_owner_change, property_words, ConversionRequest,
    IncrTransfer, SelectionNotice,
};
use x11rb::protocol::xfixes::SelectionEvent;
use x11rb::protocol::xproto::Atom;
use x11rb::NONE;

const CLIPBOARD: Atom = 100;
const OTHER: Atom = 101;
const UTF8: Atom = 10;
const CHARSET: Atom = 11;
const STRING: Atom = 12;

#[test]
fn target_preference_order() {
    let preference = [UTF8, CHARSET, STRING];
    assert_eq!(
        choose_target(&[STRING, CHARSET, UTF8], &preference),
        Some(UTF8)
    );
    assert_eq!(
        choose_target(&[STRING, CHARSET], &preference),
        Some(CHARSET)
    );
    assert_eq!(choose_target(&[STRING], &preference), Some(STRING));
    assert_eq!(choose_target(&[], &preference), None);
}

#[test]
fn missing_owner_is_a_clear() {
    assert_eq!(classify_owner(NONE, None), Content::Cleared);
    assert_eq!(
        classify_owner(NONE, Some(b"ignored".to_vec())),
        Content::Cleared
    );
}

#[test]
fn present_owner_with_text_is_text() {
    assert_eq!(
        classify_owner(7, Some(b"hi".to_vec())),
        Content::Text(b"hi".to_vec())
    );
}

#[test]
fn present_owner_without_text_is_non_text() {
    assert_eq!(classify_owner(7, None), Content::NonText);
}

#[test]
fn only_clipboard_owner_changes_count() {
    assert!(is_owner_change(
        u8::from(SelectionEvent::SET_SELECTION_OWNER),
        CLIPBOARD,
        CLIPBOARD
    ));
    assert!(!is_owner_change(
        u8::from(SelectionEvent::SET_SELECTION_OWNER),
        OTHER,
        CLIPBOARD
    ));
    assert!(!is_owner_change(
        u8::from(SelectionEvent::SELECTION_CLIENT_CLOSE),
        CLIPBOARD,
        CLIPBOARD
    ));
}

#[test]
fn unoffered_targets_are_never_chosen() {
    assert_eq!(choose_target(&[1, 2, 3], &[UTF8, STRING]), None);
    assert_eq!(choose_target(&[STRING, 1], &[UTF8, STRING]), Some(STRING));
}

#[test]
fn property_reads_round_up_to_whole_words() {
    assert_eq!(property_words(0), 0);
    assert_eq!(property_words(1), 1);
    assert_eq!(property_words(4), 1);
    assert_eq!(property_words(5), 2);
    assert_eq!(property_words(u32::MAX), 1 << 30);
}

#[test]
fn conversion_answers_only_its_own_request() {
    let request = ConversionRequest {
        requestor: 5,
        selection: CLIPBOARD,
        target: UTF8,
    };
    let mut notice = SelectionNotice {
        requestor: 5,
        selection: CLIPBOARD,
        target: UTF8,
        property: 77,
    };
    assert_eq!(request.answer(&notice), Some(Some(77)));
    notice.property = NONE;
    assert_eq!(request.answer(&notice), Some(None));
    notice.target = STRING;
    assert_eq!(request.answer(&notice), None);
}

#[test]
fn incr_transfer_collects_payload_chunks_until_the_empty_one() {
    let mut transfer = IncrTransfer::new(UTF8);
    assert!(!transfer.accept(99, b"stale"));
    assert!(!transfer.accept(UTF8, b"hel"));
    assert!(!transfer.accept(STRING, b"noise"));
    assert!(!transfer.accept(UTF8, b"lo"));
    assert!(transfer.accept(UTF8, b""));
    assert!(transfer.accept(UTF8, b"late"));
    assert_eq!(transfer.into_data(), b"hello".to_vec());
}

use watari::x11::{FetchAction, FetchEvent, TextFetch};

const TARGETS: Atom = 1;
const INCR: Atom = 2;

#[test]
fn text_fetch_asks_for_targets_then_the_preferred_one() {
    let (mut fetch, action) = TextFetch::start(TARGETS, INCR, vec![UTF8, CHARSET, STRING]);
    assert_eq!(action, FetchAction::Convert(TARGETS));
    assert_eq!(fetch.next(FetchEvent::Converted(true)), FetchAction::ReadTargets);
    assert_eq!(
        fetch.next(FetchEvent::TargetsRead(vec![STRING, 55, CHARSET])),
        FetchAction::Convert(CHARSET)
    );
    assert_eq!(fetch.next(FetchEvent::Converted(true)), FetchAction::ReadText);
    assert_eq!(fetch.next(FetchEvent::ReplyRead(CHARSET)), FetchAction::UseReply);
    assert_eq!(fetch.next(FetchEvent::Converted(true)), FetchAction::NoText);
}

#[test]
fn text_fetch_switches_to_incr_for_large_selections() {
    let (mut fetch, _) = TextFetch::start(TARGETS, INCR, vec![UTF8]);
    fetch.next(FetchEvent::Converted(true));
    assert_eq!(fetch.next(FetchEvent::TargetsRead(vec![UTF8])), FetchAction::Convert(UTF8));
    fetch.next(FetchEvent::Converted(true));
    assert_eq!(fetch.next(FetchEvent::ReplyRead(INCR)), FetchAction::ReadIncr(UTF8));
}

#[test]
fn text_fetch_gives_up_without_text() {
    let (mut fetch, _) = TextFetch::start(TARGETS, INCR, vec![UTF8]);
    assert_eq!(fetch.next(FetchEvent::Converted(false)), FetchAction::NoText);

    let (mut fetch, _) = TextFetch::start(TARGETS, INCR, vec![UTF8]);
    fetch.next(FetchEvent::Converted(true));
    assert_eq!(fetch.next(FetchEvent::TargetsRead(vec![STRING])), FetchAction::NoText);

    let (mut fetch, _) = TextFetch::start(TARGETS, INCR, vec![UTF8]);
    fetch.next(FetchEvent::Converted(true));
    fetch.next(FetchEvent::TargetsRead(vec![UTF8]));
    assert_eq!(fetch.next(FetchEvent::Converted(false)), FetchAction::NoText);

    let (mut fetch, _) = TextFetch::start(TARGETS, INCR, vec![UTF8]);
    assert_eq!(fetch.next(FetchEvent::ReplyRead(UTF8)), FetchAction::NoText);
}

use watari::x11::{pending_after_event, should_fetch_text};

#[test]
fn pending_changes_are_only_clipboard_owner_changes_and_stick() {
    let owner = u8::from(SelectionEvent::SET_SELECTION_OWNER);
    let closed = u8::from(SelectionEvent::SELECTION_CLIENT_CLOSE);
    assert!(pending_after_event(false, owner, CLIPBOARD, CLIPBOARD));
    assert!(!pending_after_event(false, owner, OTHER, CLIPBOARD));
    assert!(!pending_after_event(false, closed, CLIPBOARD, CLIPBOARD));
    assert!(pending_after_event(true, closed, OTHER, CLIPBOARD));
}

#[test]
fn text_is_only_fetched_from_an_owner() {
    assert!(!should_fetch_text(NONE));
    assert!(should_fetch_text(7));
}
