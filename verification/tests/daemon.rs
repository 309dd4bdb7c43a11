use std::collections::VecDeque;

use watari::daemon::{
    mirror_once, Backoff, WatchPhase, Watcher, INITIAL_BACKOFF_MS, MAX_BACKOFF_MS,
};
use watari::mirror::{Content, MirrorState, Outcome, SkipReason, Sink, Source};

#[derive(Debug, Default, PartialEq, Eq)]
struct FakeSink {
    texts: Vec<Vec<u8>>,
    clears: usize,
}

impl Sink for FakeSink {
    fn set_text(&mut self, bytes: &[u8]) -> anyhow::Result<()> {
        self.texts.push(bytes.to_vec());
        Ok(())
    }

    fn clear(&mut self) -> anyhow::Result<()> {
        self.clears += 1;
        Ok(())
    }
}

struct FakeSource {
    contents: VecDeque<Content>,
    pending: VecDeque<bool>,
}

impl FakeSource {
    fn new(contents: Vec<Content>, pending: Vec<bool>) -> Self {
        Self {
            contents: contents.into(),
            pending: pending.into(),
        }
    }
}

impl Source for FakeSource {
    fn wait_for_change(&mut self) -> anyhow::Result<()> {
        if self.contents.is_empty() {
            return Err(anyhow::Error::msg("simulated disconnect"));
        }
        Ok(())
    }

    fn current(&mut self) -> anyhow::Result<Content> {
        self.contents
            .pop_front()
            .ok_or_else(|| anyhow::Error::msg("no content"))
    }

    fn has_pending(&mut self) -> bool {
        self.pending.pop_front().unwrap_or(false)
    }
}

#[test]
fn mirror_once_publishes_text_and_remembers_it() {
    let mut source = FakeSource::new(vec![Content::Text(b"secret".to_vec())], vec![]);
    let mut sink = FakeSink::default();
    let mut state = MirrorState::new();

    let outcome = mirror_once(&mut source, &mut sink, &mut state, true).unwrap();

    assert_eq!(outcome, Outcome::MirroredText(6));
    assert_eq!(sink.texts, vec![b"secret".to_vec()]);
    assert_eq!(state.last(), Some(b"secret".as_slice()));
}

#[test]
fn mirror_once_clears_only_when_enabled() {
    let mut source = FakeSource::new(vec![Content::Cleared, Content::Cleared], vec![]);
    let mut sink = FakeSink::default();
    let mut state = MirrorState::new();

    let cleared = mirror_once(&mut source, &mut sink, &mut state, true).unwrap();
    assert_eq!(cleared, Outcome::MirroredClear);

    let disabled = mirror_once(&mut source, &mut sink, &mut state, false).unwrap();
    assert_eq!(disabled, Outcome::Skipped(SkipReason::ClearsDisabled));
    assert_eq!(sink.clears, 1);
}

#[test]
fn mirror_once_ignores_non_text() {
    let mut source = FakeSource::new(vec![Content::NonText], vec![]);
    let mut sink = FakeSink::default();
    let mut state = MirrorState::new();

    let outcome = mirror_once(&mut source, &mut sink, &mut state, true).unwrap();

    assert_eq!(outcome, Outcome::Skipped(SkipReason::NoText));
    assert!(sink.texts.is_empty());
    assert_eq!(sink.clears, 0);
}

#[test]
fn mirror_once_deduplicates_identical_text() {
    let mut source = FakeSource::new(
        vec![
            Content::Text(b"same".to_vec()),
            Content::Text(b"same".to_vec()),
        ],
        vec![],
    );
    let mut sink = FakeSink::default();
    let mut state = MirrorState::new();

    mirror_once(&mut source, &mut sink, &mut state, true).unwrap();
    let second = mirror_once(&mut source, &mut sink, &mut state, true).unwrap();

    assert_eq!(second, Outcome::Skipped(SkipReason::Unchanged));
    assert_eq!(sink.texts, vec![b"same".to_vec()]);
}

struct FailingSource;

impl Source for FailingSource {
    fn wait_for_change(&mut self) -> anyhow::Result<()> {
        Err(anyhow::Error::msg("lost"))
    }
    fn current(&mut self) -> anyhow::Result<Content> {
        Err(anyhow::Error::msg("lost"))
    }
    fn has_pending(&mut self) -> bool {
        false
    }
}

#[test]
fn source_errors_propagate() {
    let mut source = FailingSource;
    let mut sink = FakeSink::default();
    let mut state = MirrorState::new();
    assert!(mirror_once(&mut source, &mut sink, &mut state, true).is_err());
}

struct FailingSink;

impl Sink for FailingSink {
    fn set_text(&mut self, _bytes: &[u8]) -> anyhow::Result<()> {
        Err(anyhow::Error::msg("no compositor"))
    }
    fn clear(&mut self) -> anyhow::Result<()> {
        Err(anyhow::Error::msg("no compositor"))
    }
}

#[test]
fn sink_errors_propagate() {
    let mut source = FakeSource::new(vec![Content::Text(b"x".to_vec())], vec![]);
    let mut sink = FailingSink;
    let mut state = MirrorState::new();
    let error = mirror_once(&mut source, &mut sink, &mut state, true).unwrap_err();
    assert!(error.to_string().contains("set the Wayland clipboard"));
}

#[test]
fn failed_publication_leaves_the_state_alone() {
    let mut source = FakeSource::new(vec![Content::Text(b"x".to_vec()), Content::Cleared], vec![]);
    let mut sink = FailingSink;
    let mut state = MirrorState::new();
    assert!(mirror_once(&mut source, &mut sink, &mut state, true).is_err());
    assert_eq!(state.last(), None);
    let error = mirror_once(&mut source, &mut sink, &mut state, true).unwrap_err();
    assert!(error.to_string().contains("clear the Wayland clipboard"));
    assert_eq!(state.last(), None);
    assert_eq!(format!("{error:#}"), "clear the Wayland clipboard: no compositor");
}

#[test]
fn outcome_reports_the_byte_length_of_the_published_text() {
    let mut source = FakeSource::new(vec![Content::Text(vec![0xff, b'a'])], vec![]);
    let mut sink = FakeSink::default();
    let mut state = MirrorState::new();
    let outcome = mirror_once(&mut source, &mut sink, &mut state, true).unwrap();
    assert_eq!(outcome, Outcome::MirroredText(4));
    assert_eq!(sink.texts, vec!["\u{FFFD}a".as_bytes().to_vec()]);
}

#[test]
fn backoff_doubles_up_to_the_cap_and_resets() {
    let mut backoff = Backoff::new();
    let mut delays = vec![backoff.delay_ms()];
    for _ in 0..9 {
        backoff.grow();
        delays.push(backoff.delay_ms());
    }
    assert_eq!(
        delays,
        vec![250, 500, 1000, 2000, 4000, 8000, 16000, 30000, 30000, 30000]
    );
    backoff.reset();
    assert_eq!(backoff.delay_ms(), INITIAL_BACKOFF_MS);
    assert_eq!(MAX_BACKOFF_MS, 30000);
}

/// Repeats the watcher's steps until one fails, as the daemon does.
fn watch<S: Source, K: Sink>(source: &mut S, sink: &mut K, mirror_clears: bool) -> anyhow::Result<()> {
    let mut watcher = Watcher::new(mirror_clears);
    loop {
        watcher.step(source, sink)?;
    }
}

#[test]
fn watch_mirrors_until_the_source_disconnects() {
    let mut source = FakeSource::new(
        vec![Content::Text(b"one".to_vec()), Content::Cleared],
        vec![false, false],
    );
    let mut sink = FakeSink::default();

    let error = watch(&mut source, &mut sink, true).unwrap_err();
    assert!(error.to_string().contains("simulated disconnect"));
    assert_eq!(sink.texts, vec![b"one".to_vec()]);
    assert_eq!(sink.clears, 1);
}

#[test]
fn watch_reprocesses_when_changes_arrive_mid_transfer() {
    let mut source = FakeSource::new(
        vec![
            Content::Text(b"one".to_vec()),
            Content::Text(b"two".to_vec()),
        ],
        vec![true, false],
    );
    let mut sink = FakeSink::default();

    watch(&mut source, &mut sink, true).unwrap_err();

    assert_eq!(sink.texts, vec![b"one".to_vec(), b"two".to_vec()]);
}

#[test]
fn watcher_waits_then_mirrors_while_changes_are_pending() {
    let mut source = FakeSource::new(
        vec![Content::Text(b"a".to_vec()), Content::Text(b"b".to_vec())],
        vec![true, false],
    );
    let mut sink = FakeSink::default();
    let mut watcher = Watcher::new(true);
    assert_eq!(watcher.next_phase(), WatchPhase::AwaitingChange);
    assert_eq!(watcher.step(&mut source, &mut sink).unwrap(), None);
    assert_eq!(watcher.next_phase(), WatchPhase::Mirroring);
    assert_eq!(
        watcher.step(&mut source, &mut sink).unwrap(),
        Some(Outcome::MirroredText(1))
    );
    assert_eq!(watcher.next_phase(), WatchPhase::Mirroring);
    assert_eq!(
        watcher.step(&mut source, &mut sink).unwrap(),
        Some(Outcome::MirroredText(1))
    );
    assert_eq!(watcher.next_phase(), WatchPhase::AwaitingChange);
    assert_eq!(watcher.state().last(), Some(b"b".as_slice()));
    assert!(watcher.step(&mut source, &mut sink).is_err());
}

#[test]
fn sleeps_after_attempts_follow_the_schedule() {
    let mut backoff = Backoff::new();
    let sleeps: Vec<u64> = [false, false, false, true, false, false]
        .iter()
        .map(|connected| backoff.sleep_after_attempt(*connected))
        .collect();
    assert_eq!(sleeps, vec![250, 500, 1000, 250, 500, 1000]);
    for _ in 0..10 {
        backoff.sleep_after_attempt(false);
    }
    assert_eq!(backoff.sleep_after_attempt(false), MAX_BACKOFF_MS);
}
