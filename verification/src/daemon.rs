//! One mirroring step from a source to a sink, the watcher that alternates
//! waiting for changes and mirroring them, and the reconnect backoff.
use vstd::prelude::*;

use crate::error::with_context;
use crate::mirror::{
    decide_spec, lemma_clears_need_permission, lemma_publish_changes_the_clipboard, publishes,
    record_spec, ContentView, Decision, DecisionView, MirrorState, Outcome, Sink, SinkCall,
    Source, SourceCall,
};

verus! {

/// The first delay before reconnecting, in milliseconds.
pub const INITIAL_BACKOFF_MS: u64 = 250;

/// The longest delay before reconnecting, in milliseconds.
pub const MAX_BACKOFF_MS: u64 = 30000;

/// What a step reports for `decision` once it was carried out.
pub open spec fn outcome_spec(decision: DecisionView) -> Outcome {
    match decision {
        DecisionView::SetText(text) => Outcome::MirroredText(text.len() as usize),
        DecisionView::Clear => Outcome::MirroredClear,
        DecisionView::Skip(reason) => Outcome::Skipped(reason),
    }
}

/// The outcome and the remembered bytes after mirroring `content` with
/// `last` remembered.
pub open spec fn step_result(last: Option<Seq<u8>>, content: ContentView, mirror_clears: bool) -> (
    Outcome,
    Option<Seq<u8>>,
) {
    let decision = decide_spec(last, content, mirror_clears);
    (outcome_spec(decision), record_spec(last, decision))
}

/// The content of a read, if it succeeded.
pub open spec fn content_of(read: Result<ContentView, anyhow::Error>) -> Option<ContentView> {
    match read {
        Ok(content) => Some(content),
        Err(_) => None,
    }
}

/// The outcome of a step that returned `result`, if it succeeded.
pub open spec fn outcome_of(result: Result<Outcome, anyhow::Error>) -> Option<Outcome> {
    match result {
        Ok(outcome) => Some(outcome),
        Err(_) => None,
    }
}

/// What one mirroring step did, given what it read (`None` when reading
/// failed): `last` and `sink` before, `last_after` and `sink_after`
/// after, and the outcome (`None` for an error).
///
/// A failed read ends the step with an error and touches nothing. A
/// decision that publishes nothing touches neither the state nor the
/// sink, and is the outcome. A publishing decision is handed to the sink
/// once (`SetText` to `set_text`, `Clear` to `clear`); the step fails
/// exactly when that call fails, and only a successful call is
/// remembered.
pub open spec fn mirrored<K: Sink>(
    last: Option<Seq<u8>>,
    last_after: Option<Seq<u8>>,
    read: Option<ContentView>,
    mirror_clears: bool,
    sink: K,
    sink_after: K,
    outcome: Option<Outcome>,
) -> bool {
    match read {
        None => outcome is None && last_after == last && sink_after == sink,
        Some(content) => {
            let decision = decide_spec(last, content, mirror_clears);
            if publishes(decision) {
                &&& sink.records() ==> sink_after.records() && sink_after.calls() == sink.calls().push(
                    (SinkCall { request: decision, succeeded: outcome is Some }),
                )
                &&& match outcome {
                    Some(result) => result == outcome_spec(decision) && last_after == record_spec(
                        last,
                        decision,
                    ),
                    None => last_after == last,
                }
            } else {
                &&& outcome == Some(outcome_spec(decision))
                &&& last_after == last
                &&& sink_after == sink
            }
        },
    }
}

/// The remembered bytes agree with the sink's last call, when that call
/// succeeded: it published, and it published what is remembered.
pub open spec fn remembers(last: Option<Seq<u8>>, calls: Seq<SinkCall>) -> bool {
    calls.len() > 0 && calls.last().succeeded ==> publishes(calls.last().request) && last
        == record_spec(last, calls.last().request)
}

/// No call repeats the request of the call before it when that one
/// succeeded.
pub open spec fn never_repeats(calls: Seq<SinkCall>) -> bool {
    forall|i: int, j: int|
        0 <= i && j == i + 1 && j < calls.len() && (#[trigger] calls[i]).succeeded ==> (
        #[trigger] calls[j]).request != calls[i].request
}

/// No call asks for a clear.
pub open spec fn never_clears(calls: Seq<SinkCall>) -> bool {
    forall|i: int| 0 <= i < calls.len() ==> (#[trigger] calls[i]).request != DecisionView::Clear
}

/// A mirroring step keeps the sink's record free of repeated
/// publications and, when clears are not mirrored, of clears.
pub proof fn lemma_mirrored_keeps_sink_laws<K: Sink>(
    last: Option<Seq<u8>>,
    last_after: Option<Seq<u8>>,
    read: Option<ContentView>,
    mirror_clears: bool,
    sink: K,
    sink_after: K,
    outcome: Option<Outcome>,
)
    requires
        mirrored(last, last_after, read, mirror_clears, sink, sink_after, outcome),
        sink.records(),
    ensures
        sink_after.records(),
        remembers(last, sink.calls()) ==> remembers(last_after, sink_after.calls()),
        remembers(last, sink.calls()) && never_repeats(sink.calls()) ==> never_repeats(
            sink_after.calls(),
        ),
        !mirror_clears && never_clears(sink.calls()) ==> never_clears(sink_after.calls()),
{
    match read {
        None => {},
        Some(content) => {
            let decision = decide_spec(last, content, mirror_clears);
            lemma_publish_changes_the_clipboard(last, content, mirror_clears);
            lemma_clears_need_permission(last, content, mirror_clears);
            if publishes(decision) {
                let before = sink.calls();
                let after = sink_after.calls();
                assert(after.last() == (SinkCall { request: decision, succeeded: outcome is Some }));
                if remembers(last, before) && never_repeats(before) {
                    assert forall|i: int, j: int|
                        0 <= i && j == i + 1 && j < after.len() && (#[trigger] after[i]).succeeded
                            implies (#[trigger] after[j]).request != after[i].request by {
                        if j < before.len() {
                            assert(after[i] == before[i]);
                            assert(after[j] == before[j]);
                        } else {
                            assert(after[i] == before.last());
                            assert(record_spec(last, decision) != last);
                        }
                    }
                }
                if !mirror_clears && never_clears(before) {
                    assert forall|i: int| 0 <= i < after.len() implies (#[trigger] after[i]).request
                        != DecisionView::Clear by {
                        if i < before.len() {
                            assert(after[i] == before[i]);
                        }
                    }
                }
            }
        },
    }
}

/// Reads the source once, publishes what [`MirrorState::decide`] chooses,
/// and records it.
///
/// The source is asked once, for its content; the step is [`mirrored`]
/// on what it read: a read error is handed back with nothing touched, a
/// skip calls no sink method, text goes to `sink.set_text` and a clear to
/// `sink.clear`, once, and the step fails exactly when that call fails,
/// with the state unchanged. A failed publication carries the context
/// "set the Wayland clipboard" or "clear the Wayland clipboard".
pub fn mirror_once<S: Source, K: Sink>(
    source: &mut S,
    sink: &mut K,
    state: &mut MirrorState,
    mirror_clears: bool,
) -> (result: Result<Outcome, anyhow::Error>)
    ensures
        match result {
            Ok(outcome) => exists|content: ContentView|
                #[trigger] step_result(old(state)@, content, mirror_clears) == (
                    outcome,
                    final(state)@,
                ),
            Err(_) => final(state)@ == old(state)@,
        },
        exists|read: Result<ContentView, anyhow::Error>|
            #[trigger] mirrored(
                old(state)@,
                final(state)@,
                content_of(read),
                mirror_clears,
                *old(sink),
                *final(sink),
                outcome_of(result),
            ) && (read matches Err(error) ==> result == Err::<Outcome, anyhow::Error>(error)) && (
            old(source).records() ==> final(source).records() && final(source).calls() == old(
                source,
            ).calls().push(SourceCall::Read(read))),
{
    let content = match source.current() {
        Ok(content) => content,
        Err(error) => {
            let ghost read = Err::<ContentView, anyhow::Error>(error);
            assert(mirrored(
                old(state)@,
                state@,
                content_of(read),
                mirror_clears,
                *old(sink),
                *sink,
                None,
            ));
            return Err(error);
        },
    };
    let ghost seen = content@;
    let ghost read = Ok::<ContentView, anyhow::Error>(seen);
    assert(content_of(read) == Some(seen));
    let decision = state.decide(content, mirror_clears);
    let outcome = match &decision {
        Decision::SetText(text) => {
            match sink.set_text(text.as_slice()) {
                Ok(()) => {},
                Err(error) => {
                    assert(mirrored(
                        old(state)@,
                        state@,
                        Some(seen),
                        mirror_clears,
                        *old(sink),
                        *sink,
                        None,
                    ));
                    return Err(with_context(error, "set the Wayland clipboard"));
                },
            }
            Outcome::MirroredText(text.len())
        },
        Decision::Clear => {
            match sink.clear() {
                Ok(()) => {},
                Err(error) => {
                    assert(mirrored(
                        old(state)@,
                        state@,
                        Some(seen),
                        mirror_clears,
                        *old(sink),
                        *sink,
                        None,
                    ));
                    return Err(with_context(error, "clear the Wayland clipboard"));
                },
            }
            Outcome::MirroredClear
        },
        Decision::Skip(reason) => Outcome::Skipped(*reason),
    };
    state.record(&decision);
    assert(step_result(old(state)@, seen, mirror_clears) == (outcome, state@));
    assert(mirrored(old(state)@, state@, Some(seen), mirror_clears, *old(sink), *sink, Some(outcome)));
    Ok(outcome)
}

/// The outcome that a watcher step reported, if it reported one.
pub open spec fn step_outcome(result: Result<Option<Outcome>, anyhow::Error>) -> Option<Outcome> {
    match result {
        Ok(outcome) => outcome,
        Err(_) => None,
    }
}

/// Where watching the clipboard stands.
#[derive(Debug, Clone, Copy, PartialEq, Eq)]
pub enum WatchPhase {
    /// Waiting for the selection owner to change.
    AwaitingChange,
    /// Mirroring the selection, again for as long as changes arrive
    /// while it is being read.
    Mirroring,
}

/// Watches a source and mirrors each change to a sink, one step at a
/// time; the caller repeats [`Watcher::step`] until it fails.
pub struct Watcher {
    state: MirrorState,
    mirror_clears: bool,
    phase: WatchPhase,
}

impl Watcher {
    /// What the next step does.
    pub closed spec fn phase(self) -> WatchPhase {
        self.phase
    }

    /// What was last published.
    pub closed spec fn last(self) -> Option<Seq<u8>> {
        self.state@
    }

    /// Whether clears are mirrored.
    pub closed spec fn mirrors_clears(self) -> bool {
        self.mirror_clears
    }

    /// A watcher that waits for the first change and has published
    /// nothing.
    pub fn new(mirror_clears: bool) -> (watcher: Self)
        ensures
            watcher.phase() == WatchPhase::AwaitingChange,
            watcher.last() == None::<Seq<u8>>,
            watcher.mirrors_clears() == mirror_clears,
    {
        Watcher { state: MirrorState::new(), mirror_clears, phase: WatchPhase::AwaitingChange }
    }

    /// What the next step does.
    pub fn next_phase(&self) -> (phase: WatchPhase)
        ensures
            phase == self.phase(),
    {
        self.phase
    }

    /// The mirroring state.
    pub fn state(&self) -> (state: &MirrorState)
        ensures
            state@ == self.last(),
    {
        &self.state
    }

    /// One step. Waiting: blocks until the owner changes, then mirrors
    /// next. Mirroring: one [`mirror_once`], reported in the result, then
    /// mirrors again if another change arrived meanwhile, or else waits.
    /// An error from the source or the sink is handed back; watching
    /// ends there.
    ///
    /// Over any run of steps that starts from a new watcher and a sink
    /// with an empty record, the sink is never asked for the same thing
    /// twice in a row after a success, and never asked to clear when
    /// clears are not mirrored: each step keeps [`remembers`],
    /// [`never_repeats`] and [`never_clears`].
    pub fn step<S: Source, K: Sink>(&mut self, source: &mut S, sink: &mut K) -> (result: Result<
        Option<Outcome>,
        anyhow::Error,
    >)
        ensures
            final(self).mirrors_clears() == old(self).mirrors_clears(),
            old(self).phase() == WatchPhase::AwaitingChange ==> final(self).last() == old(self).last() && match result {
                Ok(outcome) => outcome is None && final(self).phase() == WatchPhase::Mirroring,
                Err(_) => final(self).phase() == old(self).phase(),
            },
            old(self).phase() == WatchPhase::Mirroring ==> match result {
                Ok(Some(outcome)) => exists|content: ContentView|
                    #[trigger] step_result(old(self).last(), content, old(self).mirrors_clears())
                        == (outcome, final(self).last()),
                Ok(None) => false,
                Err(_) => final(self).last() == old(self).last(),
            },
            old(self).phase() == WatchPhase::AwaitingChange ==> *final(sink) == *old(sink) && (
            old(source).records() ==> final(source).records() && final(source).calls() == old(
                source,
            ).calls().push(
                SourceCall::Waited(
                    match result {
                        Ok(_) => None,
                        Err(error) => Some(error),
                    },
                ),
            )),
            old(self).phase() == WatchPhase::Mirroring ==> exists|
                read: Result<ContentView, anyhow::Error>,
            |
                #[trigger] mirrored(
                    old(self).last(),
                    final(self).last(),
                    content_of(read),
                    old(self).mirrors_clears(),
                    *old(sink),
                    *final(sink),
                    step_outcome(result),
                ) && (read matches Err(error) ==> result == Err::<Option<Outcome>, anyhow::Error>(
                    error,
                )) && (old(source).records() ==> final(source).records() && final(source).calls()
                    == (if result is Ok {
                    old(source).calls().push(SourceCall::Read(read)).push(
                        SourceCall::Pending(final(self).phase() == WatchPhase::Mirroring),
                    )
                } else {
                    old(source).calls().push(SourceCall::Read(read))
                })),
            old(sink).records() && remembers(old(self).last(), old(sink).calls()) ==> final(sink).records() && remembers(final(self).last(), final(sink).calls()),
            old(sink).records() && remembers(old(self).last(), old(sink).calls()) && never_repeats(
                old(sink).calls(),
            ) ==> never_repeats(final(sink).calls()),
            old(sink).records() && !old(self).mirrors_clears() && never_clears(old(sink).calls())
                ==> never_clears(final(sink).calls()),
    {
        match self.phase {
            WatchPhase::AwaitingChange => {
                let waited = source.wait_for_change();
                if let Err(error) = waited {
                    return Err(error);
                }
                self.phase = WatchPhase::Mirroring;
                Ok(None)
            },
            WatchPhase::Mirroring => {
                let ghost before = self.state@;
                let ghost source_before = *source;
                let result = mirror_once(source, sink, &mut self.state, self.mirror_clears);
                let ghost read = choose|read: Result<ContentView, anyhow::Error>|
                    #[trigger] mirrored(
                        before,
                        self.state@,
                        content_of(read),
                        self.mirror_clears,
                        *old(sink),
                        *sink,
                        outcome_of(result),
                    ) && (read matches Err(error) ==> result == Err::<Outcome, anyhow::Error>(
                        error,
                    )) && (source_before.records() ==> source.records() && source.calls()
                        == source_before.calls().push(SourceCall::Read(read)));
                proof {
                    if old(sink).records() {
                        lemma_mirrored_keeps_sink_laws(
                            before,
                            self.state@,
                            content_of(read),
                            self.mirror_clears,
                            *old(sink),
                            *sink,
                            outcome_of(result),
                        );
                    }
                }
                let outcome = match result {
                    Ok(outcome) => outcome,
                    Err(error) => {
                        assert(mirrored(
                            old(self).last(),
                            self.last(),
                            content_of(read),
                            old(self).mirrors_clears(),
                            *old(sink),
                            *sink,
                            None,
                        ));
                        return Err(error);
                    },
                };
                proof {
                    let seen = choose|content: ContentView|
                        #[trigger] step_result(before, content, self.mirror_clears) == (
                            outcome,
                            self.state@,
                        );
                    assert(step_result(old(self).last(), seen, old(self).mirrors_clears()) == (
                        outcome,
                        self.last(),
                    ));
                }
                if source.has_pending() {
                    self.phase = WatchPhase::Mirroring;
                } else {
                    self.phase = WatchPhase::AwaitingChange;
                }
                assert(mirrored(
                    old(self).last(),
                    self.last(),
                    content_of(read),
                    old(self).mirrors_clears(),
                    *old(sink),
                    *sink,
                    Some(outcome),
                ));
                Ok(Some(outcome))
            },
        }
    }
}

/// A watch starts clean: with nothing remembered and an empty sink
/// record, the sink laws that every step keeps hold.
pub proof fn lemma_watch_starts_clean(calls: Seq<SinkCall>)
    requires
        calls.len() == 0,
    ensures
        remembers(None, calls),
        never_repeats(calls),
        never_clears(calls),
{
}

/// The delay after one more failed attempt: doubled, at most the maximum.
pub open spec fn next_delay(delay_ms: u64) -> u64 {
    if delay_ms * 2 < MAX_BACKOFF_MS {
        (delay_ms * 2) as u64
    } else {
        MAX_BACKOFF_MS
    }
}

/// The delay before the next reconnect attempt.
pub struct Backoff {
    delay_ms: u64,
}

impl Backoff {
    /// The delay stays between the first and the longest delay.
    #[verifier::type_invariant]
    spec fn within_bounds(self) -> bool {
        INITIAL_BACKOFF_MS <= self.delay_ms <= MAX_BACKOFF_MS
    }

    /// The current delay, in milliseconds.
    pub closed spec fn delay(self) -> u64 {
        self.delay_ms
    }

    /// Starts at the first delay.
    pub fn new() -> (backoff: Self)
        ensures
            backoff.delay() == INITIAL_BACKOFF_MS,
    {
        Backoff { delay_ms: INITIAL_BACKOFF_MS }
    }

    /// The current delay, in milliseconds.
    pub fn delay_ms(&self) -> (delay_ms: u64)
        ensures
            delay_ms == self.delay(),
            INITIAL_BACKOFF_MS <= delay_ms <= MAX_BACKOFF_MS,
    {
        proof {
            use_type_invariant(self);
        }
        self.delay_ms
    }

    /// After a successful connection the delay starts over.
    pub fn reset(&mut self)
        ensures
            final(self).delay() == INITIAL_BACKOFF_MS,
    {
        self.delay_ms = INITIAL_BACKOFF_MS;
    }

    /// The sleep after a connection attempt: the first delay when the
    /// attempt connected (its session has ended since), the current delay
    /// otherwise. The delay for the attempt after that has grown.
    pub fn sleep_after_attempt(&mut self, connected: bool) -> (sleep_ms: u64)
        ensures
            sleep_ms == (if connected {
                INITIAL_BACKOFF_MS
            } else {
                old(self).delay()
            }),
            final(self).delay() == next_delay(sleep_ms),
    {
        if connected {
            self.reset();
        }
        let sleep_ms = self.delay_ms();
        self.grow();
        sleep_ms
    }

    /// After a failed attempt the delay doubles, up to the longest delay.
    pub fn grow(&mut self)
        ensures
            final(self).delay() == next_delay(old(self).delay()),
    {
        proof {
            use_type_invariant(&*self);
        }
        let doubled: u64 = self.delay_ms * 2;
        if doubled < MAX_BACKOFF_MS {
            self.delay_ms = doubled;
        } else {
            self.delay_ms = MAX_BACKOFF_MS;
        }
    }
}

/// The first delay doubled `failures` times, without a cap.
pub open spec fn doubled_delay(failures: nat) -> nat
    decreases failures,
{
    if failures == 0 {
        INITIAL_BACKOFF_MS as nat
    } else {
        2 * doubled_delay((failures - 1) as nat)
    }
}

/// The sleep after `failures` failed attempts in a row, counted from the
/// first delay.
pub open spec fn delay_after_failures(failures: nat) -> u64
    decreases failures,
{
    if failures == 0 {
        INITIAL_BACKOFF_MS
    } else {
        next_delay(delay_after_failures((failures - 1) as nat))
    }
}

/// After `failures` failed attempts in a row the sleep is the first
/// delay doubled that many times, at most the longest delay.
pub proof fn lemma_backoff_schedule(failures: nat)
    ensures
        delay_after_failures(failures) == (if doubled_delay(failures) < MAX_BACKOFF_MS {
            doubled_delay(failures)
        } else {
            MAX_BACKOFF_MS as nat
        }),
    decreases failures,
{
    if failures > 0 {
        lemma_backoff_schedule((failures - 1) as nat);
    }
}

/// A failed attempt never shortens the delay, and the delay never leaves
/// the range from the first to the longest delay.
pub proof fn lemma_backoff_grows_within_bounds(delay_ms: u64)
    requires
        INITIAL_BACKOFF_MS <= delay_ms <= MAX_BACKOFF_MS,
    ensures
        delay_ms <= next_delay(delay_ms),
        INITIAL_BACKOFF_MS <= next_delay(delay_ms) <= MAX_BACKOFF_MS,
        delay_ms == MAX_BACKOFF_MS ==> next_delay(delay_ms) == MAX_BACKOFF_MS,
{
}

} // verus!
