//! What to do with the X CLIPBOARD content: publish it, clear the Wayland
//! side, or skip, and what to remember afterwards.
use vstd::prelude::*;
use vstd::utf8::valid_utf8;

verus! {

/// What the X side currently holds.
#[derive(Debug, Clone, PartialEq, Eq)]
pub enum Content {
    /// The owner handed over these bytes in a textual target.
    Text(Vec<u8>),
    /// Nobody owns the selection.
    Cleared,
    /// The owner offers no textual target.
    NonText,
}

/// Why nothing was published.
#[derive(Debug, Clone, Copy, PartialEq, Eq)]
pub enum SkipReason {
    NoText,
    Unchanged,
    ClearsDisabled,
    AlreadyCleared,
}

/// What the mirror decided to do with one piece of content.
#[derive(Debug, Clone, PartialEq, Eq)]
pub enum Decision {
    SetText(Vec<u8>),
    Clear,
    Skip(SkipReason),
}

/// What one mirroring step ended with.
#[derive(Debug, Clone, PartialEq, Eq)]
pub enum Outcome {
    /// Text of this many bytes was published.
    MirroredText(usize),
    MirroredClear,
    Skipped(SkipReason),
}

/// The mathematical value of a [`Content`].
pub enum ContentView {
    Text(Seq<u8>),
    Cleared,
    NonText,
}

/// The mathematical value of a [`Decision`].
pub enum DecisionView {
    SetText(Seq<u8>),
    Clear,
    Skip(SkipReason),
}

impl View for Content {
    type V = ContentView;

    open spec fn view(&self) -> ContentView {
        match self {
            Content::Text(bytes) => ContentView::Text(bytes@),
            Content::Cleared => ContentView::Cleared,
            Content::NonText => ContentView::NonText,
        }
    }
}

impl View for Decision {
    type V = DecisionView;

    open spec fn view(&self) -> DecisionView {
        match self {
            Decision::SetText(text) => DecisionView::SetText(text@),
            Decision::Clear => DecisionView::Clear,
            Decision::Skip(reason) => DecisionView::Skip(*reason),
        }
    }
}

/// The bytes that `String::from_utf8_lossy` makes of `bytes`: every
/// invalid UTF-8 sequence replaced by U+FFFD.
pub uninterp spec fn utf8_lossy(bytes: Seq<u8>) -> Seq<u8>;

/// `String::from_utf8_lossy(bytes)`, as owned bytes.
///
/// Claims that the result is the named function [`utf8_lossy`] of the
/// input, and, as std documents, that valid UTF-8 comes back unchanged.
#[verifier::external_body]
fn lossy_utf8(bytes: &[u8]) -> (text: Vec<u8>)
    ensures
        text@ == utf8_lossy(bytes@),
        valid_utf8(bytes@) ==> text@ == bytes@,
{
    String::from_utf8_lossy(bytes).into_owned().into_bytes()
}

/// The decision for a cleared (or emptied) X clipboard.
pub open spec fn decide_clear_spec(last: Option<Seq<u8>>, mirror_clears: bool) -> DecisionView {
    if !mirror_clears {
        DecisionView::Skip(SkipReason::ClearsDisabled)
    } else if last == Some(Seq::<u8>::empty()) {
        DecisionView::Skip(SkipReason::AlreadyCleared)
    } else {
        DecisionView::Clear
    }
}

/// The decision for `content`, given what was last published.
pub open spec fn decide_spec(
    last: Option<Seq<u8>>,
    content: ContentView,
    mirror_clears: bool,
) -> DecisionView {
    match content {
        ContentView::NonText => DecisionView::Skip(SkipReason::NoText),
        ContentView::Cleared => decide_clear_spec(last, mirror_clears),
        ContentView::Text(bytes) => decide_text_spec(last, utf8_lossy(bytes), mirror_clears),
    }
}

/// The decision for text that is already valid UTF-8: empty text is a
/// clear; text equal to what was last published is skipped.
pub open spec fn decide_text_spec(
    last: Option<Seq<u8>>,
    text: Seq<u8>,
    mirror_clears: bool,
) -> DecisionView {
    if text.len() == 0 {
        decide_clear_spec(last, mirror_clears)
    } else if last == Some(text) {
        DecisionView::Skip(SkipReason::Unchanged)
    } else {
        DecisionView::SetText(text)
    }
}

/// What is remembered after `decision` was carried out.
pub open spec fn record_spec(last: Option<Seq<u8>>, decision: DecisionView) -> Option<Seq<u8>> {
    match decision {
        DecisionView::SetText(text) => Some(text),
        DecisionView::Clear => Some(Seq::<u8>::empty()),
        DecisionView::Skip(_) => last,
    }
}

/// Whether `decision` publishes something on the Wayland side.
pub open spec fn publishes(decision: DecisionView) -> bool {
    !(decision is Skip)
}

/// Remembers what was last published, so that nothing is published twice.
#[derive(Debug, Default)]
pub struct MirrorState {
    last: Option<Vec<u8>>,
}

impl View for MirrorState {
    /// The bytes last published (empty after a clear), if anything was.
    type V = Option<Seq<u8>>;

    closed spec fn view(&self) -> Option<Seq<u8>> {
        match self.last {
            Some(bytes) => Some(bytes@),
            None => None,
        }
    }
}

/// Whether two byte slices hold the same bytes.
fn same_bytes(a: &[u8], b: &[u8]) -> (same: bool)
    ensures
        same == (a@ == b@),
{
    if a.len() != b.len() {
        return false;
    }
    let mut i: usize = 0;
    while i < a.len()
        invariant
            a@.len() == b@.len(),
            i <= a@.len(),
            forall|j: int| 0 <= j < i ==> a@[j] == b@[j],
        decreases a@.len() - i,
    {
        if a[i] != b[i] {
            return false;
        }
        i = i + 1;
    }
    assert(a@ =~= b@);
    true
}

impl MirrorState {
    /// A state that has published nothing yet.
    pub fn new() -> (state: Self)
        ensures
            state@ == None::<Seq<u8>>,
    {
        MirrorState { last: None }
    }

    /// The bytes last published, if anything was.
    pub fn last(&self) -> (last: Option<&[u8]>)
        ensures
            match last {
                Some(bytes) => self@ == Some(bytes@),
                None => self@ == None::<Seq<u8>>,
            },
    {
        match &self.last {
            Some(bytes) => Some(bytes.as_slice()),
            None => None,
        }
    }

    /// Decides what to do with `content`.
    ///
    /// Text is first made valid UTF-8 (invalid sequences become U+FFFD).
    /// Empty text counts as a clear. A clear is skipped when clears are
    /// not mirrored or when the last thing published was already a clear;
    /// text is skipped when it equals what was last published. Text that
    /// is valid UTF-8 is published byte for byte.
    pub fn decide(&self, content: Content, mirror_clears: bool) -> (decision: Decision)
        ensures
            decision@ == decide_spec(self@, content@, mirror_clears),
            content@ matches ContentView::Text(bytes) ==> (valid_utf8(bytes) ==> (
            decision@ matches DecisionView::SetText(text) ==> text == bytes)),
            content@ matches ContentView::Text(bytes) ==> (valid_utf8(bytes) ==> utf8_lossy(bytes)
                == bytes),
    {
        match content {
            Content::NonText => Decision::Skip(SkipReason::NoText),
            Content::Cleared => self.decide_clear(mirror_clears),
            Content::Text(bytes) => self.decide_text(lossy_utf8(bytes.as_slice()), mirror_clears),
        }
    }

    /// Decides what to do with text that was already made valid UTF-8:
    /// empty text counts as a clear, text equal to what was last
    /// published is skipped, other text is published.
    pub fn decide_text(&self, text: Vec<u8>, mirror_clears: bool) -> (decision: Decision)
        ensures
            decision@ == decide_text_spec(self@, text@, mirror_clears),
    {
        if text.len() == 0 {
            self.decide_clear(mirror_clears)
        } else {
            let unchanged = match self.last() {
                Some(last) => same_bytes(last, text.as_slice()),
                None => false,
            };
            if unchanged {
                Decision::Skip(SkipReason::Unchanged)
            } else {
                Decision::SetText(text)
            }
        }
    }

    /// Remembers what `decision` published; a skip changes nothing.
    pub fn record(&mut self, decision: &Decision)
        ensures
            final(self)@ == record_spec(old(self)@, decision@),
    {
        match decision {
            Decision::SetText(text) => {
                let copy = text.clone();
                assert(copy@ =~= text@);
                self.last = Some(copy);
            },
            Decision::Clear => {
                self.last = Some(Vec::new());
            },
            Decision::Skip(_) => {},
        }
    }

    fn decide_clear(&self, mirror_clears: bool) -> (decision: Decision)
        ensures
            decision@ == decide_clear_spec(self@, mirror_clears),
    {
        if !mirror_clears {
            Decision::Skip(SkipReason::ClearsDisabled)
        } else {
            let already = match self.last() {
                Some(last) => {
                    if last.len() == 0 {
                        assert(last@ =~= Seq::<u8>::empty());
                        true
                    } else {
                        false
                    }
                },
                None => false,
            };
            if already {
                Decision::Skip(SkipReason::AlreadyCleared)
            } else {
                Decision::Clear
            }
        }
    }
}

impl SkipReason {
    /// The sentence that describes this reason in the log.
    pub fn message(&self) -> (text: &'static str)
        ensures
            text@ == skip_message(*self),
    {
        match self {
            SkipReason::NoText => "CLIPBOARD has no textual target",
            SkipReason::Unchanged => "CLIPBOARD is unchanged",
            SkipReason::ClearsDisabled => "CLIPBOARD was cleared but MIRROR_CLEARS is off",
            SkipReason::AlreadyCleared => "CLIPBOARD is already cleared",
        }
    }
}

/// The log sentence for each skip reason.
pub open spec fn skip_message(reason: SkipReason) -> Seq<char> {
    match reason {
        SkipReason::NoText => "CLIPBOARD has no textual target"@,
        SkipReason::Unchanged => "CLIPBOARD is unchanged"@,
        SkipReason::ClearsDisabled => "CLIPBOARD was cleared but MIRROR_CLEARS is off"@,
        SkipReason::AlreadyCleared => "CLIPBOARD is already cleared"@,
    }
}

/// One call that a [`Source`] answered.
pub enum SourceCall {
    /// `wait_for_change`, and the error it returned, if any.
    Waited(Option<anyhow::Error>),
    /// `current`, and the content it read or the error it returned.
    Read(Result<ContentView, anyhow::Error>),
    /// `has_pending`, and its answer.
    Pending(bool),
}

/// One call that a [`Sink`] answered: what it was asked to publish
/// (`SetText` or `Clear`), and whether that succeeded.
pub struct SinkCall {
    pub request: DecisionView,
    pub succeeded: bool,
}

/// Where clipboard content comes from.
///
/// A source may keep a record of the calls it answered; when
/// [`Source::records`] holds, each call appends itself to
/// [`Source::calls`].
pub trait Source {
    /// Whether this source keeps a record of its calls; by default
    /// it keeps none.
    open spec fn records(&self) -> bool {
        false
    }

    /// The calls answered so far, oldest first; empty unless recorded.
    open spec fn calls(&self) -> Seq<SourceCall> {
        Seq::empty()
    }

    /// Blocks until the selection owner changes.
    fn wait_for_change(&mut self) -> (result: Result<(), anyhow::Error>)
        ensures
            old(self).records() ==> final(self).records() && final(self).calls() == old(
                self,
            ).calls().push(
                SourceCall::Waited(
                    match result {
                        Ok(_) => None,
                        Err(error) => Some(error),
                    },
                ),
            ),
    ;

    /// Reads what the selection currently holds.
    fn current(&mut self) -> (result: Result<Content, anyhow::Error>)
        ensures
            old(self).records() ==> final(self).records() && final(self).calls() == old(
                self,
            ).calls().push(
                SourceCall::Read(
                    match result {
                        Ok(content) => Ok(content@),
                        Err(error) => Err(error),
                    },
                ),
            ),
    ;

    /// Whether another change arrived while the last one was read, and
    /// forgets that it did.
    fn has_pending(&mut self) -> (pending: bool)
        ensures
            old(self).records() ==> final(self).records() && final(self).calls() == old(
                self,
            ).calls().push(SourceCall::Pending(pending)),
    ;
}

/// Where mirrored content goes.
///
/// A sink may keep a record of the calls it answered; when
/// [`Sink::records`] holds, each call appends itself to [`Sink::calls`].
pub trait Sink {
    /// Whether this sink keeps a record of its calls; by default
    /// it keeps none.
    open spec fn records(&self) -> bool {
        false
    }

    /// The calls answered so far, oldest first; empty unless recorded.
    open spec fn calls(&self) -> Seq<SinkCall> {
        Seq::empty()
    }

    /// Publishes `bytes` as the clipboard's text.
    fn set_text(&mut self, bytes: &[u8]) -> (result: Result<(), anyhow::Error>)
        ensures
            old(self).records() ==> final(self).records() && final(self).calls() == old(
                self,
            ).calls().push((SinkCall { request: DecisionView::SetText(bytes@), succeeded: result is Ok })),
    ;

    /// Empties the clipboard.
    fn clear(&mut self) -> (result: Result<(), anyhow::Error>)
        ensures
            old(self).records() ==> final(self).records() && final(self).calls() == old(
                self,
            ).calls().push((SinkCall { request: DecisionView::Clear, succeeded: result is Ok })),
    ;
}

/// Deciding on the same content again, right after recording the
/// decision, publishes nothing: the mirror never writes the same thing
/// twice in a row.
pub proof fn lemma_no_repeated_publish(last: Option<Seq<u8>>, content: ContentView, mirror_clears: bool)
    ensures
        !publishes(
            decide_spec(
                record_spec(last, decide_spec(last, content, mirror_clears)),
                content,
                mirror_clears,
            ),
        ),
{
}

/// Every publication differs from what was published before it, and
/// afterwards it is what the state remembers.
pub proof fn lemma_publish_changes_the_clipboard(
    last: Option<Seq<u8>>,
    content: ContentView,
    mirror_clears: bool,
)
    ensures
        publishes(decide_spec(last, content, mirror_clears)) ==> record_spec(
            last,
            decide_spec(last, content, mirror_clears),
        ) != last,
        !publishes(decide_spec(last, content, mirror_clears)) ==> record_spec(
            last,
            decide_spec(last, content, mirror_clears),
        ) == last,
{
}

/// A clear is only published when clears are mirrored, and content
/// without a textual target is never published.
pub proof fn lemma_clears_need_permission(
    last: Option<Seq<u8>>,
    content: ContentView,
    mirror_clears: bool,
)
    ensures
        decide_spec(last, content, mirror_clears) == DecisionView::Clear ==> mirror_clears,
        content == ContentView::NonText ==> !publishes(decide_spec(last, content, mirror_clears)),
{
}

/// Non-empty text is skipped as unchanged exactly when it is byte for byte
/// what was last published; any other non-empty text is published as it
/// is.
pub proof fn lemma_unchanged_only_for_identical_text(
    last: Option<Seq<u8>>,
    text: Seq<u8>,
    mirror_clears: bool,
)
    requires
        text.len() > 0,
    ensures
        (decide_text_spec(last, text, mirror_clears) == DecisionView::Skip(SkipReason::Unchanged))
            == (last == Some(text)),
        last != Some(text) ==> decide_text_spec(last, text, mirror_clears) == DecisionView::SetText(
            text,
        ),
        decide_spec(last, ContentView::Text(text), mirror_clears) == decide_text_spec(
            last,
            utf8_lossy(text),
            mirror_clears,
        ),
{
}

/// Empty text is treated as a clear, whatever was published before.
pub proof fn lemma_empty_text_is_a_clear(last: Option<Seq<u8>>, mirror_clears: bool)
    ensures
        decide_text_spec(last, Seq::empty(), mirror_clears) == decide_spec(
            last,
            ContentView::Cleared,
            mirror_clears,
        ),
        mirror_clears && last != Some(Seq::<u8>::empty()) ==> decide_text_spec(
            last,
            Seq::empty(),
            mirror_clears,
        ) == DecisionView::Clear,
{
}

} // verus!
