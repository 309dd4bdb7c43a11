//! The decisions of the X11 selection protocol: which target to ask for,
//! what an owner change means, and how an INCR transfer is put together.
use vstd::prelude::*;

use x11rb::protocol::xproto::{Atom, Window};

use crate::mirror::{Content, ContentView};

verus! {

/// `x11rb::NONE`, the X protocol's "no window" / "no atom" value: 0, as
/// x11rb defines it.
#[verifier::external_body]
fn none_value() -> (none: u32)
    ensures
        none == 0,
{
    x11rb::NONE
}

/// The wire value of `x11rb::protocol::xfixes::SelectionEvent::SET_SELECTION_OWNER`,
/// through `u8::from`: 0, as x11rb defines it.
#[verifier::external_body]
fn set_selection_owner_code() -> (code: u8)
    ensures
        code == 0,
{
    u8::from(x11rb::protocol::xfixes::SelectionEvent::SET_SELECTION_OWNER)
}

/// The first atom of `preference` that `available` offers.
pub open spec fn first_offered(available: Seq<Atom>, preference: Seq<Atom>) -> Option<Atom>
    decreases preference.len(),
{
    if preference.len() == 0 {
        None
    } else if available.contains(preference[0]) {
        Some(preference[0])
    } else {
        first_offered(available, preference.drop_first())
    }
}

/// Picks the most preferred target that the selection owner offers.
pub fn choose_target(available: &[Atom], preference: &[Atom]) -> (target: Option<Atom>)
    ensures
        target == first_offered(available@, preference@),
{
    let mut i: usize = 0;
    assert(preference@.skip(0) =~= preference@);
    while i < preference.len()
        invariant
            i <= preference@.len(),
            first_offered(available@, preference@.skip(i as int)) == first_offered(
                available@,
                preference@,
            ),
        decreases preference@.len() - i,
    {
        let candidate: Atom = preference[i];
        let ghost rest = preference@.skip(i as int);
        assert(rest[0] == candidate);
        assert(rest.drop_first() =~= preference@.skip(i + 1));
        let mut j: usize = 0;
        while j < available.len()
            invariant
                j <= available@.len(),
                forall|k: int| 0 <= k < j ==> available@[k] != candidate,
                i < preference@.len(),
                rest == preference@.skip(i as int),
                rest[0] == candidate,
                first_offered(available@, rest) == first_offered(available@, preference@),
            decreases available@.len() - j,
        {
            if available[j] == candidate {
                assert(available@.contains(candidate));
                return Some(candidate);
            }
            j = j + 1;
        }
        assert(!available@.contains(candidate));
        i = i + 1;
    }
    None
}

/// What the selection holds, given its owner and the text read from it.
pub open spec fn classify_spec(owner: Window, text: Option<Seq<u8>>) -> ContentView {
    if owner == 0 {
        ContentView::Cleared
    } else {
        match text {
            Some(bytes) => ContentView::Text(bytes),
            None => ContentView::NonText,
        }
    }
}

/// No owner means the selection was cleared, whatever text came along;
/// an owner without a textual target holds non-text.
pub fn classify_owner(owner: Window, text: Option<Vec<u8>>) -> (content: Content)
    ensures
        content@ == classify_spec(
            owner,
            match text {
                Some(bytes) => Some(bytes@),
                None => None,
            },
        ),
{
    if owner == none_value() {
        Content::Cleared
    } else {
        match text {
            Some(bytes) => Content::Text(bytes),
            None => Content::NonText,
        }
    }
}

/// Whether an XFIXES selection event (`subtype` is its wire value) says
/// that the CLIPBOARD got a new owner.
pub fn is_owner_change(subtype: u8, selection: Atom, clipboard: Atom) -> (change: bool)
    ensures
        change == (subtype == 0 && selection == clipboard),
{
    subtype == set_selection_owner_code() && selection == clipboard
}

/// Whether a CLIPBOARD change is waiting, after an XFIXES selection
/// event arrived while a transfer was under way: it is once the event is
/// an owner change of the CLIPBOARD, and stays so until it is taken.
pub fn pending_after_event(pending: bool, subtype: u8, selection: Atom, clipboard: Atom) -> (now_pending: bool)
    ensures
        now_pending == (pending || (subtype == 0 && selection == clipboard)),
{
    pending || is_owner_change(subtype, selection, clipboard)
}

/// Whether the selection's text is worth reading: only when somebody owns
/// it; without an owner the selection is cleared.
pub fn should_fetch_text(owner: Window) -> (fetch: bool)
    ensures
        fetch == (owner != 0),
{
    owner != none_value()
}

/// The length, in 32-bit units, that a property read must ask for to get
/// `bytes` bytes.
pub fn property_words(bytes: u32) -> (words: u32)
    ensures
        words == (bytes + 3) / 4,
{
    let whole: u32 = bytes / 4;
    if bytes % 4 == 0 {
        whole
    } else {
        whole + 1
    }
}

/// A selection conversion that was asked for: the requestor window, the
/// selection and the target.
#[derive(Debug, Clone, Copy, PartialEq, Eq)]
pub struct ConversionRequest {
    pub requestor: Window,
    pub selection: Atom,
    pub target: Atom,
}

/// The fields of a SelectionNotify event that a conversion waits for.
#[derive(Debug, Clone, Copy, PartialEq, Eq)]
pub struct SelectionNotice {
    pub requestor: Window,
    pub selection: Atom,
    pub target: Atom,
    pub property: Atom,
}

impl ConversionRequest {
    /// What `notice` answers to this request: nothing when it is about
    /// another conversion; otherwise the property that holds the result,
    /// or none when the owner declined the target.
    pub fn answer(&self, notice: &SelectionNotice) -> (answer: Option<Option<Atom>>)
        ensures
            answer == (if notice.requestor == self.requestor && notice.selection
                == self.selection && notice.target == self.target {
                Some(
                    if notice.property == 0 {
                        None
                    } else {
                        Some(notice.property)
                    },
                )
            } else {
                None
            }),
    {
        if notice.requestor == self.requestor && notice.selection == self.selection
            && notice.target == self.target {
            if notice.property == none_value() {
                Some(None)
            } else {
                Some(Some(notice.property))
            }
        } else {
            None
        }
    }
}

/// The mathematical value of an [`IncrTransfer`].
pub struct IncrView {
    pub target: Atom,
    pub data: Seq<u8>,
    pub finished: bool,
}

/// One chunk read during an INCR transfer: a write of another type is
/// ignored, an empty chunk of the target type ends the transfer, any
/// other chunk is appended. After the end nothing changes.
pub open spec fn accept_spec(transfer: IncrView, chunk_type: Atom, chunk: Seq<u8>) -> IncrView {
    if transfer.finished || chunk_type != transfer.target {
        transfer
    } else if chunk.len() == 0 {
        IncrView { finished: true, ..transfer }
    } else {
        IncrView { data: transfer.data + chunk, ..transfer }
    }
}

/// The transfer after reading `chunks` in order.
pub open spec fn accept_all(transfer: IncrView, chunks: Seq<(Atom, Seq<u8>)>) -> IncrView
    decreases chunks.len(),
{
    if chunks.len() == 0 {
        transfer
    } else {
        accept_all(accept_spec(transfer, chunks[0].0, chunks[0].1), chunks.drop_first())
    }
}

/// The payload that `chunks` carry for `target`, and whether its end
/// marker is among them: the chunks of the target type before the first
/// empty one, in order.
pub open spec fn incr_payload(target: Atom, chunks: Seq<(Atom, Seq<u8>)>) -> (Seq<u8>, bool)
    decreases chunks.len(),
{
    if chunks.len() == 0 {
        (Seq::empty(), false)
    } else if chunks[0].0 != target {
        incr_payload(target, chunks.drop_first())
    } else if chunks[0].1.len() == 0 {
        (Seq::empty(), true)
    } else {
        let rest = incr_payload(target, chunks.drop_first());
        (chunks[0].1 + rest.0, rest.1)
    }
}

/// An INCR transfer in progress: the requestor deletes the property, the
/// owner writes the next chunk, until it writes an empty one.
pub struct IncrTransfer {
    target: Atom,
    data: Vec<u8>,
    finished: bool,
}

impl View for IncrTransfer {
    type V = IncrView;

    closed spec fn view(&self) -> IncrView {
        IncrView { target: self.target, data: self.data@, finished: self.finished }
    }
}

impl IncrTransfer {
    /// A transfer of `target` with nothing received yet.
    pub fn new(target: Atom) -> (transfer: Self)
        ensures
            transfer@ == (IncrView { target, data: Seq::empty(), finished: false }),
    {
        IncrTransfer { target, data: Vec::new(), finished: false }
    }

    /// Takes the chunk that the property held, of type `chunk_type`, and
    /// says whether the transfer is complete.
    pub fn accept(&mut self, chunk_type: Atom, chunk: &[u8]) -> (finished: bool)
        ensures
            final(self)@ == accept_spec(old(self)@, chunk_type, chunk@),
            finished == final(self)@.finished,
    {
        if self.finished || chunk_type != self.target {
            return self.finished;
        }
        if chunk.len() == 0 {
            self.finished = true;
        } else {
            let mut i: usize = 0;
            let ghost start = self.data@;
            while i < chunk.len()
                invariant
                    i <= chunk@.len(),
                    self.data@ == start + chunk@.subrange(0, i as int),
                    self.target == old(self).target,
                    self.finished == old(self).finished,
                decreases chunk@.len() - i,
            {
                self.data.push(chunk[i]);
                assert(chunk@.subrange(0, i + 1) =~= chunk@.subrange(0, i as int).push(chunk@[i as int]));
                i = i + 1;
            }
            assert(chunk@.subrange(0, chunk@.len() as int) =~= chunk@);
        }
        self.finished
    }

    /// The bytes received so far.
    pub fn into_data(self) -> (data: Vec<u8>)
        ensures
            data@ == self@.data,
    {
        self.data
    }
}

/// The bytes an INCR transfer ends with are the chunks of the target type
/// before the end marker, in order; writes of other types are ignored.
pub proof fn lemma_incr_collects_payload(target: Atom, chunks: Seq<(Atom, Seq<u8>)>)
    ensures
        accept_all(IncrView { target, data: Seq::empty(), finished: false }, chunks) == (IncrView {
            target,
            data: incr_payload(target, chunks).0,
            finished: incr_payload(target, chunks).1,
        }),
{
    lemma_incr_collects_from(target, Seq::empty(), chunks);
    assert(Seq::<u8>::empty() + incr_payload(target, chunks).0 =~= incr_payload(target, chunks).0);
}

proof fn lemma_incr_collects_from(target: Atom, data: Seq<u8>, chunks: Seq<(Atom, Seq<u8>)>)
    ensures
        accept_all(IncrView { target, data, finished: false }, chunks) == (IncrView {
            target,
            data: data + incr_payload(target, chunks).0,
            finished: incr_payload(target, chunks).1,
        }),
    decreases chunks.len(),
{
    if chunks.len() == 0 {
        assert(data + Seq::<u8>::empty() =~= data);
    } else if chunks[0].0 != target {
        lemma_incr_collects_from(target, data, chunks.drop_first());
    } else if chunks[0].1.len() == 0 {
        lemma_finished_stays(IncrView { target, data, finished: true }, chunks.drop_first());
        assert(data + Seq::<u8>::empty() =~= data);
    } else {
        let next = data + chunks[0].1;
        lemma_incr_collects_from(target, next, chunks.drop_first());
        assert(next + incr_payload(target, chunks.drop_first()).0 =~= data + (chunks[0].1
            + incr_payload(target, chunks.drop_first()).0));
    }
}

proof fn lemma_finished_stays(transfer: IncrView, chunks: Seq<(Atom, Seq<u8>)>)
    requires
        transfer.finished,
    ensures
        accept_all(transfer, chunks) == transfer,
    decreases chunks.len(),
{
    if chunks.len() > 0 {
        lemma_finished_stays(transfer, chunks.drop_first());
    }
}


/// Where reading the CLIPBOARD's text stands.
#[derive(Debug, Clone, Copy, PartialEq, Eq)]
pub enum FetchPhase {
    /// Waiting for the owner to convert the selection to TARGETS.
    ConvertingTargets,
    /// Waiting for the list of targets to be read.
    ReadingTargets,
    /// Waiting for the owner to convert the selection to this target.
    ConvertingText(Atom),
    /// Waiting for the converted property of this target to be read.
    ReadingText(Atom),
    /// Nothing more to do.
    Finished,
}

/// What the reader of the selection does next.
#[derive(Debug, Clone, Copy, PartialEq, Eq)]
pub enum FetchAction {
    /// Ask the owner to convert the selection to this target.
    Convert(Atom),
    /// Read and delete the property that holds the list of targets.
    ReadTargets,
    /// Read the property that holds the converted text.
    ReadText,
    /// The owner sends this target in INCR chunks: read it with an
    /// [`IncrTransfer`].
    ReadIncr(Atom),
    /// The property just read holds the whole text.
    UseReply,
    /// The selection has no text to give.
    NoText,
}

/// What happened since the last action.
#[derive(Debug, Clone, PartialEq, Eq)]
pub enum FetchEvent {
    /// The owner answered a conversion: accepted (a property holds the
    /// result) or declined.
    Converted(bool),
    /// The targets the owner offers.
    TargetsRead(Vec<Atom>),
    /// The type of the property that holds the converted text.
    ReplyRead(Atom),
}

/// The mathematical value of a [`FetchEvent`].
pub enum FetchEventView {
    Converted(bool),
    TargetsRead(Seq<Atom>),
    ReplyRead(Atom),
}

impl View for FetchEvent {
    type V = FetchEventView;

    open spec fn view(&self) -> FetchEventView {
        match self {
            FetchEvent::Converted(accepted) => FetchEventView::Converted(*accepted),
            FetchEvent::TargetsRead(available) => FetchEventView::TargetsRead(available@),
            FetchEvent::ReplyRead(reply_type) => FetchEventView::ReplyRead(*reply_type),
        }
    }
}

/// The phase and the action after `event` in `phase`: TARGETS first, then
/// the most preferred offered target, then either the reply itself or an
/// INCR transfer when the reply's type is `incr`. A declined conversion,
/// no offered target, or an event that does not fit the phase ends the
/// read without text.
pub open spec fn fetch_next(
    phase: FetchPhase,
    preference: Seq<Atom>,
    incr: Atom,
    event: FetchEventView,
) -> (FetchPhase, FetchAction) {
    match phase {
        FetchPhase::ConvertingTargets => match event {
            FetchEventView::Converted(true) => (FetchPhase::ReadingTargets, FetchAction::ReadTargets),
            _ => (FetchPhase::Finished, FetchAction::NoText),
        },
        FetchPhase::ReadingTargets => match event {
            FetchEventView::TargetsRead(available) => match first_offered(available, preference) {
                Some(target) => (FetchPhase::ConvertingText(target), FetchAction::Convert(target)),
                None => (FetchPhase::Finished, FetchAction::NoText),
            },
            _ => (FetchPhase::Finished, FetchAction::NoText),
        },
        FetchPhase::ConvertingText(target) => match event {
            FetchEventView::Converted(true) => (FetchPhase::ReadingText(target), FetchAction::ReadText),
            _ => (FetchPhase::Finished, FetchAction::NoText),
        },
        FetchPhase::ReadingText(target) => match event {
            FetchEventView::ReplyRead(reply_type) => (
                FetchPhase::Finished,
                if reply_type == incr {
                    FetchAction::ReadIncr(target)
                } else {
                    FetchAction::UseReply
                },
            ),
            _ => (FetchPhase::Finished, FetchAction::NoText),
        },
        FetchPhase::Finished => (FetchPhase::Finished, FetchAction::NoText),
    }
}

/// Whether `target` is one of `preference`.
pub open spec fn is_preferred(preference: Seq<Atom>, target: Atom) -> bool {
    preference.contains(target)
}

/// Reading the text of the selection, one protocol step at a time.
pub struct TextFetch {
    phase: FetchPhase,
    incr: Atom,
    preference: Vec<Atom>,
}

impl TextFetch {
    /// Only a target of the preference list is ever converted or read.
    #[verifier::type_invariant]
    spec fn targets_are_preferred(self) -> bool {
        match self.phase {
            FetchPhase::ConvertingText(target) => is_preferred(self.preference@, target),
            FetchPhase::ReadingText(target) => is_preferred(self.preference@, target),
            _ => true,
        }
    }

    /// The current phase.
    pub closed spec fn phase(self) -> FetchPhase {
        self.phase
    }

    /// The text targets, most preferred first.
    pub closed spec fn preference(self) -> Seq<Atom> {
        self.preference@
    }

    /// The type that marks an INCR transfer.
    pub closed spec fn incr(self) -> Atom {
        self.incr
    }

    /// Starts a read: the first action is converting to `targets_atom`.
    pub fn start(targets_atom: Atom, incr: Atom, preference: Vec<Atom>) -> (started: (Self, FetchAction))
        ensures
            started.0.phase() == FetchPhase::ConvertingTargets,
            started.0.preference() == preference@,
            started.0.incr() == incr,
            started.1 == FetchAction::Convert(targets_atom),
    {
        (TextFetch { phase: FetchPhase::ConvertingTargets, incr, preference }, FetchAction::Convert(targets_atom))
    }

    /// The next action after `event`.
    pub fn next(&mut self, event: FetchEvent) -> (action: FetchAction)
        ensures
            (final(self).phase(), action) == fetch_next(
                old(self).phase(),
                old(self).preference(),
                old(self).incr(),
                event@,
            ),
            final(self).preference() == old(self).preference(),
            final(self).incr() == old(self).incr(),
            action matches FetchAction::Convert(target) ==> is_preferred(old(self).preference(), target),
            action matches FetchAction::ReadIncr(target) ==> is_preferred(old(self).preference(), target),
    {
        proof {
            use_type_invariant(&*self);
        }
        let (phase, action) = match self.phase {
            FetchPhase::ConvertingTargets => match event {
                FetchEvent::Converted(true) => (FetchPhase::ReadingTargets, FetchAction::ReadTargets),
                _ => (FetchPhase::Finished, FetchAction::NoText),
            },
            FetchPhase::ReadingTargets => match event {
                FetchEvent::TargetsRead(available) => {
                    match choose_target(available.as_slice(), self.preference.as_slice()) {
                        Some(target) => {
                            proof {
                                lemma_first_offered_is_preferred(available@, self.preference@);
                            }
                            (FetchPhase::ConvertingText(target), FetchAction::Convert(target))
                        },
                        None => (FetchPhase::Finished, FetchAction::NoText),
                    }
                },
                _ => (FetchPhase::Finished, FetchAction::NoText),
            },
            FetchPhase::ConvertingText(target) => match event {
                FetchEvent::Converted(true) => (FetchPhase::ReadingText(target), FetchAction::ReadText),
                _ => (FetchPhase::Finished, FetchAction::NoText),
            },
            FetchPhase::ReadingText(target) => match event {
                FetchEvent::ReplyRead(reply_type) => {
                    if reply_type == self.incr {
                        (FetchPhase::Finished, FetchAction::ReadIncr(target))
                    } else {
                        (FetchPhase::Finished, FetchAction::UseReply)
                    }
                },
                _ => (FetchPhase::Finished, FetchAction::NoText),
            },
            FetchPhase::Finished => (FetchPhase::Finished, FetchAction::NoText),
        };
        self.phase = phase;
        action
    }
}

/// The chosen target is one of the preferred ones, and one the owner offers.
pub proof fn lemma_first_offered_is_preferred(available: Seq<Atom>, preference: Seq<Atom>)
    ensures
        first_offered(available, preference) matches Some(target) ==> preference.contains(target)
            && available.contains(target),
    decreases preference.len(),
{
    if preference.len() > 0 && !available.contains(preference[0]) {
        lemma_first_offered_is_preferred(available, preference.drop_first());
        match first_offered(available, preference) {
            Some(target) => {
                let k = choose|k: int|
                    0 <= k < preference.drop_first().len() && preference.drop_first()[k] == target;
                assert(preference[k + 1] == target);
            },
            None => {},
        }
    }
}

/// With an owner, whatever text was read, empty included, is the content
/// byte for byte, and only a read without text is non-text; without an
/// owner the selection is cleared, whatever was read.
pub proof fn lemma_classify_keeps_all_text(owner: Window, text: Option<Seq<u8>>)
    ensures
        owner != 0 ==> (text matches Some(bytes) ==> classify_spec(owner, text)
            == ContentView::Text(bytes)),
        owner != 0 ==> ((classify_spec(owner, text) == ContentView::NonText) == (text is None)),
        owner == 0 ==> classify_spec(owner, text) == ContentView::Cleared,
{
}

} // verus!
