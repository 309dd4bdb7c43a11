//! The Wayland side: a sink that hands text to a clipboard backend.
use vstd::prelude::*;

use crate::error::with_context;
use crate::mirror::{DecisionView, Sink, SinkCall};

verus! {

/// Something that can set and clear the Wayland clipboard.
///
/// A backend may keep a record of the calls it answered; when
/// [`Backend::records`] holds, each call appends itself to
/// [`Backend::calls`].
pub trait Backend {
    /// Whether this backend keeps a record of its calls; by default
    /// it keeps none.
    open spec fn records(&self) -> bool {
        false
    }

    /// The calls answered so far, oldest first; empty unless recorded.
    open spec fn calls(&self) -> Seq<SinkCall> {
        Seq::empty()
    }

    /// Offers `bytes` as the clipboard's text.
    fn set_text(&mut self, bytes: &[u8]) -> (result: Result<(), anyhow::Error>)
        ensures
            old(self).records() ==> final(self).records() && final(self).calls() == old(
                self,
            ).calls().push((SinkCall { request: DecisionView::SetText(bytes@), succeeded: result is Ok })),
    ;

    /// Empties the clipboard.
    fn clear(&mut self) -> (result: Result<(), anyhow::Error>)
        ensures
            old(self).records() ==> final(self).records() && final(self).calls() == old(
                self,
            ).calls().push((SinkCall { request: DecisionView::Clear, succeeded: result is Ok })),
    ;
}

/// The system's Wayland clipboard, through wl-clipboard-rs.
#[derive(Debug, Default, Clone, Copy)]
pub struct WaylandBackend;

/// Offers `bytes` as text on the regular clipboard of every seat, through
/// `wl_clipboard_rs::copy::Options::new().copy(Source::Bytes(..),
/// MimeType::Text)`; the crate's error becomes an `anyhow::Error`.
///
/// Nothing is stated of the result: it depends on the compositor. On
/// success wl-clipboard-rs keeps a background thread that serves the text
/// until another client takes the selection.
#[verifier::external_body]
fn offer_wayland_text(bytes: &[u8]) -> Result<(), anyhow::Error> {
    wl_clipboard_rs::copy::Options::new().copy(
        wl_clipboard_rs::copy::Source::Bytes(bytes.to_vec().into()),
        wl_clipboard_rs::copy::MimeType::Text,
    ).map_err(anyhow::Error::from)
}

/// Clears the regular clipboard of every seat, through
/// `wl_clipboard_rs::copy::clear(ClipboardType::Regular, Seat::All)`; the
/// crate's error becomes an `anyhow::Error`.
///
/// Nothing is stated of the result: it depends on the compositor.
#[verifier::external_body]
fn clear_wayland_clipboard() -> Result<(), anyhow::Error> {
    wl_clipboard_rs::copy::clear(
        wl_clipboard_rs::copy::ClipboardType::Regular,
        wl_clipboard_rs::copy::Seat::All,
    ).map_err(anyhow::Error::from)
}

impl Backend for WaylandBackend {
    /// The system clipboard keeps no record.
    open spec fn records(&self) -> bool {
        false
    }

    open spec fn calls(&self) -> Seq<SinkCall> {
        Seq::empty()
    }

    fn set_text(&mut self, bytes: &[u8]) -> Result<(), anyhow::Error> {
        match offer_wayland_text(bytes) {
            Ok(()) => Ok(()),
            Err(error) => Err(with_context(error, "set the Wayland clipboard")),
        }
    }

    fn clear(&mut self) -> Result<(), anyhow::Error> {
        match clear_wayland_clipboard() {
            Ok(()) => Ok(()),
            Err(error) => Err(with_context(error, "clear the Wayland clipboard")),
        }
    }
}

/// A [`Sink`] that forwards to a [`Backend`].
pub struct WaylandSink<B: Backend = WaylandBackend> {
    backend: B,
}

impl<B: Backend> WaylandSink<B> {
    /// The backend that the sink forwards to.
    pub closed spec fn inner(&self) -> B {
        self.backend
    }

    /// A sink that forwards to `backend`.
    pub fn new(backend: B) -> (sink: Self)
        ensures
            sink.inner() == backend,
    {
        WaylandSink { backend }
    }

    /// The backend.
    pub fn backend(&self) -> (backend: &B)
        ensures
            *backend == self.inner(),
    {
        &self.backend
    }

    /// Gives the backend back.
    pub fn into_backend(self) -> (backend: B)
        ensures
            backend == self.inner(),
    {
        self.backend
    }
}

impl WaylandSink<WaylandBackend> {
    /// A sink for the system's Wayland clipboard.
    pub fn system() -> (sink: Self)
        ensures
            sink.inner() == WaylandBackend,
    {
        Self::new(WaylandBackend)
    }
}

impl<B: Backend> Sink for WaylandSink<B> {
    /// The sink records what its backend records.
    open spec fn records(&self) -> bool {
        self.inner().records()
    }

    /// The calls that reached the backend.
    open spec fn calls(&self) -> Seq<SinkCall> {
        self.inner().calls()
    }

    fn set_text(&mut self, bytes: &[u8]) -> Result<(), anyhow::Error> {
        self.backend.set_text(bytes)
    }

    fn clear(&mut self) -> Result<(), anyhow::Error> {
        self.backend.clear()
    }
}

} // verus!
