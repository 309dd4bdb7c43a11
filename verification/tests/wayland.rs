use watari::mirror::Sink;
use watari::wayland::{Backend, WaylandSink};

#[derive(Debug, Default, PartialEq, Eq)]
struct RecordingBackend {
    texts: Vec<Vec<u8>>,
    clears: usize,
}

impl Backend for RecordingBackend {
    fn set_text(&mut self, bytes: &[u8]) -> anyhow::Result<()> {
        self.texts.push(bytes.to_vec());
        Ok(())
    }

    fn clear(&mut self) -> anyhow::Result<()> {
        self.clears += 1;
        Ok(())
    }
}

#[test]
fn sink_forwards_text_and_clear_to_the_backend() {
    let mut sink = WaylandSink::new(RecordingBackend::default());

    Sink::set_text(&mut sink, b"hello").unwrap();
    Sink::clear(&mut sink).unwrap();
    Sink::set_text(&mut sink, b"world").unwrap();

    assert_eq!(
        sink.into_backend(),
        RecordingBackend {
            texts: vec![b"hello".to_vec(), b"world".to_vec()],
            clears: 1,
        }
    );
}

#[derive(Default)]
struct FailingBackend;

impl Backend for FailingBackend {
    fn set_text(&mut self, _bytes: &[u8]) -> anyhow::Result<()> {
        Err(anyhow::Error::msg("no compositor"))
    }

    fn clear(&mut self) -> anyhow::Result<()> {
        Err(anyhow::Error::msg("no compositor"))
    }
}

#[test]
fn errors_from_the_backend_are_propagated() {
    let mut sink = WaylandSink::new(FailingBackend);
    assert!(Sink::set_text(&mut sink, b"x").is_err());
    assert!(Sink::clear(&mut sink).is_err());
}

#[test]
fn backend_is_reachable_through_the_sink() {
    let mut sink = WaylandSink::new(RecordingBackend::default());
    Sink::set_text(&mut sink, b"abc").unwrap();
    assert_eq!(sink.backend().texts, vec![b"abc".to_vec()]);
    assert_eq!(sink.backend().clears, 0);
}
