//! The stream adapter: from what comes off the response channel to growing
//! snapshots of the text so far.
//!
//! [`StreamAdapter::accept`] is the decision: it is handed the next value of
//! the channel, `Some(event)` for an event and `None` once the channel is
//! closed, and says what the consumer gets. [`StreamAdapter::pull`] also
//! does the waiting on the channel.

use vstd::prelude::*;
use vstd::utf8::encode_utf8;
use bytes::BytesMut;
use std::sync::mpsc::Receiver;
use crate::buffer::{buffer_bytes, max_buffer_len, OutputBuffer};
use crate::channel::receive_from;
use crate::event::{EventView, ResponseEvent};

verus! {

/// Where a response stands.
#[derive(Clone, Copy, Debug, PartialEq, Eq, Structural)]
pub enum Status {
    /// More content may follow.
    Streaming,
    /// The terminal marker arrived.
    Completed,
    /// The channel closed before any marker arrived.
    Disconnected,
}

/// The mathematical value of a [`StreamAdapter`].
pub struct AdapterView {
    /// The bytes accumulated so far.
    pub content: Seq<u8>,
    pub status: Status,
}

/// What one accepted value means for the consumer.
pub enum Pulled {
    /// A snapshot of the whole text so far.
    Chunk(BytesMut),
    /// Nothing to show; the response goes on.
    Skipped,
    /// The response is over: no chunk follows.
    End,
}

/// What one accepted value means for the consumer, as a mathematical value.
pub enum PulledView {
    Chunk(Seq<u8>),
    Skipped,
    End,
}

impl View for Pulled {
    type V = PulledView;

    open spec fn view(&self) -> PulledView {
        match self {
            Pulled::Chunk(bytes) => PulledView::Chunk(buffer_bytes(*bytes)),
            Pulled::Skipped => PulledView::Skipped,
            Pulled::End => PulledView::End,
        }
    }
}

/// The mathematical value of what came off the channel.
pub open spec fn arrival(incoming: Option<ResponseEvent>) -> Option<EventView> {
    match incoming {
        Some(event) => Some(event@),
        None => None,
    }
}

/// The adapter before any value of its response.
pub open spec fn fresh() -> AdapterView {
    AdapterView { content: Seq::<u8>::empty(), status: Status::Streaming }
}

/// The adapter after one more value of the channel.
///
/// Once a response is over nothing changes it. While it streams, a fragment
/// is added at the end of the content, a marker completes it, a closed
/// channel disconnects it, and a diagnostic leaves it as it is.
pub open spec fn step(a: AdapterView, incoming: Option<EventView>) -> AdapterView {
    if a.status != Status::Streaming {
        a
    } else {
        match incoming {
            Some(EventView::PartialUnit(text)) => AdapterView {
                content: a.content + encode_utf8(text),
                status: Status::Streaming,
            },
            Some(EventView::TerminalMarker) => AdapterView { status: Status::Completed, ..a },
            Some(EventView::Other(_)) => a,
            None => AdapterView { status: Status::Disconnected, ..a },
        }
    }
}

/// What the consumer gets for one more value of the channel.
pub open spec fn pulled(a: AdapterView, incoming: Option<EventView>) -> PulledView {
    if a.status != Status::Streaming {
        PulledView::End
    } else {
        match incoming {
            Some(EventView::PartialUnit(text)) => PulledView::Chunk(a.content + encode_utf8(text)),
            Some(EventView::TerminalMarker) => PulledView::End,
            Some(EventView::Other(_)) => PulledView::Skipped,
            None => PulledView::End,
        }
    }
}

/// The snapshot that the consumer gets for one more value of the channel,
/// if it gets one.
pub open spec fn chunk_of(a: AdapterView, incoming: Option<EventView>) -> Option<Seq<u8>> {
    match pulled(a, incoming) {
        PulledView::Chunk(bytes) => Some(bytes),
        _ => None,
    }
}

/// Whether the adapter's buffer can take what `incoming` would add.
pub open spec fn fits(a: AdapterView, incoming: Option<EventView>) -> bool {
    match incoming {
        Some(EventView::PartialUnit(text)) => a.status == Status::Streaming ==> a.content.len()
            + encode_utf8(text).len() <= max_buffer_len(),
        _ => true,
    }
}

/// What [`StreamAdapter::offer`] does with `incoming`: where the buffer has
/// room, the step that [`StreamAdapter::accept`] takes; where it has not,
/// nothing, and the fragment comes back.
pub open spec fn offered(
    before: AdapterView,
    incoming: Option<ResponseEvent>,
    after: AdapterView,
    out: Result<Pulled, ResponseEvent>,
) -> bool {
    if fits(before, arrival(incoming)) {
        &&& after == step(before, arrival(incoming))
        &&& out matches Ok(p)
        &&& p@ == pulled(before, arrival(incoming))
    } else {
        &&& after == before
        &&& incoming matches Some(event)
        &&& out == Err::<Pulled, ResponseEvent>(event)
    }
}

/// The adapter of one response. A new response takes a new adapter.
pub struct StreamAdapter {
    buffer: OutputBuffer,
    status: Status,
}

impl View for StreamAdapter {
    type V = AdapterView;

    closed spec fn view(&self) -> AdapterView {
        AdapterView { content: self.buffer@, status: self.status }
    }
}

impl StreamAdapter {
    /// An adapter with an empty buffer, ready for the first event.
    pub fn new() -> (a: StreamAdapter)
        ensures
            a@ == fresh(),
    {
        StreamAdapter { buffer: OutputBuffer::new(), status: Status::Streaming }
    }

    /// Where the response stands.
    pub fn status(&self) -> (s: Status)
        ensures
            s == self@.status,
    {
        self.status
    }

    /// Whether the response is over, for either reason.
    pub fn is_finished(&self) -> (done: bool)
        ensures
            done == (self@.status != Status::Streaming),
    {
        match self.status {
            Status::Streaming => false,
            _ => true,
        }
    }

    /// Whether the response ended because the channel closed without a marker.
    pub fn ended_abnormally(&self) -> (abnormal: bool)
        ensures
            abnormal == (self@.status == Status::Disconnected),
    {
        match self.status {
            Status::Disconnected => true,
            _ => false,
        }
    }

    /// The number of bytes accumulated so far.
    pub fn len(&self) -> (n: usize)
        ensures
            n == self@.content.len(),
    {
        self.buffer.len()
    }

    /// A copy of the text accumulated so far.
    pub fn snapshot(&self) -> (copy: BytesMut)
        ensures
            buffer_bytes(copy) == self@.content,
    {
        self.buffer.snapshot()
    }

    /// Whether [`accept`](Self::accept) may be called with `incoming`: the
    /// buffer has room for what it would add.
    pub fn can_accept(&self, incoming: &Option<ResponseEvent>) -> (ok: bool)
        ensures
            ok == fits(self@, arrival(*incoming)),
    {
        match incoming {
            Some(ResponseEvent::PartialUnit(text)) => {
                match self.status {
                    Status::Streaming => self.buffer.has_room_for(text.as_str().as_bytes().len()),
                    _ => true,
                }
            },
            _ => true,
        }
    }

    /// Takes the next value of the response channel: `Some(event)`, or `None`
    /// for a channel that has closed.
    ///
    /// A fragment is appended and the whole text so far is handed out; a
    /// marker or a closed channel ends the response; a diagnostic changes
    /// nothing. After the end every call answers `End` and changes nothing.
    pub fn accept(&mut self, incoming: Option<ResponseEvent>) -> (out: Pulled)
        requires
            fits(old(self)@, arrival(incoming)),
        ensures
            final(self)@ == step(old(self)@, arrival(incoming)),
            out@ == pulled(old(self)@, arrival(incoming)),
    {
        match self.status {
            Status::Streaming => {},
            _ => {
                return Pulled::End;
            },
        }
        match incoming {
            Some(ResponseEvent::PartialUnit(text)) => {
                self.buffer.append(text.as_str());
                Pulled::Chunk(self.buffer.snapshot())
            },
            Some(ResponseEvent::TerminalMarker) => {
                self.status = Status::Completed;
                Pulled::End
            },
            Some(ResponseEvent::Other(_)) => Pulled::Skipped,
            None => {
                self.status = Status::Disconnected;
                Pulled::End
            },
        }
    }

    /// Takes the next value of the response channel like
    /// [`accept`](Self::accept), whatever it is: a fragment that the buffer
    /// has no room for is handed back and changes nothing.
    pub fn offer(&mut self, incoming: Option<ResponseEvent>) -> (out: Result<
        Pulled,
        ResponseEvent,
    >)
        ensures
            offered(old(self)@, incoming, final(self)@, out),
    {
        if self.can_accept(&incoming) {
            Ok(self.accept(incoming))
        } else {
            match incoming {
                Some(event) => Err(event),
                None => Ok(Pulled::End),
            }
        }
    }

    /// Waits for the next value of `responses` and takes it.
    ///
    /// An adapter whose response is over answers `End` at once and leaves
    /// the channel alone, so that what follows stays there for the next
    /// response. Otherwise exactly one value is taken off the channel and
    /// offered to the adapter.
    pub fn pull(&mut self, responses: &Receiver<ResponseEvent>) -> (out: Result<
        Pulled,
        ResponseEvent,
    >)
        ensures
            old(self)@.status != Status::Streaming ==> final(self)@ == old(self)@,
            old(self)@.status != Status::Streaming ==> (out matches Ok(p) && p@
                == PulledView::End),
            old(self)@.status == Status::Streaming ==> exists|incoming: Option<ResponseEvent>|
                offered(old(self)@, incoming, final(self)@, out),
    {
        if self.is_finished() {
            return Ok(Pulled::End);
        }
        let incoming = receive_from(responses);
        let ghost arrived = incoming;
        let out = self.offer(incoming);
        assert(offered(old(self)@, arrived, self@, out));
        out
    }
}

} // verus!
