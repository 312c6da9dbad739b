//! The values that travel through the two channels.

use vstd::prelude::*;

verus! {

/// One event on the response channel.
#[derive(Clone, Debug, PartialEq, Eq)]
pub enum ResponseEvent {
    /// One more fragment of generated text.
    PartialUnit(String),
    /// The response is complete.
    TerminalMarker,
    /// A diagnostic that carries no content of the response.
    Other(String),
}

/// The mathematical value of a [`ResponseEvent`].
pub enum EventView {
    PartialUnit(Seq<char>),
    TerminalMarker,
    Other(Seq<char>),
}

impl View for ResponseEvent {
    type V = EventView;

    open spec fn view(&self) -> EventView {
        match self {
            ResponseEvent::PartialUnit(text) => EventView::PartialUnit(text@),
            ResponseEvent::TerminalMarker => EventView::TerminalMarker,
            ResponseEvent::Other(note) => EventView::Other(note@),
        }
    }
}

impl EventView {
    /// The event carries a fragment of the response.
    pub open spec fn is_partial(self) -> bool {
        self is PartialUnit
    }

    /// The event ends the response.
    pub open spec fn is_marker(self) -> bool {
        self is TerminalMarker
    }

    /// The bytes that the event adds to the response: the UTF-8 encoding of
    /// a fragment, nothing for any other event.
    pub open spec fn bytes(self) -> Seq<u8> {
        match self {
            EventView::PartialUnit(text) => vstd::utf8::encode_utf8(text),
            _ => Seq::<u8>::empty(),
        }
    }
}

/// What the per-unit callback tells the generator.
#[derive(Clone, Copy, Debug, PartialEq, Eq, Structural)]
pub enum Feedback {
    /// Keep generating.
    Continue,
    /// Stop generating for this request.
    Halt,
}

/// One submission: the prompt and the most units that may be generated for it.
#[derive(Clone, Debug, PartialEq, Eq)]
pub struct Request {
    pub prompt: String,
    pub max_units: Option<usize>,
}

/// The mathematical value of a [`Request`].
pub struct RequestView {
    pub prompt: Seq<char>,
    pub max_units: Option<nat>,
}

impl View for Request {
    type V = RequestView;

    open spec fn view(&self) -> RequestView {
        RequestView {
            prompt: self.prompt@,
            max_units: match self.max_units {
                Some(n) => Some(n as nat),
                None => None,
            },
        }
    }
}

impl Request {
    /// A request for `prompt` with no limit of its own.
    pub fn new(prompt: String) -> (r: Request)
        ensures
            r@.prompt == prompt@,
            r@.max_units == None::<nat>,
    {
        Request { prompt, max_units: None }
    }

    /// A request for `prompt` that may produce at most `max_units` units.
    pub fn limited(prompt: String, max_units: usize) -> (r: Request)
        ensures
            r@.prompt == prompt@,
            r@.max_units == Some(max_units as nat),
    {
        Request { prompt, max_units: Some(max_units) }
    }
}

} // verus!
