//! The worker's decisions: what goes onto the response channel for each
//! request, and when the worker stops.
//!
//! A request starts a [`Turn`]. The generator asks the turn about every
//! event that it produces: [`Turn::on_unit`] decides what is forwarded and
//! whether the generator goes on, and [`Turn::relay`] also does the
//! sending. [`Worker::plan`] says whether a session is to run for a turn at
//! all. When the generator has returned, [`Worker::conclude`] says what
//! closes the response, and [`Worker::close`] sends it.
//!
//! Turn and worker keep a record of what they handed to the response
//! channel, so that what a round sends can be held against
//! [`response`](crate::pipeline::response).

use vstd::prelude::*;
use std::sync::mpsc::{Receiver, SyncSender};
use llm::models::Llama;
use llm::InferenceSession;
use crate::channel::{receive_from, send_on};
use crate::engine::{
    logit_count, logit_width, logits_held, screen, screened, start_session, token_count,
    tokens_known, usable, InferError, Sampling, standard,
};
use crate::event::{EventView, Feedback, Request, RequestView, ResponseEvent};
use crate::resource::LoadError;

verus! {

/// The mathematical value of a [`Turn`].
pub struct TurnView {
    /// How many fragments may still be forwarded; `None` where there is no limit.
    pub remaining: Option<nat>,
    /// The generator has been told to stop, or was never to start.
    pub halted: bool,
    /// The response channel has lost its receiver.
    pub receiver_gone: bool,
}

/// What the worker does with one event of the generator.
pub struct Reaction {
    /// The event to put onto the response channel, if any.
    pub forward: Option<ResponseEvent>,
    /// What to tell the generator.
    pub feedback: Feedback,
}

/// A [`Reaction`] as a mathematical value.
pub struct ReactionView {
    pub forward: Option<EventView>,
    pub feedback: Feedback,
}

impl View for Reaction {
    type V = ReactionView;

    open spec fn view(&self) -> ReactionView {
        ReactionView {
            forward: match self.forward {
                Some(event) => Some(event@),
                None => None,
            },
            feedback: self.feedback,
        }
    }
}

/// The turn that a request starts with: its limit still whole, and halted
/// from the start only where the limit allows no unit at all.
pub open spec fn opening(request: RequestView) -> TurnView {
    TurnView {
        remaining: request.max_units,
        halted: request.max_units == Some(0nat),
        receiver_gone: false,
    }
}

/// The turn after the generator produced `event`.
///
/// A halted turn stays as it is. A fragment uses up one unit of the limit
/// and halts the turn when it was the last one allowed, or when none was
/// left for it. The generator's own marker halts the turn. A diagnostic
/// changes nothing.
pub open spec fn turn_after(t: TurnView, event: EventView) -> TurnView {
    if t.halted {
        t
    } else {
        match event {
            EventView::PartialUnit(_) => match t.remaining {
                Some(left) => if left == 0 {
                    TurnView { halted: true, ..t }
                } else {
                    TurnView { remaining: Some((left - 1) as nat), halted: left == 1, ..t }
                },
                None => t,
            },
            EventView::TerminalMarker => TurnView { halted: true, ..t },
            EventView::Other(_) => t,
        }
    }
}

/// What the worker forwards and answers when the generator produced `event`.
///
/// A halted turn forwards nothing and answers `Halt`. Otherwise diagnostics
/// are forwarded as they are, and so are fragments while the limit has a
/// unit left for them; the generator's own marker is not, because the worker
/// closes every response itself. The answer is `Halt` exactly when the turn
/// is halted afterwards.
pub open spec fn reaction_to(t: TurnView, event: EventView) -> ReactionView {
    if t.halted {
        ReactionView { forward: None, feedback: Feedback::Halt }
    } else {
        ReactionView {
            forward: if event is TerminalMarker || (event is PartialUnit && t.remaining == Some(
                0nat,
            )) {
                None
            } else {
                Some(event)
            },
            feedback: if turn_after(t, event).halted {
                Feedback::Halt
            } else {
                Feedback::Continue
            },
        }
    }
}

/// What a turn hands to the response channel when the generator produced
/// `event`: what [`reaction_to`] forwards, if anything.
pub open spec fn handing(t: TurnView, event: EventView) -> Seq<EventView> {
    match reaction_to(t, event).forward {
        Some(forward) => seq![forward],
        None => Seq::<EventView>::empty(),
    }
}

/// What closes the response of a turn on the channel: one terminal marker,
/// unless the receiver is gone.
pub open spec fn closing(t: TurnView) -> Seq<EventView> {
    if t.receiver_gone {
        Seq::<EventView>::empty()
    } else {
        seq![EventView::TerminalMarker]
    }
}

/// A turn whose limit is used up is halted. Every [`Turn`] is sound.
pub open spec fn sound(t: TurnView) -> bool {
    t.remaining == Some(0nat) ==> t.halted
}

/// A turn whose response channel has lost its receiver.
pub open spec fn cut_off(t: TurnView) -> TurnView {
    TurnView { halted: true, receiver_gone: true, ..t }
}

/// What [`Turn::relay`] leaves behind and answers for `event`, given
/// whether the send that it may have made was delivered.
///
/// Where nothing is to be forwarded, or what was forwarded was delivered,
/// the turn and the answer are those of [`turn_after`] and [`reaction_to`].
/// Where the send failed, the turn is cut off and the answer is `Halt`.
pub open spec fn relayed(
    before: TurnView,
    event: EventView,
    delivered: bool,
    after: TurnView,
    feedback: Feedback,
) -> bool {
    if reaction_to(before, event).forward is None || delivered {
        after == turn_after(before, event) && feedback == reaction_to(before, event).feedback
    } else {
        after == cut_off(turn_after(before, event)) && feedback == Feedback::Halt
    }
}

/// The worker's state while it serves one request. It is made anew for each
/// request and carries nothing over to the next.
pub struct Turn {
    remaining: Option<usize>,
    halted: bool,
    receiver_gone: bool,
    handed: Ghost<Seq<EventView>>,
}

impl View for Turn {
    type V = TurnView;

    closed spec fn view(&self) -> TurnView {
        TurnView {
            remaining: match self.remaining {
                Some(n) => Some(n as nat),
                None => None,
            },
            halted: self.halted,
            receiver_gone: self.receiver_gone,
        }
    }
}

impl Turn {
    #[verifier::type_invariant]
    spec fn limit_kept(self) -> bool {
        self.remaining == Some(0usize) ==> self.halted
    }

    /// Everything that this turn has handed to the response channel so
    /// far, in order.
    pub closed spec fn handed(&self) -> Seq<EventView> {
        self.handed@
    }

    /// The turn for `request`.
    pub fn begin(request: &Request) -> (turn: Turn)
        ensures
            turn@ == opening(request@),
            turn.handed() == Seq::<EventView>::empty(),
            sound(turn@),
    {
        let halted = match request.max_units {
            Some(n) => n == 0,
            None => false,
        };
        Turn {
            remaining: request.max_units,
            halted,
            receiver_gone: false,
            handed: Ghost(Seq::empty()),
        }
    }

    /// Whether the generator is to stop, or not to start at all.
    pub fn is_halted(&self) -> (halted: bool)
        ensures
            halted == self@.halted,
            sound(self@),
    {
        proof {
            use_type_invariant(self);
        }
        self.halted
    }

    /// Whether the response channel has lost its receiver.
    pub fn is_receiver_gone(&self) -> (gone: bool)
        ensures
            gone == self@.receiver_gone,
    {
        self.receiver_gone
    }

    /// How many fragments may still be forwarded; `None` where there is no limit.
    pub fn remaining(&self) -> (left: Option<usize>)
        ensures
            left matches Some(n) ==> self@.remaining == Some(n as nat),
            left is None ==> self@.remaining is None,
    {
        self.remaining
    }

    /// The per-unit callback: decides what to forward for `event` and what
    /// to tell the generator.
    pub fn on_unit(&mut self, event: ResponseEvent) -> (reaction: Reaction)
        ensures
            final(self)@ == turn_after(old(self)@, event@),
            reaction@ == reaction_to(old(self)@, event@),
            reaction.forward matches Some(forwarded) ==> forwarded == event,
            final(self).handed() == old(self).handed(),
            sound(final(self)@),
    {
        proof {
            use_type_invariant(&*self);
        }
        if self.halted {
            return Reaction { forward: None, feedback: Feedback::Halt };
        }
        match event {
            ResponseEvent::PartialUnit(text) => {
                match self.remaining {
                    Some(left) => {
                        if left == 0 {
                            self.halted = true;
                            return Reaction { forward: None, feedback: Feedback::Halt };
                        }
                        self.halted = left == 1;
                        self.remaining = Some(left - 1);
                    },
                    None => {},
                }
                let feedback = if self.halted {
                    Feedback::Halt
                } else {
                    Feedback::Continue
                };
                Reaction { forward: Some(ResponseEvent::PartialUnit(text)), feedback }
            },
            ResponseEvent::TerminalMarker => {
                self.halted = true;
                Reaction { forward: None, feedback: Feedback::Halt }
            },
            ResponseEvent::Other(note) => Reaction {
                forward: Some(ResponseEvent::Other(note)),
                feedback: Feedback::Continue,
            },
        }
    }

    /// Records that a send on the response channel failed because its
    /// receiver is gone: the turn is halted and forwards nothing more.
    pub fn receiver_lost(&mut self)
        ensures
            final(self)@ == cut_off(old(self)@),
            final(self).handed() == old(self).handed(),
            sound(final(self)@),
    {
        self.halted = true;
        self.receiver_gone = true;
    }

    /// The per-unit callback with the sending done: decides about `event`,
    /// hands what is to be forwarded to `events`, waiting while the channel
    /// is full, and answers the generator. A send that fails because the
    /// receiver is gone cuts the turn off.
    pub fn relay(&mut self, event: ResponseEvent, events: &SyncSender<ResponseEvent>) -> (feedback:
        Feedback)
        ensures
            final(self).handed() == old(self).handed() + handing(old(self)@, event@),
            sound(final(self)@),
            relayed(old(self)@, event@, true, final(self)@, feedback) || relayed(
                old(self)@,
                event@,
                false,
                final(self)@,
                feedback,
            ),
            reaction_to(old(self)@, event@).forward is None ==> relayed(
                old(self)@,
                event@,
                true,
                final(self)@,
                feedback,
            ),
    {
        let reaction = self.on_unit(event);
        match reaction.forward {
            Some(forward) => {
                self.handed = Ghost(self.handed@.push(forward@));
                if send_on(events, forward) {
                    reaction.feedback
                } else {
                    self.receiver_lost();
                    Feedback::Halt
                }
            },
            None => {
                assert(self.handed@ + Seq::<EventView>::empty() =~= self.handed@);
                reaction.feedback
            },
        }
    }
}

/// What the worker's loop does next.
pub enum Directive {
    /// Serve `prompt` under `turn`, with at most `max_units` units.
    Generate { prompt: String, max_units: Option<usize>, turn: Turn },
    /// Leave the loop: the worker is done.
    Shutdown,
}

/// What is to be done for a turn before its response is closed.
pub enum Plan {
    /// No session runs; this is the outcome of the request.
    Done(Result<(), InferError>),
    /// Run `session` on the worker's model, with the counts of `sampling`,
    /// playing back earlier tokens only where `play_back` is set.
    Run { session: InferenceSession, sampling: Sampling, play_back: bool },
}

/// What closes one response.
pub struct Conclusion {
    /// The event that ends the response on the channel.
    pub marker: Option<ResponseEvent>,
    /// The generator's failure, to be reported; it does not stop the worker.
    pub failure: Option<InferError>,
}

/// The one owner of the loaded resource. It serves one request at a time.
pub struct Worker<R> {
    resource: R,
    stopped: bool,
    handed: Ghost<Seq<EventView>>,
}

impl<R> Worker<R> {
    /// The resource that the worker owns.
    pub closed spec fn handle(&self) -> R {
        self.resource
    }

    /// Whether the worker has left its loop for good.
    pub closed spec fn stopped(&self) -> bool {
        self.stopped
    }

    /// Everything that the worker has handed to the response channel in
    /// the rounds that it has closed, in order.
    pub closed spec fn handed(&self) -> Seq<EventView> {
        self.handed@
    }

    /// Makes the worker from the outcome of the load. A failed load gives no
    /// worker, so no loop can be entered, and its error is handed back.
    pub fn launch(loaded: Result<R, LoadError>) -> (started: Result<Worker<R>, LoadError>)
        ensures
            match loaded {
                Ok(resource) => started matches Ok(worker) && worker.handle() == resource
                    && !worker.stopped() && worker.handed() == Seq::<EventView>::empty(),
                Err(error) => started == Err::<Worker<R>, LoadError>(error),
            },
    {
        match loaded {
            Ok(resource) => Ok(Worker { resource, stopped: false, handed: Ghost(Seq::empty()) }),
            Err(error) => Err(error),
        }
    }

    /// The resource, for the generator to read.
    pub fn resource(&self) -> (resource: &R)
        ensures
            *resource == self.handle(),
    {
        &self.resource
    }

    /// Whether the worker has left its loop for good.
    pub fn is_stopped(&self) -> (stopped: bool)
        ensures
            stopped == self.stopped(),
    {
        self.stopped
    }

    /// Takes what came off the request channel: `Some(request)`, or `None`
    /// once the channel is closed and empty.
    ///
    /// A request starts a turn of its own. A closed channel stops the worker,
    /// and a stopped worker takes no request. Nothing is sent.
    pub fn receive(&mut self, incoming: Option<Request>) -> (next: Directive)
        ensures
            final(self).handle() == old(self).handle(),
            final(self).handed() == old(self).handed(),
            final(self).stopped() == (old(self).stopped() || incoming is None),
            match next {
                Directive::Generate { prompt, max_units, turn } => {
                    &&& !old(self).stopped()
                    &&& incoming matches Some(request)
                    &&& prompt == request.prompt
                    &&& max_units == request.max_units
                    &&& turn@ == opening(request@)
                    &&& turn.handed() == Seq::<EventView>::empty()
                },
                Directive::Shutdown => old(self).stopped() || incoming is None,
            },
    {
        if self.stopped {
            return Directive::Shutdown;
        }
        match incoming {
            Some(request) => {
                let turn = Turn::begin(&request);
                Directive::Generate { prompt: request.prompt, max_units: request.max_units, turn }
            },
            None => {
                self.stopped = true;
                Directive::Shutdown
            },
        }
    }

    /// Says what closes the response of `turn` after the generator returned
    /// `outcome`.
    ///
    /// Whatever the outcome, the response gets exactly one terminal marker,
    /// unless the channel has lost its receiver: then nothing is left to
    /// send and the worker stops. A failure of the generator is handed back
    /// to be reported and leaves the worker ready for the next request.
    pub fn conclude(&mut self, turn: Turn, outcome: Result<(), InferError>) -> (end: Conclusion)
        ensures
            final(self).handle() == old(self).handle(),
            final(self).handed() == old(self).handed(),
            final(self).stopped() == (old(self).stopped() || turn@.receiver_gone),
            turn@.receiver_gone ==> end.marker is None,
            !turn@.receiver_gone ==> end.marker == Some(ResponseEvent::TerminalMarker),
            match outcome {
                Ok(_) => end.failure is None,
                Err(error) => end.failure == Some(error),
            },
    {
        let failure = match outcome {
            Ok(_) => None,
            Err(error) => Some(error),
        };
        if turn.receiver_gone {
            self.stopped = true;
            Conclusion { marker: None, failure }
        } else {
            Conclusion { marker: Some(ResponseEvent::TerminalMarker), failure }
        }
    }

    /// Records that a send of the closing marker failed because the
    /// receiver is gone: the worker stops.
    pub fn receiver_lost(&mut self)
        ensures
            final(self).handle() == old(self).handle(),
            final(self).handed() == old(self).handed(),
            final(self).stopped(),
    {
        self.stopped = true;
    }

    /// Waits for the next request on `requests` and takes it, as
    /// [`receive`](Self::receive) does. A stopped worker answers `Shutdown`
    /// at once and leaves the channel alone.
    pub fn next_turn(&mut self, requests: &Receiver<Request>) -> (next: Directive)
        ensures
            final(self).handle() == old(self).handle(),
            final(self).handed() == old(self).handed(),
            old(self).stopped() ==> final(self).stopped() && next is Shutdown,
            next is Shutdown <==> final(self).stopped(),
            next matches Directive::Generate { prompt, max_units, turn } ==> turn@ == opening(
                (Request { prompt, max_units })@,
            ) && turn.handed() == Seq::<EventView>::empty(),
    {
        if self.stopped {
            return Directive::Shutdown;
        }
        let incoming = receive_from(requests);
        self.receive(incoming)
    }

    /// Closes the response of `turn` on `events` after the generator
    /// returned `outcome`: the marker that [`conclude`](Self::conclude)
    /// gives is handed to the channel, waiting while it is full, and the
    /// round goes into the worker's record: what the turn handed over, then
    /// what closes it. The worker stops when the receiver was gone before
    /// or is found gone now; otherwise it stays as it was. The generator's
    /// failure is handed back.
    pub fn close(
        &mut self,
        turn: Turn,
        outcome: Result<(), InferError>,
        events: &SyncSender<ResponseEvent>,
    ) -> (failure: Option<InferError>)
        ensures
            final(self).handle() == old(self).handle(),
            final(self).handed() == old(self).handed() + turn.handed() + closing(turn@),
            old(self).stopped() || turn@.receiver_gone ==> final(self).stopped(),
            match outcome {
                Ok(_) => failure is None,
                Err(error) => failure == Some(error),
            },
    {
        let ghost relayed = turn.handed();
        let end = self.conclude(turn, outcome);
        match end.marker {
            Some(marker) => {
                self.handed = Ghost(self.handed@ + relayed + seq![marker@]);
                if !send_on(events, marker) {
                    self.receiver_lost();
                }
            },
            None => {
                self.handed = Ghost(self.handed@ + relayed + Seq::empty());
            },
        }
        end.failure
    }
}

impl Worker<Llama> {
    /// Says what is to be done for `turn` before its response is closed.
    ///
    /// A halted turn runs no session and has succeeded. Otherwise a session
    /// of its own is started for the turn and held against the model and
    /// the standard settings of the sampler: where [`screened`] refuses
    /// them, no session runs and the refusal is the outcome; where it
    /// passes them, the session is to run, without playing back.
    pub fn plan(&self, turn: &Turn) -> (plan: Plan)
        ensures
            match plan {
                Plan::Done(outcome) => if turn@.halted {
                    outcome == Ok::<(), InferError>(())
                } else {
                    outcome is Err && outcome == screened(
                        standard(),
                        logit_width(self.handle()),
                        token_count(self.handle()),
                    )
                },
                Plan::Run { session, sampling, play_back } => {
                    &&& !turn@.halted
                    &&& sampling == standard()
                    &&& !play_back
                    &&& logit_count(session) == logit_width(self.handle())
                    &&& usable(sampling, logit_count(session), token_count(self.handle()))
                },
            },
    {
        if turn.is_halted() {
            return Plan::Done(Ok(()));
        }
        let session = start_session(&self.resource);
        let sampling = Sampling::standard();
        let logits = logits_held(&session);
        let tokens = tokens_known(&self.resource);
        match screen(&sampling, logits, tokens) {
            Ok(_) => Plan::Run { session, sampling, play_back: false },
            Err(unfit) => Plan::Done(Err(unfit)),
        }
    }
}

} // verus!
