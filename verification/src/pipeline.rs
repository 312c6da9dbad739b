//! The whole path of a response, from what the generator produces to what
//! the consumer is handed, and what holds of it.
//!
//! The functions here put the single steps of the worker and of the adapter
//! together, as the loops that drive them do, and the proofs state what
//! every such run has in common.

use vstd::prelude::*;
use crate::adapter::{chunk_of, fresh, step, AdapterView, Status};
use crate::event::{EventView, Feedback, RequestView};
use crate::worker::{closing, handing, opening, reaction_to, sound, turn_after, TurnView};

verus! {

/// What the worker hands to the response channel while the generator
/// produces `produced`, one event after the other, in a turn that stands at
/// `t`: for each event what [`Turn::relay`](crate::worker::Turn::relay)
/// hands over for it. The generator is asked about each event and produces
/// no more once it was told to halt. The receiver of the channel is taken
/// to stay.
pub open spec fn forwarded(t: TurnView, produced: Seq<EventView>) -> Seq<EventView>
    decreases produced.len(),
{
    if produced.len() == 0 {
        Seq::<EventView>::empty()
    } else {
        let reaction = reaction_to(t, produced[0]);
        let head = handing(t, produced[0]);
        if reaction.feedback == Feedback::Halt {
            head
        } else {
            head + forwarded(turn_after(t, produced[0]), produced.drop_first())
        }
    }
}

/// The turn after the generator produced `produced` in it, one event after
/// the other.
pub open spec fn turn_run(t: TurnView, produced: Seq<EventView>) -> TurnView
    decreases produced.len(),
{
    if produced.len() == 0 {
        t
    } else {
        turn_run(turn_after(t, produced[0]), produced.drop_first())
    }
}

/// Everything that the worker puts onto the response channel for `request`
/// when the generator produces `produced` before it ends, for whatever
/// reason it ends: what is forwarded, then the closing marker.
pub open spec fn response(request: RequestView, produced: Seq<EventView>) -> Seq<EventView> {
    forwarded(opening(request), produced).push(EventView::TerminalMarker)
}

/// The number of fragments among `events`.
pub open spec fn fragment_count(events: Seq<EventView>) -> nat
    decreases events.len(),
{
    if events.len() == 0 {
        0
    } else {
        let first: nat = if events[0].is_partial() {
            1
        } else {
            0
        };
        first + fragment_count(events.drop_first())
    }
}

/// The bytes of all fragments among `events`, in order.
pub open spec fn text_of(events: Seq<EventView>) -> Seq<u8>
    decreases events.len(),
{
    if events.len() == 0 {
        Seq::<u8>::empty()
    } else {
        events[0].bytes() + text_of(events.drop_first())
    }
}

/// The events as they come off a channel that stays open.
pub open spec fn arriving(events: Seq<EventView>) -> Seq<Option<EventView>> {
    events.map_values(|event: EventView| Some(event))
}

/// The adapter after it was handed `arrivals`, one after the other.
pub open spec fn run(a: AdapterView, arrivals: Seq<Option<EventView>>) -> AdapterView
    decreases arrivals.len(),
{
    if arrivals.len() == 0 {
        a
    } else {
        run(step(a, arrivals[0]), arrivals.drop_first())
    }
}

/// The snapshots that the adapter hands out for `arrivals`, in order.
pub open spec fn chunks(a: AdapterView, arrivals: Seq<Option<EventView>>) -> Seq<Seq<u8>>
    decreases arrivals.len(),
{
    if arrivals.len() == 0 {
        Seq::<Seq<u8>>::empty()
    } else {
        let rest = chunks(step(a, arrivals[0]), arrivals.drop_first());
        match chunk_of(a, arrivals[0]) {
            Some(bytes) => seq![bytes] + rest,
            None => rest,
        }
    }
}

/// How many of `arrivals` a consumer takes off the channel before the
/// adapter's response is over: it pulls no more once the adapter has ended.
pub open spec fn taken(a: AdapterView, arrivals: Seq<Option<EventView>>) -> nat
    decreases arrivals.len(),
{
    if a.status != Status::Streaming || arrivals.len() == 0 {
        0
    } else {
        1 + taken(step(a, arrivals[0]), arrivals.drop_first())
    }
}

/// The bytes of the fragments that arrive before the response ends.
pub open spec fn delivered_text(arrivals: Seq<Option<EventView>>) -> Seq<u8>
    decreases arrivals.len(),
{
    if arrivals.len() == 0 {
        Seq::<u8>::empty()
    } else {
        match arrivals[0] {
            Some(EventView::PartialUnit(text)) => vstd::utf8::encode_utf8(text) + delivered_text(
                arrivals.drop_first(),
            ),
            Some(EventView::Other(_)) => delivered_text(arrivals.drop_first()),
            _ => Seq::<u8>::empty(),
        }
    }
}

proof fn prefix_chain(x: Seq<u8>, y: Seq<u8>, z: Seq<u8>)
    requires
        x.is_prefix_of(y),
        y.is_prefix_of(z),
    ensures
        x.is_prefix_of(z),
{
}

proof fn step_extends(a: AdapterView, incoming: Option<EventView>)
    ensures
        a.content.is_prefix_of(step(a, incoming).content),
{
}

proof fn run_extends(a: AdapterView, arrivals: Seq<Option<EventView>>)
    ensures
        a.content.is_prefix_of(run(a, arrivals).content),
    decreases arrivals.len(),
{
    if arrivals.len() > 0 {
        let next = step(a, arrivals[0]);
        step_extends(a, arrivals[0]);
        run_extends(next, arrivals.drop_first());
        prefix_chain(a.content, next.content, run(a, arrivals).content);
    }
}

/// What the worker forwards is a beginning of what the generator produced:
/// nothing is added, left out in between, changed or reordered.
pub proof fn forwarded_is_prefix(t: TurnView, produced: Seq<EventView>)
    ensures
        forwarded(t, produced).len() <= produced.len(),
        forwarded(t, produced) == produced.take(forwarded(t, produced).len() as int),
    decreases produced.len(),
{
    if produced.len() > 0 {
        let reaction = reaction_to(t, produced[0]);
        if reaction.feedback != Feedback::Halt {
            let rest = produced.drop_first();
            forwarded_is_prefix(turn_after(t, produced[0]), rest);
            let tail = forwarded(turn_after(t, produced[0]), rest);
            assert(seq![produced[0]] + rest.take(tail.len() as int) =~= produced.take(
                (tail.len() + 1) as int,
            ));
        } else {
            assert(forwarded(t, produced) =~= produced.take(forwarded(t, produced).len() as int));
        }
    } else {
        assert(forwarded(t, produced) =~= produced.take(0));
    }
}

/// The worker never forwards a terminal marker of the generator.
pub proof fn forwarded_has_no_marker(t: TurnView, produced: Seq<EventView>, i: int)
    requires
        0 <= i < forwarded(t, produced).len(),
    ensures
        !forwarded(t, produced)[i].is_marker(),
    decreases produced.len(),
{
    if produced.len() > 0 {
        let reaction = reaction_to(t, produced[0]);
        if reaction.feedback != Feedback::Halt && i > 0 {
            forwarded_has_no_marker(turn_after(t, produced[0]), produced.drop_first(), i - 1);
        }
    }
}

/// Every response holds exactly one terminal marker, and it is its last
/// event, whatever the generator produced and however it ended.
pub proof fn response_has_one_marker(request: RequestView, produced: Seq<EventView>, i: int)
    requires
        0 <= i < response(request, produced).len(),
    ensures
        response(request, produced).last().is_marker(),
        response(request, produced)[i].is_marker() <==> i == response(request, produced).len()
            - 1,
{
    if i < response(request, produced).len() - 1 {
        forwarded_has_no_marker(opening(request), produced, i);
    }
}

proof fn fragment_count_prepend(event: EventView, events: Seq<EventView>)
    ensures
        fragment_count(seq![event] + events) == fragment_count(seq![event]) + fragment_count(
            events,
        ),
        fragment_count(seq![event]) == if event.is_partial() {
            1nat
        } else {
            0nat
        },
{
    assert((seq![event] + events).drop_first() =~= events);
    assert(seq![event].drop_first() =~= Seq::<EventView>::empty());
    assert(fragment_count(seq![event].drop_first()) == 0);
}

/// A turn forwards no more fragments than its limit has left.
pub proof fn forwarded_within_limit(t: TurnView, produced: Seq<EventView>)
    ensures
        t.remaining matches Some(left) ==> fragment_count(forwarded(t, produced)) <= left,
    decreases produced.len(),
{
    if produced.len() > 0 {
        let reaction = reaction_to(t, produced[0]);
        let rest = produced.drop_first();
        let next = turn_after(t, produced[0]);
        forwarded_within_limit(next, rest);
        match reaction.forward {
            Some(event) => {
                fragment_count_prepend(event, forwarded(next, rest));
            },
            None => {
                assert(forwarded(t, produced) =~= Seq::<EventView>::empty());
            },
        }
    }
}

/// A response holds no more fragments than its request allows.
pub proof fn response_within_limit(request: RequestView, produced: Seq<EventView>)
    ensures
        request.max_units matches Some(limit) ==> fragment_count(response(request, produced))
            <= limit,
{
    let body = forwarded(opening(request), produced);
    forwarded_within_limit(opening(request), produced);
    fragment_count_push(body, EventView::TerminalMarker);
    fragment_count_prepend(EventView::TerminalMarker, Seq::<EventView>::empty());
}

proof fn fragment_count_push(events: Seq<EventView>, event: EventView)
    ensures
        fragment_count(events.push(event)) == fragment_count(events) + fragment_count(
            seq![event],
        ),
    decreases events.len(),
{
    if events.len() == 0 {
        assert(events.push(event) =~= seq![event]);
    } else {
        assert(events.push(event).drop_first() =~= events.drop_first().push(event));
        fragment_count_push(events.drop_first(), event);
    }
}

/// The snapshots of one response grow: each holds the one before it as its
/// beginning, so no snapshot is shorter than an earlier one, and the last
/// state of the adapter holds them all.
pub proof fn chunks_grow(a: AdapterView, arrivals: Seq<Option<EventView>>, i: int, j: int)
    requires
        0 <= i <= j < chunks(a, arrivals).len(),
    ensures
        chunks(a, arrivals)[i].is_prefix_of(chunks(a, arrivals)[j]),
        chunks(a, arrivals)[i].len() <= chunks(a, arrivals)[j].len(),
        a.content.is_prefix_of(chunks(a, arrivals)[i]),
        chunks(a, arrivals)[j].is_prefix_of(run(a, arrivals).content),
    decreases arrivals.len(),
{
    let next = step(a, arrivals[0]);
    let rest = arrivals.drop_first();
    let later = chunks(next, rest);
    let all = chunks(a, arrivals);
    step_extends(a, arrivals[0]);
    match chunk_of(a, arrivals[0]) {
        Some(bytes) => {
            assert(bytes == next.content);
            if i == 0 {
                if j == 0 {
                    run_extends(next, rest);
                } else {
                    assert(all[j] == later[j - 1]);
                    chunks_grow(next, rest, j - 1, j - 1);
                }
            } else {
                assert(all[i] == later[i - 1]);
                assert(all[j] == later[j - 1]);
                chunks_grow(next, rest, i - 1, j - 1);
                prefix_chain(a.content, next.content, all[i]);
            }
        },
        None => {
            chunks_grow(next, rest, i, j);
            prefix_chain(a.content, next.content, all[i]);
        },
    }
}

/// What the adapter has accumulated is the concatenation, in order of
/// arrival, of the fragments that arrived before the response ended; and
/// the last snapshot handed out, if there is one, is exactly that.
pub proof fn content_is_delivered_text(a: AdapterView, arrivals: Seq<Option<EventView>>)
    requires
        a.status == Status::Streaming,
    ensures
        run(a, arrivals).content == a.content + delivered_text(arrivals),
        chunks(a, arrivals).len() > 0 ==> chunks(a, arrivals).last() == a.content
            + delivered_text(arrivals),
    decreases arrivals.len(),
{
    if arrivals.len() == 0 {
        assert(a.content + delivered_text(arrivals) =~= a.content);
    } else {
        let next = step(a, arrivals[0]);
        let rest = arrivals.drop_first();
        if next.status == Status::Streaming {
            content_is_delivered_text(next, rest);
            assert(next.content + delivered_text(rest) =~= a.content + delivered_text(arrivals));
            if chunks(next, rest).len() == 0 {
                chunks_none_without_growth(next, rest);
                assert(next.content + delivered_text(rest) =~= next.content);
            }
        } else {
            finished_stays(next, rest);
            assert(a.content + delivered_text(arrivals) =~= a.content);
        }
    }
}

proof fn chunks_none_without_growth(a: AdapterView, arrivals: Seq<Option<EventView>>)
    requires
        a.status == Status::Streaming,
        chunks(a, arrivals).len() == 0,
    ensures
        delivered_text(arrivals) == Seq::<u8>::empty(),
    decreases arrivals.len(),
{
    if arrivals.len() > 0 {
        let next = step(a, arrivals[0]);
        if next.status == Status::Streaming {
            chunks_none_without_growth(next, arrivals.drop_first());
        }
    }
}

/// Once a response is over it stays over: whatever arrives afterwards
/// changes nothing and hands out nothing.
pub proof fn finished_stays(a: AdapterView, arrivals: Seq<Option<EventView>>)
    requires
        a.status != Status::Streaming,
    ensures
        run(a, arrivals) == a,
        chunks(a, arrivals) == Seq::<Seq<u8>>::empty(),
        taken(a, arrivals) == 0,
    decreases arrivals.len(),
{
    if arrivals.len() > 0 {
        finished_stays(step(a, arrivals[0]), arrivals.drop_first());
    }
}

/// A terminal marker or the closing of the channel, wherever it stands
/// among the arrivals, leaves the adapter with its response over.
pub proof fn ends_at_marker_or_close(a: AdapterView, arrivals: Seq<Option<EventView>>, k: int)
    requires
        0 <= k < arrivals.len(),
        arrivals[k] is None || arrivals[k] == Some(EventView::TerminalMarker),
    ensures
        run(a, arrivals).status != Status::Streaming,
    decreases arrivals.len(),
{
    let next = step(a, arrivals[0]);
    if next.status != Status::Streaming {
        finished_stays(next, arrivals.drop_first());
    } else {
        ends_at_marker_or_close(next, arrivals.drop_first(), k - 1);
    }
}

proof fn text_of_push(events: Seq<EventView>, event: EventView)
    ensures
        text_of(events.push(event)) == text_of(events) + event.bytes(),
    decreases events.len(),
{
    if events.len() == 0 {
        assert(events.push(event).drop_first() =~= Seq::<EventView>::empty());
        assert(text_of(events.push(event).drop_first()) =~= Seq::<u8>::empty());
        assert(text_of(events.push(event)) =~= text_of(events) + event.bytes());
    } else {
        assert(events.push(event).drop_first() =~= events.drop_first().push(event));
        text_of_push(events.drop_first(), event);
        assert(text_of(events.push(event)) =~= text_of(events) + event.bytes());
    }
}

proof fn run_concat(
    a: AdapterView,
    first: Seq<Option<EventView>>,
    second: Seq<Option<EventView>>,
)
    ensures
        run(a, first + second) == run(run(a, first), second),
        chunks(a, first + second) == chunks(a, first) + chunks(run(a, first), second),
        taken(a, first + second) == if run(a, first).status == Status::Streaming {
            first.len() + taken(run(a, first), second)
        } else {
            taken(a, first)
        },
        a.status == Status::Streaming && run(a, first).status == Status::Streaming ==> taken(
            a,
            first,
        ) == first.len(),
    decreases first.len(),
{
    if first.len() == 0 {
        assert(first + second =~= second);
        assert(chunks(a, first) + chunks(run(a, first), second) =~= chunks(a, second));
    } else {
        let next = step(a, first[0]);
        assert((first + second).drop_first() =~= first.drop_first() + second);
        run_concat(next, first.drop_first(), second);
        let joined = chunks(next, first.drop_first()) + chunks(run(a, first), second);
        match chunk_of(a, first[0]) {
            Some(bytes) => {
                assert(seq![bytes] + joined =~= chunks(a, first) + chunks(run(a, first), second));
            },
            None => {},
        }
        if a.status != Status::Streaming {
            finished_stays(a, first);
            finished_stays(a, first + second);
            finished_stays(next, first.drop_first());
        } else if next.status != Status::Streaming {
            finished_stays(next, first.drop_first());
        }
    }
}

proof fn streams_through(a: AdapterView, events: Seq<EventView>)
    requires
        a.status == Status::Streaming,
        forall|i: int| 0 <= i < events.len() ==> !(#[trigger] events[i]).is_marker(),
    ensures
        run(a, arriving(events)) == (AdapterView {
            content: a.content + text_of(events),
            status: Status::Streaming,
        }),
        chunks(a, arriving(events)).len() == fragment_count(events),
    decreases events.len(),
{
    if events.len() == 0 {
        assert(a.content + text_of(events) =~= a.content);
    } else {
        let next = step(a, arriving(events)[0]);
        let rest = events.drop_first();
        assert(arriving(events).drop_first() =~= arriving(rest));
        assert forall|i: int| 0 <= i < rest.len() implies !(#[trigger] rest[i]).is_marker() by {
            assert(rest[i] == events[i + 1]);
        }
        assert(!events[0].is_marker());
        streams_through(next, rest);
        assert(next.content + text_of(rest) =~= a.content + text_of(events));
    }
}

/// A fresh adapter reads one response whole and nothing past it: it is
/// completed by the response's marker, has then accumulated the text of all
/// its fragments, has handed out one snapshot for each fragment, the last
/// of them holding that whole text, and leaves on the channel whatever
/// follows the response.
pub proof fn response_is_read_whole(
    request: RequestView,
    produced: Seq<EventView>,
    following: Seq<Option<EventView>>,
)
    ensures
        run(fresh(), arriving(response(request, produced)) + following) == (AdapterView {
            content: text_of(response(request, produced)),
            status: Status::Completed,
        }),
        chunks(fresh(), arriving(response(request, produced)) + following) == chunks(
            fresh(),
            arriving(response(request, produced)),
        ),
        chunks(fresh(), arriving(response(request, produced))).len() == fragment_count(
            response(request, produced),
        ),
        chunks(fresh(), arriving(response(request, produced))).len() > 0 ==> chunks(
            fresh(),
            arriving(response(request, produced)),
        ).last() == text_of(response(request, produced)),
        taken(fresh(), arriving(response(request, produced)) + following) == response(
            request,
            produced,
        ).len(),
{
    content_is_delivered_text(fresh(), arriving(response(request, produced)));
    let body = forwarded(opening(request), produced);
    let whole = response(request, produced);
    let closing = seq![Some(EventView::TerminalMarker)];
    assert forall|i: int| 0 <= i < body.len() implies !(#[trigger] body[i]).is_marker() by {
        forwarded_has_no_marker(opening(request), produced, i);
    }
    streams_through(fresh(), body);
    let before = run(fresh(), arriving(body));
    assert(before.content =~= text_of(body));
    assert(arriving(whole) =~= arriving(body) + closing);
    text_of_push(body, EventView::TerminalMarker);
    assert(text_of(whole) =~= text_of(body));
    fragment_count_push(body, EventView::TerminalMarker);
    fragment_count_prepend(EventView::TerminalMarker, Seq::<EventView>::empty());

    let ended = step(before, closing[0]);
    assert(closing.drop_first() =~= Seq::<Option<EventView>>::empty());
    assert(run(ended, closing.drop_first()) == ended);
    assert(run(before, closing) == ended);
    assert(chunks(ended, closing.drop_first()) =~= Seq::<Seq<u8>>::empty());
    assert(chunks(before, closing) =~= Seq::<Seq<u8>>::empty());
    assert(taken(ended, closing.drop_first()) == 0);
    assert(taken(before, closing) == 1);
    run_concat(fresh(), arriving(body), closing);
    assert(chunks(fresh(), arriving(whole)) =~= chunks(fresh(), arriving(body)));
    run_concat(fresh(), arriving(whole), following);
    finished_stays(ended, following);
    assert(chunks(fresh(), arriving(whole) + following) =~= chunks(fresh(), arriving(whole)));
}

/// One request as the worker meets it: what was asked, and what the
/// generator produced for it before it ended.
pub struct Job {
    pub request: RequestView,
    pub produced: Seq<EventView>,
}

/// Everything that the worker puts onto the response channel while it
/// serves `jobs` one after the other.
pub open spec fn channel_log(jobs: Seq<Job>) -> Seq<EventView>
    decreases jobs.len(),
{
    if jobs.len() == 0 {
        Seq::<EventView>::empty()
    } else {
        response(jobs[0].request, jobs[0].produced) + channel_log(jobs.drop_first())
    }
}

/// What is still on the channel when the adapter of the response at
/// position `position` starts, each adapter before it having begun where
/// the one before ended.
pub open spec fn left_for(arrivals: Seq<Option<EventView>>, position: nat) -> Seq<
    Option<EventView>,
>
    decreases position,
{
    if position == 0 {
        arrivals
    } else {
        left_for(arrivals.skip(taken(fresh(), arrivals) as int), (position - 1) as nat)
    }
}

/// However many requests are served, each one's adapter reads that
/// request's response and no other: it ends completed, with the text of
/// exactly that response, and hands out the snapshots of exactly that
/// response.
pub proof fn each_adapter_reads_its_response(
    jobs: Seq<Job>,
    position: nat,
    following: Seq<Option<EventView>>,
)
    requires
        position < jobs.len(),
    ensures
        ({
            let own = response(jobs[position as int].request, jobs[position as int].produced);
            let seen = left_for(arriving(channel_log(jobs)) + following, position);
            &&& run(fresh(), seen) == (AdapterView {
                content: text_of(own),
                status: Status::Completed,
            })
            &&& chunks(fresh(), seen) == chunks(fresh(), arriving(own))
        }),
    decreases position,
{
    let first = response(jobs[0].request, jobs[0].produced);
    let others = jobs.drop_first();
    let after = arriving(channel_log(others)) + following;
    let all = arriving(channel_log(jobs)) + following;
    assert(all =~= arriving(first) + after);
    response_is_read_whole(jobs[0].request, jobs[0].produced, after);
    if position > 0 {
        assert(all.skip(first.len() as int) =~= after);
        each_adapter_reads_its_response(others, (position - 1) as nat, following);
    }
}

/// Whether the generator heeded the worker while it produced `produced` in
/// a turn that stood at `t`: it did not run in a halted turn, and it
/// produced nothing more once it was told to halt.
pub open spec fn heeded(t: TurnView, produced: Seq<EventView>) -> bool
    decreases produced.len(),
{
    if produced.len() == 0 {
        true
    } else if t.halted {
        false
    } else if reaction_to(t, produced[0]).feedback == Feedback::Halt {
        produced.len() == 1
    } else {
        heeded(turn_after(t, produced[0]), produced.drop_first())
    }
}

/// `events` without the terminal marker at its end, if it has one there.
pub open spec fn without_final_marker(events: Seq<EventView>) -> Seq<EventView> {
    if events.len() > 0 && events.last().is_marker() {
        events.drop_last()
    } else {
        events
    }
}

proof fn text_without_final_marker(events: Seq<EventView>)
    ensures
        text_of(without_final_marker(events)) == text_of(events),
        fragment_count(without_final_marker(events)) == fragment_count(events),
{
    if events.len() > 0 && events.last().is_marker() {
        assert(events =~= events.drop_last().push(events.last()));
        text_of_push(events.drop_last(), events.last());
        assert(text_of(events.drop_last()) + events.last().bytes() =~= text_of(
            events.drop_last(),
        ));
        fragment_count_push(events.drop_last(), events.last());
        fragment_count_prepend(events.last(), Seq::<EventView>::empty());
    }
}

/// A generator that heeds the worker loses nothing: everything that it
/// produced is forwarded, in order and unchanged, but for its own terminal
/// marker. The turn must be sound, as every
/// [`Turn`](crate::worker::Turn) is.
pub proof fn forwarded_is_all(t: TurnView, produced: Seq<EventView>)
    requires
        heeded(t, produced),
        sound(t),
    ensures
        forwarded(t, produced) == without_final_marker(produced),
        text_of(forwarded(t, produced)) == text_of(produced),
        fragment_count(forwarded(t, produced)) == fragment_count(produced),
    decreases produced.len(),
{
    text_without_final_marker(produced);
    if produced.len() == 0 {
    } else {
        let first = produced[0];
        let rest = produced.drop_first();
        let next = turn_after(t, first);
        if reaction_to(t, first).feedback == Feedback::Halt {
            assert(produced.drop_last() =~= Seq::<EventView>::empty());
            assert(produced =~= seq![first]);
            assert(forwarded(t, produced) =~= without_final_marker(produced));
        } else {
            forwarded_is_all(next, rest);
            let tail = forwarded(next, rest);
            assert(forwarded(t, produced) == seq![first] + tail);
            if rest.len() > 0 && rest.last().is_marker() {
                assert(produced.last() == rest.last());
                assert(seq![first] + rest.drop_last() =~= produced.drop_last());
            } else {
                assert(seq![first] + rest =~= produced);
                if rest.len() > 0 {
                    assert(produced.last() == rest.last());
                }
            }
        }
    }
}

/// With a generator that heeds the worker, the last snapshot of a response
/// holds the text of every fragment that the generator produced for its
/// request, in the order in which it produced them, and the adapter hands
/// out one snapshot for each of them.
pub proof fn response_carries_all_text(request: RequestView, produced: Seq<EventView>)
    requires
        heeded(opening(request), produced),
    ensures
        text_of(response(request, produced)) == text_of(produced),
        run(fresh(), arriving(response(request, produced))).content == text_of(produced),
        chunks(fresh(), arriving(response(request, produced))).len() == fragment_count(
            produced,
        ),
        chunks(fresh(), arriving(response(request, produced))).len() > 0 ==> chunks(
            fresh(),
            arriving(response(request, produced)),
        ).last() == text_of(produced),
{
    let body = forwarded(opening(request), produced);
    forwarded_is_all(opening(request), produced);
    text_of_push(body, EventView::TerminalMarker);
    assert(text_of(body) + EventView::TerminalMarker.bytes() =~= text_of(body));
    fragment_count_push(body, EventView::TerminalMarker);
    fragment_count_prepend(EventView::TerminalMarker, Seq::<EventView>::empty());
    response_is_read_whole(request, produced, Seq::<Option<EventView>>::empty());
    assert(arriving(response(request, produced)) + Seq::<Option<EventView>>::empty()
        =~= arriving(response(request, produced)));
}

/// A round whose receiver stays hands over the response: what the turn
/// forwarded, then what closes it.
pub proof fn round_is_response(request: RequestView, produced: Seq<EventView>, last: TurnView)
    requires
        !last.receiver_gone,
    ensures
        forwarded(opening(request), produced) + closing(last) == response(request, produced),
{
    assert(forwarded(opening(request), produced) + closing(last) =~= response(
        request,
        produced,
    ));
}

/// What is handed over for one more event goes behind what was forwarded
/// before, as long as the generator was not told to halt.
pub proof fn forwarded_one_more(t: TurnView, produced: Seq<EventView>, event: EventView)
    requires
        heeded(t, produced.push(event)),
    ensures
        forwarded(t, produced.push(event)) == forwarded(t, produced) + handing(
            turn_run(t, produced),
            event,
        ),
    decreases produced.len(),
{
    let all = produced.push(event);
    if produced.len() == 0 {
        assert(all.drop_first() =~= Seq::<EventView>::empty());
        assert(forwarded(turn_after(t, event), all.drop_first()) =~= Seq::<EventView>::empty());
        assert(forwarded(t, all) =~= handing(t, event));
        assert(forwarded(t, produced) + handing(t, event) =~= handing(t, event));
    } else {
        assert(all[0] == produced[0]);
        assert(all.drop_first() =~= produced.drop_first().push(event));
        let next = turn_after(t, produced[0]);
        forwarded_one_more(next, produced.drop_first(), event);
        assert(forwarded(t, all) =~= forwarded(t, produced) + handing(
            turn_run(t, produced),
            event,
        ));
    }
}

} // verus!
