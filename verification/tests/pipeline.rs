use std::sync::mpsc::{sync_channel, Receiver, SyncSender, TryRecvError, TrySendError};

use stream_bridge::adapter::{Pulled, Status, StreamAdapter};
use stream_bridge::channel::{submission, submit, ChannelClosed};
use stream_bridge::event::{Feedback, Request, ResponseEvent};
use stream_bridge::engine::InferError;
use stream_bridge::resource::LoadError;
use stream_bridge::worker::{Directive, Worker};

fn unit(text: &str) -> ResponseEvent {
    ResponseEvent::PartialUnit(text.to_string())
}

/// Serves one request as the worker's loop does, with a generator that
/// would produce `script` and then end with `outcome`. Sends block when the
/// channel is full: here the consumer is then run until one slot is free.
fn serve(
    worker: &mut Worker<()>,
    request: Request,
    script: &[ResponseEvent],
    outcome: Result<(), InferError>,
    tx: &SyncSender<ResponseEvent>,
    rx: &Receiver<ResponseEvent>,
    adapter: &mut StreamAdapter,
    seen: &mut Vec<Vec<u8>>,
) {
    let mut turn = match worker.receive(Some(request)) {
        Directive::Generate { turn, .. } => turn,
        Directive::Shutdown => panic!("the worker is stopped"),
    };
    if !turn.is_halted() {
        for event in script {
            let reaction = turn.on_unit(event.clone());
            if let Some(forward) = reaction.forward {
                send(forward, tx, rx, adapter, seen);
            }
            if reaction.feedback == Feedback::Halt {
                break;
            }
        }
    }
    let end = worker.conclude(turn, outcome);
    if let Some(marker) = end.marker {
        send(marker, tx, rx, adapter, seen);
    }
}

fn send(
    event: ResponseEvent,
    tx: &SyncSender<ResponseEvent>,
    rx: &Receiver<ResponseEvent>,
    adapter: &mut StreamAdapter,
    seen: &mut Vec<Vec<u8>>,
) {
    let mut pending = event;
    loop {
        match tx.try_send(pending) {
            Ok(()) => return,
            Err(TrySendError::Full(back)) => {
                pending = back;
                pull(rx, adapter, seen);
            }
            Err(TrySendError::Disconnected(_)) => panic!("the receiver is gone"),
        }
    }
}

fn pull(rx: &Receiver<ResponseEvent>, adapter: &mut StreamAdapter, seen: &mut Vec<Vec<u8>>) {
    let incoming = match rx.try_recv() {
        Ok(event) => Some(event),
        Err(TryRecvError::Empty) => panic!("nothing to pull"),
        Err(TryRecvError::Disconnected) => None,
    };
    assert!(adapter.can_accept(&incoming));
    if let Pulled::Chunk(bytes) = adapter.accept(incoming) {
        seen.push(bytes.to_vec());
    }
}

fn drain(rx: &Receiver<ResponseEvent>, adapter: &mut StreamAdapter, seen: &mut Vec<Vec<u8>>) {
    while !adapter.is_finished() {
        pull(rx, adapter, seen);
    }
}

#[test]
fn potato_limited_to_five_units() {
    let (tx, rx) = sync_channel::<ResponseEvent>(3);
    let mut worker = Worker::launch(Ok::<(), LoadError>(())).expect("loaded");
    let script = vec![
        unit("I'm"),
        unit(" a"),
        unit(" potato"),
        unit(","),
        unit(" and"),
        unit(" I"),
        unit(" grow"),
        unit(" underground"),
    ];
    let mut adapter = StreamAdapter::new();
    let mut seen: Vec<Vec<u8>> = Vec::new();
    serve(
        &mut worker,
        Request::limited("I'm a potato".to_string(), 5),
        &script,
        Ok(()),
        &tx,
        &rx,
        &mut adapter,
        &mut seen,
    );
    drain(&rx, &mut adapter, &mut seen);

    assert_eq!(adapter.status(), Status::Completed);
    assert_eq!(seen.len(), 5);
    for pair in seen.windows(2) {
        assert!(pair[0].len() < pair[1].len());
        assert!(pair[1].starts_with(&pair[0]));
    }
    let last = seen.last().expect("five snapshots");
    assert_eq!(last, &b"I'm a potato, and".to_vec());
    assert!(seen.iter().all(|s| s.len() <= last.len()));
    assert!(matches!(rx.try_recv(), Err(TryRecvError::Empty)));
}

#[test]
fn generator_that_ends_early_gives_fewer_snapshots() {
    let (tx, rx) = sync_channel::<ResponseEvent>(3);
    let mut worker = Worker::launch(Ok::<(), LoadError>(())).expect("loaded");
    let script = vec![unit("I'm"), unit(" done"), ResponseEvent::TerminalMarker, unit(" not")];
    let mut adapter = StreamAdapter::new();
    let mut seen: Vec<Vec<u8>> = Vec::new();
    serve(
        &mut worker,
        Request::limited("I'm a potato".to_string(), 5),
        &script,
        Ok(()),
        &tx,
        &rx,
        &mut adapter,
        &mut seen,
    );
    drain(&rx, &mut adapter, &mut seen);
    assert_eq!(seen, vec![b"I'm".to_vec(), b"I'm done".to_vec()]);
    assert_eq!(adapter.status(), Status::Completed);
    assert!(matches!(rx.try_recv(), Err(TryRecvError::Empty)));
}

#[test]
fn failure_in_the_middle_still_ends_the_stream_once() {
    let (tx, rx) = sync_channel::<ResponseEvent>(8);
    let mut worker = Worker::launch(Ok::<(), LoadError>(())).expect("loaded");
    let mut adapter = StreamAdapter::new();
    let mut seen: Vec<Vec<u8>> = Vec::new();
    serve(
        &mut worker,
        Request::new("first".to_string()),
        &[unit("half"), unit(" way")],
        Err(InferError::ContextFull),
        &tx,
        &rx,
        &mut adapter,
        &mut seen,
    );
    let mut sent: Vec<ResponseEvent> = Vec::new();
    while let Ok(event) = rx.try_recv() {
        sent.push(event);
    }
    assert_eq!(sent, vec![unit("half"), unit(" way"), ResponseEvent::TerminalMarker]);
    let markers = sent.iter().filter(|e| **e == ResponseEvent::TerminalMarker).count();
    assert_eq!(markers, 1);
    assert!(!worker.is_stopped());

    serve(
        &mut worker,
        Request::new("second".to_string()),
        &[unit("all"), unit(" good")],
        Ok(()),
        &tx,
        &rx,
        &mut adapter,
        &mut seen,
    );
    drain(&rx, &mut adapter, &mut seen);
    assert_eq!(seen, vec![b"all".to_vec(), b"all good".to_vec()]);
    assert_eq!(adapter.status(), Status::Completed);
}

#[test]
fn each_response_has_its_own_adapter() {
    let (tx, rx) = sync_channel::<ResponseEvent>(16);
    let mut worker = Worker::launch(Ok::<(), LoadError>(())).expect("loaded");
    let mut unused = StreamAdapter::new();
    let mut none: Vec<Vec<u8>> = Vec::new();
    let scripts: Vec<Vec<ResponseEvent>> = vec![
        vec![unit("a"), unit("b")],
        vec![],
        vec![unit("c"), ResponseEvent::Other("n".to_string()), unit("d"), unit("e")],
    ];
    for script in &scripts {
        serve(
            &mut worker,
            Request::limited("p".to_string(), 3),
            script,
            Ok(()),
            &tx,
            &rx,
            &mut unused,
            &mut none,
        );
    }
    let expected: Vec<Vec<Vec<u8>>> = vec![
        vec![b"a".to_vec(), b"ab".to_vec()],
        vec![],
        vec![b"c".to_vec(), b"cd".to_vec(), b"cde".to_vec()],
    ];
    for want in expected {
        let mut adapter = StreamAdapter::new();
        let mut seen: Vec<Vec<u8>> = Vec::new();
        drain(&rx, &mut adapter, &mut seen);
        assert_eq!(seen, want);
        assert_eq!(adapter.status(), Status::Completed);
    }
    assert!(matches!(rx.try_recv(), Err(TryRecvError::Empty)));
}

#[test]
fn closed_response_channel_ends_the_stream() {
    let (tx, rx) = sync_channel::<ResponseEvent>(3);
    tx.try_send(unit("cut")).expect("room for one");
    drop(tx);
    let mut adapter = StreamAdapter::new();
    let mut seen: Vec<Vec<u8>> = Vec::new();
    drain(&rx, &mut adapter, &mut seen);
    assert_eq!(seen, vec![b"cut".to_vec()]);
    assert_eq!(adapter.status(), Status::Disconnected);
    assert!(adapter.ended_abnormally());
}

#[test]
fn response_channel_takes_exactly_its_capacity() {
    let capacity = 3;
    let (tx, rx) = sync_channel::<ResponseEvent>(capacity);
    let mut worker = Worker::launch(Ok::<(), LoadError>(())).expect("loaded");
    let mut turn = match worker.receive(Some(Request::new("p".to_string()))) {
        Directive::Generate { turn, .. } => turn,
        Directive::Shutdown => panic!("the worker is stopped"),
    };
    let mut queued = 0;
    let held_back = loop {
        let reaction = turn.on_unit(unit("u"));
        match tx.try_send(reaction.forward.expect("no limit")) {
            Ok(()) => queued += 1,
            Err(TrySendError::Full(event)) => break event,
            Err(TrySendError::Disconnected(_)) => panic!("the receiver is gone"),
        }
    };
    assert_eq!(queued, capacity);

    let mut adapter = StreamAdapter::new();
    let incoming = rx.try_recv().ok();
    assert!(matches!(adapter.accept(incoming), Pulled::Chunk(_)));
    assert!(tx.try_send(held_back).is_ok());
    assert!(matches!(tx.try_send(unit("u")), Err(TrySendError::Full(_))));
}

#[test]
fn second_submit_waits_for_the_first_to_be_taken() {
    let (tx, rx) = sync_channel::<Request>(1);
    let mut worker = Worker::launch(Ok::<(), LoadError>(())).expect("loaded");
    assert!(tx.try_send(Request::new("first".to_string())).is_ok());
    let second = match tx.try_send(Request::new("second".to_string())) {
        Err(TrySendError::Full(request)) => request,
        _ => panic!("the second request must not fit"),
    };
    match worker.receive(rx.try_recv().ok()) {
        Directive::Generate { prompt, .. } => assert_eq!(prompt, "first"),
        Directive::Shutdown => panic!("expected the first request"),
    }
    assert!(tx.try_send(second).is_ok());
    match worker.receive(rx.try_recv().ok()) {
        Directive::Generate { prompt, .. } => assert_eq!(prompt, "second"),
        Directive::Shutdown => panic!("expected the second request"),
    }
}

#[test]
fn closed_request_channel_with_nothing_pending() {
    let (tx, rx) = sync_channel::<Request>(3);
    let (events, responses) = sync_channel::<ResponseEvent>(3);
    drop(tx);
    let mut worker = Worker::launch(Ok::<(), LoadError>(())).expect("loaded");
    let directive = worker.next_turn(&rx);
    assert!(matches!(directive, Directive::Shutdown));
    assert!(worker.is_stopped());
    assert!(matches!(responses.try_recv(), Err(TryRecvError::Empty)));
    drop(events);
    assert!(matches!(responses.try_recv(), Err(TryRecvError::Disconnected)));
}

#[test]
fn submit_to_a_stopped_worker_fails_as_closed() {
    let (tx, rx) = sync_channel::<Request>(3);
    drop(rx);
    assert_eq!(submit(&tx, Request::new("late".to_string())), Err(ChannelClosed));
}

#[test]
fn submitted_requests_reach_the_worker_in_order() {
    let (tx, rx) = sync_channel::<Request>(3);
    assert_eq!(submit(&tx, Request::limited("one".to_string(), 7)), Ok(()));
    assert_eq!(submit(&tx, Request::new("two".to_string())), Ok(()));
    let mut worker = Worker::launch(Ok::<(), LoadError>(())).expect("loaded");
    match worker.next_turn(&rx) {
        Directive::Generate { prompt, max_units, .. } => {
            assert_eq!(prompt, "one");
            assert_eq!(max_units, Some(7));
        }
        Directive::Shutdown => panic!("expected the first request"),
    }
    match worker.next_turn(&rx) {
        Directive::Generate { prompt, .. } => assert_eq!(prompt, "two"),
        Directive::Shutdown => panic!("expected the second request"),
    }
}

#[test]
fn submission_for_each_answer_of_the_channel() {
    assert_eq!(submission(true), Ok(()));
    assert_eq!(submission(false), Err(ChannelClosed));
}
