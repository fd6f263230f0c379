use std::future::Future;
use std::task::{Context, Poll, Waker};

use event_loop_server::events::Event;
use event_loop_server::servers::{event_queue, EVENT_QUEUE_CAPACITY, READ_BUFFER_SIZE};

fn numbered(i: usize) -> Event {
    Event::Custom(format!("event {}", i))
}

#[test]
fn limits_are_fixed() {
    assert_eq!(READ_BUFFER_SIZE, 1024);
    assert_eq!(EVENT_QUEUE_CAPACITY, 32);
}

#[test]
fn queue_holds_32_events() {
    let (tx, rx) = event_queue();
    assert_eq!(tx.max_capacity(), 32);
    assert_eq!(rx.max_capacity(), 32);
    assert_eq!(tx.capacity(), 32);
}

#[test]
fn queue_keeps_the_order_of_one_producer() {
    let (tx, mut rx) = event_queue();
    for i in 0..EVENT_QUEUE_CAPACITY {
        tx.try_send(numbered(i)).unwrap();
    }
    for i in 0..EVENT_QUEUE_CAPACITY {
        assert_eq!(rx.try_recv().unwrap(), numbered(i));
    }
    assert!(rx.try_recv().is_err());
}

#[test]
fn backpressure_holds_the_33rd_event_until_the_sink_drains_one() {
    let (tx, mut rx) = event_queue();
    for i in 0..32 {
        tx.try_send(numbered(i)).unwrap();
    }
    assert_eq!(tx.capacity(), 0);

    let mut cx = Context::from_waker(Waker::noop());
    let mut blocked = Box::pin(tx.send(numbered(32)));
    assert!(matches!(blocked.as_mut().poll(&mut cx), Poll::Pending));
    assert!(matches!(blocked.as_mut().poll(&mut cx), Poll::Pending));

    assert_eq!(rx.try_recv().unwrap(), numbered(0));
    assert!(matches!(blocked.as_mut().poll(&mut cx), Poll::Ready(Ok(()))));

    for i in 1..=32 {
        assert_eq!(rx.try_recv().unwrap(), numbered(i));
    }
    assert!(rx.try_recv().is_err());
}

#[test]
fn enqueue_fails_once_the_sink_is_gone() {
    let (tx, rx) = event_queue();
    drop(rx);
    let mut cx = Context::from_waker(Waker::noop());
    let mut send = Box::pin(tx.send(numbered(0)));
    assert!(matches!(send.as_mut().poll(&mut cx), Poll::Ready(Err(_))));
}

#[test]
fn sink_sees_the_queue_close_when_every_producer_is_gone() {
    let (tx, mut rx) = event_queue();
    let second = tx.clone();
    tx.try_send(numbered(1)).unwrap();
    second.try_send(numbered(2)).unwrap();
    drop(tx);
    drop(second);
    let mut cx = Context::from_waker(Waker::noop());
    assert!(matches!(Box::pin(rx.recv()).as_mut().poll(&mut cx), Poll::Ready(Some(_))));
    assert!(matches!(Box::pin(rx.recv()).as_mut().poll(&mut cx), Poll::Ready(Some(_))));
    assert!(matches!(Box::pin(rx.recv()).as_mut().poll(&mut cx), Poll::Ready(None)));
}
