use std::sync::atomic::{AtomicUsize, Ordering};
use std::sync::Arc;

use futures::task::{noop_waker, waker, ArcWake};
use websockets::message::StreamMessage;
use websockets::queue::{NextMessage, ReceivedMessages};

struct CountingWaker {
    wakes: AtomicUsize,
}

impl ArcWake for CountingWaker {
    fn wake_by_ref(arc_self: &Arc<Self>) {
        arc_self.wakes.fetch_add(1, Ordering::SeqCst);
    }
}

fn counting() -> (Arc<CountingWaker>, std::task::Waker) {
    let counter = Arc::new(CountingWaker { wakes: AtomicUsize::new(0) });
    let w = waker(counter.clone());
    (counter, w)
}

#[test]
fn messages_come_out_in_order() {
    let mut messages = ReceivedMessages::new();
    messages.push(StreamMessage::Text("first".to_string()));
    messages.push(StreamMessage::Binary(vec![2]));
    assert!(matches!(
        messages.next_message(noop_waker()),
        NextMessage::Message(StreamMessage::Text(ref t)) if t == "first"
    ));
    assert!(matches!(
        messages.next_message(noop_waker()),
        NextMessage::Message(StreamMessage::Binary(ref b)) if b == &vec![2u8]
    ));
    assert!(matches!(messages.next_message(noop_waker()), NextMessage::Pending));
}

#[test]
fn fused_queue_drains_then_ends() {
    let mut messages = ReceivedMessages::new();
    messages.push(StreamMessage::Ping(vec![1]));
    messages.fuse();
    assert!(matches!(messages.next_message(noop_waker()), NextMessage::Message(StreamMessage::Ping(_))));
    assert!(matches!(messages.next_message(noop_waker()), NextMessage::End));
    assert!(matches!(messages.next_message(noop_waker()), NextMessage::End));
}

#[test]
fn waiting_task_is_woken_by_push() {
    let mut messages = ReceivedMessages::new();
    let (counter, w) = counting();
    assert!(matches!(messages.next_message(w), NextMessage::Pending));
    assert_eq!(0, counter.wakes.load(Ordering::SeqCst));
    messages.push(StreamMessage::Pong(vec![]));
    assert_eq!(1, counter.wakes.load(Ordering::SeqCst));
    messages.wake();
    assert_eq!(1, counter.wakes.load(Ordering::SeqCst));
}

#[test]
fn waiting_task_is_woken_by_fuse() {
    let mut messages = ReceivedMessages::new();
    let (counter, w) = counting();
    assert!(matches!(messages.next_message(w), NextMessage::Pending));
    messages.fuse();
    assert_eq!(1, counter.wakes.load(Ordering::SeqCst));
    assert!(matches!(messages.next_message(noop_waker()), NextMessage::End));
}
