use lum::event::{Event, EventError, Subscriber};
use std::sync::Arc;
use tokio::sync::mpsc::error::{SendError, TrySendError};

type Callback = fn(Arc<u32>) -> Result<(), String>;

fn deliver(event: &Event<u32, Callback>, value: u32) -> Vec<Result<(), EventError<u32, String>>> {
    let data = Arc::new(value);
    let mut outcomes = Vec::new();
    for subscriber in event.subscribers() {
        let outcome = match subscriber {
            Subscriber::Channel(sender) => match sender.try_send(Arc::clone(&data)) {
                Ok(()) => Ok(()),
                Err(TrySendError::Closed(v)) | Err(TrySendError::Full(v)) => Err(EventError::ChannelSend(SendError(v))),
            },
            Subscriber::Closure(f) => f(Arc::clone(&data)).map_err(EventError::Closure),
        };
        outcomes.push(outcome);
    }
    outcomes
}

#[test]
fn closed_channel_is_evicted() {
    let mut event: Event<u32, Callback> = Event::new("numbers", true);
    let mut r1 = event.open_channel(4);
    let r2 = event.open_channel(4);
    let mut r3 = event.open_channel(4);
    assert_eq!(event.subscriber_count(), 3);
    drop(r2);
    let outcomes = deliver(&event, 7);
    let errors = match event.settle_dispatch(outcomes) {
        Err(errors) => errors,
        Ok(()) => panic!("a closed channel must fail"),
    };
    assert_eq!(errors.len(), 1);
    assert!(matches!(&errors[0], EventError::ChannelSend(SendError(v)) if **v == 7));
    assert_eq!(event.subscriber_count(), 2);
    assert_eq!(*r1.try_recv().unwrap(), 7);
    assert_eq!(*r3.try_recv().unwrap(), 7);
    let outcomes = deliver(&event, 8);
    assert!(event.settle_dispatch(outcomes).is_ok());
    assert_eq!(*r1.try_recv().unwrap(), 8);
    assert_eq!(*r3.try_recv().unwrap(), 8);
}

#[test]
fn failing_subscribers_stay_without_eviction() {
    let mut event: Event<u32, Callback> = Event::new("numbers", false);
    let _r1 = event.open_channel(1);
    let r2 = event.open_channel(1);
    drop(r2);
    let outcomes = deliver(&event, 1);
    assert_eq!(event.settle_dispatch(outcomes).unwrap_err().len(), 1);
    assert_eq!(event.subscriber_count(), 2);
    assert_eq!(event.name, "numbers");
}

#[test]
fn callback_errors_in_order_and_evicted() {
    let mut event: Event<u32, Callback> = Event::new("calls", true);
    event.subscribe(|_| Err("first".to_string()));
    event.subscribe(|_| Ok(()));
    event.subscribe(|v| if *v > 5 { Err("second".to_string()) } else { Ok(()) });
    let outcomes = deliver(&event, 6);
    let errors = event.settle_dispatch(outcomes).unwrap_err();
    let texts: Vec<String> = errors
        .into_iter()
        .map(|e| match e {
            EventError::Closure(s) => s,
            EventError::ChannelSend(_) => panic!("no channel here"),
        })
        .collect();
    assert_eq!(texts, vec!["first".to_string(), "second".to_string()]);
    assert_eq!(event.subscriber_count(), 1);
    let outcomes = deliver(&event, 100);
    assert!(event.settle_dispatch(outcomes).is_ok());
}

#[test]
fn dispatch_without_subscribers_succeeds() {
    let mut event: Event<u32, Callback> = Event::new("empty", true);
    let outcomes = deliver(&event, 1);
    assert!(event.settle_dispatch(outcomes).is_ok());
    assert_eq!(event.subscriber_count(), 0);
}
