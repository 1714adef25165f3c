use std::sync::Arc;
use tokio::sync::mpsc::error::SendError;
use tokio::sync::mpsc::{Receiver, Sender};
use vstd::prelude::*;

verus! {

#[verifier::external_type_specification]
#[verifier::external_body]
#[verifier::reject_recursive_types(T)]
pub struct ExSender<T>(Sender<T>);

#[verifier::external_type_specification]
#[verifier::external_body]
#[verifier::reject_recursive_types(T)]
pub struct ExReceiver<T>(Receiver<T>);

#[verifier::external_type_specification]
#[verifier::external_body]
#[verifier::reject_recursive_types(T)]
pub struct ExSendError<T>(SendError<T>);

/// The largest queue buffer a bounded channel accepts.
pub const MAX_CHANNEL_BUFFER: usize = usize::MAX >> 3;

/// Relies on tokio::sync::mpsc::channel to create a bounded queue: it
/// asserts a buffer of at least one slot, and its semaphore asserts at most
/// `MAX_CHANNEL_BUFFER` slots.
#[verifier::external_body]
fn bounded_channel<T>(buffer: usize) -> (Sender<T>, Receiver<T>)
    requires
        0 < buffer <= MAX_CHANNEL_BUFFER,
{
    tokio::sync::mpsc::channel(buffer)
}

/// One listener of an event: the sending end of a bounded queue, or a
/// callback run during dispatch.
#[verifier::reject_recursive_types(T)]
pub enum Subscriber<T, F> {
    Channel(Sender<Arc<T>>),
    Closure(F),
}

/// Why delivery to one subscriber failed: its queue was closed, or its
/// callback reported an error.
#[verifier::reject_recursive_types(T)]
pub enum EventError<T, E> {
    ChannelSend(SendError<Arc<T>>),
    Closure(E),
}

/// A named broadcast channel with an ordered list of subscribers.
///
/// Delivery itself is the caller's: it hands each subscriber the shared
/// value in order, then settles the dispatch with one outcome per subscriber.
#[verifier::reject_recursive_types(T)]
pub struct Event<T, F> {
    pub name: String,
    subscribers: Vec<Subscriber<T, F>>,
    remove_subscriber_on_error: bool,
}

/// The abstract value of an event.
#[verifier::reject_recursive_types(T)]
pub struct EventView<T, F> {
    pub name: Seq<char>,
    pub subscribers: Seq<Subscriber<T, F>>,
    pub remove_subscriber_on_error: bool,
}

impl<T, F> View for Event<T, F> {
    type V = EventView<T, F>;

    closed spec fn view(&self) -> EventView<T, F> {
        EventView {
            name: self.name@,
            subscribers: self.subscribers@,
            remove_subscriber_on_error: self.remove_subscriber_on_error,
        }
    }
}

/// The errors among the outcomes, in subscriber order.
pub open spec fn failures<E>(outcomes: Seq<Result<(), E>>) -> Seq<E>
    decreases outcomes.len(),
{
    if outcomes.len() == 0 {
        Seq::empty()
    } else {
        (match outcomes[0] {
            Ok(()) => Seq::empty(),
            Err(e) => seq![e],
        }) + failures(outcomes.skip(1))
    }
}

/// The subscribers whose delivery succeeded, in their order.
pub open spec fn survivors<S, E>(subscribers: Seq<S>, outcomes: Seq<Result<(), E>>) -> Seq<S>
    decreases subscribers.len(),
{
    if subscribers.len() == 0 {
        Seq::empty()
    } else {
        (if outcomes[0] is Ok {
            seq![subscribers[0]]
        } else {
            Seq::empty()
        }) + survivors(subscribers.skip(1), outcomes.skip(1))
    }
}

impl<T, F> Event<T, F> {
    /// An event without subscribers. With `remove_subscriber_on_error` a
    /// subscriber whose delivery fails is dropped after that dispatch.
    pub fn new(name: &str, remove_subscriber_on_error: bool) -> (r: Self)
        ensures
            r@.name == name@,
            r@.subscribers.len() == 0,
            r@.remove_subscriber_on_error == remove_subscriber_on_error,
    {
        Event { name: String::from_str(name), subscribers: Vec::new(), remove_subscriber_on_error }
    }

    pub fn subscriber_count(&self) -> (r: usize)
        ensures
            r == self@.subscribers.len(),
    {
        self.subscribers.len()
    }

    /// The subscribers in registration order.
    pub fn subscribers(&self) -> (r: &Vec<Subscriber<T, F>>)
        ensures
            r@ == self@.subscribers,
    {
        &self.subscribers
    }

    /// Adds a bounded queue of `buffer` slots as the last subscriber and
    /// returns its receiving end.
    pub fn open_channel(&mut self, buffer: usize) -> (r: Receiver<Arc<T>>)
        requires
            0 < buffer <= MAX_CHANNEL_BUFFER,
        ensures
            final(self)@.name == old(self)@.name,
            final(self)@.remove_subscriber_on_error == old(self)@.remove_subscriber_on_error,
            final(self)@.subscribers.len() == old(self)@.subscribers.len() + 1,
            final(self)@.subscribers.drop_last() == old(self)@.subscribers,
            final(self)@.subscribers.last() is Channel,
    {
        let (sender, receiver) = bounded_channel(buffer);
        self.subscribers.push(Subscriber::Channel(sender));
        assert(self@.subscribers.drop_last() =~= old(self)@.subscribers);
        receiver
    }

    /// Adds a callback as the last subscriber.
    pub fn subscribe(&mut self, closure: F)
        ensures
            final(self)@.name == old(self)@.name,
            final(self)@.remove_subscriber_on_error == old(self)@.remove_subscriber_on_error,
            final(self)@.subscribers == old(self)@.subscribers.push(Subscriber::Closure(closure)),
    {
        self.subscribers.push(Subscriber::Closure(closure));
    }

    /// Settles a dispatch from the outcome of delivery to each subscriber, in
    /// subscriber order. Returns `Ok` if every delivery succeeded, else every
    /// error in subscriber order. If failing subscribers are to be removed,
    /// they are, from the highest position down; otherwise the list stays.
    pub fn settle_dispatch<E>(&mut self, outcomes: Vec<Result<(), E>>) -> (r: Result<(), Vec<E>>)
        requires
            outcomes@.len() == old(self)@.subscribers.len(),
        ensures
            final(self)@.name == old(self)@.name,
            final(self)@.remove_subscriber_on_error == old(self)@.remove_subscriber_on_error,
            final(self)@.subscribers == if old(self)@.remove_subscriber_on_error {
                survivors(old(self)@.subscribers, outcomes@)
            } else {
                old(self)@.subscribers
            },
            match r {
                Ok(()) => failures(outcomes@).len() == 0,
                Err(errors) => errors@ == failures(outcomes@) && errors@.len() > 0,
            },
    {
        let ghost all = outcomes@;
        let ghost subs = self@.subscribers;
        let n = outcomes.len();
        let mut outcomes = outcomes;
        let mut errors: Vec<E> = Vec::new();
        let mut failed: Vec<bool> = Vec::new();
        let mut i: usize = 0;
        assert(all.skip(0) =~= all);
        assert(errors@ + failures(all.skip(0)) =~= failures(all));
        while i < n
            invariant
                n == all.len(),
                i <= n,
                outcomes@ == all.skip(i as int),
                failed@.len() == i,
                forall|k: int| 0 <= k < i ==> #[trigger] failed@[k] == (all[k] is Err),
                errors@ + failures(all.skip(i as int)) == failures(all),
            decreases n - i,
        {
            let ghost rest = outcomes@;
            let outcome = outcomes.remove(0);
            proof {
                assert(rest.skip(1) =~= all.skip(i + 1));
                assert(outcomes@ =~= all.skip(i + 1));
            }
            match outcome {
                Ok(()) => {
                    failed.push(false);
                },
                Err(e) => {
                    errors.push(e);
                    failed.push(true);
                },
            }
            proof {
                assert(errors@ + failures(all.skip(i + 1)) =~= failures(all));
            }
            i = i + 1;
        }
        assert(all.skip(n as int) =~= Seq::<Result<(), E>>::empty());
        assert(errors@ =~= failures(all));
        if self.remove_subscriber_on_error {
            let mut p: usize = n;
            assert(subs.take(n as int) =~= subs);
            while p > 0
                invariant
                    n == all.len() == subs.len(),
                    p <= n,
                    failed@.len() == n,
                    forall|k: int| 0 <= k < n ==> #[trigger] failed@[k] == (all[k] is Err),
                    self@.name == old(self)@.name,
                    self@.remove_subscriber_on_error == old(self)@.remove_subscriber_on_error,
                    self@.subscribers == subs.take(p as int) + survivors(
                        subs.skip(p as int),
                        all.skip(p as int),
                    ),
                decreases p,
            {
                p = p - 1;
                proof {
                    assert(subs.skip(p as int).skip(1) =~= subs.skip(p + 1));
                    assert(all.skip(p as int).skip(1) =~= all.skip(p + 1));
                }
                if failed[p] {
                    self.subscribers.remove(p);
                    assert(self@.subscribers =~= subs.take(p as int) + survivors(
                        subs.skip(p as int),
                        all.skip(p as int),
                    ));
                } else {
                    assert(self@.subscribers =~= subs.take(p as int) + survivors(
                        subs.skip(p as int),
                        all.skip(p as int),
                    ));
                }
            }
            assert(subs.skip(0) =~= subs);
            assert(all.skip(0) =~= all);
            assert(self@.subscribers =~= survivors(subs, all));
        }
        if errors.len() == 0 {
            Ok(())
        } else {
            Err(errors)
        }
    }
}

/// Every subscriber either fails or survives a dispatch with eviction: the
/// list shrinks by exactly the number of errors returned.
pub proof fn lemma_eviction_count<S, E>(subscribers: Seq<S>, outcomes: Seq<Result<(), E>>)
    requires
        subscribers.len() == outcomes.len(),
    ensures
        survivors(subscribers, outcomes).len() + failures(outcomes).len() == subscribers.len(),
    decreases subscribers.len(),
{
    if subscribers.len() > 0 {
        lemma_eviction_count(subscribers.skip(1), outcomes.skip(1));
    }
}

} // verus!
