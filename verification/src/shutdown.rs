//! The shutdown signal: one broadcaster, any number of receivers.
//!
//! Firing is an edge. A receiver sees the firings that happen after it was
//! created and none of the earlier ones; once it has seen one it stays fired.

use vstd::prelude::*;
use std::sync::Arc;
use tokio::sync::broadcast::error::{SendError, TryRecvError};
use tokio::sync::broadcast::{Receiver, Sender};

verus! {

/// Number of firings the channel keeps for receivers that have not read them
/// yet.
pub const SHUTDOWN_CHANNEL_CAPACITY: usize = 16;

/// The sending half of a tokio broadcast channel, `broadcast::Sender`.
#[verifier::external_type_specification]
#[verifier::external_body]
#[verifier::reject_recursive_types(T)]
pub struct ExSender<T>(Sender<T>);

/// The receiving half of a tokio broadcast channel, `broadcast::Receiver`.
#[verifier::external_type_specification]
#[verifier::external_body]
#[verifier::reject_recursive_types(T)]
pub struct ExReceiver<T>(Receiver<T>);

/// What `broadcast::Sender::send` returns when no receiver is subscribed.
#[verifier::external_type_specification]
#[verifier::external_body]
#[verifier::reject_recursive_types(T)]
pub struct ExSendError<T>(SendError<T>);

/// `broadcast::channel` creates a channel and hands out both halves. It
/// panics on a capacity of zero or above `usize::MAX / 2`, so both are
/// excluded. Nothing is claimed about the channel.
pub assume_specification<T: Clone>[ tokio::sync::broadcast::channel::<T> ](
    capacity: usize,
) -> (halves: (Sender<T>, Receiver<T>))
    requires
        0 < capacity <= usize::MAX / 2,
;

/// `broadcast::Sender::send` queues a value for every subscribed receiver
/// and fails when there is none. It neither blocks on receivers nor panics.
/// Which of the two happens depends on who is subscribed at that moment, so
/// nothing is claimed about the result.
pub assume_specification<T>[ Sender::<T>::send ](sender: &Sender<T>, value: T) -> (sent: Result<
    usize,
    SendError<T>,
>)
;

/// `broadcast::Sender::subscribe` creates a receiver that gets the values
/// sent after this call. It panics only when the channel already counts
/// `usize::MAX >> 2` receivers. Nothing is claimed about the receiver.
pub assume_specification<T>[ Sender::<T>::subscribe ](sender: &Sender<T>) -> (receiver: Receiver<T>)
;

/// `broadcast::Sender::receiver_count` reads how many receivers are
/// subscribed at the moment of the call. Other owners of the channel change
/// that number at any time, so nothing is claimed about it.
pub assume_specification<T>[ Sender::<T>::receiver_count ](sender: &Sender<T>) -> (count: usize)
;

/// What one look at the channel, or one completed wait on it, found.
#[derive(Clone, Copy, Debug, PartialEq, Eq, Structural)]
pub enum Delivery {
    /// A firing was received.
    Fired,
    /// Nothing has been sent since the last look.
    Empty,
    /// Every broadcaster is gone.
    Closed,
    /// The receiver fell behind and this many firings were dropped.
    Lagged(u64),
}

impl Delivery {
    /// Whether the delivery counts as a shutdown: everything does but an
    /// empty channel. A closed channel and a lagging receiver are not errors
    /// of their own.
    pub open spec fn means_shutdown(self) -> bool {
        self != Delivery::Empty
    }

    /// Whether the delivery counts as a shutdown.
    pub fn signals_shutdown(self) -> (fired: bool)
        ensures
            fired == self.means_shutdown(),
    {
        match self {
            Delivery::Empty => false,
            Delivery::Fired => true,
            Delivery::Closed => true,
            Delivery::Lagged(_) => true,
        }
    }
}

/// Looks at the channel once with `broadcast::Receiver::try_recv`, which
/// does not wait and does not panic, and names what it returned. What is
/// found depends on the other owners of the channel, so nothing is claimed
/// about it.
#[verifier::external_body]
fn look(receiver: &mut Receiver<()>) -> (delivery: Delivery) {
    match receiver.try_recv() {
        Ok(()) => Delivery::Fired,
        Err(TryRecvError::Empty) => Delivery::Empty,
        Err(TryRecvError::Closed) => Delivery::Closed,
        Err(TryRecvError::Lagged(missed)) => Delivery::Lagged(missed),
    }
}

/// Broadcaster of the shutdown signal. Clones share one channel.
#[derive(Clone, Debug)]
pub struct Shutdown {
    sender: Arc<Sender<()>>,
}

impl Shutdown {
    /// The channel half this signal fires through.
    pub closed spec fn broadcaster(&self) -> Sender<()> {
        *self.sender
    }

    /// The signal that fires through `sender`.
    pub fn from_sender(sender: Sender<()>) -> (signal: Self)
        ensures
            signal.broadcaster() == sender,
    {
        Shutdown { sender: Arc::new(sender) }
    }

    /// A signal that has not fired and has no subscribers.
    pub fn new() -> Self {
        let (sender, _) = tokio::sync::broadcast::channel::<()>(SHUTDOWN_CHANNEL_CAPACITY);
        Shutdown::from_sender(sender)
    }

    /// Fires the signal for every current subscriber. Firing again is
    /// allowed, and so is firing without subscribers.
    pub fn trigger(&self) {
        match self.sender.send(()) {
            Ok(_) => {},
            Err(_) => {},
        }
    }

    /// A receiver for the firings that follow. Earlier firings are not
    /// replayed to it: it starts out unfired.
    pub fn subscribe(&self) -> (receiver: ShutdownRx)
        ensures
            !receiver.fired(),
    {
        ShutdownRx::new(self.sender.subscribe())
    }

    /// Number of receivers that are alive at the moment of the call.
    pub fn subscriber_count(&self) -> usize {
        self.sender.receiver_count()
    }
}

impl Default for Shutdown {
    fn default() -> Self {
        Shutdown::new()
    }
}

/// One subscription to the shutdown signal.
#[derive(Debug)]
pub struct ShutdownRx {
    receiver: Receiver<()>,
    observed: bool,
}

impl ShutdownRx {
    /// Whether this receiver has seen the signal fire.
    pub closed spec fn fired(&self) -> bool {
        self.observed
    }

    /// The channel half this receiver waits on.
    pub closed spec fn half(&self) -> Receiver<()> {
        self.receiver
    }

    /// A receiver that waits on `receiver` and has not fired.
    pub fn new(receiver: Receiver<()>) -> (subscription: Self)
        ensures
            !subscription.fired(),
            subscription.half() == receiver,
    {
        ShutdownRx { receiver, observed: false }
    }

    /// Whether this receiver has seen the signal fire.
    pub fn has_fired(&self) -> (fired: bool)
        ensures
            fired == self.fired(),
    {
        self.observed
    }

    /// Records what a wait on the channel ended with. Once fired, the
    /// receiver stays fired.
    pub fn observe(&mut self, delivery: Delivery)
        ensures
            final(self).fired() == (old(self).fired() || delivery.means_shutdown()),
            final(self).half() == old(self).half(),
    {
        if delivery.signals_shutdown() {
            self.observed = true;
        }
    }

    /// Looks for the signal without waiting. A receiver that has fired
    /// answers `true` without looking at the channel again.
    pub fn try_recv(&mut self) -> (fired: bool)
        ensures
            fired == final(self).fired(),
            old(self).fired() ==> fired,
    {
        if !self.observed {
            let delivery = look(&mut self.receiver);
            self.observe(delivery);
        }
        self.observed
    }

    /// The channel half to wait on: the one this receiver holds, which is
    /// left as the caller leaves it. Report what the wait ended with to
    /// `observe`.
    pub fn receiver_mut(&mut self) -> (receiver: &mut Receiver<()>)
        ensures
            *receiver == old(self).half(),
            final(self).half() == *final(receiver),
            final(self).fired() == old(self).fired(),
    {
        &mut self.receiver
    }
}

} // verus!
