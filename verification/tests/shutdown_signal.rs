//! The shutdown signal against the real broadcast channel.

use rustgine::{Delivery, Shutdown, ShutdownRx};
use std::time::Duration;
use tokio::sync::broadcast::error::RecvError;
use tokio::time::error::Elapsed;
use tokio::time::timeout;

/// Waits for the signal the way an asynchronous caller does: a receiver that
/// has fired returns at once, any other waits on the channel and records
/// what the wait ended with.
async fn recv(rx: &mut ShutdownRx) {
    if rx.has_fired() {
        return;
    }
    let delivery = match rx.receiver_mut().recv().await {
        Ok(()) => Delivery::Fired,
        Err(RecvError::Closed) => Delivery::Closed,
        Err(RecvError::Lagged(missed)) => Delivery::Lagged(missed),
    };
    rx.observe(delivery);
}

fn runtime() -> tokio::runtime::Runtime {
    tokio::runtime::Builder::new_current_thread()
        .enable_time()
        .build()
        .unwrap()
}

#[test]
fn new_shutdown_has_no_subscribers() {
    let shutdown = Shutdown::new();
    assert_eq!(shutdown.subscriber_count(), 0);
}

#[test]
fn default_creates_shutdown() {
    let shutdown = Shutdown::default();
    assert_eq!(shutdown.subscriber_count(), 0);
}

#[test]
fn subscribe_increments_count() {
    let shutdown = Shutdown::new();
    let _rx1 = shutdown.subscribe();
    assert_eq!(shutdown.subscriber_count(), 1);

    let _rx2 = shutdown.subscribe();
    assert_eq!(shutdown.subscriber_count(), 2);
}

#[test]
fn drop_receiver_decrements_count() {
    let shutdown = Shutdown::new();
    let rx1 = shutdown.subscribe();
    let rx2 = shutdown.subscribe();
    assert_eq!(shutdown.subscriber_count(), 2);

    drop(rx1);
    assert_eq!(shutdown.subscriber_count(), 1);

    drop(rx2);
    assert_eq!(shutdown.subscriber_count(), 0);
}

#[test]
fn clone_shares_channel() {
    let shutdown1 = Shutdown::new();
    let shutdown2 = shutdown1.clone();

    let _rx = shutdown1.subscribe();
    assert_eq!(shutdown1.subscriber_count(), 1);
    assert_eq!(shutdown2.subscriber_count(), 1);
}

#[test]
fn trigger_notifies_subscriber() {
    runtime().block_on(async {
        let shutdown = Shutdown::new();
        let mut rx = shutdown.subscribe();

        shutdown.trigger();

        let result: Result<(), Elapsed> = timeout(Duration::from_millis(100), recv(&mut rx)).await;
        assert!(result.is_ok(), "recv should complete after trigger");
    });
}

#[test]
fn trigger_notifies_multiple_subscribers() {
    runtime().block_on(async {
        let shutdown = Shutdown::new();
        let mut rx1 = shutdown.subscribe();
        let mut rx2 = shutdown.subscribe();

        shutdown.trigger();

        let result1: Result<(), Elapsed> =
            timeout(Duration::from_millis(100), recv(&mut rx1)).await;
        let result2: Result<(), Elapsed> =
            timeout(Duration::from_millis(100), recv(&mut rx2)).await;

        assert!(result1.is_ok(), "rx1 should receive signal");
        assert!(result2.is_ok(), "rx2 should receive signal");
    });
}

#[test]
fn trigger_is_idempotent() {
    runtime().block_on(async {
        let shutdown = Shutdown::new();
        let mut rx = shutdown.subscribe();

        shutdown.trigger();
        shutdown.trigger();
        shutdown.trigger();

        let result: Result<(), Elapsed> = timeout(Duration::from_millis(100), recv(&mut rx)).await;
        assert!(
            result.is_ok(),
            "recv should complete after multiple triggers"
        );
    });
}

#[test]
fn trigger_without_subscribers_succeeds() {
    let shutdown = Shutdown::new();
    shutdown.trigger();
}

#[test]
fn recv_blocks_until_trigger() {
    runtime().block_on(async {
        let shutdown = Shutdown::new();
        let mut rx = shutdown.subscribe();

        let result: Result<(), Elapsed> = timeout(Duration::from_millis(50), recv(&mut rx)).await;
        assert!(result.is_err(), "recv should timeout without trigger");

        shutdown.trigger();

        let result: Result<(), Elapsed> = timeout(Duration::from_millis(100), recv(&mut rx)).await;
        assert!(result.is_ok(), "recv should complete after trigger");
    });
}

#[test]
fn cloned_shutdown_can_trigger() {
    runtime().block_on(async {
        let shutdown1 = Shutdown::new();
        let shutdown2 = shutdown1.clone();

        let mut rx = shutdown1.subscribe();

        shutdown2.trigger();

        let result: Result<(), Elapsed> = timeout(Duration::from_millis(100), recv(&mut rx)).await;
        assert!(
            result.is_ok(),
            "trigger from clone should notify original's subscriber"
        );
    });
}

#[test]
fn test_shutdown_trigger_and_subscribe() {
    runtime().block_on(async {
        let shutdown = Shutdown::new();
        let mut rx = shutdown.subscribe();
        shutdown.trigger();
        recv(&mut rx).await;
    });
}

#[test]
fn shutdown_triggers_receivers() {
    runtime().block_on(async {
        let shutdown = Shutdown::new();
        let mut rx1 = shutdown.subscribe();
        let mut rx2 = shutdown.subscribe();
        shutdown.trigger();
        recv(&mut rx1).await;
        recv(&mut rx2).await;
    });
}

#[test]
fn fresh_receiver_has_not_fired() {
    let shutdown = Shutdown::new();
    let mut rx = shutdown.subscribe();
    assert!(!rx.has_fired());
    assert!(!rx.try_recv());
    assert!(!rx.has_fired());
}

#[test]
fn try_recv_sees_a_trigger() {
    let shutdown = Shutdown::new();
    let mut rx = shutdown.subscribe();
    shutdown.trigger();
    assert!(rx.try_recv());
    assert!(rx.has_fired());
}

#[test]
fn fired_receiver_stays_fired() {
    let shutdown = Shutdown::new();
    let mut rx = shutdown.subscribe();
    shutdown.trigger();
    assert!(rx.try_recv());
    assert!(rx.try_recv());
    assert!(rx.try_recv());
    runtime().block_on(async {
        let again: Result<(), Elapsed> = timeout(Duration::from_millis(100), recv(&mut rx)).await;
        assert!(again.is_ok());
    });
}

#[test]
fn earlier_triggers_are_not_replayed() {
    for count in 0..4 {
        let shutdown = Shutdown::new();
        for _ in 0..count {
            shutdown.trigger();
        }
        let mut late = shutdown.subscribe();
        assert!(!late.try_recv(), "after {} earlier triggers", count);
        shutdown.trigger();
        assert!(late.try_recv());
    }
}

#[test]
fn earlier_triggers_are_not_replayed_beside_a_subscriber() {
    let shutdown = Shutdown::new();
    let mut early = shutdown.subscribe();
    shutdown.trigger();
    shutdown.trigger();
    let mut late = shutdown.subscribe();
    assert!(early.try_recv());
    assert!(!late.try_recv());
    runtime().block_on(async {
        let waited: Result<(), Elapsed> = timeout(Duration::from_millis(50), recv(&mut late)).await;
        assert!(waited.is_err());
    });
}

#[test]
fn one_trigger_reaches_every_subscriber() {
    let shutdown = Shutdown::new();
    let mut receivers: Vec<ShutdownRx> = Vec::new();
    for _ in 0..5 {
        receivers.push(shutdown.subscribe());
    }
    shutdown.trigger();
    for rx in receivers.iter_mut() {
        assert!(rx.try_recv());
    }
}

#[test]
fn trigger_without_subscribers_returns_every_time() {
    let shutdown = Shutdown::new();
    for _ in 0..100 {
        shutdown.trigger();
    }
    assert_eq!(shutdown.subscriber_count(), 0);
}

#[test]
fn subscribing_k_times_adds_k() {
    let shutdown = Shutdown::new();
    let mut kept: Vec<ShutdownRx> = Vec::new();
    for k in 1..=7usize {
        kept.push(shutdown.subscribe());
        assert_eq!(shutdown.subscriber_count(), k);
    }
    while let Some(rx) = kept.pop() {
        let before = shutdown.subscriber_count();
        drop(rx);
        assert_eq!(shutdown.subscriber_count(), before - 1);
    }
    assert_eq!(shutdown.subscriber_count(), 0);
}

#[test]
fn two_receivers_complete_on_one_trigger() {
    runtime().block_on(async {
        let shutdown = Shutdown::new();
        let mut rx1 = shutdown.subscribe();
        let mut rx2 = shutdown.subscribe();
        shutdown.trigger();
        let first: Result<(), Elapsed> = timeout(Duration::from_millis(100), recv(&mut rx1)).await;
        let second: Result<(), Elapsed> = timeout(Duration::from_millis(100), recv(&mut rx2)).await;
        assert_eq!(first.ok(), Some(()));
        assert_eq!(second.ok(), Some(()));
        assert!(rx1.has_fired());
        assert!(rx2.has_fired());
    });
}

#[test]
fn abandoned_wait_leaves_the_signal_usable() {
    runtime().block_on(async {
        let shutdown = Shutdown::new();
        let mut abandoned = shutdown.subscribe();
        let lost: Result<(), Elapsed> =
            timeout(Duration::from_millis(20), recv(&mut abandoned)).await;
        assert!(lost.is_err());
        assert!(!abandoned.has_fired());

        let mut fresh = shutdown.subscribe();
        shutdown.trigger();
        let won: Result<(), Elapsed> = timeout(Duration::from_millis(100), recv(&mut fresh)).await;
        assert!(won.is_ok());

        let late: Result<(), Elapsed> =
            timeout(Duration::from_millis(100), recv(&mut abandoned)).await;
        assert!(late.is_ok(), "the abandoned wait lost no firing");
    });
}

#[test]
fn dropped_broadcaster_counts_as_shutdown() {
    let shutdown = Shutdown::new();
    let mut rx = shutdown.subscribe();
    assert!(!rx.try_recv());
    drop(shutdown);
    assert!(rx.try_recv());
    assert!(rx.has_fired());
}

#[test]
fn lagging_receiver_counts_as_shutdown() {
    let shutdown = Shutdown::new();
    let mut rx = shutdown.subscribe();
    for _ in 0..40 {
        shutdown.trigger();
    }
    assert!(rx.try_recv());
}

#[test]
fn every_delivery_but_empty_is_a_shutdown() {
    assert!(Delivery::Fired.signals_shutdown());
    assert!(Delivery::Closed.signals_shutdown());
    assert!(Delivery::Lagged(0).signals_shutdown());
    assert!(Delivery::Lagged(17).signals_shutdown());
    assert!(!Delivery::Empty.signals_shutdown());
}

#[test]
fn observe_latches() {
    let shutdown = Shutdown::new();
    let mut rx = shutdown.subscribe();
    rx.observe(Delivery::Empty);
    assert!(!rx.has_fired());
    rx.observe(Delivery::Lagged(3));
    assert!(rx.has_fired());
    rx.observe(Delivery::Empty);
    assert!(rx.has_fired());

    let mut closed = shutdown.subscribe();
    closed.observe(Delivery::Closed);
    assert!(closed.has_fired());
}

#[test]
fn receiver_over_a_channel_half() {
    let (sender, receiver) = tokio::sync::broadcast::channel::<()>(4);
    let mut rx = ShutdownRx::new(receiver);
    assert!(!rx.has_fired());
    assert!(!rx.try_recv());
    assert!(sender.send(()).is_ok());
    assert!(rx.try_recv());
}

#[test]
fn receiver_mut_is_the_subscribed_half() {
    let shutdown = Shutdown::new();
    let mut rx = shutdown.subscribe();
    shutdown.trigger();
    assert_eq!(rx.receiver_mut().try_recv(), Ok(()));
    assert!(!rx.has_fired());
    assert!(!rx.try_recv());
}

#[test]
fn signal_over_a_sender() {
    let (sender, mut first) = tokio::sync::broadcast::channel::<()>(4);
    let shutdown = Shutdown::from_sender(sender);
    assert_eq!(shutdown.subscriber_count(), 1);
    let mut second = shutdown.subscribe();
    assert_eq!(shutdown.subscriber_count(), 2);
    shutdown.trigger();
    assert_eq!(first.try_recv(), Ok(()));
    assert!(second.try_recv());
}
