use rillet_core::channel::{Channel, Sent};
use rillet_core::event::{report_emit, Emitter, EmitterBuilder, Event, NextStep};
use std::collections::BTreeMap;

#[derive(Clone, Debug, PartialEq)]
struct Ping(u32);

impl Event for Ping {}

const PING: u64 = 0;
const PONG: u64 = 1;

fn emitter(capacity: usize) -> Emitter<Ping> {
    let mut builder = EmitterBuilder::new();
    builder.add_event(PING, capacity);
    builder.build()
}

#[test]
fn emits_beyond_capacity_reach_late_subscribers() {
    let mut emitter = emitter(4);

    // Far more events than the channel holds; with no draining
    // subscriber these must not wedge the channel.
    for i in 0..32 {
        emitter.emit(PING, Ping(i));
    }

    let mut rx = emitter.subscribe(PING);
    emitter.emit(PING, Ping(99));
    assert_eq!(rx.try_recv(&mut emitter), Some(Ping(99)));
}

#[test]
#[should_panic(expected = "event queue full")]
fn panics_when_a_subscriber_falls_behind() {
    let mut emitter = emitter(2);

    let _rx = emitter.subscribe(PING);
    for i in 0..3 {
        let accepted = emitter.try_emit(PING, Ping(i));
        if let Err(message) = report_emit(accepted, "Ping") {
            panic!("{}", message);
        }
    }
}

#[test]
fn a_full_queue_turns_the_event_away_from_everyone() {
    let mut emitter = emitter(2);
    let mut slow = emitter.subscribe(PING);
    let mut quick = emitter.subscribe(PING);
    assert!(emitter.try_emit(PING, Ping(0)));
    assert!(emitter.try_emit(PING, Ping(1)));
    assert_eq!(quick.try_recv(&mut emitter), Some(Ping(0)));
    assert_eq!(quick.try_recv(&mut emitter), Some(Ping(1)));

    assert!(!emitter.try_emit(PING, Ping(2)));
    assert_eq!(quick.try_recv(&mut emitter), None);
    assert_eq!(emitter.published(PING), 2);

    assert_eq!(slow.try_recv(&mut emitter), Some(Ping(0)));
    assert!(emitter.try_emit(PING, Ping(3)));
    assert_eq!(slow.try_recv(&mut emitter), Some(Ping(1)));
    assert_eq!(slow.try_recv(&mut emitter), Some(Ping(3)));
    assert_eq!(quick.try_recv(&mut emitter), Some(Ping(3)));
}

#[test]
fn external_subscribers_receive_events() {
    let mut emitter = emitter(4);
    let mut chirps = emitter.subscribe(PING);

    emitter.emit(PING, Ping(3));
    emitter.emit(PING, Ping(4));

    assert_eq!(chirps.try_recv(&mut emitter).map(|c| c.0), Some(3));
    assert_eq!(chirps.try_recv(&mut emitter).map(|c| c.0), Some(4));
}

#[test]
fn subscribers_only_see_events_after_subscribing() {
    let mut emitter = emitter(4);
    emitter.emit(PING, Ping(1));

    let mut chirps = emitter.subscribe(PING);
    emitter.emit(PING, Ping(2));
    assert_eq!(chirps.try_recv(&mut emitter).map(|c| c.0), Some(2));
    assert_eq!(chirps.try_recv(&mut emitter), None);
}

#[test]
fn event_capacity_sizes_the_channel() {
    let mut emitter = emitter(2);
    let chirps = emitter.subscribe(PING);
    assert_eq!(chirps.capacity(&emitter), 2);
}

#[test]
fn emitter_counts_published_events_and_subscribers() {
    let mut emitter = emitter(4);
    assert_eq!(emitter.subscriber_count(PING), 0);

    let rx = emitter.subscribe(PING);
    assert_eq!(emitter.subscriber_count(PING), 1);

    emitter.emit(PING, Ping(1));
    assert_eq!(emitter.published(PING), 1);

    emitter.unsubscribe(rx);
    assert_eq!(emitter.subscriber_count(PING), 0);
}

#[test]
fn an_unheard_emit_is_a_no_op() {
    let mut emitter = emitter(4);
    emitter.emit(PING, Ping(0));
    assert_eq!(emitter.published(PING), 0);

    let mut rx = emitter.subscribe(PING);
    assert_eq!(rx.try_recv(&mut emitter), None);
    emitter.emit(PING, Ping(1));
    emitter.unsubscribe(rx);
    assert!(emitter.try_emit(PING, Ping(2)));
    assert_eq!(emitter.published(PING), 1);
}

#[test]
fn a_turned_away_event_is_reported() {
    assert_eq!(report_emit(true, "Ping"), Ok(()));
    assert_eq!(report_emit(false, "Ping"), Err(String::from("event queue full: Ping")));
}

#[test]
fn a_subscriber_gets_every_event_whatever_others_do() {
    let mut emitter = emitter(3);
    let mut steady = emitter.subscribe(PING);
    let mut other = emitter.subscribe(PING);
    emitter.emit(PING, Ping(0));
    assert_eq!(other.try_recv(&mut emitter), Some(Ping(0)));
    emitter.emit(PING, Ping(1));
    emitter.unsubscribe(other);
    assert_eq!(steady.try_recv(&mut emitter), Some(Ping(0)));
    let mut late = emitter.subscribe(PING);
    emitter.emit(PING, Ping(2));
    assert_eq!(late.try_recv(&mut emitter), Some(Ping(2)));
    assert_eq!(steady.try_recv(&mut emitter), Some(Ping(1)));
    assert_eq!(steady.try_recv(&mut emitter), Some(Ping(2)));
    assert_eq!(steady.try_recv(&mut emitter), None);
}

#[test]
fn depth_counts_what_one_receiver_has_not_taken() {
    let mut emitter = emitter(4);
    let mut first = emitter.subscribe(PING);
    emitter.emit(PING, Ping(0));
    let second = emitter.subscribe(PING);
    emitter.emit(PING, Ping(1));
    assert_eq!(first.depth(&emitter), 2);
    assert_eq!(second.depth(&emitter), 1);
    assert_eq!(first.try_recv(&mut emitter), Some(Ping(0)));
    assert_eq!(first.depth(&emitter), 1);
}

#[test]
fn kinds_do_not_mix() {
    let mut builder = EmitterBuilder::new();
    builder.add_event(PING, 2);
    builder.add_event(PONG, 3);
    let mut emitter = builder.build();
    let mut pings = emitter.subscribe(PING);
    let mut pongs = emitter.subscribe(PONG);
    emitter.emit(PONG, Ping(5));
    assert_eq!(pings.try_recv(&mut emitter), None);
    assert_eq!(pongs.try_recv(&mut emitter), Some(Ping(5)));
    assert_eq!((emitter.published(PING), emitter.published(PONG)), (0, 1));
    assert_eq!((pings.capacity(&emitter), pongs.capacity(&emitter)), (2, 3));
}

#[test]
fn undeclared_kinds_are_ignored() {
    let mut emitter = Emitter::<Ping>::new();
    assert!(emitter.try_emit(PING, Ping(1)));
    assert_eq!(emitter.published(PING), 0);
    assert_eq!(emitter.subscriber_count(PING), 0);
}

#[test]
fn an_emitter_takes_channels_and_counts() {
    let mut channels = BTreeMap::new();
    channels.insert(PING, Channel::new(1));
    let mut counters = BTreeMap::new();
    counters.insert(PING, 41);
    let mut emitter = Emitter::with_senders(channels, counters);
    let _rx = emitter.subscribe(PING);
    emitter.emit(PING, Ping(1));
    assert_eq!(emitter.published(PING), 42);
}

#[test]
fn waiting_takes_what_is_queued_before_the_end() {
    let mut emitter = emitter(2);
    let mut rx = emitter.subscribe(PING);
    assert!(matches!(rx.next_step(&mut emitter, true), NextStep::Wait));
    emitter.emit(PING, Ping(1));
    assert!(
        matches!(rx.next_step(&mut emitter, false), NextStep::Take { event } if event == Ping(1))
    );
    assert!(matches!(rx.next_step(&mut emitter, false), NextStep::End));
}

#[test]
fn emits_wake_waiters() {
    let mut emitter = emitter(1);
    let _rx = emitter.subscribe(PING);
    let listener = emitter.listen().into_inner();
    emitter.emit(PING, Ping(1));
    futures_lite::future::block_on(listener);
}

#[test]
fn a_channel_reports_what_became_of_a_message() {
    let mut channel = Channel::new(1);
    assert_eq!(channel.send(7), Sent::NoAudience);
    let first = channel.subscribe();
    let second = channel.subscribe();
    assert_eq!(channel.send(8), Sent::Delivered);
    assert_eq!(channel.send(9), Sent::Full);
    assert_eq!(channel.try_recv(first), Some(8));
    assert_eq!(channel.try_recv(first), None);
    assert_eq!(channel.send(9), Sent::Full);
    channel.unsubscribe(second);
    assert_eq!(channel.send(9), Sent::Delivered);
    assert_eq!(channel.depth(first), 1);
    assert_eq!(channel.receiver_count(), 1);
    assert_eq!(channel.max_depth(), 1);
}

#[test]
fn a_closed_receiver_does_not_hold_messages_back() {
    let mut channel = Channel::new(2);
    let slow = channel.subscribe();
    let quick = channel.subscribe();
    for i in 0..2 {
        assert_eq!(channel.send(i), Sent::Delivered);
        assert_eq!(channel.try_recv(quick), Some(i));
    }
    channel.unsubscribe(slow);
    for i in 2..6 {
        assert_eq!(channel.send(i), Sent::Delivered);
        assert_eq!(channel.try_recv(quick), Some(i));
    }
}

#[test]
fn what_the_last_receiver_left_is_gone() {
    let mut channel = Channel::new(2);
    let first = channel.subscribe();
    assert_eq!(channel.send(0), Sent::Delivered);
    assert_eq!(channel.send(1), Sent::Delivered);
    channel.unsubscribe(first);
    assert_eq!(channel.send(2), Sent::NoAudience);
    let second = channel.subscribe();
    assert_eq!(channel.depth(second), 0);
    assert_eq!(channel.send(3), Sent::Delivered);
    assert_eq!(channel.send(4), Sent::Delivered);
    assert_eq!(channel.send(5), Sent::Full);
    assert_eq!(channel.try_recv(second), Some(3));
    assert_eq!(channel.try_recv(second), Some(4));
    assert_eq!(channel.try_recv(second), None);
}

#[test]
fn receivers_in_different_places_share_the_channel() {
    let mut channel = Channel::new(3);
    let early = channel.subscribe();
    assert_eq!(channel.send(0), Sent::Delivered);
    assert_eq!(channel.send(1), Sent::Delivered);
    let late = channel.subscribe();
    assert_eq!(channel.send(2), Sent::Delivered);
    assert_eq!(channel.send(3), Sent::Full);
    assert_eq!(channel.try_recv(late), Some(2));
    assert_eq!(channel.send(3), Sent::Full);
    assert_eq!(channel.try_recv(early), Some(0));
    assert_eq!(channel.send(3), Sent::Delivered);
    channel.unsubscribe(early);
    assert_eq!(channel.send(4), Sent::Delivered);
    assert_eq!(channel.send(5), Sent::Delivered);
    assert_eq!(channel.send(6), Sent::Full);
    for expected in 3..6 {
        assert_eq!(channel.try_recv(late), Some(expected));
    }
}
