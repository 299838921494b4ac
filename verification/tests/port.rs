use ractor::port::forward_output;
use ractor::{ActorId, ActorRef};

#[test]
fn forwarding_converts_and_sends() {
    let (tx, mut rx) = tokio::sync::mpsc::unbounded_channel::<String>();
    let receiver = ActorRef::new(ActorId::Local(1), tx);
    let converter = |x: u32| if x % 2 == 0 { Some(format!("even {x}")) } else { None };
    assert!(forward_output(&receiver, &converter, 4));
    assert!(forward_output(&receiver, &converter, 5));
    assert_eq!("even 4", rx.try_recv().unwrap());
    assert!(rx.try_recv().is_err());
}

#[test]
fn forwarding_stops_when_the_subscriber_is_gone() {
    let (tx, rx) = tokio::sync::mpsc::unbounded_channel::<u32>();
    drop(rx);
    let receiver = ActorRef::new(ActorId::Local(1), tx);
    let converter = |x: u32| Some(x);
    assert!(!forward_output(&receiver, &converter, 1));
    // a message the converter drops does not end the subscription
    let none = |_x: u32| None::<u32>;
    assert!(forward_output(&receiver, &none, 1));
}

use ractor::output_port::{ActorSubscription, OutputPortSubscribers, Subscriber};
use std::cell::RefCell;
use std::rc::Rc;

struct Recorder {
    name: &'static str,
    alive: bool,
    log: Rc<RefCell<Vec<(&'static str, u32)>>>,
}

impl Subscriber<u32> for Recorder {
    fn spec_answers(&self, _value: u32, alive: bool) -> bool {
        alive == self.alive
    }

    fn send(&self, value: &u32) -> bool {
        self.log.borrow_mut().push((self.name, *value));
        self.alive
    }
}

#[test]
fn published_values_reach_subscribers_in_order_and_dead_ones_are_dropped() {
    let log = Rc::new(RefCell::new(Vec::new()));
    let mut subs = OutputPortSubscribers::new(true);
    subs.set_subscriber(ActorId::Local(1), Recorder { name: "a", alive: true, log: log.clone() });
    subs.set_subscriber(ActorId::Local(2), Recorder { name: "b", alive: false, log: log.clone() });
    subs.set_subscriber(ActorId::Local(3), Recorder { name: "c", alive: true, log: log.clone() });
    subs.publish(&7);
    assert_eq!(vec![("a", 7), ("b", 7), ("c", 7)], *log.borrow());
    assert_eq!(2, subs.len());
    subs.publish(&8);
    assert_eq!(vec![("a", 7), ("b", 7), ("c", 7), ("a", 8), ("c", 8)], *log.borrow());
}

#[test]
fn resubscribing_replaces_unless_duplicates_are_allowed() {
    let log = Rc::new(RefCell::new(Vec::new()));
    let mut subs = OutputPortSubscribers::new(false);
    subs.set_subscriber(ActorId::Local(1), Recorder { name: "first", alive: true, log: log.clone() });
    subs.set_subscriber(ActorId::Local(2), Recorder { name: "other", alive: true, log: log.clone() });
    subs.set_subscriber(ActorId::Local(1), Recorder { name: "second", alive: true, log: log.clone() });
    assert_eq!(2, subs.len());
    subs.publish(&1);
    assert_eq!(vec![("second", 1), ("other", 1)], *log.borrow());

    let mut dup = OutputPortSubscribers::new(true);
    dup.set_subscriber(ActorId::Local(1), Recorder { name: "x", alive: true, log: log.clone() });
    dup.set_subscriber(ActorId::Local(1), Recorder { name: "y", alive: true, log: log.clone() });
    assert_eq!(2, dup.len());
}

#[test]
fn an_actor_subscription_forwards_converted_values() {
    let (tx, mut rx) = tokio::sync::mpsc::unbounded_channel::<String>();
    let sub = ActorSubscription::new(ActorRef::new(ActorId::Local(4), tx), |x: u32| {
        if x > 1 { Some(format!("got {x}")) } else { None }
    });
    assert!(sub.send(&5));
    assert!(sub.send(&1));
    assert_eq!("got 5", rx.try_recv().unwrap());
    assert!(rx.try_recv().is_err());
    drop(rx);
    // a value converting to nothing keeps the subscription; a failed cast ends it
    assert!(sub.send(&0));
    assert!(!sub.send(&9));
}

#[test]
fn publishing_drops_actors_which_stopped() {
    let (tx1, mut rx1) = tokio::sync::mpsc::unbounded_channel::<u32>();
    let (tx2, rx2) = tokio::sync::mpsc::unbounded_channel::<u32>();
    drop(rx2);
    fn same(x: u32) -> Option<u32> {
        Some(x)
    }
    let mut subs = OutputPortSubscribers::new(true);
    subs.set_subscriber(ActorId::Local(1), ActorSubscription::new(ActorRef::new(ActorId::Local(1), tx1), same));
    subs.set_subscriber(ActorId::Local(2), ActorSubscription::new(ActorRef::new(ActorId::Local(2), tx2), same));
    subs.publish(&3);
    assert_eq!(1, subs.len());
    assert_eq!(Ok(3), rx1.try_recv());
}
