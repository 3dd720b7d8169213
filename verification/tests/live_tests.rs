use futures::sync::mpsc;
use futures::Stream;
use livelogo::live::{
    failed_listeners, listener_connected, listener_event, send_update, ListenerEvent, Listeners,
};

fn ids_of(report: &[(usize, bool)]) -> Vec<usize> {
    let mut ids: Vec<usize> = report.iter().map(|entry| entry.0).collect();
    ids.sort();
    ids
}

#[test]
fn ids_start_at_one_and_grow() {
    let mut listeners: Listeners<&str> = Listeners::new();
    assert_eq!(listeners.len(), 0);
    assert!(listeners.has_room());
    assert_eq!(listeners.register("a"), 1);
    assert_eq!(listeners.register("b"), 2);
    assert_eq!(listeners.register("c"), 3);
    assert_eq!(listeners.len(), 3);
    assert!(listeners.contains(1) && listeners.contains(2) && listeners.contains(3));
    assert!(!listeners.contains(0) && !listeners.contains(4));
}

#[test]
fn id_of_a_listener_that_left_is_not_used_again() {
    let mut listeners: Listeners<&str> = Listeners::new();
    let a = listeners.register("a");
    let b = listeners.register("b");
    let c = listeners.register("c");
    assert!(listeners.unregister(b));
    let d = listeners.register("d");
    assert!(d > c);
    assert_ne!(d, b);
    assert_eq!((a, b, c, d), (1, 2, 3, 4));
    assert!(!listeners.contains(b));
    assert!(listeners.contains(a) && listeners.contains(c) && listeners.contains(d));
}

#[test]
fn id_is_not_used_again_when_all_have_left() {
    let mut listeners: Listeners<u8> = Listeners::new();
    let a = listeners.register(0);
    assert!(listeners.unregister(a));
    assert_eq!(listeners.len(), 0);
    assert_eq!(listeners.register(0), 2);
}

#[test]
fn unregistering_twice_changes_nothing_more() {
    let mut listeners: Listeners<&str> = Listeners::new();
    let a = listeners.register("a");
    let b = listeners.register("b");
    assert!(listeners.unregister(a));
    assert!(!listeners.unregister(a));
    assert_eq!(listeners.len(), 1);
    assert!(listeners.contains(b));
    assert!(!listeners.contains(a));
    assert!(!listeners.unregister(77));
    assert_eq!(listeners.len(), 1);
    let seen = listeners.for_each(|_, sink| *sink == "b");
    assert_eq!(seen, vec![(b, true)]);
}

#[test]
fn for_each_visits_every_listener_once() {
    let mut listeners: Listeners<u32> = Listeners::new();
    for n in 0..20u32 {
        listeners.register(n * 10);
    }
    listeners.unregister(5);
    let report = listeners.for_each(|id, sink| *sink == (id as u32 - 1) * 10);
    assert_eq!(report.len(), 19);
    assert!(report.iter().all(|entry| entry.1));
    let expected: Vec<usize> = (1..=20).filter(|id| *id != 5).collect();
    assert_eq!(ids_of(&report), expected);
}

#[test]
fn for_each_on_an_empty_registry_visits_nothing() {
    let listeners: Listeners<u32> = Listeners::new();
    assert_eq!(listeners.for_each(|_, _| true), vec![]);
}

#[test]
fn update_reaches_every_listener() {
    let mut listeners = Listeners::new();
    let mut receivers = Vec::new();
    for _ in 0..3 {
        let (tx, rx) = mpsc::unbounded::<Vec<u8>>();
        listeners.register(tx);
        receivers.push(rx);
    }
    let payload = vec![1u8, 2, 3, 4];
    let report = send_update(&listeners, &payload);
    assert_eq!(ids_of(&report), vec![1, 2, 3]);
    assert!(report.iter().all(|entry| entry.1));
    assert_eq!(failed_listeners(&report), Vec::<usize>::new());
    drop(listeners);
    for rx in receivers {
        let got: Vec<Vec<u8>> = rx.wait().map(|m| m.unwrap()).collect();
        assert_eq!(got, vec![payload.clone()]);
    }
}

#[test]
fn closed_sink_does_not_keep_the_others_from_being_served() {
    for closed in 0..4usize {
        let mut listeners = Listeners::new();
        let mut receivers = Vec::new();
        for k in 0..4usize {
            let (tx, rx) = mpsc::unbounded::<Vec<u8>>();
            let id = listeners.register(tx);
            assert_eq!(id, k + 1);
            if k == closed {
                drop(rx);
            } else {
                receivers.push(rx);
            }
        }
        let payload = vec![42u8; 16];
        let report = send_update(&listeners, &payload);
        assert_eq!(ids_of(&report), vec![1, 2, 3, 4]);
        for entry in &report {
            assert_eq!(entry.1, entry.0 != closed + 1);
        }
        assert_eq!(failed_listeners(&report), vec![closed + 1]);
        assert_eq!(listeners.len(), 4);
        drop(listeners);
        assert_eq!(receivers.len(), 3);
        for rx in receivers {
            let got: Vec<Vec<u8>> = rx.wait().map(|m| m.unwrap()).collect();
            assert_eq!(got, vec![payload.clone()]);
        }
    }
}

#[test]
fn listener_that_joins_later_gets_only_later_updates() {
    let mut listeners = Listeners::new();
    let (tx, early) = mpsc::unbounded::<Vec<u8>>();
    listeners.register(tx);
    send_update(&listeners, &vec![1]);
    let (tx, late) = mpsc::unbounded::<Vec<u8>>();
    listeners.register(tx);
    send_update(&listeners, &vec![2]);
    drop(listeners);
    let got: Vec<Vec<u8>> = early.wait().map(|m| m.unwrap()).collect();
    assert_eq!(got, vec![vec![1], vec![2]]);
    let got: Vec<Vec<u8>> = late.wait().map(|m| m.unwrap()).collect();
    assert_eq!(got, vec![vec![2]]);
}

#[test]
fn failed_listeners_are_those_not_reached_in_order() {
    let report = vec![(4, true), (9, false), (2, false), (7, true), (1, false)];
    assert_eq!(failed_listeners(&report), vec![9, 2, 1]);
    assert_eq!(failed_listeners(&vec![]), Vec::<usize>::new());
    assert_eq!(failed_listeners(&vec![(3, true)]), Vec::<usize>::new());
}

#[test]
fn connection_registers_and_its_end_unregisters() {
    let mut listeners: Listeners<&str> = Listeners::new();
    let a = listener_connected(&mut listeners, "a");
    let b = listener_connected(&mut listeners, "b");
    assert_eq!((a, b), (1, 2));
    assert!(listener_event(&mut listeners, a, ListenerEvent::Message));
    assert_eq!(listeners.len(), 2);
    assert!(!listener_event(&mut listeners, a, ListenerEvent::Closed));
    assert!(!listeners.contains(a));
    assert!(listeners.contains(b));
    assert!(!listener_event(&mut listeners, a, ListenerEvent::Failed));
    assert_eq!(listeners.len(), 1);
    assert!(!listener_event(&mut listeners, b, ListenerEvent::Failed));
    assert_eq!(listeners.len(), 0);
    assert_eq!(listener_connected(&mut listeners, "c"), 3);
}
