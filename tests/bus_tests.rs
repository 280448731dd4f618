use std::time::Duration;

use bus::bus::{matches_any, remove_dropped, remove_item, Bus, BusError, BusMessage, BusReceiver, Delivery};
use bus::ident::Ident;

#[test]
fn mapping_one() {
    let mut bus = Bus::new();
    let inbound = bus.take_inbound().unwrap();

    let (mut tx1, rx1) = bus.channel(vec!["Channel 1"]);
    let (_tx2, rx2) = bus.channel(vec!["Channel 1", "Channel 2"]);

    assert!(tx1.send(BusMessage::new("Message 1", "Channel 1")));
    assert!(tx1.send(BusMessage::new("Message 2", "Channel 1")));
    assert!(tx1.send(BusMessage::new("Message 3", "Channel 2")));
    assert!(tx1.send(BusMessage::new("Message 4", "Channel 2")));

    while let Ok(m) = inbound.receiver().try_recv() {
        bus.relay(m);
    }

    assert_eq!("Message 1", rx1.receiver().recv().unwrap().message);
    assert_eq!("Message 2", rx1.receiver().recv().unwrap().message);
    assert_eq!(true, rx1.receiver().recv_timeout(Duration::from_millis(1)).is_err());

    assert_eq!("Message 1", rx2.receiver().recv().unwrap().message);
    assert_eq!("Message 2", rx2.receiver().recv().unwrap().message);
    assert_eq!("Message 3", rx2.receiver().recv().unwrap().message);
    assert_eq!("Message 4", rx2.receiver().recv().unwrap().message);
    assert_eq!(true, rx2.receiver().recv_timeout(Duration::from_millis(1)).is_err());
}

#[test]
fn empty_interests_receive_nothing() {
    let mut bus: Bus<&str, &str> = Bus::new();
    let inbound = bus.take_inbound().unwrap();
    let (mut tx, rx) = bus.channel(vec![]);
    assert!(tx.send(BusMessage::new("Message 1", "Channel 1")));
    while let Ok(m) = inbound.receiver().try_recv() {
        let outcomes = bus.relay(m);
        assert_eq!(outcomes, vec![Delivery::Skipped]);
    }
    assert!(rx.receiver().recv_timeout(Duration::from_millis(1)).is_err());
    assert_eq!(bus.subscriber_count(), 1);
}

fn drain(rx: &BusReceiver<u32, Ident>) -> Vec<u32> {
    let mut out = vec![];
    while let Ok(m) = rx.receiver().recv_timeout(Duration::from_millis(1)) {
        out.push(m.message);
    }
    out
}

#[test]
fn all_interest_receives_every_named_envelope() {
    let mut bus: Bus<u32, Ident> = Bus::new();
    let inbound = bus.take_inbound().unwrap();
    let (mut tx, rx_a) = bus.channel(vec![Ident::Name("a".to_string())]);
    let (_tx_all, rx_all) = bus.channel(vec![Ident::All]);
    assert!(tx.send(BusMessage::new(1, Ident::Name("a".to_string()))));
    assert!(tx.send(BusMessage::new(2, Ident::Name("b".to_string()))));
    assert!(tx.send(BusMessage::new(3, Ident::All)));
    assert!(tx.send(BusMessage::new(4, Ident::Nothing)));
    while let Ok(m) = inbound.receiver().try_recv() {
        bus.relay(m);
    }
    assert_eq!(drain(&rx_all), vec![1, 2, 3]);
    assert_eq!(drain(&rx_a), vec![1, 3]);
}

#[test]
fn nothing_interest_never_receives() {
    let mut bus: Bus<u32, Ident> = Bus::new();
    let inbound = bus.take_inbound().unwrap();
    let (mut tx, rx) = bus.channel(vec![Ident::Nothing]);
    assert!(tx.send(BusMessage::new(1, Ident::Nothing)));
    assert!(tx.send(BusMessage::new(2, Ident::All)));
    assert!(tx.send(BusMessage::new(3, Ident::Name("x".to_string()))));
    while let Ok(m) = inbound.receiver().try_recv() {
        assert_eq!(bus.relay(m), vec![Delivery::Skipped]);
    }
    assert!(drain(&rx).is_empty());
}

#[test]
fn dropped_receiver_is_pruned() {
    let mut bus: Bus<u32, &str> = Bus::new();
    let inbound = bus.take_inbound().unwrap();
    let (mut tx, rx1) = bus.channel(vec!["c"]);
    let (_tx2, rx2) = bus.channel(vec!["c"]);
    let (_tx3, rx3) = bus.channel(vec!["c"]);
    drop(rx2);
    assert!(tx.send(BusMessage::new(1, "c")));
    let m = inbound.receiver().try_recv().unwrap();
    let outcomes = bus.relay(m);
    assert_eq!(
        outcomes,
        vec![Delivery::Delivered, Delivery::Dropped, Delivery::Delivered]
    );
    assert_eq!(bus.subscriber_count(), 2);
    assert!(tx.send(BusMessage::new(2, "other")));
    let m = inbound.receiver().try_recv().unwrap();
    assert_eq!(bus.relay(m), vec![Delivery::Skipped, Delivery::Skipped]);
    assert_eq!(rx1.receiver().recv().unwrap().message, 1);
    assert_eq!(rx3.receiver().recv().unwrap().message, 1);
}

#[test]
fn several_dropped_receivers_keep_the_others() {
    let mut bus: Bus<u32, &str> = Bus::new();
    let inbound = bus.take_inbound().unwrap();
    let (mut tx, rx0) = bus.channel(vec!["c"]);
    let (_t1, rx1) = bus.channel(vec!["c"]);
    let (_t2, rx2) = bus.channel(vec!["c"]);
    let (_t3, rx3) = bus.channel(vec!["d"]);
    drop(rx0);
    drop(rx2);
    assert!(tx.send(BusMessage::new(5, "c")));
    let outcomes = bus.relay(inbound.receiver().try_recv().unwrap());
    assert_eq!(
        outcomes,
        vec![
            Delivery::Dropped,
            Delivery::Delivered,
            Delivery::Dropped,
            Delivery::Skipped
        ]
    );
    assert_eq!(bus.subscriber_count(), 2);
    assert!(tx.send(BusMessage::new(6, "d")));
    let outcomes = bus.relay(inbound.receiver().try_recv().unwrap());
    assert_eq!(outcomes, vec![Delivery::Skipped, Delivery::Delivered]);
    assert_eq!(rx1.receiver().recv().unwrap().message, 5);
    assert_eq!(rx3.receiver().recv().unwrap().message, 6);
}

#[test]
fn identical_interests_get_independent_copies() {
    let mut bus: Bus<String, &str> = Bus::new();
    let inbound = bus.take_inbound().unwrap();
    let (mut tx, rx1) = bus.channel(vec!["c"]);
    let (_tx2, rx2) = bus.channel(vec!["c"]);
    assert!(tx.send(BusMessage::new("first".to_string(), "c")));
    assert!(tx.send(BusMessage::new("second".to_string(), "c")));
    while let Ok(m) = inbound.receiver().try_recv() {
        bus.relay(m);
    }
    let mut a1 = rx1.receiver().recv().unwrap();
    let b1 = rx2.receiver().recv().unwrap();
    a1.message.push_str(" changed");
    assert_eq!(a1.message, "first changed");
    assert_eq!(b1.message, "first");
    assert_eq!(rx1.receiver().recv().unwrap().message, "second");
    assert_eq!(rx2.receiver().recv().unwrap().message, "second");
}

#[test]
fn ident_matching_relation() {
    let a = Ident::Name("a".to_string());
    let a2 = Ident::Name("a".to_string());
    let b = Ident::Name("b".to_string());
    assert!(Ident::All == Ident::All);
    assert!(Ident::All == a);
    assert!(a == Ident::All);
    assert!(a == a2);
    assert!(a != b);
    assert!(Ident::Nothing != Ident::Nothing);
    assert!(Ident::All != Ident::Nothing);
    assert!(Ident::Nothing != Ident::All);
    assert!(a != Ident::Nothing);
}

#[test]
fn matches_any_over_interests() {
    let interests = vec![Ident::Nothing, Ident::Name("x".to_string())];
    assert!(matches_any(&interests, &Ident::Name("x".to_string())));
    assert!(matches_any(&interests, &Ident::All));
    assert!(!matches_any(&interests, &Ident::Name("y".to_string())));
    assert!(!matches_any(&interests, &Ident::Nothing));
    assert!(!matches_any(&Vec::<Ident>::new(), &Ident::All));
}

#[test]
fn remove_item_in_and_out_of_range() {
    let mut v = vec![10, 20, 30];
    assert_eq!(remove_item(&mut v, 1), Some(20));
    assert_eq!(v, vec![10, 30]);
    assert_eq!(remove_item(&mut v, 2), None);
    assert_eq!(v, vec![10, 30]);
}

#[test]
fn bus_message_holds_its_parts() {
    let m = BusMessage::new("Message 1", "Channel 1");
    assert_eq!(m.message, "Message 1");
    assert_eq!(m.ident, "Channel 1");
}

#[test]
fn bus_error_descriptions() {
    assert_eq!(BusError::Lock.describe(), "Lock error");
    let e: BusError = std::sync::mpsc::RecvError.into();
    let e2 = e.clone();
    assert_eq!(e2.describe(), "Recv Error");
    assert!(matches!(e, BusError::RecvError(_)));
    assert_eq!(e.describe(), "Recv Error");
}

#[test]
fn channel_hands_out_the_shared_inbound_queue() {
    let mut bus: Bus<u8, u8> = Bus::new();
    let inbound = bus.take_inbound().unwrap();
    assert!(bus.take_inbound().is_none());
    let (mut tx1, _rx1) = bus.channel(vec![1]);
    let (mut tx2, _rx2) = bus.channel(vec![2]);
    assert!(tx1.send(BusMessage::new(1, 1)));
    assert!(tx2.send(BusMessage::new(2, 2)));
    assert_eq!(inbound.receiver().try_recv().unwrap().message, 1);
    assert_eq!(inbound.receiver().try_recv().unwrap().message, 2);
    assert_eq!(bus.subscriber_count(), 2);
}

#[test]
fn remove_dropped_keeps_order_of_the_rest() {
    let mut v = vec![1, 2, 3, 4, 5];
    let outcomes = vec![
        Delivery::Dropped,
        Delivery::Delivered,
        Delivery::Dropped,
        Delivery::Skipped,
        Delivery::Dropped,
    ];
    remove_dropped(&mut v, &outcomes);
    assert_eq!(v, vec![2, 4]);
    let mut w = vec![7, 8];
    remove_dropped(&mut w, &vec![Delivery::Skipped, Delivery::Delivered]);
    assert_eq!(w, vec![7, 8]);
}

#[test]
fn publishing_fails_only_once_the_inbound_queue_is_gone() {
    let mut bus: Bus<u8, u8> = Bus::new();
    let inbound = bus.take_inbound().unwrap();
    let (mut tx, _rx) = bus.channel(vec![1]);
    assert!(tx.send(BusMessage::new(1, 1)));
    drop(inbound);
    assert!(!tx.send(BusMessage::new(2, 1)));
    assert!(!tx.send(BusMessage::new(3, 1)));
}
