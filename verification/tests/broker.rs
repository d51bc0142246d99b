use std::sync::{Arc, Mutex};
use orbital::broker as topic;
use orbital::registry::Registry;
use orbital::services::broker::{Broker, Message};

#[test]
fn registry_keeps_mount_order_per_path() {
    let mut r: Registry<u32> = Registry::new();
    r.mount("a".to_string(), 1);
    r.mount("b".to_string(), 2);
    r.mount("a".to_string(), 3);
    let a: Vec<u32> = r.listeners("a").into_iter().copied().collect();
    let b: Vec<u32> = r.listeners("b").into_iter().copied().collect();
    assert_eq!(a, vec![1, 3]);
    assert_eq!(b, vec![2]);
    assert!(r.listeners("c").is_empty());
}

#[test]
fn event_reaches_every_listener_of_its_path() {
    let mut b: Broker<&str> = Broker::new();
    b.mount("localhost:/orbital/service/log".to_string(), "log");
    b.mount("localhost:/orbital/service/view".to_string(), "view");
    b.mount("localhost:/orbital/service/log".to_string(), "log2");
    let d = b.deliveries("localhost:/orbital/service/log", "{\"x\":1}");
    assert_eq!(d.len(), 2);
    assert_eq!(*d[0].to, "log");
    assert_eq!(*d[1].to, "log2");
    for x in &d {
        match &x.message {
            Message::Event(p, a) => {
                assert_eq!(p, "localhost:/orbital/service/log");
                assert_eq!(a, "{\"x\":1}");
            },
            Message::Mount(_, _) => panic!("forwarded a mount"),
        }
    }
}

#[test]
fn event_on_unmounted_path_goes_nowhere() {
    let mut b: Broker<u8> = Broker::new();
    b.mount("/a".to_string(), 7);
    assert!(b.deliveries("/b", "x").is_empty());
    assert!(b.deliveries("/a/", "x").is_empty());
}

#[test]
fn same_listener_mounted_twice_gets_two_copies() {
    let mut b: Broker<u8> = Broker::new();
    b.mount("/a".to_string(), 7);
    b.mount("/a".to_string(), 7);
    let d = b.deliveries("/a", "x");
    assert_eq!(d.len(), 2);
    assert_eq!(*d[0].to, 7);
    assert_eq!(*d[1].to, 7);
}

#[test]
fn topic_broker_forwards_spawn_and_post_only() {
    let mut b: topic::Broker<u8> = topic::Broker::new();
    b.observe("/camera".to_string(), 1);
    b.observe("/camera".to_string(), 2);
    let post: topic::Message<u8, ()> = topic::Message::Post("/camera".to_string(), "amazing".to_string());
    let d = b.deliveries(&post);
    assert_eq!(d.len(), 2);
    assert_eq!(*d[1].to, 2);
    match &d[0].message {
        topic::Message::Post(t, p) => {
            assert_eq!(t, "/camera");
            assert_eq!(p, "amazing");
        },
        _ => panic!("wrong variant"),
    }
    let spawn: topic::Message<u8, ()> = topic::Message::Spawn("/camera".to_string(), "wow".to_string());
    let d = b.deliveries(&spawn);
    assert_eq!(d.len(), 2);
    assert!(matches!(&d[0].message, topic::Message::Spawn(t, p) if t == "/camera" && p == "wow"));
    let share: topic::Message<u8, ()> = topic::Message::Share("/camera".to_string(), ());
    let d = b.deliveries(&share);
    assert_eq!(d.len(), 2);
    assert!(matches!(&d[0].message, topic::Message::Share(t, ()) if t == "/camera"));
    let observe: topic::Message<u8, ()> = topic::Message::Observe("/camera".to_string(), 3);
    assert!(b.deliveries(&observe).is_empty());
    let other: topic::Message<u8, ()> = topic::Message::Post("/log".to_string(), "x".to_string());
    assert!(b.deliveries(&other).is_empty());
}

#[test]
fn broker_step_mounts_then_forwards() {
    let mut b: Broker<u8> = Broker::new();
    assert!(b.handle(Message::Mount("/a".to_string(), 1)).is_empty());
    assert!(b.handle(Message::Mount("/b".to_string(), 2)).is_empty());
    assert!(b.handle(Message::Mount("/a".to_string(), 3)).is_empty());
    let d = b.handle(Message::Event("/a".to_string(), "hi".to_string()));
    let to: Vec<u8> = d.iter().map(|x| *x.to).collect();
    assert_eq!(to, vec![1, 3]);
    assert!(matches!(&d[1].message, Message::Event(p, a) if p == "/a" && a == "hi"));
    assert!(b.handle(Message::Event("/c".to_string(), "hi".to_string())).is_empty());
}

#[test]
fn topic_broker_step() {
    let mut b: topic::Broker<u8> = topic::Broker::new();
    assert!(b.handle::<()>(topic::Message::Observe("/log".to_string(), 4)).is_empty());
    let d = b.handle::<()>(topic::Message::Post("/log".to_string(), "x".to_string()));
    assert_eq!(d.len(), 1);
    assert_eq!(*d[0].to, 4);
    let none = b.handle::<()>(topic::Message::Spawn("/nobody".to_string(), "p".to_string()));
    assert!(none.is_empty());
}

#[test]
fn topic_broker_shares_the_same_frame_buffer() {
    let mut b: topic::Broker<u8> = topic::Broker::new();
    let buf: Arc<Mutex<Vec<u32>>> = Arc::new(Mutex::new(vec![1, 2, 3]));
    assert!(b.handle::<Arc<Mutex<Vec<u32>>>>(topic::Message::Observe("/fb".to_string(), 1)).is_empty());
    assert!(b.handle::<Arc<Mutex<Vec<u32>>>>(topic::Message::Observe("/other".to_string(), 2)).is_empty());
    assert!(b.handle::<Arc<Mutex<Vec<u32>>>>(topic::Message::Observe("/fb".to_string(), 3)).is_empty());
    let d = b.handle(topic::Message::Share("/fb".to_string(), buf.clone()));
    let to: Vec<u8> = d.iter().map(|x| *x.to).collect();
    assert_eq!(to, vec![1, 3]);
    for x in &d {
        match &x.message {
            topic::Message::Share(t, b2) => {
                assert_eq!(t, "/fb");
                assert!(Arc::ptr_eq(b2, &buf));
            },
            _ => panic!("wrong variant"),
        }
    }
}

#[test]
fn listener_mounted_once_hears_each_later_event_once() {
    let mut b: Broker<u8> = Broker::new();
    assert!(b.handle(Message::Event("/a".to_string(), "early".to_string())).is_empty());
    assert!(b.handle(Message::Mount("/a".to_string(), 5)).is_empty());
    assert!(b.handle(Message::Mount("/b".to_string(), 6)).is_empty());
    for (path, hears) in [("/a", 1), ("/b", 0), ("/a", 1), ("/c", 0)] {
        let d = b.handle(Message::Event(path.to_string(), "x".to_string()));
        assert_eq!(d.iter().filter(|x| *x.to == 5).count(), hears);
    }
}
