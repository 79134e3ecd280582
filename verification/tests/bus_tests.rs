use iot_core::bus::{Bus, PublishOutcome, RecvOutcome, BUS_CAPACITY};
use iot_core::domain::SensorEntry;
use iot_core::json::entry_json;
use iot_core::live::{live_step, LiveAction};

fn entry(id: u128, sensor_id: u128, value: f64, created_at: i64) -> SensorEntry {
    SensorEntry { id, sensor_id, value_bits: value.to_bits(), created_at }
}

#[test]
fn default_capacity_is_hundred() {
    let bus = Bus::new(BUS_CAPACITY);
    assert_eq!(bus.capacity, 100);
}

#[test]
fn publish_without_subscribers_is_a_signal() {
    let mut bus = Bus::new(4);
    let r = bus.publish(entry(1, 1, 1.0, 1));
    assert_eq!(r, PublishOutcome::NoSubscribers);
    let mut c = bus.subscribe();
    assert_eq!(bus.recv(&mut c), RecvOutcome::Empty);
}

#[test]
fn live_fanout_two_subscribers() {
    let mut bus = Bus::new(8);
    let s: u128 = 5;
    let mut c1 = bus.subscribe();
    let mut c2 = bus.subscribe();
    let e = entry(21, s, 9.1, 77);
    assert_eq!(bus.publish(e), PublishOutcome::Delivered(2));
    for c in [&mut c1, &mut c2] {
        let r = bus.recv(c);
        assert_eq!(r, RecvOutcome::Entry(e));
        match live_step(s, &r) {
            LiveAction::Emit(got) => {
                let body = entry_json(&got, "9.1");
                assert_eq!(
                    body,
                    "{\"id\":\"00000000-0000-0000-0000-000000000015\",\"sensor_id\":\"00000000-0000-0000-0000-000000000005\",\"value\":9.1,\"created_at\":77}"
                );
            }
            other => panic!("expected an emit, got {:?}", other),
        }
    }
}

#[test]
fn cross_sensor_isolation() {
    let mut bus = Bus::new(8);
    let a: u128 = 1;
    let b: u128 = 2;
    let mut ca = bus.subscribe();
    for i in 0..5u128 {
        bus.publish(entry(100 + i, b, 3.0, 10 + i as i64));
    }
    loop {
        let r = bus.recv(&mut ca);
        if r == RecvOutcome::Empty {
            break;
        }
        assert_eq!(live_step(a, &r), LiveAction::Skip);
    }
}

#[test]
fn slow_consumer_survives_and_blocks_nobody() {
    let cap = 5usize;
    let mut bus = Bus::new(cap);
    let mut slow = bus.subscribe();
    let mut fast = bus.subscribe();
    let total = cap + 10;
    for i in 0..total {
        let r = bus.publish(entry(i as u128, 1, 1.5, i as i64));
        assert_eq!(r, PublishOutcome::Delivered(2));
        // The fast reader keeps pace; the slow one stops reading.
        assert_eq!(bus.recv(&mut fast), RecvOutcome::Entry(entry(i as u128, 1, 1.5, i as i64)));
    }
    // The slow reader resumes: one lag signal, then the kept tail.
    let r = bus.recv(&mut slow);
    assert_eq!(r, RecvOutcome::Lagged(total - cap));
    assert_eq!(live_step(1, &r), LiveAction::Skip);
    let mut seen = 0usize;
    loop {
        match bus.recv(&mut slow) {
            RecvOutcome::Entry(e) => {
                assert_eq!(e.id, (total - cap + seen) as u128);
                seen += 1;
            }
            RecvOutcome::Empty => break,
            other => panic!("unexpected outcome {:?}", other),
        }
    }
    assert_eq!(seen, cap);
}

#[test]
fn drain_returns_everything_in_order() {
    let mut bus = Bus::new(10);
    let mut c = bus.subscribe();
    for i in 0..7u128 {
        bus.publish(entry(i, 3, 0.5, i as i64));
    }
    let got = bus.drain(&mut c);
    assert_eq!(got.len(), 7);
    for (i, e) in got.iter().enumerate() {
        assert_eq!(e.id, i as u128);
    }
}

#[test]
fn closed_bus_ends_the_stream() {
    let mut bus = Bus::new(4);
    let mut c = bus.subscribe();
    bus.publish(entry(1, 6, 2.0, 1));
    bus.close();
    assert!(matches!(bus.recv(&mut c), RecvOutcome::Entry(_)));
    let r = bus.recv(&mut c);
    assert_eq!(r, RecvOutcome::Closed);
    assert_eq!(live_step(6, &r), LiveAction::End);
}

#[test]
fn subscribe_sees_only_later_entries() {
    let mut bus = Bus::new(4);
    let mut early = bus.subscribe();
    bus.publish(entry(1, 1, 1.0, 1));
    let mut late = bus.subscribe();
    bus.publish(entry(2, 1, 1.0, 2));
    assert!(matches!(bus.recv(&mut early), RecvOutcome::Entry(e) if e.id == 1));
    assert!(matches!(bus.recv(&mut late), RecvOutcome::Entry(e) if e.id == 2));
    assert_eq!(bus.recv(&mut late), RecvOutcome::Empty);
}
