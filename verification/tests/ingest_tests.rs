use iot_core::bus::Bus;
use iot_core::config::CliArgs;
use iot_core::http::{history_body, list_sensors_body};
use iot_core::ingest::{
    accept_ppm, dispatch, listener_step, split_payload, BrokerEvent, DropReason, IngestAction,
    ListenerStep,
};
use iot_core::store::MemoryStore;

const GAS: &str = "iot/sensor/gas";
const REGISTER: &str = "iot/sensor/register";
const ID: &str = "550e8400-e29b-41d4-a716-446655440000";

#[test]
fn split_at_first_bar_only() {
    let (a, b) = split_payload("head|rest|more").unwrap();
    assert_eq!(a, "head");
    assert_eq!(b, "rest|more");
    assert!(split_payload("no separator").is_none());
    let (a, b) = split_payload("|").unwrap();
    assert_eq!(a, "");
    assert_eq!(b, "");
}

#[test]
fn dispatch_gas_reading() {
    let action = dispatch(GAS, &format!("{}|12.5", ID));
    match action {
        IngestAction::SaveGas { sensor_id, ppm_text } => {
            assert_eq!(sensor_id, 0x550e8400e29b41d4a716446655440000);
            assert_eq!(ppm_text, "12.5");
            let bits = ppm_text.parse::<f64>().ok().map(f64::to_bits);
            assert_eq!(accept_ppm(bits), Ok(12.5f64.to_bits()));
        }
        other => panic!("expected a save action, got {:?}", action_name(&other)),
    }
}

#[test]
fn dispatch_register() {
    let action = dispatch(REGISTER, &format!("{}|kitchen", ID));
    match action {
        IngestAction::Register { sensor_id, label } => {
            assert_eq!(sensor_id, 0x550e8400e29b41d4a716446655440000);
            assert_eq!(label, "kitchen");
        }
        other => panic!("expected a register action, got {:?}", action_name(&other)),
    }
}

#[test]
fn malformed_payloads_are_dropped() {
    assert!(matches!(
        dispatch(GAS, "no separator"),
        IngestAction::Drop(DropReason::MissingSeparator)
    ));
    assert!(matches!(
        dispatch(GAS, "not-a-uuid|12.5"),
        IngestAction::Drop(DropReason::BadSensorId)
    ));
    assert!(matches!(
        dispatch(REGISTER, &format!("{}|", ID)),
        IngestAction::Drop(DropReason::BadLabel)
    ));
    assert!(matches!(
        dispatch("iot/other", "x|y"),
        IngestAction::Drop(DropReason::UnknownTopic)
    ));
}

#[test]
fn non_numeric_and_non_finite_ppm_rejected() {
    let parse = |t: &str| t.parse::<f64>().ok().map(f64::to_bits);
    assert_eq!(accept_ppm(parse("abc")), Err(DropReason::BadPpm));
    assert_eq!(accept_ppm(parse("NaN")), Err(DropReason::NonFinitePpm));
    assert_eq!(accept_ppm(parse("inf")), Err(DropReason::NonFinitePpm));
    assert_eq!(accept_ppm(parse("-inf")), Err(DropReason::NonFinitePpm));
    assert_eq!(accept_ppm(parse("1e999")), Err(DropReason::NonFinitePpm));
    assert_eq!(accept_ppm(parse("12.5")), Ok(12.5f64.to_bits()));
}

#[test]
fn malformed_message_leaves_no_row_and_no_event() {
    // The flow an edge runs: decide, and only a save action touches
    // the store and the bus.
    let mut store = MemoryStore::new();
    let mut bus = Bus::new(4);
    let mut cursor = bus.subscribe();
    let nan_payload = format!("{}|NaN", ID);
    for payload in ["no separator", "bad|1.0", nan_payload.as_str()] {
        let step = listener_step(BrokerEvent::Message {
            topic: String::from(GAS),
            payload: String::from(payload),
        });
        if let ListenerStep::Act(IngestAction::SaveGas { sensor_id, ppm_text }) = step {
            if let Ok(bits) = accept_ppm(ppm_text.parse::<f64>().ok().map(f64::to_bits)) {
                let e = store.save_entry(sensor_id, bits, 1, 1).unwrap();
                bus.publish(e);
            }
        }
    }
    assert!(store.fetch_all().unwrap().is_empty());
    assert!(store
        .fetch_history(0x550e8400e29b41d4a716446655440000)
        .unwrap()
        .is_empty());
    assert!(matches!(
        bus.recv(&mut cursor),
        iot_core::bus::RecvOutcome::Empty
    ));
}

#[test]
fn listener_loop_policy() {
    assert!(matches!(
        listener_step(BrokerEvent::Disconnected),
        ListenerStep::Exit
    ));
    assert!(matches!(
        listener_step(BrokerEvent::ReadError),
        ListenerStep::Continue
    ));
}

#[test]
fn response_bodies_compose() {
    let mut store = MemoryStore::new();
    store.register_sensor(1, String::from("a"), 5).unwrap();
    store.register_sensor(2, String::from("b"), 6).unwrap();
    let body = list_sensors_body(&store);
    assert!(body.starts_with('['));
    assert!(body.ends_with(']'));
    assert_eq!(body.matches("{\"id\":").count(), 2);

    store.save_entry(1, 2.5f64.to_bits(), 10, 7).unwrap();
    let history = store.fetch_history(1).unwrap();
    let texts = vec![String::from("2.5")];
    let hist_body = history_body(&history, &texts);
    assert_eq!(
        hist_body,
        "[{\"id\":\"00000000-0000-0000-0000-00000000000a\",\"sensor_id\":\"00000000-0000-0000-0000-000000000001\",\"value\":2.5,\"created_at\":7}]"
    );
}

#[test]
fn idle_configuration() {
    let both_absent = CliArgs { host: None, broker: None, database_url: String::from("db") };
    assert!(both_absent.idles());
    let with_http = CliArgs {
        host: Some(String::from("0.0.0.0:3000")),
        broker: None,
        database_url: String::from("db"),
    };
    assert!(!with_http.idles());
}

fn action_name(a: &IngestAction) -> &'static str {
    match a {
        IngestAction::SaveGas { .. } => "save",
        IngestAction::Register { .. } => "register",
        IngestAction::Drop(_) => "drop",
    }
}
