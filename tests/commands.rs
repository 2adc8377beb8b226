use rust_tuyapi::Payload;
use tuya_mqtt::bridge::{prepare_publish, PublishError};
use tuya_mqtt::command::{
    build, dps, get_payload, secs_as_u32, socket_dps, state_is_on, Command, DataPoint, DpGroup,
};
use tuya_mqtt::config::{default_mqtt_id, default_port, default_topic};
use tuya_mqtt::{now_as_u32, payload, DeviceMap, ErrorKind, IpAddr, TuyaType};

fn point(on: bool) -> Vec<DataPoint> {
    vec![DataPoint { id: "1".to_string(), value: on }]
}

#[test]
fn on_and_one_switch_on() {
    for s in ["on", "1", "ON", "On", "oN"] {
        assert_eq!(build("dev", TuyaType::Socket, s, Some(7)).dps, point(true), "{}", s);
        assert!(state_is_on(s));
    }
}

#[test]
fn anything_else_switches_off() {
    for s in ["off", "garbage", "", "0", "on ", "onn", "true", "11"] {
        assert_eq!(build("dev", TuyaType::Socket, s, Some(7)).dps, point(false), "{}", s);
        assert!(!state_is_on(s));
    }
}

#[test]
fn build_keeps_device_and_time() {
    let c = build("545c7250ecf8bc58a8fd", TuyaType::Socket, "on", Some(132478194));
    assert_eq!(c.dev_id, "545c7250ecf8bc58a8fd");
    assert_eq!(c.t, Some(132478194));
    assert_eq!(build("x", TuyaType::Socket, "on", None).t, None);
    assert_eq!(socket_dps("1"), point(true));
    assert_eq!(dps(TuyaType::Socket, "off"), point(false));
}

#[test]
fn payload_carries_the_data_point() {
    for (state, on) in [("on", true), ("1", true), ("off", false), ("garbage", false)] {
        let command = payload("abcde", TuyaType::Socket, state);
        assert_eq!(command.dev_id, "abcde");
        assert_eq!(command.gw_id, Some("abcde".to_string()));
        assert_eq!(command.uid, None);
        assert_eq!(command.dp_id, None);
        assert_eq!(command.dps, point(on));
        assert!(command.t.is_some());
        match command.into_payload() {
            Payload::Struct(p) => {
                assert_eq!(p.dev_id, "abcde");
                assert_eq!(p.gw_id, Some("abcde".to_string()));
                assert_eq!(p.uid, None);
                assert_eq!(p.dp_id, None);
                assert!(p.t.is_some());
                let dps = p.dps.unwrap();
                assert_eq!(dps.len(), 1);
                assert_eq!(dps["1"], serde_json::Value::Bool(on));
            }
            Payload::String(_) => panic!("expected a structured payload"),
        }
    }
}

#[test]
fn get_payload_has_no_data_points() {
    let command = get_payload("abcde");
    assert_eq!(command.dev_id, "abcde");
    assert_eq!(command.gw_id, Some("abcde".to_string()));
    assert_eq!(command.uid, None);
    assert_eq!(command.dp_id, None);
    assert!(command.dps.is_empty());
    assert!(command.t.is_some());
    match command.into_payload() {
        Payload::Struct(p) => {
            assert_eq!(p.dev_id, "abcde");
            assert_eq!(p.gw_id, Some("abcde".to_string()));
            assert!(p.dps.unwrap().is_empty());
        }
        Payload::String(_) => panic!("expected a structured payload"),
    }
}

#[test]
fn seconds_are_cut_to_32_bits() {
    assert_eq!(secs_as_u32(Some(132478194)), Some(132478194));
    assert_eq!(secs_as_u32(Some(u32::MAX as u64)), Some(u32::MAX));
    assert_eq!(secs_as_u32(Some(1 << 32)), Some(0));
    assert_eq!(secs_as_u32(Some((1 << 32) + 5)), Some(5));
    assert_eq!(secs_as_u32(None), None);
}

#[test]
fn clock_gives_seconds_since_epoch() {
    let t = now_as_u32().unwrap();
    assert!(t > 1_600_000_000);
}

#[test]
fn publish_becomes_command() {
    let topic = "tuya/ver3.3/545c7250ecf8bc58a8fd/6597042c66252228/192.168.170.7/command";
    let (d, c) = prepare_publish(topic, b"ON", &DeviceMap::new(), Some(5)).unwrap();
    assert_eq!(d.ip, IpAddr::V4(192, 168, 170, 7));
    assert_eq!(c.dev_id, "545c7250ecf8bc58a8fd");
    assert_eq!(c.t, Some(5));
    assert_eq!(c.dps, point(true));
}

#[test]
fn publish_errors() {
    let topic = "tuya/ver3.3/id/key/192.168.170.7/command";
    assert_eq!(
        prepare_publish(topic, &[0xff, 0xfe], &DeviceMap::new(), None),
        Err(PublishError::NotUtf8)
    );
    assert_eq!(
        prepare_publish("tuya/x", b"on", &DeviceMap::new(), None),
        Err(PublishError::Route(ErrorKind::TopicTooShort))
    );
}

#[test]
fn config_defaults() {
    assert_eq!(default_topic(), "tuya/");
    assert_eq!(default_mqtt_id(), "rust-tuya-mqtt");
    assert!(!default_mqtt_id().is_empty());
    assert_eq!(default_port(), 1883);
}

#[test]
fn build_sets_gateway_and_no_user() {
    let c = build("dev", TuyaType::Socket, "on", None);
    assert_eq!(c.gw_id, Some("dev".to_string()));
    assert_eq!(c.uid, None);
    assert_eq!(c.dp_id, None);
    assert!(c.ids_unique());
}

#[test]
fn payload_copies_every_field() {
    let c = Command {
        dev_id: "d".to_string(),
        gw_id: Some("g".to_string()),
        uid: Some("u".to_string()),
        t: Some(9),
        dp_id: Some(DpGroup::Higher),
        dps: vec![
            DataPoint { id: "1".to_string(), value: true },
            DataPoint { id: "2".to_string(), value: false },
        ],
    };
    assert!(c.ids_unique());
    match c.into_payload() {
        Payload::Struct(p) => {
            assert_eq!(p.dev_id, "d");
            assert_eq!(p.gw_id, Some("g".to_string()));
            assert_eq!(p.uid, Some("u".to_string()));
            assert_eq!(p.t, Some(9));
            assert_eq!(p.dp_id, Some(vec![18, 19, 20]));
            let dps = p.dps.unwrap();
            assert_eq!(dps.len(), 2);
            assert_eq!(dps["1"], serde_json::Value::Bool(true));
            assert_eq!(dps["2"], serde_json::Value::Bool(false));
        }
        Payload::String(_) => panic!("expected a structured payload"),
    }
}

#[test]
fn repeated_ids_are_detected() {
    let mut c = build("dev", TuyaType::Socket, "on", None);
    c.dps.push(DataPoint { id: "2".to_string(), value: true });
    assert!(c.ids_unique());
    c.dps.push(DataPoint { id: "1".to_string(), value: false });
    assert!(!c.ids_unique());
}
