use tuya_mqtt::address::{parse_ip, parse_octet};
use tuya_mqtt::device::default_devtype;
use tuya_mqtt::{DeviceInfo, DeviceMap, ErrorKind, IpAddr, TuyaType};

fn kitchen() -> DeviceInfo {
    DeviceInfo {
        dev_type: TuyaType::Socket,
        id: "0123456789abcdef0123".to_string(),
        ip: IpAddr::V4(10, 0, 0, 7),
        key: "fedcba9876543210".to_string(),
        name: "kitchen".to_string(),
        version: "ver3.3".to_string(),
    }
}

#[test]
fn topic_from_string() {
    assert!(DeviceInfo::from_str_and_devices("ayut/ver3.3/adf", &DeviceMap::new()).is_err());
    assert!(
        DeviceInfo::from_str_and_devices("tuya/ver3.3/adf/18356", &DeviceMap::new()).is_err()
    );
    let topic = DeviceInfo::from_str_and_devices(
        "tuya/ver3.3/545c7250ecf8bc58a8fd/6597042c66252228/192.168.170.7/command",
        &DeviceMap::new(),
    )
    .unwrap();
    assert_eq!(
        topic,
        DeviceInfo {
            dev_type: TuyaType::Socket,
            name: "".to_string(),
            version: "ver3.3".to_string(),
            id: "545c7250ecf8bc58a8fd".to_string(),
            key: "6597042c66252228".to_string(),
            ip: "192.168.170.7".parse().unwrap(),
        },
    );
}

#[test]
fn short_topics_are_too_short() {
    let devs = DeviceMap::new();
    for t in ["", "tuya", "ayut/ver3.3/adf", "tuya/ver3.3/adf/18356", "a/b/c/d"] {
        assert_eq!(DeviceInfo::from_str_and_devices(t, &devs), Err(ErrorKind::TopicTooShort));
    }
}

#[test]
fn class_segment_raises_the_minimum() {
    let devs = DeviceMap::new();
    let r = DeviceInfo::from_str_and_devices("tuya/\"socket\"/ver3.3/id/key", &devs);
    assert_eq!(r, Err(ErrorKind::TopicTooShort));
}

#[test]
fn foreign_prefix_is_not_a_bridge_topic() {
    let devs = DeviceMap::new();
    let r = DeviceInfo::from_str_and_devices("ayut/ver3.3/id/key/192.168.0.1/command", &devs);
    assert_eq!(r, Err(ErrorKind::NotBridgeTopic));
    let r = DeviceInfo::from_str_and_devices("Tuya/ver3.3/id/key/192.168.0.1", &devs);
    assert_eq!(r, Err(ErrorKind::NotBridgeTopic));
}

#[test]
fn bad_address_is_reported() {
    let devs = DeviceMap::new();
    for ip in ["192.168.0", "192.168.0.256", "192.168.00.1", "host", ""] {
        let t = format!("tuya/ver3.3/id/key/{}/command", ip);
        assert_eq!(DeviceInfo::from_str_and_devices(&t, &devs), Err(ErrorKind::BadAddress));
    }
}

#[test]
fn five_segments_suffice() {
    let r = DeviceInfo::from_str_and_devices("tuya/3.1/abc/def/10.1.2.3", &DeviceMap::new());
    let d = r.unwrap();
    assert_eq!(d.version, "3.1");
    assert_eq!(d.id, "abc");
    assert_eq!(d.key, "def");
    assert_eq!(d.ip, IpAddr::V4(10, 1, 2, 3));
    assert_eq!(d.name, "");
    assert_eq!(d.dev_type, TuyaType::Socket);
}

#[test]
fn class_segment_shifts_the_fields() {
    let topic = "tuya/\"socket\"/ver3.3/abc/def/10.1.2.3/command";
    let d = DeviceInfo::from_str_and_devices(topic, &DeviceMap::new()).unwrap();
    assert_eq!(d.dev_type, TuyaType::Socket);
    assert_eq!(d.version, "ver3.3");
    assert_eq!(d.id, "abc");
    assert_eq!(d.key, "def");
    assert_eq!(d.ip, IpAddr::V4(10, 1, 2, 3));
}

#[test]
fn registered_name_wins() {
    let mut devs = DeviceMap::new();
    devs.insert(kitchen());
    let d = DeviceInfo::from_str_and_devices("tuya/kitchen/command", &devs).unwrap();
    assert_eq!(d, kitchen());
    let d = DeviceInfo::from_str_and_devices("ayut/kitchen/set", &devs).unwrap();
    assert_eq!(d, kitchen());
    assert_eq!(
        DeviceInfo::from_str_and_devices("tuya/hall/command", &devs),
        Err(ErrorKind::TopicTooShort)
    );
}

#[test]
fn later_entry_replaces_earlier() {
    let mut devs = DeviceMap::new();
    devs.insert(kitchen());
    let mut other = kitchen();
    other.key = "0000111122223333".to_string();
    devs.insert(other.clone());
    assert_eq!(devs.get("kitchen"), Some(&other));
    assert_eq!(devs.get("hall"), None);
}

#[test]
fn device_type_reads_json_names() {
    assert_eq!(TuyaType::from_json("\"socket\""), Some(TuyaType::Socket));
    assert_eq!(TuyaType::from_json(" \"socket\" "), Some(TuyaType::Socket));
    assert_eq!(TuyaType::from_json("socket"), None);
    assert_eq!(TuyaType::from_json("\"bulb\""), None);
    assert_eq!("\"socket\"".parse::<TuyaType>(), Ok(TuyaType::Socket));
    assert!("socket".parse::<TuyaType>().is_err());
    assert_eq!(TuyaType::from_name("socket"), Some(TuyaType::Socket));
    assert_eq!(TuyaType::from_name("Socket"), None);
    assert_eq!(default_devtype(), TuyaType::Socket);
}

#[test]
fn truncate_keeps_six_last_characters() {
    let d = DeviceInfo {
        dev_type: TuyaType::Socket,
        id: "545c7250ecf8bc58a8fd".to_string(),
        ip: IpAddr::V4(192, 168, 170, 7),
        key: "abc".to_string(),
        name: "lamp".to_string(),
        version: "3.3".to_string(),
    };
    let t = d.truncate();
    assert_eq!(t.id, "...58a8fd");
    assert_eq!(t.key, "...abc");
    assert_eq!(t.name, "lamp");
    assert_eq!(t.version, "3.3");
    assert_eq!(t.ip, d.ip);
}

#[test]
fn ip_addresses_parse() {
    assert_eq!(parse_ip("192.168.170.7"), Some(IpAddr::V4(192, 168, 170, 7)));
    assert_eq!(parse_ip("0.0.0.0"), Some(IpAddr::V4(0, 0, 0, 0)));
    assert_eq!(parse_ip("255.255.255.255"), Some(IpAddr::V4(255, 255, 255, 255)));
    for bad in ["", "1.2.3", "1.2.3.4.5", "1.2.3.256", "01.2.3.4", "1..2.3", "1.2.3.4 ", "+1.2.3.4", "a.b.c.d"] {
        assert_eq!(parse_ip(bad), None, "{}", bad);
        assert!(bad.parse::<IpAddr>().is_err());
    }
    assert_eq!(parse_octet("0"), Some(0));
    assert_eq!(parse_octet("200"), Some(200));
    assert_eq!(parse_octet("00"), None);
    assert_eq!(parse_octet("1000"), None);
}

#[test]
fn ipv6_addresses_parse() {
    let cases: [(&str, [u16; 8]); 12] = [
        ("::", [0; 8]),
        ("::1", [0, 0, 0, 0, 0, 0, 0, 1]),
        ("1::", [1, 0, 0, 0, 0, 0, 0, 0]),
        ("2001:db8::ff00:42:8329", [0x2001, 0xdb8, 0, 0, 0, 0xff00, 0x42, 0x8329]),
        ("2001:0DB8:0000:0000:0000:FF00:0042:8329", [0x2001, 0xdb8, 0, 0, 0, 0xff00, 0x42, 0x8329]),
        ("::ffff:192.168.1.1", [0, 0, 0, 0, 0, 0xffff, 0xc0a8, 0x0101]),
        ("1:2:3:4:5:6:7:8", [1, 2, 3, 4, 5, 6, 7, 8]),
        ("1:2:3:4:5:6:1.2.3.4", [1, 2, 3, 4, 5, 6, 0x0102, 0x0304]),
        ("1:2:3:4:5:6:7::", [1, 2, 3, 4, 5, 6, 7, 0]),
        ("::1:2:3:4:5:6:7", [0, 1, 2, 3, 4, 5, 6, 7]),
        ("::1.2.3.4", [0, 0, 0, 0, 0, 0, 0x0102, 0x0304]),
        ("1:2:3:4:5::1.2.3.4", [1, 2, 3, 4, 5, 0, 0x0102, 0x0304]),
    ];
    for (text, groups) in cases {
        assert_eq!(parse_ip(text), Some(IpAddr::V6(groups)), "{}", text);
    }
}

#[test]
fn bad_ipv6_addresses_are_refused() {
    for bad in [
        "1:2:3:4:5:6:7:8:9",
        "1:2:3:4:5:6:7",
        ":::",
        "1:::2",
        "1::2::3",
        "12345::",
        "1.2.3.4::",
        "::1.2.3.4:5",
        "g::",
        ":1::2",
        "1:2:3:4:5:6:7:8::",
        "1:2:3:4::5:6:7:8",
        "1:2:3:4:5:6::1.2.3.4",
        "1:2:3:4:5:6:7:1.2.3.4",
        "::01.2.3.4",
        "1:2:3:4:5:6:7:",
    ] {
        assert_eq!(parse_ip(bad), None, "{}", bad);
    }
}

#[test]
fn ipv6_topic_routes() {
    let topic = "tuya/ver3.3/abc/def/fe80::1/command";
    let d = DeviceInfo::from_str_and_devices(topic, &DeviceMap::new()).unwrap();
    assert_eq!(d.ip, IpAddr::V6([0xfe80, 0, 0, 0, 0, 0, 0, 1]));
}

#[test]
fn empty_fields_are_refused() {
    let devs = DeviceMap::new();
    for t in [
        "tuya//id/key/1.2.3.4/command",
        "tuya/3.3//key/1.2.3.4/command",
        "tuya/3.3/id//1.2.3.4",
        "tuya/\"socket\"/3.3/id//1.2.3.4",
    ] {
        assert_eq!(DeviceInfo::from_str_and_devices(t, &devs), Err(ErrorKind::EmptySegment), "{}", t);
    }
}

#[test]
fn from_str_follows_the_parsers() {
    assert_eq!("10.0.0.1".parse::<IpAddr>(), Ok(IpAddr::V4(10, 0, 0, 1)));
    assert_eq!("::1".parse::<IpAddr>(), Ok(IpAddr::V6([0, 0, 0, 0, 0, 0, 0, 1])));
    assert!("10.0.0".parse::<IpAddr>().is_err());
    assert_eq!(" \"socket\"".parse::<TuyaType>(), Ok(TuyaType::Socket));
    assert!("\"lamp\"".parse::<TuyaType>().is_err());
}

#[test]
fn bad_address_comes_before_empty_fields() {
    let devs = DeviceMap::new();
    assert_eq!(
        DeviceInfo::from_str_and_devices("tuya//id/key/notanip/cmd", &devs),
        Err(ErrorKind::BadAddress)
    );
    assert_eq!(
        DeviceInfo::from_str_and_devices("tuya//id/key/1.2.3.4/cmd", &devs),
        Err(ErrorKind::EmptySegment)
    );
}
