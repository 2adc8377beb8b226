//! Devices, the registry of named devices, and the router that resolves a
//! bus topic to the device it addresses.

use vstd::prelude::*;

use crate::address::{ip_of, parse_ip, IpAddr, IpView};
use crate::text::{split, split_str, str_equal};

verus! {

/// The kind of a device, which decides the shape of its commands.
#[derive(Clone, Copy, Debug, PartialEq, Eq, Structural)]
pub enum TuyaType {
    Socket,
}

/// Why a topic could not be resolved to a device.
#[derive(Clone, Copy, Debug, PartialEq, Eq, Structural)]
pub enum ErrorKind {
    /// The topic has fewer segments than a device address needs.
    TopicTooShort,
    /// The topic does not start with the bridge's prefix segment.
    NotBridgeTopic,
    /// The address segment does not hold an IP address.
    BadAddress,
    /// The address parses, but the segment of the version, the id or the key
    /// is empty.
    EmptySegment,
}

/// What a JSON document holds when it is a single string: that string,
/// decoded.
pub uninterp spec fn json_string(text: Seq<char>) -> Option<Seq<char>>;

pub open spec fn is_json_blank(c: char) -> bool {
    c == ' ' || c == '\n' || c == '\t' || c == '\r'
}

/// The first character of `text` that is not JSON white space.
pub open spec fn json_lead(text: Seq<char>) -> Option<char>
    decreases text.len(),
{
    if text.len() == 0 {
        None
    } else if is_json_blank(text[0]) {
        json_lead(text.drop_first())
    } else {
        Some(text[0])
    }
}

/// Relies on `serde_json::from_str::<String>`: decodes a JSON string literal,
/// and fails on any other document, in particular on one whose first
/// character after white space is not a quote. The result depends on the
/// text alone.
#[verifier::external_body]
fn decode_json_string(text: &str) -> (r: Option<String>)
    ensures
        match r {
            Some(v) => json_string(text@) == Some(v@),
            None => json_string(text@) is None,
        },
        json_lead(text@) != Some('"') ==> r is None,
{
    serde_json::from_str::<String>(text).ok()
}

pub open spec fn socket_name() -> Seq<char> {
    seq!['s', 'o', 'c', 'k', 'e', 't']
}

impl TuyaType {
    /// The device kind that `name` denotes.
    pub open spec fn named(name: Seq<char>) -> Option<TuyaType> {
        if name == socket_name() {
            Some(TuyaType::Socket)
        } else {
            None
        }
    }

    /// The device kind that a JSON text denotes: a JSON string holding its name.
    pub open spec fn of_json(text: Seq<char>) -> Option<TuyaType> {
        if json_lead(text) != Some('"') {
            None
        } else {
            match json_string(text) {
                Some(name) => TuyaType::named(name),
                None => None,
            }
        }
    }

    /// The device kind with the given name.
    pub fn from_name(name: &str) -> (r: Option<TuyaType>)
        ensures
            r == TuyaType::named(name@),
    {
        let socket = "socket";
        proof {
            reveal_strlit("socket");
            assert(socket@ =~= socket_name());
        }
        if str_equal(name, socket) {
            Some(TuyaType::Socket)
        } else {
            None
        }
    }

    /// The device kind that a JSON text names, such as `"socket"` with its quotes.
    pub fn from_json(text: &str) -> (r: Option<TuyaType>)
        ensures
            r == TuyaType::of_json(text@),
    {
        match decode_json_string(text) {
            Some(name) => TuyaType::from_name(name.as_str()),
            None => None,
        }
    }
}

/// The error of reading a device kind from text.
#[derive(Clone, Copy, Debug, PartialEq, Eq, Structural)]
pub struct ParseTypeError;

impl std::str::FromStr for TuyaType {
    type Err = ParseTypeError;

    fn from_str(s: &str) -> (r: Result<TuyaType, ParseTypeError>)
        ensures
            match TuyaType::of_json(s@) {
                Some(t) => r == Ok::<TuyaType, ParseTypeError>(t),
                None => r is Err,
            },
    {
        match TuyaType::from_json(s) {
            Some(t) => Ok(t),
            None => Err(ParseTypeError),
        }
    }
}

/// The kind a device has when nothing names it.
pub fn default_devtype() -> (r: TuyaType)
    ensures
        r == TuyaType::Socket,
{
    TuyaType::Socket
}

/// A device: how to reach it and how to talk to it.
#[derive(Clone, Debug, PartialEq, Eq)]
pub struct DeviceInfo {
    pub dev_type: TuyaType,
    pub id: String,
    pub ip: IpAddr,
    pub key: String,
    pub name: String,
    pub version: String,
}

pub struct DeviceInfoView {
    pub dev_type: TuyaType,
    pub id: Seq<char>,
    pub ip: IpView,
    pub key: Seq<char>,
    pub name: Seq<char>,
    pub version: Seq<char>,
}

impl View for DeviceInfo {
    type V = DeviceInfoView;

    open spec fn view(&self) -> DeviceInfoView {
        DeviceInfoView {
            dev_type: self.dev_type,
            id: self.id@,
            ip: self.ip@,
            key: self.key@,
            name: self.name@,
            version: self.version@,
        }
    }
}

/// The last six characters of `s`, or all of `s` when it is shorter.
pub open spec fn tail6(s: Seq<char>) -> Seq<char> {
    if s.len() >= 6 {
        s.subrange(s.len() - 6, s.len() as int)
    } else {
        s
    }
}

/// Relies on `rust_tuyapi::Truncate::truncate_str`: the text from its sixth
/// character counted from the end, or the whole text when it is shorter.
#[verifier::external_body]
fn truncate_str(text: &str) -> (r: &str)
    ensures
        r@ == tail6(text@),
{
    <rust_tuyapi::PayloadStruct as rust_tuyapi::Truncate>::truncate_str(text)
}

pub open spec fn ellipsis() -> Seq<char> {
    seq!['.', '.', '.']
}

/// `...` followed by the tail of `text`.
fn masked(text: &str) -> (r: String)
    ensures
        r@ == ellipsis() + tail6(text@),
{
    let dots = "...";
    proof {
        reveal_strlit("...");
        assert(dots@ =~= ellipsis());
    }
    let mut r = String::from_str(dots);
    r.append(truncate_str(text));
    r
}

impl DeviceInfo {
    /// A copy of this device, field by field.
    pub fn copied(&self) -> (r: DeviceInfo)
        ensures
            r@ == self@,
    {
        DeviceInfo {
            dev_type: self.dev_type,
            id: self.id.clone(),
            ip: self.ip,
            key: self.key.clone(),
            name: self.name.clone(),
            version: self.version.clone(),
        }
    }

    /// This device with its id and key cut to their tails, for display.
    pub fn truncate(&self) -> (r: DeviceInfo)
        ensures
            r@ == (DeviceInfoView {
                id: ellipsis() + tail6(self.id@),
                key: ellipsis() + tail6(self.key@),
                ..self@
            }),
    {
        DeviceInfo {
            dev_type: self.dev_type,
            id: masked(self.id.as_str()),
            ip: self.ip,
            key: masked(self.key.as_str()),
            name: self.name.clone(),
            version: self.version.clone(),
        }
    }
}

/// The device that the last entry named `name` in `entries` describes.
pub open spec fn lookup(entries: Seq<DeviceInfoView>, name: Seq<char>) -> Option<DeviceInfoView>
    decreases entries.len(),
{
    if entries.len() == 0 {
        None
    } else if entries.last().name == name {
        Some(entries.last())
    } else {
        lookup(entries.drop_last(), name)
    }
}

/// Devices by name. A later entry under a name replaces an earlier one.
pub struct DeviceMap {
    devices: Vec<DeviceInfo>,
}

impl DeviceMap {
    pub closed spec fn entries(&self) -> Seq<DeviceInfoView> {
        self.devices@.map_values(|d: DeviceInfo| d@)
    }
}

impl View for DeviceMap {
    type V = Map<Seq<char>, DeviceInfoView>;

    open spec fn view(&self) -> Map<Seq<char>, DeviceInfoView> {
        Map::new(
            |name: Seq<char>| lookup(self.entries(), name) is Some,
            |name: Seq<char>| lookup(self.entries(), name)->0,
        )
    }
}

impl DeviceMap {
    /// An empty registry.
    pub fn new() -> (r: DeviceMap)
        ensures
            r@ == Map::<Seq<char>, DeviceInfoView>::empty(),
    {
        let r = DeviceMap { devices: Vec::new() };
        proof {
            assert(r.entries().len() == 0);
            assert(r@ =~= Map::<Seq<char>, DeviceInfoView>::empty());
        }
        r
    }

    /// Files `device` under its name, replacing what was filed there.
    pub fn insert(&mut self, device: DeviceInfo)
        ensures
            final(self)@ == old(self)@.insert(device.name@, device@),
    {
        let ghost before = self.entries();
        self.devices.push(device);
        proof {
            assert(self.entries().drop_last() =~= before);
            assert(self@ =~= old(self)@.insert(device.name@, device@));
        }
    }

    /// The device filed under `name`.
    pub fn get(&self, name: &str) -> (r: Option<&DeviceInfo>)
        ensures
            match r {
                Some(d) => self@.contains_key(name@) && self@[name@] == d@,
                None => !self@.contains_key(name@),
            },
    {
        let mut i: usize = self.devices.len();
        proof {
            assert(self.entries().take(i as int) =~= self.entries());
        }
        while i > 0
            invariant
                i <= self.devices@.len(),
                self.entries().len() == self.devices@.len(),
                lookup(self.entries(), name@) == lookup(self.entries().take(i as int), name@),
            decreases i,
        {
            proof {
                assert(self.entries().take(i as int).drop_last() =~= self.entries().take(i - 1));
            }
            let d = &self.devices[i - 1];
            assert(self.entries()[i - 1] == d@);
            if str_equal(d.name.as_str(), name) {
                return Some(d);
            }
            i = i - 1;
        }
        None
    }
}

/// The first segment of every topic that addresses a device inline.
pub open spec fn bridge_prefix() -> Seq<char> {
    seq!['t', 'u', 'y', 'a']
}

/// Segments of an inline address without a device kind: prefix, version,
/// id, key and IP address.
pub const MIN_SEGMENTS: usize = 5;

/// The device kind that the segments of a topic name in their second place.
pub open spec fn class_segment(f: Seq<Seq<char>>) -> Option<TuyaType> {
    if f.len() > 1 {
        TuyaType::of_json(f[1])
    } else {
        None
    }
}

/// How many segments an inline address needs: one more when it names the
/// device kind.
pub open spec fn min_segments(f: Seq<Seq<char>>) -> int {
    if class_segment(f) is Some {
        MIN_SEGMENTS + 1
    } else {
        MIN_SEGMENTS as int
    }
}

/// The segment of a topic that may name a registered device.
pub open spec fn name_segment(f: Seq<Seq<char>>) -> Seq<char> {
    f[f.len() - 2]
}

/// The registered device that a topic names, if any.
pub open spec fn registered(f: Seq<Seq<char>>, devices: Map<Seq<char>, DeviceInfoView>) -> Option<
    DeviceInfoView,
> {
    if f.len() > 2 && devices.contains_key(name_segment(f)) {
        Some(devices[name_segment(f)])
    } else {
        None
    }
}

/// The device that a topic addresses: the registered device that its
/// second-to-last segment names, or else the device that its segments spell
/// out (`tuya/[kind/]version/id/key/address/...`), whose version, id and key
/// are not empty.
pub open spec fn route(topic: Seq<char>, devices: Map<Seq<char>, DeviceInfoView>) -> Result<
    DeviceInfoView,
    ErrorKind,
> {
    let f = split(topic, '/');
    let s: int = if class_segment(f) is Some { 1 } else { 0 };
    if registered(f, devices) is Some {
        Ok(registered(f, devices)->0)
    } else if f.len() < min_segments(f) {
        Err(ErrorKind::TopicTooShort)
    } else if f[0] != bridge_prefix() {
        Err(ErrorKind::NotBridgeTopic)
    } else {
        match ip_of(f[4 + s]) {
            None => Err(ErrorKind::BadAddress),
            Some(ip) => if f[1 + s].len() == 0 || f[2 + s].len() == 0 || f[3 + s].len() == 0 {
                Err(ErrorKind::EmptySegment)
            } else {
                Ok(
                    DeviceInfoView {
                        dev_type: match class_segment(f) {
                            Some(t) => t,
                            None => TuyaType::Socket,
                        },
                        id: f[2 + s],
                        ip,
                        key: f[3 + s],
                        name: Seq::<char>::empty(),
                        version: f[1 + s],
                    },
                )
            },
        }
    }
}

/// A topic that names no registered device and has fewer segments than an
/// inline address needs is too short.
pub proof fn lemma_short_topic_rejected(topic: Seq<char>, devices: Map<Seq<char>, DeviceInfoView>)
    requires
        registered(split(topic, '/'), devices) is None,
        split(topic, '/').len() < min_segments(split(topic, '/')),
    ensures
        route(topic, devices) == Err::<DeviceInfoView, ErrorKind>(ErrorKind::TopicTooShort),
{
}

/// A topic that names no registered device, has the segments of an inline
/// address, and does not start with the bridge prefix is not for the bridge.
pub proof fn lemma_foreign_topic_rejected(topic: Seq<char>, devices: Map<Seq<char>, DeviceInfoView>)
    requires
        registered(split(topic, '/'), devices) is None,
        split(topic, '/').len() >= min_segments(split(topic, '/')),
        split(topic, '/')[0] != bridge_prefix(),
    ensures
        route(topic, devices) == Err::<DeviceInfoView, ErrorKind>(ErrorKind::NotBridgeTopic),
{
}

/// A device that a topic spells out, rather than names from the registry,
/// has a version, an id and a key that are not empty.
pub proof fn lemma_inline_fields_nonempty(topic: Seq<char>, devices: Map<Seq<char>, DeviceInfoView>)
    requires
        registered(split(topic, '/'), devices) is None,
        route(topic, devices) is Ok,
    ensures
        route(topic, devices)->Ok_0.version.len() > 0,
        route(topic, devices)->Ok_0.id.len() > 0,
        route(topic, devices)->Ok_0.key.len() > 0,
{
}

impl DeviceInfo {
    /// Resolves a topic to the device it addresses (see [`route`]).
    pub fn from_str_and_devices(s: &str, devs: &DeviceMap) -> (r: Result<DeviceInfo, ErrorKind>)
        ensures
            match (r, route(s@, devs@)) {
                (Ok(d), Ok(v)) => d@ == v,
                (Err(e), Err(f)) => e == f,
                _ => false,
            },
    {
        let content = split_str(s, '/');
        let n = content.len();
        let ghost f = split(s@, '/');
        proof {
            assert(content@.len() == f.len());
        }
        if n > 2 {
            proof {
                assert(content@[n - 2]@ == f[n - 2]);
            }
            if let Some(d) = devs.get(content[n - 2]) {
                return Ok(d.copied());
            }
        }
        let class = if n > 1 {
            proof {
                assert(content@[1]@ == f[1]);
            }
            TuyaType::from_json(content[1])
        } else {
            None
        };
        let shift: usize = if class.is_some() { 1 } else { 0 };
        if n < MIN_SEGMENTS + shift {
            return Err(ErrorKind::TopicTooShort);
        }
        let prefix = "tuya";
        proof {
            reveal_strlit("tuya");
            assert(prefix@ =~= bridge_prefix());
            assert(content@[0]@ == f[0]);
            assert(content@[4 + shift]@ == f[4 + shift]);
            assert(content@[3 + shift]@ == f[3 + shift]);
            assert(content@[2 + shift]@ == f[2 + shift]);
            assert(content@[1 + shift]@ == f[1 + shift]);
        }
        if !str_equal(content[0], prefix) {
            return Err(ErrorKind::NotBridgeTopic);
        }
        let ip = match parse_ip(content[4 + shift]) {
            Some(ip) => ip,
            None => {
                return Err(ErrorKind::BadAddress);
            },
        };
        if content[1 + shift].unicode_len() == 0 || content[2 + shift].unicode_len() == 0
            || content[3 + shift].unicode_len() == 0 {
            return Err(ErrorKind::EmptySegment);
        }
        let dev_type = match class {
            Some(t) => t,
            None => default_devtype(),
        };
        Ok(
            DeviceInfo {
                dev_type,
                id: String::from_str(content[2 + shift]),
                ip,
                key: String::from_str(content[3 + shift]),
                name: String::new(),
                version: String::from_str(content[1 + shift]),
            },
        )
    }
}

} // verus!
