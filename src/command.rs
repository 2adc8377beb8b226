//! Commands for devices: the data points that a requested state sets, and
//! the payload that carries them to a device.

use vstd::prelude::*;

use crate::device::TuyaType;
use crate::text::{eq_ignore_ascii_case, str_eq_ignore_ascii_case, str_equal};

verus! {

/// One data point of a command: the device's key for a controllable state,
/// and the value to set it to.
#[derive(Clone, Debug, PartialEq, Eq)]
pub struct DataPoint {
    pub id: String,
    pub value: bool,
}

/// A group of data points that a device reports on request.
#[derive(Clone, Copy, Debug, PartialEq, Eq, Structural)]
pub enum DpGroup {
    Lower,
    Higher,
}

/// The desired state of a device at one moment. Its data points have
/// distinct ids.
#[derive(Clone, Debug, PartialEq, Eq)]
pub struct Command {
    /// The device that the command is for.
    pub dev_id: String,
    /// The gateway that relays the command to the device.
    pub gw_id: Option<String>,
    /// The user on whose behalf the command is sent.
    pub uid: Option<String>,
    /// Seconds since the Unix epoch when the command was made, if known.
    pub t: Option<u32>,
    /// The group of data points that the command asks the device for.
    pub dp_id: Option<DpGroup>,
    pub dps: Vec<DataPoint>,
}

pub struct CommandView {
    pub dev_id: Seq<char>,
    pub gw_id: Option<Seq<char>>,
    pub uid: Option<Seq<char>>,
    pub t: Option<u32>,
    pub dp_id: Option<DpGroup>,
    pub dps: Seq<(Seq<char>, bool)>,
}

pub open spec fn text_view(o: Option<String>) -> Option<Seq<char>> {
    match o {
        Some(s) => Some(s@),
        None => None,
    }
}

/// No two data points share an id.
pub open spec fn unique_ids(dps: Seq<(Seq<char>, bool)>) -> bool {
    forall|i: int, j: int| 0 <= i < j < dps.len() ==> #[trigger] dps[i].0 != #[trigger] dps[j].0
}

impl View for DataPoint {
    type V = (Seq<char>, bool);

    open spec fn view(&self) -> (Seq<char>, bool) {
        (self.id@, self.value)
    }
}

impl View for Command {
    type V = CommandView;

    open spec fn view(&self) -> CommandView {
        CommandView {
            dev_id: self.dev_id@,
            gw_id: text_view(self.gw_id),
            uid: text_view(self.uid),
            t: self.t,
            dp_id: self.dp_id,
            dps: self.dps@.map_values(|p: DataPoint| p@),
        }
    }
}

impl Command {
    /// The data points have distinct ids.
    pub open spec fn wf(&self) -> bool {
        unique_ids(self@.dps)
    }

    /// Whether the data points have distinct ids.
    pub fn ids_unique(&self) -> (r: bool)
        ensures
            r == self.wf(),
    {
        let n = self.dps.len();
        let ghost v = self@.dps;
        let mut j: usize = 0;
        while j < n
            invariant
                n == self.dps@.len(),
                v == self@.dps,
                j <= n,
                forall|a: int, b: int| 0 <= a < b < j ==> #[trigger] v[a].0 != #[trigger] v[b].0,
            decreases n - j,
        {
            let mut i: usize = 0;
            while i < j
                invariant
                    n == self.dps@.len(),
                    v == self@.dps,
                    i <= j < n,
                    forall|a: int, b: int| 0 <= a < b < j ==> #[trigger] v[a].0 != #[trigger] v[b].0,
                    forall|a: int| 0 <= a < i ==> #[trigger] v[a].0 != v[j as int].0,
                decreases j - i,
            {
                assert(v[i as int].0 == self.dps@[i as int].id@);
                assert(v[j as int].0 == self.dps@[j as int].id@);
                if str_equal(self.dps[i].id.as_str(), self.dps[j].id.as_str()) {
                    return false;
                }
                i = i + 1;
            }
            j = j + 1;
        }
        true
    }
}

/// Whether a requested state means "on": `on` or `1`, ignoring ASCII case.
/// Anything else, the empty text included, means "off".
pub open spec fn is_on(state: Seq<char>) -> bool {
    eq_ignore_ascii_case(state, seq!['o', 'n']) || eq_ignore_ascii_case(state, seq!['1'])
}

/// The data points that switch a socket: its single switch, key `1`.
pub open spec fn socket_points(state: Seq<char>) -> Seq<(Seq<char>, bool)> {
    seq![(seq!['1'], is_on(state))]
}

/// The data points that set a device of kind `tt` to `state`.
pub open spec fn points(tt: TuyaType, state: Seq<char>) -> Seq<(Seq<char>, bool)> {
    match tt {
        TuyaType::Socket => socket_points(state),
    }
}

/// The command that sets device `dev_id` of kind `tt` to `state` at time `t`.
pub open spec fn command_for(dev_id: Seq<char>, tt: TuyaType, state: Seq<char>, t: Option<u32>) -> CommandView {
    CommandView { dev_id, gw_id: Some(dev_id), uid: None, t, dp_id: None, dps: points(tt, state) }
}

/// Whether `state` means "on" (see [`is_on`]).
pub fn state_is_on(state: &str) -> (r: bool)
    ensures
        r == is_on(state@),
{
    let on = "on";
    let one = "1";
    proof {
        reveal_strlit("on");
        reveal_strlit("1");
        assert(on@ =~= seq!['o', 'n']);
        assert(one@ =~= seq!['1']);
    }
    str_eq_ignore_ascii_case(state, on) || str_eq_ignore_ascii_case(state, one)
}

/// The data points of a socket for `state`.
pub fn socket_dps(state: &str) -> (r: Vec<DataPoint>)
    ensures
        r@.map_values(|p: DataPoint| p@) == socket_points(state@),
{
    let key = "1";
    proof {
        reveal_strlit("1");
        assert(key@ =~= seq!['1']);
    }
    let point = DataPoint { id: String::from_str(key), value: state_is_on(state) };
    let r = vec![point];
    proof {
        assert(r@.len() == 1 && r@[0] == point);
        assert(r@.map_values(|p: DataPoint| p@) =~= socket_points(state@));
    }
    r
}

/// The data points of a device of kind `tt` for `state`.
pub fn dps(tt: TuyaType, state: &str) -> (r: Vec<DataPoint>)
    ensures
        r@.map_values(|p: DataPoint| p@) == points(tt, state@),
{
    match tt {
        TuyaType::Socket => socket_dps(state),
    }
}

/// The command that sets device `device_id` of kind `tt` to `state`,
/// stamped with `t`. It never fails: a state that is not understood means
/// "off".
pub fn build(device_id: &str, tt: TuyaType, state: &str, t: Option<u32>) -> (r: Command)
    ensures
        r@ == command_for(device_id@, tt, state@, t),
        r.wf(),
{
    Command {
        dev_id: String::from_str(device_id),
        gw_id: Some(String::from_str(device_id)),
        uid: None,
        t,
        dp_id: None,
        dps: dps(tt, state),
    }
}

#[verifier::external_type_specification]
#[verifier::external_body]
pub struct ExSystemTime(std::time::SystemTime);

#[verifier::external_type_specification]
#[verifier::external_body]
pub struct ExSystemTimeError(std::time::SystemTimeError);

/// Relies on `SystemTime::now`: the current time of the system clock.
pub assume_specification[ std::time::SystemTime::now ]() -> std::time::SystemTime;

/// Relies on `SystemTime::duration_since`: the time elapsed since `earlier`,
/// or an error when `earlier` is later.
pub assume_specification[ std::time::SystemTime::duration_since ](
    t: &std::time::SystemTime,
    earlier: std::time::SystemTime,
) -> Result<core::time::Duration, std::time::SystemTimeError>;

/// Relies on `Duration::as_secs`: the whole seconds of a duration.
pub assume_specification[ core::time::Duration::as_secs ](d: &core::time::Duration) -> u64;

/// Relies on `SystemTime::UNIX_EPOCH`: the time at the Unix epoch.
#[verifier::external_body]
fn unix_epoch() -> std::time::SystemTime {
    std::time::SystemTime::UNIX_EPOCH
}

/// Whole seconds since the Unix epoch by the system clock, or `None` when the
/// clock is set before the epoch.
fn clock_seconds() -> Option<u64> {
    let now = std::time::SystemTime::now();
    match now.duration_since(unix_epoch()) {
        Ok(d) => Some(d.as_secs()),
        Err(_) => None,
    }
}

/// A count of seconds cut to 32 bits, that is, taken modulo 2^32; `None`
/// stays `None`.
pub fn secs_as_u32(since_epoch: Option<u64>) -> (r: Option<u32>)
    ensures
        r == match since_epoch {
            Some(s) => Some((s % 0x1_0000_0000) as u32),
            None => None::<u32>,
        },
{
    match since_epoch {
        Some(s) => Some((s % 0x1_0000_0000) as u32),
        None => None,
    }
}

/// Seconds since the Unix epoch now, cut to 32 bits (see [`secs_as_u32`]),
/// or `None` when the system clock is set before the epoch.
pub fn now_as_u32() -> Option<u32> {
    secs_as_u32(clock_seconds())
}

#[verifier::external_type_specification]
#[verifier::external_body]
pub struct ExPayload(rust_tuyapi::Payload);

/// Relies on `rust_tuyapi::Payload::new`: the payload with the fields of `c`,
/// each data point as a JSON boolean under its id.
#[verifier::external_body]
fn to_payload(c: &Command) -> rust_tuyapi::Payload
    requires
        c.wf(),
{
    let dps = c.dps.iter().map(|p| (p.id.clone(), serde_json::Value::Bool(p.value))).collect();
    let dp_id = c.dp_id.map(|g| match g { DpGroup::Lower => rust_tuyapi::DpId::Lower, DpGroup::Higher => rust_tuyapi::DpId::Higher });
    rust_tuyapi::Payload::new(c.dev_id.clone(), c.gw_id.clone(), c.uid.clone(), c.t, dp_id, Some(dps))
}

impl Command {
    /// The payload that carries this command to its device.
    pub fn into_payload(&self) -> rust_tuyapi::Payload
        requires
            self.wf(),
    {
        to_payload(self)
    }
}

/// The command that sets device `device_id` of kind `tt` to `state`, stamped
/// with the current time (see [`now_as_u32`]); [`Command::into_payload`]
/// makes the payload that carries it.
pub fn payload(device_id: &str, tt: TuyaType, state: &str) -> (r: Command)
    ensures
        r@ == command_for(device_id@, tt, state@, r.t),
        r.wf(),
{
    build(device_id, tt, state, now_as_u32())
}

/// The command that asks device `device_id` for its state, stamped with the
/// current time: no data points.
pub fn get_payload(device_id: &str) -> (r: Command)
    ensures
        r@ == (CommandView {
            dev_id: device_id@,
            gw_id: Some(device_id@),
            uid: None,
            t: r.t,
            dp_id: None,
            dps: Seq::empty(),
        }),
        r.wf(),
{
    let r = Command {
        dev_id: String::from_str(device_id),
        gw_id: Some(String::from_str(device_id)),
        uid: None,
        t: now_as_u32(),
        dp_id: None,
        dps: Vec::new(),
    };
    assert(r@.dps =~= Seq::<(Seq<char>, bool)>::empty());
    r
}

} // verus!
