//! From a message published on the bus to the device it addresses and the
//! command to send it.

use vstd::prelude::*;

use vstd::string::StringSliceAdditionalSpecFns;
use vstd::utf8::{decode_utf8, encode_utf8_decode_utf8, encode_utf8_valid_utf8, valid_utf8};

use crate::command::{build, command_for, Command, CommandView};
use crate::device::{route, DeviceInfo, DeviceInfoView, DeviceMap, ErrorKind};

verus! {

/// Why a published message does not become a command.
#[derive(Clone, Copy, Debug, PartialEq, Eq, Structural)]
pub enum PublishError {
    /// Its topic does not address a device.
    Route(ErrorKind),
    /// Its body is not UTF-8 text.
    NotUtf8,
}

/// Relies on `std::str::from_utf8`: the text that the bytes are, or `None`
/// when they are not valid UTF-8.
#[verifier::external_body]
fn utf8_text(bytes: &[u8]) -> (r: Option<&str>)
    ensures
        match r {
            Some(s) => s.spec_bytes() == bytes@,
            None => !valid_utf8(bytes@),
        },
{
    std::str::from_utf8(bytes).ok()
}

/// The device that a message on `topic` with body `message` addresses, and
/// the command that sets it to the state that the body names, stamped with
/// `t`.
pub open spec fn publish_plan(
    topic: Seq<char>,
    message: Seq<u8>,
    devices: Map<Seq<char>, DeviceInfoView>,
    t: Option<u32>,
) -> Result<(DeviceInfoView, CommandView), PublishError> {
    match route(topic, devices) {
        Err(e) => Err(PublishError::Route(e)),
        Ok(d) => if valid_utf8(message) {
            Ok((d, command_for(d.id, d.dev_type, decode_utf8(message), t)))
        } else {
            Err(PublishError::NotUtf8)
        },
    }
}

/// Resolves a published message to its device and the command for it.
pub fn prepare_publish(topic: &str, message: &[u8], devices: &DeviceMap, t: Option<u32>) -> (r:
    Result<(DeviceInfo, Command), PublishError>)
    ensures
        match (r, publish_plan(topic@, message@, devices@, t)) {
            (Ok((d, c)), Ok((dv, cv))) => d@ == dv && c@ == cv,
            (Err(e), Err(f)) => e == f,
            _ => false,
        },
        r matches Ok((_, c)) ==> c.wf(),
{
    let device = match DeviceInfo::from_str_and_devices(topic, devices) {
        Ok(d) => d,
        Err(e) => {
            return Err(PublishError::Route(e));
        },
    };
    let state = match utf8_text(message) {
        Some(s) => s,
        None => {
            return Err(PublishError::NotUtf8);
        },
    };
    proof {
        encode_utf8_decode_utf8(state@);
        encode_utf8_valid_utf8(state@);
    }
    let command = build(device.id.as_str(), device.dev_type, state, t);
    Ok((device, command))
}

} // verus!
