//! Defaults of the bridge's configuration.

use vstd::prelude::*;

use crate::device::{default_devtype, TuyaType};

verus! {

/// The topic prefix that the bridge subscribes under when none is set.
pub fn default_topic() -> (r: String)
    ensures
        r@ == "tuya/"@,
{
    String::from_str("tuya/")
}

/// The client identifier on the bus when none is set.
pub fn default_mqtt_id() -> (r: String)
    ensures
        r@ == "rust-tuya-mqtt"@,
{
    String::from_str("rust-tuya-mqtt")
}

/// The bus port when none is set.
pub fn default_port() -> (r: u16)
    ensures
        r == 1883,
{
    1883
}

} // verus!
