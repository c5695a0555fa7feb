//! Serial (UART) channel: embedded devices talk to the agent with
//! newline-delimited JSON (`{"type":"message","text":..,"sender":..}` in,
//! `{"type":"response","text":..}` out).
use vstd::prelude::*;

use crate::channels::{allowed_by, contains_string, BaseChannelConfig};
use crate::error::ZeptoError;
use crate::text::{chars_of, str_eq, to_owned_string, trim, trim_spec};

verus! {

/// Serial channel settings.
#[derive(Debug, Clone, PartialEq, Eq)]
pub struct SerialChannelConfig {
    /// Device path, e.g. `/dev/ttyUSB0`.
    pub port: String,
    pub baud_rate: u32,
    pub allow_from: Vec<String>,
    pub deny_by_default: bool,
}

impl SerialChannelConfig {
    /// No port, 115200 baud, open to every device.
    pub fn default() -> (c: Self)
        ensures
            c.port@.len() == 0,
            c.baud_rate == 115200,
            c.allow_from@.len() == 0,
            !c.deny_by_default,
    {
        SerialChannelConfig { port: String::new(), baud_rate: 115200, allow_from: Vec::new(), deny_by_default: false }
    }
}

/// An inbound line's JSON object.
#[derive(Debug, Clone, PartialEq, Eq)]
pub struct SerialInbound {
    /// The `type` field.
    pub msg_type: String,
    pub text: String,
    /// Empty when absent.
    pub sender: String,
}

/// An outbound line's JSON object.
#[derive(Debug, Clone, PartialEq, Eq)]
pub struct SerialOutbound {
    /// The `type` field, always `response`.
    pub msg_type: String,
    pub text: String,
}

/// A message accepted from a device.
#[derive(Debug, Clone, PartialEq, Eq)]
pub struct SerialMessage {
    pub sender: String,
    pub text: String,
}

/// The sender named by a device: its `sender` field, or `serial-device`.
pub open spec fn serial_sender(sender: Seq<char>) -> Seq<char> {
    if sender.len() > 0 {
        sender
    } else {
        "serial-device"@
    }
}

/// The text of a read line to parse: the line without surrounding
/// whitespace; `None` for a blank line, which is skipped.
pub fn line_payload(line: &str) -> (r: Option<String>)
    ensures
        match r {
            Some(s) => s@ == trim_spec(line@) && s@.len() > 0,
            None => trim_spec(line@).len() == 0,
        },
{
    let t = trim(line);
    if t.as_str().is_empty() {
        None
    } else {
        Some(t)
    }
}

/// What becomes of a parsed inbound object: `None` for types other than
/// `message` and for senders the access policy rejects; else the message.
pub fn route_serial_inbound(inbound: SerialInbound, allow_from: &Vec<String>, deny_by_default: bool) -> (r: Option<
    SerialMessage,
>)
    ensures
        (inbound.msg_type@ != "message"@ || !allowed_by(
            allow_from@.map_values(|s: String| s@),
            deny_by_default,
            serial_sender(inbound.sender@),
        )) ==> r is None,
        (inbound.msg_type@ == "message"@ && allowed_by(
            allow_from@.map_values(|s: String| s@),
            deny_by_default,
            serial_sender(inbound.sender@),
        )) ==> (r matches Some(m) && m.sender@ == serial_sender(inbound.sender@) && m.text@ == inbound.text@),
{
    if !str_eq(inbound.msg_type.as_str(), "message") {
        return None;
    }
    let sender = if inbound.sender.as_str().is_empty() {
        to_owned_string("serial-device")
    } else {
        inbound.sender
    };
    let allowed = if allow_from.len() == 0 {
        !deny_by_default
    } else {
        contains_string(allow_from, sender.as_str())
    };
    if !allowed {
        return None;
    }
    Some(SerialMessage { sender, text: inbound.text })
}

/// Serial channel state: configuration, access policy and run flag.
#[derive(Debug)]
pub struct SerialChannel {
    pub config: SerialChannelConfig,
    pub base_config: BaseChannelConfig,
    pub running: bool,
}

impl SerialChannel {
    /// A stopped channel named `serial` with the configured access policy.
    pub fn new(config: SerialChannelConfig) -> (c: Self)
        ensures
            c.config == config,
            c.base_config.name@ == "serial"@,
            c.base_config.allowlist@ == config.allow_from@,
            c.base_config.deny_by_default == config.deny_by_default,
            !c.running,
    {
        let allowlist = config.allow_from.clone();
        let deny = config.deny_by_default;
        SerialChannel {
            config,
            base_config: BaseChannelConfig { name: to_owned_string("serial"), allowlist, deny_by_default: deny },
            running: false,
        }
    }

    /// The channel name, `"serial"`.
    pub fn name(&self) -> (s: &'static str)
        ensures
            s@ == "serial"@,
    {
        "serial"
    }

    /// Whether the channel is running.
    pub fn is_running(&self) -> (r: bool)
        ensures
            r == self.running,
    {
        self.running
    }

    /// Whether `user_id` may talk to the agent.
    pub fn is_allowed(&self, user_id: &str) -> (r: bool)
        ensures
            r == allowed_by(
                self.base_config.allowlist@.map_values(|s: String| s@),
                self.base_config.deny_by_default,
                user_id@,
            ),
    {
        self.base_config.is_allowed(user_id)
    }

    /// The line object for a reply, or a configuration error when the port
    /// is not open (`port_open`).
    pub fn outbound(port_open: bool, content: String) -> (r: Result<SerialOutbound, ZeptoError>)
        ensures
            !port_open ==> (r matches Err(ZeptoError::Config(m)) && m@ == "Serial channel not started"@),
            port_open ==> (r matches Ok(o) && o.msg_type@ == "response"@ && o.text@ == content@),
    {
        if !port_open {
            return Err(ZeptoError::Config(to_owned_string("Serial channel not started")));
        }
        Ok(SerialOutbound { msg_type: to_owned_string("response"), text: content })
    }
}

} // verus!
