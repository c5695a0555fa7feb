//! MQTT channel protocol logic: broker URLs, topics, QoS levels and the
//! routing of inbound device messages.
//!
//! Topics: devices publish to `zeptoclaw/inbox/{device_id}`; replies go to
//! `{publish_prefix}/{sender}`. Inbound payloads are
//! `{"type":"message","text":...,"sender":...}`, outbound ones
//! `{"type":"response","text":...}`.
use vstd::prelude::*;
use vstd::string::StrSliceExecFns;

use crate::bus::OutboundMessage;
use crate::channels::{allowed_by, contains_string, BaseChannelConfig};
use crate::error::ZeptoError;
use crate::text::{
    chars_of, is_prefix, push_char, push_str, starts_with_chars, str_eq, string_from_char_range,
    to_owned_string,
};

verus! {

/// MQTT delivery guarantee.
#[derive(Debug, Clone, Copy, PartialEq, Eq)]
pub enum QosLevel {
    AtMostOnce,
    AtLeastOnce,
    ExactlyOnce,
}

/// QoS for a configured level: 0 and 2 map to themselves, anything else to 1.
pub open spec fn qos_for(qos: u8) -> QosLevel {
    if qos == 0 {
        QosLevel::AtMostOnce
    } else if qos == 2 {
        QosLevel::ExactlyOnce
    } else {
        QosLevel::AtLeastOnce
    }
}

/// Maps a configured QoS value (0, 1, 2) to a delivery guarantee; other values mean 1.
pub fn config_qos(qos: u8) -> (q: QosLevel)
    ensures
        q == qos_for(qos),
{
    match qos {
        0 => QosLevel::AtMostOnce,
        2 => QosLevel::ExactlyOnce,
        _ => QosLevel::AtLeastOnce,
    }
}

/// Index of the last occurrence of `c` in `s`.
pub open spec fn rfind_char(s: Seq<char>, c: char) -> Option<int>
    decreases s.len(),
{
    if s.len() == 0 {
        None
    } else if s.last() == c {
        Some(s.len() - 1)
    } else {
        rfind_char(s.drop_last(), c)
    }
}

/// The last `/`-separated segment of a topic (`str::rsplit('/').next()`).
pub open spec fn device_id_of(topic: Seq<char>) -> Seq<char> {
    match rfind_char(topic, '/') {
        Some(i) => topic.skip(i + 1),
        None => topic,
    }
}

proof fn lemma_rfind(s: Seq<char>, c: char, j: int)
    requires
        -1 <= j < s.len(),
        forall|i: int| j < i < s.len() ==> s[i] != c,
        j >= 0 ==> s[j] == c,
    ensures
        rfind_char(s, c) == if j >= 0 { Some(j) } else { None::<int> },
    decreases s.len(),
{
    if s.len() > 0 && j < s.len() - 1 {
        assert forall|i: int| j < i < s.drop_last().len() implies s.drop_last()[i] != c by {
            assert(s.drop_last()[i] == s[i]);
        }
        if j >= 0 {
            assert(s.drop_last()[j] == s[j]);
        }
        lemma_rfind(s.drop_last(), c, j);
    }
}

/// The device ID of an MQTT topic: its last `/`-separated segment.
///
/// Given `"zeptoclaw/inbox/node-17"`, returns `Some("node-17")`.
pub fn extract_device_id<'a>(topic: &'a str) -> (r: Option<&'a str>)
    ensures
        r matches Some(d) && d@ == device_id_of(topic@),
{
    let cs = chars_of(topic);
    let mut k = cs.len();
    while k > 0 && cs[k - 1] != '/'
        invariant
            k <= cs.len(),
            forall|i: int| k <= i < cs.len() ==> cs@[i] != '/',
        decreases k,
    {
        k -= 1;
    }
    proof {
        lemma_rfind(cs@, '/', k - 1);
    }
    let d = topic.substring_char(k, cs.len());
    assert(d@ =~= device_id_of(topic@));
    Some(d)
}

/// Value of a decimal digit character.
pub open spec fn digit_value(c: char) -> Option<nat> {
    if '0' <= c <= '9' {
        Some((c as nat - '0' as nat) as nat)
    } else {
        None
    }
}

/// Value of a string of decimal digits (`None` when a non-digit occurs).
pub open spec fn digits_value(s: Seq<char>) -> Option<nat>
    decreases s.len(),
{
    if s.len() == 0 {
        Some(0)
    } else {
        match (digits_value(s.drop_last()), digit_value(s.last())) {
            (Some(v), Some(d)) => Some(10 * v + d),
            _ => None,
        }
    }
}

/// What `str::parse::<u16>` accepts: an optional `+` then at least one digit,
/// with a value below 65536.
pub open spec fn parse_u16_spec(s: Seq<char>) -> Option<u16> {
    let body = if s.len() > 0 && s[0] == '+' { s.drop_first() } else { s };
    if body.len() == 0 {
        None
    } else {
        match digits_value(body) {
            Some(v) => if v < 65536 {
                Some(v as u16)
            } else {
                None
            },
            None => None,
        }
    }
}

proof fn lemma_digits_prefix(s: Seq<char>, i: int)
    requires
        0 <= i < s.len(),
        digits_value(s.take(i + 1)) is Some,
    ensures
        digits_value(s.take(i)) is Some,
        digits_value(s.take(i + 1))->0 >= digits_value(s.take(i))->0,
{
    assert(s.take(i + 1).drop_last() =~= s.take(i));
}

pub proof fn lemma_digits_mono(s: Seq<char>, i: int, j: int)
    requires
        0 <= i <= j <= s.len(),
        digits_value(s.take(j)) is Some,
    ensures
        digits_value(s.take(i)) is Some,
        digits_value(s.take(j))->0 >= digits_value(s.take(i))->0,
    decreases j - i,
{
    if i < j {
        lemma_digits_prefix(s, j - 1);
        lemma_digits_mono(s, i, j - 1);
    }
}

/// Parses a port number the way `str::parse::<u16>` does.
pub fn parse_u16(s: &[char]) -> (r: Option<u16>)
    ensures
        r == parse_u16_spec(s@),
{
    let start: usize = if s.len() > 0 && s[0] == '+' { 1 } else { 0 };
    let ghost body = if s@.len() > 0 && s@[0] == '+' { s@.drop_first() } else { s@ };
    assert(body =~= s@.skip(start as int));
    if start == s.len() {
        return None;
    }
    let mut v: u32 = 0;
    let mut i = start;
    while i < s.len()
        invariant
            start <= i <= s.len(),
            start < s.len(),
            body == s@.skip(start as int),
            body == if s@.len() > 0 && s@[0] == '+' { s@.drop_first() } else { s@ },
            digits_value(body.take(i - start)) == Some(v as nat),
            v < 65536,
        decreases s.len() - i,
    {
        let c = s[i];
        assert(body.take(i - start + 1).drop_last() =~= body.take(i - start));
        assert(body.take(i - start + 1).last() == c);
        if !('0' <= c && c <= '9') {
            assert(digit_value(c) is None);
            assert(digits_value(body.take(i - start + 1)) is None);
            proof {
                if digits_value(body) is Some {
                    assert(body.take(body.len() as int) =~= body);
                    lemma_digits_mono(body, i - start + 1, body.len() as int);
                }
            }
            return None;
        }
        let d = (c as u32) - ('0' as u32);
        let nv = 10 * v + d;
        assert(digit_value(c) == Some(d as nat));
        assert(digits_value(body.take(i - start + 1)) == Some(nv as nat));
        if nv >= 65536 {
            proof {
                if digits_value(body) is Some {
                    assert(body.take(body.len() as int) =~= body);
                    lemma_digits_mono(body, i - start + 1, body.len() as int);
                }
            }
            return None;
        }
        v = nv;
        i += 1;
    }
    assert(body.take(s.len() - start) =~= body);
    Some(v as u16)
}

/// The host and port of a broker URL: `mqtt://`, `mqtts://` or `tcp://` is
/// dropped; the text after the last `:` is the port (1883 when there is none).
pub open spec fn broker_url_spec(url: Seq<char>) -> Result<(Seq<char>, u16), Seq<char>> {
    let stripped = if is_prefix("mqtt://"@, url) {
        url.skip(7)
    } else if is_prefix("mqtts://"@, url) {
        url.skip(8)
    } else if is_prefix("tcp://"@, url) {
        url.skip(6)
    } else {
        url
    };
    match rfind_char(stripped, ':') {
        Some(i) => {
            let port_str = stripped.skip(i + 1);
            match parse_u16_spec(port_str) {
                Some(p) => Ok((stripped.take(i), p)),
                None => Err("invalid port: "@ + port_str),
            }
        },
        None => Ok((stripped, 1883u16)),
    }
}

/// Parses an MQTT broker URL into (host, port).
///
/// Accepts `mqtt://host:port`, `host:port` and `host` (default port 1883).
pub fn parse_broker_url(url: &str) -> (r: Result<(String, u16), String>)
    ensures
        match broker_url_spec(url@) {
            Ok((h, p)) => r matches Ok((host, port)) && host@ == h && port == p,
            Err(m) => r matches Err(e) && e@ == m,
        },
{
    let cs = chars_of(url);
    let p1 = chars_of("mqtt://");
    let p2 = chars_of("mqtts://");
    let p3 = chars_of("tcp://");
    proof {
        reveal_strlit("mqtt://");
        reveal_strlit("mqtts://");
        reveal_strlit("tcp://");
    }
    let start: usize = if starts_with_chars(cs.as_slice(), p1.as_slice()) {
        7
    } else if starts_with_chars(cs.as_slice(), p2.as_slice()) {
        8
    } else if starts_with_chars(cs.as_slice(), p3.as_slice()) {
        6
    } else {
        0
    };
    let stripped_v = crate::text::sub_chars(cs.as_slice(), start, cs.len());
    let ghost stripped = stripped_v@;
    assert(start == 0 ==> stripped =~= url@);
    assert(stripped =~= cs@.skip(start as int));
    let mut k = stripped_v.len();
    while k > 0 && stripped_v[k - 1] != ':'
        invariant
            k <= stripped_v@.len(),
            forall|i: int| k <= i < stripped_v@.len() ==> stripped_v@[i] != ':',
        decreases k,
    {
        k -= 1;
    }
    proof {
        lemma_rfind(stripped, ':', k - 1);
    }
    if k == 0 {
        let host = crate::text::string_from_chars(stripped_v.as_slice());
        return Ok((host, 1883));
    }
    let port_chars = crate::text::sub_chars(stripped_v.as_slice(), k, stripped_v.len());
    assert(port_chars@ =~= stripped.skip(k as int));
    match parse_u16(port_chars.as_slice()) {
        Some(p) => {
            let host = string_from_char_range(stripped_v.as_slice(), 0, k - 1);
            assert(host@ =~= stripped.take(k - 1));
            Ok((host, p))
        },
        None => {
            let mut m = to_owned_string("invalid port: ");
            let ps = crate::text::string_from_chars(port_chars.as_slice());
            push_str(&mut m, ps.as_str());
            Err(m)
        },
    }
}

/// MQTT channel settings.
#[derive(Debug, Clone, PartialEq, Eq)]
pub struct MqttChannelConfig {
    pub enabled: bool,
    pub broker_url: String,
    pub client_id: String,
    pub username: String,
    pub password: String,
    pub subscribe_topics: Vec<String>,
    pub publish_prefix: String,
    pub qos: u8,
    pub allow_from: Vec<String>,
    pub deny_by_default: bool,
}

impl MqttChannelConfig {
    /// Disabled; broker `mqtt://localhost:1883`, client `zeptoclaw-agent`,
    /// subscribed to `zeptoclaw/inbox/#`, replying under `zeptoclaw/outbox`, QoS 1,
    /// no credentials, open to everyone.
    pub fn default() -> (c: Self)
        ensures
            !c.enabled,
            c.broker_url@ == "mqtt://localhost:1883"@,
            c.client_id@ == "zeptoclaw-agent"@,
            c.username@.len() == 0,
            c.password@.len() == 0,
            c.subscribe_topics@.len() == 1,
            c.subscribe_topics@[0]@ == "zeptoclaw/inbox/#"@,
            c.publish_prefix@ == "zeptoclaw/outbox"@,
            c.qos == 1,
            c.allow_from@.len() == 0,
            !c.deny_by_default,
    {
        let mut topics: Vec<String> = Vec::new();
        topics.push(to_owned_string("zeptoclaw/inbox/#"));
        MqttChannelConfig {
            enabled: false,
            broker_url: to_owned_string("mqtt://localhost:1883"),
            client_id: to_owned_string("zeptoclaw-agent"),
            username: String::new(),
            password: String::new(),
            subscribe_topics: topics,
            publish_prefix: to_owned_string("zeptoclaw/outbox"),
            qos: 1,
            allow_from: Vec::new(),
            deny_by_default: false,
        }
    }
}

/// Where an accepted inbound device message goes.
#[derive(Debug, Clone, PartialEq, Eq)]
pub struct MqttInboundRoute {
    /// Who sent the message.
    pub sender: String,
    /// Reply topic, `{publish_prefix}/{sender}`.
    pub chat_id: String,
    /// The message text.
    pub text: String,
}

/// The sender of an inbound message: the explicit sender when non-empty,
/// else the device ID of the topic.
pub open spec fn inbound_sender(sender: Seq<char>, topic: Seq<char>) -> Seq<char> {
    if sender.len() > 0 {
        sender
    } else {
        device_id_of(topic)
    }
}

/// Routes a parsed inbound message `{type, text, sender}` received on `topic`:
/// `None` for non-`message` types and for senders the access policy rejects.
pub fn route_inbound(
    msg_type: &str,
    text: &str,
    sender: &str,
    topic: &str,
    publish_prefix: &str,
    allow_from: &Vec<String>,
    deny_by_default: bool,
) -> (r: Option<MqttInboundRoute>)
    ensures
        (msg_type@ != "message"@ || !allowed_by(
            allow_from@.map_values(|s: String| s@),
            deny_by_default,
            inbound_sender(sender@, topic@),
        )) ==> r is None,
        (msg_type@ == "message"@ && allowed_by(
            allow_from@.map_values(|s: String| s@),
            deny_by_default,
            inbound_sender(sender@, topic@),
        )) ==> (r matches Some(route) && route.sender@ == inbound_sender(sender@, topic@)
            && route.chat_id@ == publish_prefix@ + seq!['/'] + inbound_sender(sender@, topic@)
            && route.text@ == text@),
{
    if !str_eq(msg_type, "message") {
        return None;
    }
    let s = if !sender.is_empty() {
        to_owned_string(sender)
    } else {
        match extract_device_id(topic) {
            Some(d) => to_owned_string(d),
            None => to_owned_string("mqtt-device"),
        }
    };
    let allowed = if allow_from.len() == 0 {
        !deny_by_default
    } else {
        contains_string(allow_from, s.as_str())
    };
    if !allowed {
        return None;
    }
    let mut chat_id = to_owned_string(publish_prefix);
    push_char(&mut chat_id, '/');
    push_str(&mut chat_id, s.as_str());
    Some(MqttInboundRoute { sender: s, chat_id, text: to_owned_string(text) })
}

/// `r` is what starting with the broker URL `url` comes to: its host and
/// port, or `Config("Invalid MQTT broker URL '<url>': <reason>")`.
pub open spec fn broker_address_result(url: Seq<char>, r: Result<(String, u16), ZeptoError>) -> bool {
    match broker_url_spec(url) {
        Ok((h, p)) => r matches Ok((host, port)) && host@ == h && port == p,
        Err(m) => r matches Err(ZeptoError::Config(e)) && e@ == "Invalid MQTT broker URL '"@ + url + "': "@
            + m,
    }
}

/// The broker address of a configured URL, or the configuration error that
/// names the URL and the reason.
pub fn broker_address_of(url: &str) -> (r: Result<(String, u16), ZeptoError>)
    ensures
        broker_address_result(url@, r),
{
    match parse_broker_url(url) {
        Ok(hp) => Ok(hp),
        Err(reason) => {
            let mut m = to_owned_string("Invalid MQTT broker URL '");
            push_str(&mut m, url);
            push_str(&mut m, "': ");
            push_str(&mut m, reason.as_str());
            Err(ZeptoError::Config(m))
        },
    }
}

/// A reply published to a device: `{"type": msg_type, "text": text}` on `topic`.
#[derive(Debug, Clone, PartialEq, Eq)]
pub struct MqttReply {
    pub topic: String,
    pub msg_type: String,
    pub text: String,
}

/// MQTT channel state: configuration, access control and run flag.
#[derive(Debug)]
pub struct MqttChannel {
    pub config: MqttChannelConfig,
    pub base_config: BaseChannelConfig,
    pub running: bool,
}

impl MqttChannel {
    /// A stopped channel named `mqtt` with the configured access policy.
    pub fn new(config: MqttChannelConfig) -> (c: Self)
        ensures
            c.config == config,
            c.base_config.name@ == "mqtt"@,
            c.base_config.allowlist@ == config.allow_from@,
            c.base_config.deny_by_default == config.deny_by_default,
            !c.running,
    {
        let allowlist = config.allow_from.clone();
        let deny = config.deny_by_default;
        MqttChannel {
            config,
            base_config: BaseChannelConfig { name: to_owned_string("mqtt"), allowlist, deny_by_default: deny },
            running: false,
        }
    }

    /// The broker that starting the channel connects to: the configured URL's
    /// host and port, or the configuration error with which starting fails
    /// before any connection is tried.
    pub fn broker_address(&self) -> (r: Result<(String, u16), ZeptoError>)
        ensures
            broker_address_result(self.config.broker_url@, r),
    {
        broker_address_of(self.config.broker_url.as_str())
    }

    /// Records that the connection was made and the topics subscribed.
    pub fn mark_started(&mut self)
        ensures
            final(self).running,
            final(self).config == old(self).config,
            final(self).base_config == old(self).base_config,
    {
        self.running = true;
    }

    /// Records that the channel was stopped.
    pub fn mark_stopped(&mut self)
        ensures
            !final(self).running,
            final(self).config == old(self).config,
            final(self).base_config == old(self).base_config,
    {
        self.running = false;
    }

    /// The reply to publish for `msg`: a `response` carrying its content on its
    /// chat id's topic, or a configuration error when the channel is not started.
    pub fn outbound(&self, msg: &OutboundMessage) -> (r: Result<MqttReply, ZeptoError>)
        ensures
            !self.running ==> (r matches Err(ZeptoError::Config(m)) && m@ == "MQTT channel not started"@),
            self.running ==> (r matches Ok(o) && o.topic@ == msg.chat_id@ && o.msg_type@ == "response"@
                && o.text@ == msg.content@),
    {
        if !self.running {
            return Err(ZeptoError::Config(to_owned_string("MQTT channel not started")));
        }
        Ok(MqttReply {
            topic: msg.chat_id.clone(),
            msg_type: to_owned_string("response"),
            text: msg.content.clone(),
        })
    }

    /// The channel name, `"mqtt"`.
    pub fn name(&self) -> (s: &'static str)
        ensures
            s@ == "mqtt"@,
    {
        "mqtt"
    }

    /// Whether the channel is running.
    pub fn is_running(&self) -> (r: bool)
        ensures
            r == self.running,
    {
        self.running
    }

    /// Whether `user_id` may talk to the agent.
    pub fn is_allowed(&self, user_id: &str) -> (r: bool)
        ensures
            r == allowed_by(
                self.base_config.allowlist@.map_values(|s: String| s@),
                self.base_config.deny_by_default,
                user_id@,
            ),
    {
        self.base_config.is_allowed(user_id)
    }
}

} // verus!
