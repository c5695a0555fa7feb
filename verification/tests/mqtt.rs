use zeptoclaw::bus::OutboundMessage;
use zeptoclaw::channels::mqtt::{
    broker_address_of, config_qos, extract_device_id, parse_broker_url, route_inbound, MqttChannel,
    MqttChannelConfig, QosLevel,
};
use zeptoclaw::error::ZeptoError;

fn make_channel(config: MqttChannelConfig) -> MqttChannel {
    MqttChannel::new(config)
}

#[test]
fn test_mqtt_channel_name() {
    let ch = make_channel(MqttChannelConfig::default());
    assert_eq!(ch.name(), "mqtt");
}

#[test]
fn test_mqtt_channel_not_running_initially() {
    let ch = make_channel(MqttChannelConfig::default());
    assert!(!ch.is_running());
}

#[test]
fn test_mqtt_channel_allowlist() {
    let ch = make_channel(MqttChannelConfig {
        allow_from: vec!["esp32-node-17".to_string()],
        ..MqttChannelConfig::default()
    });
    assert!(ch.is_allowed("esp32-node-17"));
    assert!(!ch.is_allowed("esp32-node-99"));
}

#[test]
fn test_mqtt_channel_deny_by_default() {
    let ch = make_channel(MqttChannelConfig {
        allow_from: vec![],
        deny_by_default: true,
        ..MqttChannelConfig::default()
    });
    assert!(!ch.is_allowed("anyone"));
}

#[test]
fn test_mqtt_channel_open_by_default() {
    let ch = make_channel(MqttChannelConfig::default());
    assert!(ch.is_allowed("anyone"));
}

#[test]
fn test_extract_device_id() {
    assert_eq!(
        extract_device_id("zeptoclaw/inbox/node-17"),
        Some("node-17")
    );
    assert_eq!(
        extract_device_id("zeptoclaw/inbox/esp32-0"),
        Some("esp32-0")
    );
    assert_eq!(extract_device_id("single"), Some("single"));
    assert_eq!(extract_device_id(""), Some(""));
}

#[test]
fn test_parse_broker_url_full() {
    let (host, port) = parse_broker_url("mqtt://192.168.1.100:1883").unwrap();
    assert_eq!(host, "192.168.1.100");
    assert_eq!(port, 1883);
}

#[test]
fn test_parse_broker_url_no_scheme() {
    let (host, port) = parse_broker_url("broker.example.com:8883").unwrap();
    assert_eq!(host, "broker.example.com");
    assert_eq!(port, 8883);
}

#[test]
fn test_parse_broker_url_default_port() {
    let (host, port) = parse_broker_url("mqtt://localhost").unwrap();
    assert_eq!(host, "localhost");
    assert_eq!(port, 1883);
}

#[test]
fn test_parse_broker_url_host_only() {
    let (host, port) = parse_broker_url("broker.local").unwrap();
    assert_eq!(host, "broker.local");
    assert_eq!(port, 1883);
}

#[test]
fn test_parse_broker_url_tcp_scheme() {
    let (host, port) = parse_broker_url("tcp://10.0.0.1:1883").unwrap();
    assert_eq!(host, "10.0.0.1");
    assert_eq!(port, 1883);
}

#[test]
fn test_parse_broker_url_invalid_port() {
    assert!(parse_broker_url("mqtt://host:notaport").is_err());
}

#[test]
fn test_config_qos_mapping() {
    assert_eq!(config_qos(0), QosLevel::AtMostOnce);
    assert_eq!(config_qos(1), QosLevel::AtLeastOnce);
    assert_eq!(config_qos(2), QosLevel::ExactlyOnce);
    assert_eq!(config_qos(3), QosLevel::AtLeastOnce);
}

#[test]
fn test_mqtt_config_defaults() {
    let config = MqttChannelConfig::default();
    assert!(!config.enabled);
    assert_eq!(config.broker_url, "mqtt://localhost:1883");
    assert_eq!(config.client_id, "zeptoclaw-agent");
    assert_eq!(config.subscribe_topics, vec!["zeptoclaw/inbox/#"]);
    assert_eq!(config.publish_prefix, "zeptoclaw/outbox");
    assert_eq!(config.qos, 1);
    assert!(config.username.is_empty());
    assert!(config.password.is_empty());
}

#[test]
fn parse_broker_url_port_edges() {
    assert_eq!(parse_broker_url("h:+80").unwrap(), ("h".to_string(), 80));
    assert_eq!(parse_broker_url("h:65535").unwrap(), ("h".to_string(), 65535));
    assert_eq!(parse_broker_url("h:65536").unwrap_err(), "invalid port: 65536");
    assert_eq!(parse_broker_url("h:").unwrap_err(), "invalid port: ");
    assert_eq!(parse_broker_url("[::1]:1884").unwrap(), ("[::1]".to_string(), 1884));
    assert_eq!(parse_broker_url("mqtts://secure:8883").unwrap(), ("secure".to_string(), 8883));
}

#[test]
fn route_inbound_messages() {
    let allow: Vec<String> = vec![];
    let r = route_inbound("message", "I2C timeout", "", "zeptoclaw/inbox/node-17", "zeptoclaw/outbox", &allow, false)
        .unwrap();
    assert_eq!(r.sender, "node-17");
    assert_eq!(r.chat_id, "zeptoclaw/outbox/node-17");
    assert_eq!(r.text, "I2C timeout");
    let r = route_inbound("message", "hi", "esp32", "t/x", "p", &allow, false).unwrap();
    assert_eq!(r.chat_id, "p/esp32");
    assert!(route_inbound("status", "hi", "esp32", "t/x", "p", &allow, false).is_none());
    assert!(route_inbound("message", "hi", "esp32", "t/x", "p", &allow, true).is_none());
    let allow = vec!["esp32".to_string()];
    assert!(route_inbound("message", "hi", "esp32", "t/x", "p", &allow, true).is_some());
    assert!(route_inbound("message", "hi", "", "t/x", "p", &allow, false).is_none());
}

#[test]
fn test_mqtt_start_rejects_bad_broker_url() {
    let mut config = MqttChannelConfig::default();
    config.broker_url = "mqtt://host:notaport".to_string();
    let ch = MqttChannel::new(config);
    assert_eq!(
        ch.broker_address(),
        Err(ZeptoError::Config("Invalid MQTT broker URL 'mqtt://host:notaport': invalid port: notaport".into()))
    );
    assert!(!ch.is_running());
    assert_eq!(
        broker_address_of("tcp://broker.local:8883"),
        Ok(("broker.local".to_string(), 8883))
    );
}

#[test]
fn test_mqtt_send_requires_start() {
    let mut ch = MqttChannel::new(MqttChannelConfig::default());
    let msg = OutboundMessage {
        channel: "mqtt".to_string(),
        chat_id: "zeptoclaw/outbox/node-17".to_string(),
        content: "Restarting I2C bus".to_string(),
        reply_to: None,
        metadata: vec![],
    };
    assert_eq!(ch.outbound(&msg), Err(ZeptoError::Config("MQTT channel not started".into())));
    ch.mark_started();
    assert!(ch.is_running());
    let reply = ch.outbound(&msg).unwrap();
    assert_eq!(reply.topic, "zeptoclaw/outbox/node-17");
    assert_eq!(reply.msg_type, "response");
    assert_eq!(reply.text, "Restarting I2C bus");
    ch.mark_stopped();
    assert!(!ch.is_running());
    assert!(ch.outbound(&msg).is_err());
}
