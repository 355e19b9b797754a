use garden_esp::mqtt::{
    broker_port, discovery_payload, parse_u16, MqttAction, MqttEvent, MqttPhase, MqttSession,
    DISCOVERY_TOPIC, NO_READING, TELEMETRY_INTERVAL_SECS,
};

#[test]
fn port_parses_like_std() {
    for text in ["1883", "8883", "+8883", "0", "65535", "65536", "", "+", "-1", "-0", "18 83", " 1883",
        "1883 ", "00080", "99999999999", "12a", "١٢"] {
        assert_eq!(parse_u16(text), text.parse::<u16>().ok(), "{:?}", text);
    }
}

#[test]
fn port_falls_back_to_1883() {
    assert_eq!(broker_port("8883"), 8883);
    assert_eq!(broker_port(""), 1883);
    assert_eq!(broker_port("mqtt"), 1883);
    assert_eq!(broker_port("70000"), 1883);
}

#[test]
fn discovery_document_names_the_state_topic() {
    let doc = discovery_payload("garden/ground/temperature");
    let topic = "garden/ground/temperature";
    let expected = format!(
        r#"{{"name":"ESP32C3 Ground Temperature","state_topic":"{}","unit_of_measurement":"°C","value_template":"{{{{ value_json.temperature }}}}","unique_id":"esp32c3_ground_temp_001","device":{{"identifiers":["esp32c3_001"],"name":"ESP32C3","manufacturer":"You","model":"esp32c3-mini"}}}}"#,
        topic
    );
    assert_eq!(doc, expected);
    assert_eq!(DISCOVERY_TOPIC, "homeassistant/sensor/esp32c3_ground_temp_001/config");
}

fn connected_session() -> MqttSession {
    let (mut s, first) = MqttSession::new("1883", "user", "");
    assert_eq!(first, MqttAction::ResolveBroker);
    assert_eq!(s.step(MqttEvent::Resolved), MqttAction::ConnectTcp(1883));
    assert_eq!(
        s.step(MqttEvent::TcpConnected),
        MqttAction::ConnectMqtt { with_user_name: true, with_password: false }
    );
    assert_eq!(s.step(MqttEvent::MqttConnected), MqttAction::PublishDiscovery);
    assert_eq!(s.step(MqttEvent::Published), MqttAction::ReadTemperature);
    s
}

#[test]
fn credentials_go_only_when_set() {
    let (mut s, _) = MqttSession::new("", "", "secret");
    s.step(MqttEvent::Resolved);
    assert_eq!(
        s.step(MqttEvent::TcpConnected),
        MqttAction::ConnectMqtt { with_user_name: false, with_password: true }
    );
}

#[test]
fn failed_attempts_back_off_up_to_a_minute() {
    let (mut s, _) = MqttSession::new("abc", "", "");
    let mut waits = Vec::new();
    let failures = [
        MqttEvent::DnsFailed,
        MqttEvent::NoAddress,
        MqttEvent::TcpFailed,
        MqttEvent::MqttFailed,
        MqttEvent::PublishFailed,
        MqttEvent::DnsFailed,
    ];
    for (i, f) in failures.iter().enumerate() {
        if i >= 2 {
            assert_eq!(s.step(MqttEvent::Resolved), MqttAction::ConnectTcp(1883));
        }
        if i >= 3 {
            s.step(MqttEvent::TcpConnected);
        }
        if i >= 4 && i < 5 {
            s.step(MqttEvent::MqttConnected);
        }
        match s.step(*f) {
            MqttAction::Sleep(d) => waits.push(d),
            other => panic!("unexpected {:?}", other),
        }
        assert_eq!(s.phase(), MqttPhase::BackingOff);
        assert_eq!(s.step(MqttEvent::TimerElapsed), MqttAction::ResolveBroker);
    }
    assert_eq!(waits, vec![5, 10, 20, 40, 60, 60]);
}

#[test]
fn announcement_resets_the_backoff() {
    let (mut s, _) = MqttSession::new("1883", "", "");
    s.step(MqttEvent::DnsFailed);
    s.step(MqttEvent::TimerElapsed);
    s.step(MqttEvent::DnsFailed);
    s.step(MqttEvent::TimerElapsed);
    assert_eq!(s.backoff(), 20);
    s.step(MqttEvent::Resolved);
    s.step(MqttEvent::TcpConnected);
    s.step(MqttEvent::MqttConnected);
    assert_eq!(s.step(MqttEvent::Published), MqttAction::ReadTemperature);
    assert_eq!(s.backoff(), 5);
}

#[test]
fn telemetry_waits_for_a_reading() {
    let mut s = connected_session();
    assert_eq!(
        s.step(MqttEvent::Temperature(NO_READING)),
        MqttAction::Sleep(TELEMETRY_INTERVAL_SECS)
    );
    assert_eq!(s.step(MqttEvent::TimerElapsed), MqttAction::ReadTemperature);
    assert_eq!(s.step(MqttEvent::Temperature(2153)), MqttAction::PublishTelemetry(2153));
    assert_eq!(s.step(MqttEvent::Published), MqttAction::Sleep(30));
    assert_eq!(s.phase(), MqttPhase::Waiting);
    assert_eq!(s.step(MqttEvent::TimerElapsed), MqttAction::ReadTemperature);
}

#[test]
fn failed_telemetry_backs_off_at_once() {
    let mut s = connected_session();
    s.step(MqttEvent::Temperature(-450));
    assert_eq!(s.step(MqttEvent::PublishFailed), MqttAction::Sleep(5));
    assert_eq!(s.step(MqttEvent::TimerElapsed), MqttAction::ResolveBroker);
    assert_eq!(s.backoff(), 10);
}
