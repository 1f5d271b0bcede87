use send_modes::send_modes::error::LibError;
use send_modes::send_modes::event::{Context, EventType, TextMessage};

#[test]
fn text_message_json_round_trip() {
    let m = TextMessage {
        mode_id: "m-1".to_owned(),
        source: "900".to_owned(),
        text: "credit 12,50\n\"ok\"".to_owned(),
        event_type: EventType::PUSH,
    };
    let json = m.to_json();
    let back = TextMessage::from_json(&json).expect("decode");
    assert_eq!(back, m);
    let v: serde_json::Value = serde_json::from_str(&json).expect("valid JSON");
    assert_eq!(v["event_type"].as_str().unwrap(), "push_notification");
    assert_eq!(v["text"].as_str().unwrap(), m.text);
}

#[test]
fn text_message_unknown_channel_is_invalid_device_mode() {
    let json = "{\"mode_id\":\"m\",\"source\":\"s\",\"text\":\"t\",\"event_type\":\"fax\"}";
    assert_eq!(TextMessage::from_json(json), Err(LibError::InvalidDeviceMode));
}

#[test]
fn context_json_omits_unset_fields_entirely() {
    let c = Context {
        amount: "12.50".to_owned(),
        balance: None,
        requisite: None,
    };
    let json = c.to_json();
    assert_eq!(json, "{\"amount\":\"12.50\"}");
    assert!(!json.contains("balance"));
    assert!(!json.contains("requisite"));
}

#[test]
fn context_json_includes_set_fields() {
    let c = Context {
        amount: "12.50".to_owned(),
        balance: Some("100.00".to_owned()),
        requisite: Some("4276".to_owned()),
    };
    assert_eq!(
        c.to_json(),
        "{\"amount\":\"12.50\",\"balance\":\"100.00\",\"requisite\":\"4276\"}"
    );
}

#[test]
fn send_event_json_decodes() {
    let json = "{\"source\":\"900\",\"text\":\"credit\",\"event_type\":\"sms\"}";
    let e = send_modes::send_modes::event::SendEvent::from_json(json).expect("decode");
    assert_eq!(e.source, "900");
    assert_eq!(e.text, "credit");
    assert_eq!(e.event_type, EventType::SMS);
}

#[test]
fn send_event_unknown_channel_is_invalid_device_mode() {
    let json = "{\"source\":\"s\",\"text\":\"t\",\"event_type\":\"pigeon\"}";
    assert_eq!(
        send_modes::send_modes::event::SendEvent::from_json(json),
        Err(LibError::InvalidDeviceMode)
    );
}
