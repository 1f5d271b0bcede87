use send_modes::send_modes::error::LibError;
use send_modes::send_modes::event::EventType;
use send_modes::send_modes::send_mode::SendModeEnum;
use send_modes::tools::is_connection_err;

#[test]
fn send_mode_kind_string_round_trip() {
    assert_eq!(SendModeEnum::KRAFT.encode(), "KRAFT");
    assert_eq!(SendModeEnum::TRADEMO.encode(), "TRADEMO");
    assert_eq!(
        SendModeEnum::decode(&SendModeEnum::KRAFT.encode()),
        Ok(SendModeEnum::KRAFT)
    );
    assert_eq!(
        SendModeEnum::decode(&SendModeEnum::TRADEMO.encode()),
        Ok(SendModeEnum::TRADEMO)
    );
}

#[test]
fn send_mode_kind_sql_round_trip() {
    let mut out: Vec<u8> = Vec::new();
    SendModeEnum::KRAFT.to_sql(&mut out);
    assert_eq!(out, b"KRAFT".to_vec());
    assert_eq!(SendModeEnum::from_sql(&out), Ok(SendModeEnum::KRAFT));
    let mut out2: Vec<u8> = Vec::new();
    SendModeEnum::TRADEMO.to_sql(&mut out2);
    assert_eq!(out2, b"TRADEMO".to_vec());
    assert_eq!(SendModeEnum::from_sql(&out2), Ok(SendModeEnum::TRADEMO));
}

#[test]
fn send_mode_kind_unknown_string_is_invalid_device_mode() {
    assert_eq!(
        SendModeEnum::decode("SOMETHING"),
        Err(LibError::InvalidDeviceMode)
    );
    assert_eq!(SendModeEnum::decode("kraft"), Err(LibError::InvalidDeviceMode));
    assert_eq!(
        SendModeEnum::from_sql(b"UNKNOWN"),
        Err(LibError::InvalidDeviceMode)
    );
}

#[test]
fn event_type_round_trip() {
    assert_eq!(EventType::SMS.encode(), "sms");
    assert_eq!(EventType::PUSH.encode(), "push_notification");
    assert_eq!(EventType::decode(&EventType::SMS.encode()), Ok(EventType::SMS));
    assert_eq!(EventType::decode(&EventType::PUSH.encode()), Ok(EventType::PUSH));
}

#[test]
fn event_type_unknown_string_is_invalid_device_mode() {
    assert_eq!(EventType::decode("email"), Err(LibError::InvalidDeviceMode));
    assert_eq!(EventType::decode(""), Err(LibError::InvalidDeviceMode));
}

#[test]
fn lib_error_messages() {
    assert_eq!(LibError::InternalServerError.message(), "InternalError");
    assert_eq!(LibError::TimeOut.message(), "request timeout");
    assert_eq!(LibError::IOError("x".to_owned()).message(), "IOError");
    assert_eq!(
        LibError::NotFound("mode-1".to_owned()).message(),
        "mode-1, Not found"
    );
    assert_eq!(LibError::Unauthorized.message(), "Unauthorized");
    assert_eq!(LibError::Forbidden.message(), "Forbidden");
    assert_eq!(LibError::InvalidDeviceMode.message(), "Invalid device mode");
}

#[test]
fn connection_errors_are_recognized() {
    assert!(is_connection_err("connection refused"));
    assert!(is_connection_err("broken pipe"));
    assert!(is_connection_err("request timed out"));
    assert!(is_connection_err("conn reset"));
    assert!(!is_connection_err("bad request"));
    assert!(!is_connection_err(""));
}
