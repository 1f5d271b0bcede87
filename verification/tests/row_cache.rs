use rsa::pkcs1::EncodeRsaPrivateKey;
use send_modes::cache::CacheValue;
use send_modes::row::{SqlColumn, SqlRow, SqlValue};
use send_modes::send_modes::error::LibError;
use send_modes::send_modes::notification_types::NotificationTemplate;
use send_modes::send_modes::send_mode::{SendMode, SendModeEnum};

fn col(name: &str, value: SqlValue) -> SqlColumn {
    SqlColumn {
        name: name.to_owned(),
        value,
    }
}

fn sample_row(kind: &str, pem: &str) -> SqlRow {
    SqlRow {
        columns: vec![
            col("id", SqlValue::Text("m-1".to_owned())),
            col("aggregate_id", SqlValue::Text("agg-7".to_owned())),
            col("name", SqlValue::Text("primary".to_owned())),
            col("send_mode", SqlValue::Text(kind.to_owned())),
            col("access_token", SqlValue::Text("tok".to_owned())),
            col("fingerprint", SqlValue::Null),
            col("private_key", SqlValue::Text(pem.to_owned())),
            col("auto_heartbeat_interval", SqlValue::Int4(15)),
            col(
                "last_heartbeat",
                SqlValue::Timestamp("2024-05-06T07:08:09Z".to_owned()),
            ),
        ],
    }
}

fn generated_pem() -> String {
    let mut rng = rand::thread_rng();
    let key = rsa::RsaPrivateKey::new(&mut rng, 512).expect("key generation");
    key.to_pkcs1_pem(rsa::pkcs1::LineEnding::LF)
        .expect("pem encoding")
        .to_string()
}

#[test]
fn send_mode_from_row_maps_columns_by_name() {
    let pem = generated_pem();
    let row = sample_row("KRAFT", &pem);
    let m = SendMode::from_row(&row).expect("row decode");
    assert_eq!(m.id, "m-1");
    assert_eq!(m.aggregate_id, "agg-7");
    assert_eq!(m.name, "primary");
    assert_eq!(m.send_mode, SendModeEnum::KRAFT);
    assert_eq!(m.access_token, "tok");
    assert_eq!(m.fingerprint, None);
    assert_eq!(m.private_key.as_deref(), Some(pem.as_str()));
    assert_eq!(m.auto_heartbeat_interval, Some(15));
    assert_eq!(m.last_heartbeat, "2024-05-06T07:08:09Z");
}

#[test]
fn send_mode_from_row_unknown_kind_is_invalid_device_mode() {
    let row = sample_row("PIGEON", "junk");
    assert_eq!(SendMode::from_row(&row), Err(LibError::InvalidDeviceMode));
}

#[test]
fn send_mode_from_row_tolerates_malformed_pem_as_absent_key() {
    let row = sample_row("TRADEMO", "not a pem at all");
    let m = SendMode::from_row(&row).expect("row decode");
    assert_eq!(m.send_mode, SendModeEnum::TRADEMO);
    assert_eq!(m.private_key, None);
}

#[test]
fn send_mode_from_row_missing_column_is_internal_error() {
    let row = SqlRow {
        columns: vec![col("id", SqlValue::Text("m-1".to_owned()))],
    };
    assert_eq!(SendMode::from_row(&row), Err(LibError::InternalServerError));
}

fn template_row(kind: &str) -> SqlRow {
    SqlRow {
        columns: vec![
            col("bank", SqlValue::Text("acme".to_owned())),
            col("send_mode", SqlValue::Text(kind.to_owned())),
            col("template", SqlValue::Text("{amount} in".to_owned())),
            col("search_by", SqlValue::Text("text".to_owned())),
            col("has_requisite", SqlValue::Boolean(true)),
            col("has_balance", SqlValue::Boolean(false)),
            col("notification_type", SqlValue::Text("push".to_owned())),
            col("source", SqlValue::Text("gw".to_owned())),
            col("need_to_replace_comma", SqlValue::Boolean(true)),
        ],
    }
}

#[test]
fn template_from_row_maps_columns_by_name() {
    let t = NotificationTemplate::from_row(&template_row("TRADEMO")).expect("row decode");
    assert_eq!(t.bank, "acme");
    assert_eq!(t.send_mode, SendModeEnum::TRADEMO);
    assert_eq!(t.template, "{amount} in");
    assert_eq!(t.search_by, "text");
    assert!(t.has_requisite);
    assert!(!t.has_balance);
    assert_eq!(t.notification_type, "push");
    assert_eq!(t.source, "gw");
    assert!(t.need_to_replace_comma);
}

#[test]
fn template_from_row_unknown_kind_is_invalid_device_mode() {
    assert_eq!(
        NotificationTemplate::from_row(&template_row("PIGEON")),
        Err(LibError::InvalidDeviceMode)
    );
}

#[test]
fn send_mode_cache_round_trip() {
    let pem = generated_pem();
    let m = SendMode {
        id: "m-2".to_owned(),
        aggregate_id: "agg".to_owned(),
        name: "n".to_owned(),
        send_mode: SendModeEnum::KRAFT,
        access_token: "t".to_owned(),
        fingerprint: Some("fp".to_owned()),
        private_key: Some(pem),
        auto_heartbeat_interval: None,
        last_heartbeat: "2024-01-02T03:04:05Z".to_owned(),
    };
    let mut args: Vec<Vec<u8>> = Vec::new();
    m.write_redis_args(&mut args);
    assert_eq!(args.len(), 1);
    let back = SendMode::from_redis_value(&CacheValue::Bulk(args[0].clone())).expect("decode");
    assert_eq!(back, m);
}

#[test]
fn template_cache_round_trip() {
    let t = NotificationTemplate::from_row(&template_row("KRAFT")).expect("row decode");
    let mut args: Vec<Vec<u8>> = Vec::new();
    t.write_redis_args(&mut args);
    assert_eq!(args.len(), 1);
    let back =
        NotificationTemplate::from_redis_value(&CacheValue::Bulk(args[0].clone())).expect("decode");
    assert_eq!(back, t);
}

#[test]
fn cache_non_bulk_shapes_fail_with_decode_type_error() {
    assert_eq!(
        SendMode::from_redis_value(&CacheValue::Nil),
        Err(LibError::InternalServerError)
    );
    assert_eq!(
        SendMode::from_redis_value(&CacheValue::Int(7)),
        Err(LibError::InternalServerError)
    );
    assert_eq!(
        SendMode::from_redis_value(&CacheValue::Status("OK".to_owned())),
        Err(LibError::InternalServerError)
    );
    assert_eq!(
        NotificationTemplate::from_redis_value(&CacheValue::Other),
        Err(LibError::InternalServerError)
    );
}

#[test]
fn cache_invalid_utf8_bulk_fails_with_decode_type_error() {
    assert_eq!(
        SendMode::from_redis_value(&CacheValue::Bulk(vec![0xff, 0xfe, 0x01])),
        Err(LibError::InternalServerError)
    );
}

#[test]
fn cache_bulk_with_wrong_document_fails() {
    assert_eq!(
        SendMode::from_redis_value(&CacheValue::Bulk(b"[]".to_vec())),
        Err(LibError::InternalServerError)
    );
}
