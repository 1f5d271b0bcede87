use send_modes::send_modes::client::ClientSendModes;
use send_modes::send_modes::error::LibError;
use send_modes::send_modes::send_mode::{NewSendModeRequest, SendMode, SendModeEnum};
use send_modes::tools::send_mode_client::{
    read_send_mode_list_response, read_send_mode_response, read_unit_response, HttpMethod,
    SendModeClient,
};

fn sample_request() -> NewSendModeRequest {
    NewSendModeRequest {
        aggregate_id: "agg".to_owned(),
        name: "n".to_owned(),
        mode: SendModeEnum::KRAFT,
        access_token: "t".to_owned(),
        auto_heartbeat_interval: Some(60),
    }
}

#[test]
fn create_plan_posts_json_body() {
    let client = SendModeClient::new("http://svc".to_owned());
    let plan = client.new_send_mode(&sample_request());
    assert_eq!(plan.method, HttpMethod::Post);
    assert_eq!(plan.url, "http://svc/api/v1/send_modes");
    assert!(plan.json_content_type);
    assert_eq!(
        plan.body.as_deref(),
        Some(
            "{\"aggregate_id\":\"agg\",\"name\":\"n\",\"mode\":\"KRAFT\",\
             \"access_token\":\"t\",\"auto_heartbeat_interval\":60}"
        )
    );
}

#[test]
fn fetch_heartbeat_and_delete_plans_use_the_documented_urls() {
    let client = SendModeClient::new("http://svc".to_owned());
    let by_id = client.get_send_mode_by_id("m-1");
    assert_eq!(by_id.method, HttpMethod::Get);
    assert_eq!(by_id.url, "http://svc/api/v1/send_modes/m-1");
    assert_eq!(by_id.body, None);

    let hb = client.heartbeat("m-1");
    assert_eq!(hb.method, HttpMethod::Get);
    assert_eq!(hb.url, "http://svc/api/v1/send_modes/m-1/heartbeat");

    let by_agg = client.get_send_mode_by_aggregate_id("agg-7");
    assert_eq!(by_agg.method, HttpMethod::Get);
    assert_eq!(by_agg.url, "http://svc/api/v1/send_modes/aggregate_id/agg-7");

    let del = client.delete_send_mode("m-1");
    assert_eq!(del.method, HttpMethod::Delete);
    assert_eq!(del.url, "http://svc/api/v1/send_modes/m-1");
}

#[test]
fn second_client_variant_joins_base_and_path_without_slash() {
    let client = ClientSendModes::new("http://other/".to_owned());
    let plan = client.new_send_mode(&sample_request());
    assert_eq!(plan.method, HttpMethod::Post);
    assert_eq!(plan.url, "http://other/api/v1/send_modes");
    assert!(plan.json_content_type);
}

fn mode_json() -> String {
    "{\"id\":\"m-1\",\"aggregate_id\":\"agg\",\"name\":\"n\",\"send_mode\":\"KRAFT\",\
     \"access_token\":\"t\",\"fingerprint\":null,\"auto_heartbeat_interval\":null,\
     \"last_heartbeat\":\"2024-01-02T03:04:05Z\"}"
        .to_owned()
}

#[test]
fn success_response_decodes_entity() {
    let m = read_send_mode_response(200, &mode_json()).expect("decode");
    assert_eq!(m.id, "m-1");
    assert_eq!(m.send_mode, SendModeEnum::KRAFT);
}

#[test]
fn non_success_status_collapses_to_internal_error() {
    assert_eq!(
        read_send_mode_response(404, &mode_json()),
        Err(LibError::InternalServerError)
    );
    assert_eq!(
        read_send_mode_response(500, &mode_json()),
        Err(LibError::InternalServerError)
    );
    assert_eq!(read_unit_response(500), Err(LibError::InternalServerError));
    assert_eq!(read_unit_response(301), Err(LibError::InternalServerError));
}

#[test]
fn success_body_that_does_not_decode_collapses_to_internal_error() {
    assert_eq!(
        read_send_mode_response(200, "not json"),
        Err(LibError::InternalServerError)
    );
    let bad_kind = mode_json().replace("KRAFT", "PIGEON");
    assert_eq!(
        read_send_mode_response(200, &bad_kind),
        Err(LibError::InternalServerError)
    );
}

#[test]
fn unit_response_accepts_any_success_status() {
    assert_eq!(read_unit_response(200), Ok(()));
    assert_eq!(read_unit_response(204), Ok(()));
}

#[test]
fn list_response_decodes_in_order() {
    let body = format!("[{},{}]", mode_json(), mode_json().replace("m-1", "m-2"));
    let ms = read_send_mode_list_response(200, &body).expect("decode");
    assert_eq!(ms.len(), 2);
    assert_eq!(ms[0].id, "m-1");
    assert_eq!(ms[1].id, "m-2");
}

#[test]
fn empty_list_response_decodes() {
    let ms = read_send_mode_list_response(200, "[]").expect("decode");
    assert!(ms.is_empty());
}

#[test]
fn list_response_that_is_not_an_array_collapses_to_internal_error() {
    assert_eq!(
        read_send_mode_list_response(200, &mode_json()),
        Err(LibError::InternalServerError)
    );
}

#[test]
fn created_entity_survives_create_then_fetch_interpretation() {
    let created = ClientSendModes::read_new_send_mode_response(201, &mode_json()).expect("decode");
    let json = created.to_json();
    let fetched: SendMode = read_send_mode_response(200, &json).expect("decode");
    assert_eq!(fetched, created);
}

#[test]
fn rename_request_json_exact_text() {
    let r = send_modes::send_modes::send_mode::RenameSendModeRequest {
        id: "m-1".to_owned(),
        name: "renamed".to_owned(),
    };
    assert_eq!(r.to_json(), "{\"id\":\"m-1\",\"name\":\"renamed\"}");
}
