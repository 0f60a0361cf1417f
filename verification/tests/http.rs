use system_manager::decimal::u32_to_string;
use system_manager::http::{internal_message, ApiError, ApiResponse};

#[test]
fn ok_response_carries_data() {
    let r = ApiResponse::ok(7u8).unwrap();
    assert_eq!(r.status, 0);
    assert!(r.err_msg.is_none());
    assert_eq!(r.data, Some(7u8));
}

#[test]
fn business_error_answer() {
    let e = ApiError::BusinessError(100010, "/user/Register/alredy_register2".to_string());
    assert_eq!(e.code(), 100010);
    assert_eq!(e.status_code(), 400);
    assert_eq!(e.message(), "bad requeset. code = 100010, err = /user/Register/alredy_register2");
    let body = e.error_body();
    assert_eq!(body.status, 100010);
    assert_eq!(body.err_msg.as_deref(), Some("bad requeset. code = 100010, err = /user/Register/alredy_register2"));
    assert!(body.data.is_none());
}

#[test]
fn internal_error_answer() {
    let e = ApiError::from(anyhow::Error::msg("disk on fire"));
    assert_eq!(e.code(), 1);
    assert_eq!(e.status_code(), 400);
    let msg = e.message();
    assert!(msg.starts_with("[debug only] server internal err: "));
    assert!(msg.contains("disk on fire"));
    let body = e.error_body();
    assert_eq!(body.status, 1);
    assert_eq!(body.err_msg, Some(msg));
}

#[test]
fn decimal_matches_display() {
    for n in [0u32, 7, 9, 10, 99, 100, 4096, 100100, u32::MAX] {
        assert_eq!(u32_to_string(n), n.to_string());
    }
}

#[test]
fn internal_message_appends_the_source_text() {
    assert_eq!(internal_message("Boom"), "[debug only] server internal err: Boom");
    let e = ApiError::from(anyhow::Error::msg("disk on fire"));
    assert_eq!(e.message(), internal_message(&format!("{:#?}", anyhow::Error::msg("disk on fire"))));
}

#[test]
fn error_body_carries_the_given_text() {
    let e = ApiError::from(anyhow::Error::msg("x"));
    let body = e.error_body_with("some text".to_string());
    assert_eq!(body.status, 1);
    assert_eq!(body.err_msg.as_deref(), Some("some text"));
    assert!(body.data.is_none());
}
