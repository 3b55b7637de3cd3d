use sophos_firewall_api::{http_status_error, transport_error, Error};

#[test]
fn only_non_success_statuses_are_errors() {
    for status in [200u16, 201, 204, 299] {
        assert_eq!(http_status_error(status, Some("OK")), None, "{status}");
    }
    for status in [100u16, 199, 300, 404, 500] {
        assert!(
            matches!(http_status_error(status, Some("Reason")), Some(Error::Transport(_))),
            "{status}"
        );
    }
}

#[test]
fn status_errors_name_only_the_status_and_reason() {
    let error = http_status_error(503, Some("Service Unavailable")).expect("failure");
    assert_eq!(
        error,
        Error::Transport("HTTP status 503 Service Unavailable".to_string())
    );
    assert_eq!(
        error.to_string(),
        "transport error: HTTP status 503 Service Unavailable"
    );

    let unnamed = http_status_error(599, None).expect("failure");
    assert_eq!(unnamed, Error::Transport("HTTP status 599 unknown".to_string()));
}

#[test]
fn transport_errors_join_context_and_detail() {
    let error = transport_error("HTTP request failed", "connection closed");
    assert_eq!(
        error,
        Error::Transport("HTTP request failed: connection closed".to_string())
    );
}
