use resend_cli::client::{
    cancel_email_request, delete_domain_request, interpret, interpret_delete, interpret_list,
    send_email_request, test_connection_request, update_template_request, verify_domain_request,
    ApiError, ApiRequest, ClientError, Method, Outcome,
};
use resend_cli::types::{
    Domain, Email, SendEmailRequest, SendEmailResponse, UpdateTemplateRequest,
};

fn response(status: u16, body: &str) -> Outcome {
    Outcome::Response {
        status,
        body: body.to_string(),
    }
}

#[test]
fn test_api_error_display() {
    let auth_err = ApiError::AuthenticationError;
    assert!(auth_err.message().contains("Authentication failed"));

    let not_found = ApiError::NotFoundError("email-123".to_string());
    assert!(not_found.message().contains("email-123"));

    let rate_limit = ApiError::RateLimitError;
    assert!(rate_limit.message().contains("Rate limit"));
}

#[test]
fn test_auth_statuses_discard_body() {
    for status in [401u16, 403u16] {
        let r: Result<Email, ClientError> = interpret(response(status, "secret context"));
        match r {
            Err(ClientError::Api(e)) => {
                assert!(matches!(e, ApiError::AuthenticationError));
                assert!(!e.message().contains("secret context"));
            }
            _ => panic!("expected an authentication error"),
        }
    }
}

#[test]
fn test_validation_statuses_keep_body_verbatim() {
    for status in [400u16, 422u16] {
        let body = "field `to`: invalid address";
        let r: Result<Email, ClientError> = interpret(response(status, body));
        match r {
            Err(ClientError::Api(ApiError::ValidationError(detail))) => {
                assert_eq!(detail, body);
            }
            _ => panic!("expected a validation error"),
        }
    }
}

#[test]
fn test_not_found_keeps_body() {
    let r: Result<Email, ClientError> = interpret(response(404, "no such email"));
    match r {
        Err(ClientError::Api(ApiError::NotFoundError(detail))) => {
            assert_eq!(detail, "no such email");
        }
        _ => panic!("expected a not-found error"),
    }
}

#[test]
fn test_rate_limit_status() {
    let r: Result<Email, ClientError> = interpret(response(429, "slow down"));
    assert!(matches!(
        r,
        Err(ClientError::Api(ApiError::RateLimitError))
    ));
}

#[test]
fn test_unclassified_status_keeps_status_and_body() {
    let r: Result<Email, ClientError> = interpret(response(500, "boom"));
    match r {
        Err(ClientError::Api(ApiError::ApiError { status, message })) => {
            assert_eq!(status, 500);
            assert_eq!(message, "boom");
            let e = ApiError::ApiError { status, message };
            assert_eq!(e.message(), "API error: 500 - boom");
        }
        _ => panic!("expected the generic error"),
    }
}

#[test]
fn test_success_decodes_body() {
    let r: Result<SendEmailResponse, ClientError> = interpret(response(200, "{\"id\":\"e1\"}"));
    assert_eq!(r.unwrap().id, "e1");
    let r: Result<SendEmailResponse, ClientError> = interpret(response(201, "{\"id\":\"e2\"}"));
    assert_eq!(r.unwrap().id, "e2");
}

#[test]
fn test_missing_required_field_is_decode_failure() {
    let r: Result<SendEmailResponse, ClientError> = interpret(response(200, "{}"));
    assert!(matches!(r, Err(ClientError::Decode(_))));
    let r: Result<SendEmailResponse, ClientError> = interpret(response(200, "{\"id\":5}"));
    assert!(matches!(r, Err(ClientError::Decode(_))));
}

#[test]
fn test_malformed_body_is_decode_failure() {
    let r: Result<SendEmailResponse, ClientError> = interpret(response(200, "{\"id\":"));
    match r {
        Err(e) => assert_eq!(e.message(), "Failed to parse response"),
        _ => panic!("expected a decode failure"),
    }
}

#[test]
fn test_transport_timeout_is_distinguished() {
    let r: Result<Email, ClientError> = interpret(Outcome::Failure {
        timeout: true,
        detail: "deadline exceeded somewhere".to_string(),
    });
    match r {
        Err(ClientError::Api(ApiError::NetworkError(detail))) => {
            assert_eq!(detail, "Request timeout");
        }
        _ => panic!("expected a network error"),
    }
}

#[test]
fn test_transport_failure_keeps_detail() {
    let r: Result<Email, ClientError> = interpret(Outcome::Failure {
        timeout: false,
        detail: "connection refused".to_string(),
    });
    match r {
        Err(ClientError::Api(ApiError::NetworkError(detail))) => {
            assert_eq!(detail, "connection refused");
        }
        _ => panic!("expected a network error"),
    }
}

#[test]
fn test_delete_succeeds_on_200_and_204_with_any_body() {
    for status in [200u16, 204u16] {
        for body in ["", "ignored text"] {
            let r = interpret_delete(response(status, body));
            assert!(r.is_ok());
        }
    }
}

#[test]
fn test_delete_classifies_other_statuses() {
    assert!(matches!(
        interpret_delete(response(401, "x")),
        Err(ApiError::AuthenticationError)
    ));
    assert!(matches!(
        interpret_delete(response(429, "x")),
        Err(ApiError::RateLimitError)
    ));
    match interpret_delete(response(418, "teapot")) {
        Err(ApiError::ApiError { status, message }) => {
            assert_eq!(status, 418);
            assert_eq!(message, "teapot");
        }
        _ => panic!("expected the generic error"),
    }
}

#[test]
fn test_list_envelope_preserves_order() {
    let body = "{\"data\":[{\"id\":\"a\"},{\"id\":\"b\"}]}";
    let r: Result<Vec<Email>, ClientError> = interpret_list(response(200, body));
    let emails = r.unwrap();
    assert_eq!(emails.len(), 2);
    assert_eq!(emails[0].id, "a");
    assert_eq!(emails[1].id, "b");
}

#[test]
fn test_request_plans() {
    let plan = cancel_email_request("e9");
    assert_eq!(plan.method, Method::Post);
    assert_eq!(plan.path, "/emails/e9/cancel");
    assert_eq!(plan.body.as_deref(), Some("{}"));

    let plan = verify_domain_request("d1");
    assert_eq!(plan.method, Method::Post);
    assert_eq!(plan.path, "/domains/d1/verify");
    assert_eq!(plan.body.as_deref(), Some("{}"));

    let plan = delete_domain_request("d1");
    assert_eq!(plan.method, Method::Delete);
    assert_eq!(plan.path, "/domains/d1");
    assert!(plan.body.is_none());

    let plan: ApiRequest = test_connection_request();
    assert_eq!(plan.method, Method::Get);
    assert_eq!(plan.path, "/domains");
}

#[test]
fn test_update_template_request_omits_unset() {
    let req = UpdateTemplateRequest {
        name: None,
        subject: Some("New subject".to_string()),
        html: None,
        text: None,
    };
    let plan = update_template_request("t1", &req);
    assert_eq!(plan.method, Method::Patch);
    assert_eq!(plan.path, "/templates/t1");
    assert_eq!(plan.body.as_deref(), Some("{\"subject\":\"New subject\"}"));
}

#[test]
fn test_send_email_scenario() {
    let req = SendEmailRequest {
        from: "a@x.com".to_string(),
        to: vec!["b@y.com".to_string()],
        subject: "Hi".to_string(),
        html: None,
        text: None,
        cc: None,
        bcc: None,
        reply_to: None,
        scheduled_at: None,
    };
    let plan = send_email_request(&req);
    assert_eq!(plan.method, Method::Post);
    assert_eq!(plan.path, "/emails");
    let body = plan.body.unwrap();
    assert_eq!(body, "{\"from\":\"a@x.com\",\"to\":[\"b@y.com\"],\"subject\":\"Hi\"}");
    assert!(!body.contains("html"));
    assert!(!body.contains("text"));
    assert!(!body.contains("cc"));
    assert!(!body.contains("bcc"));
    assert!(!body.contains("reply_to"));
    assert!(!body.contains("scheduled_at"));

    let r: Result<SendEmailResponse, ClientError> = interpret(response(200, "{\"id\":\"e1\"}"));
    assert_eq!(r.unwrap().id, "e1");
}

#[test]
fn test_list_domains_scenario() {
    let r: Result<Vec<Domain>, ClientError> = interpret_list(response(200, "{\"data\":[]}"));
    let domains = r.unwrap();
    assert!(domains.is_empty());
    assert_eq!(
        resend_cli::formatters::format_table(&domains),
        "No results found."
    );
    assert_eq!(resend_cli::formatters::format_json(&domains), "[]");
}
