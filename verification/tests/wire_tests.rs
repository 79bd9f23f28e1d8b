use resend_cli::client::{interpret, interpret_list, ClientError};
use resend_cli::json::json_to_string;
use resend_cli::types::{
    CreateDomainRequest, Domain, Email, UpdateDomainRequest,
};

fn ok(body: &str) -> resend_cli::client::Outcome {
    resend_cli::client::Outcome::Response {
        status: 200,
        body: body.to_string(),
    }
}

#[test]
fn test_email_decodes_optional_fields() {
    let body = "{\"id\":\"e1\",\"from\":\"a@x.com\",\"to\":[\"b@y.com\",\"c@z.com\"],\
                \"subject\":null,\"created_at\":\"2025-01-15\"}";
    let r: Result<Email, ClientError> = interpret(ok(body));
    let email = r.unwrap();
    assert_eq!(email.id, "e1");
    assert_eq!(email.from.as_deref(), Some("a@x.com"));
    assert_eq!(
        email.to,
        Some(vec!["b@y.com".to_string(), "c@z.com".to_string()])
    );
    assert!(email.subject.is_none());
    assert_eq!(email.created_at.as_deref(), Some("2025-01-15"));
    assert!(email.last_event.is_none());
}

#[test]
fn test_email_rejects_wrong_field_shape() {
    let r: Result<Email, ClientError> = interpret(ok("{\"id\":\"e1\",\"to\":\"not-a-list\"}"));
    assert!(matches!(r, Err(ClientError::Decode(_))));
    let r: Result<Email, ClientError> = interpret(ok("{\"id\":\"e1\",\"to\":[\"x\",3]}"));
    assert!(matches!(r, Err(ClientError::Decode(_))));
}

#[test]
fn test_domain_decodes_dns_records() {
    let body = "{\"id\":\"d1\",\"name\":\"example.com\",\"status\":\"pending\",\
                \"records\":[{\"record\":\"SPF\",\"name\":\"send\",\"type\":\"TXT\",\
                \"ttl\":\"Auto\",\"value\":\"v=spf1\",\"priority\":10}]}";
    let r: Result<Domain, ClientError> = interpret(ok(body));
    let domain = r.unwrap();
    assert_eq!(domain.id, "d1");
    assert_eq!(domain.name, "example.com");
    assert_eq!(domain.status.as_deref(), Some("pending"));
    assert!(domain.region.is_none());
    let records = domain.records.unwrap();
    assert_eq!(records.len(), 1);
    assert_eq!(records[0].record, "SPF");
    assert_eq!(records[0].record_type.as_deref(), Some("TXT"));
    assert_eq!(records[0].value, "v=spf1");
    assert_eq!(records[0].priority, Some(10));
}

#[test]
fn test_domain_rejects_huge_priority() {
    let body = "{\"id\":\"d1\",\"name\":\"example.com\",\
                \"records\":[{\"record\":\"MX\",\"name\":\"m\",\"value\":\"v\",\
                \"priority\":4294967296}]}";
    let r: Result<Domain, ClientError> = interpret(ok(body));
    assert!(matches!(r, Err(ClientError::Decode(_))));
}

#[test]
fn test_list_rejects_undecodable_item() {
    let body = "{\"data\":[{\"id\":\"a\"},{\"nope\":1}]}";
    let r: Result<Vec<Email>, ClientError> = interpret_list(ok(body));
    assert!(matches!(r, Err(ClientError::Decode(_))));
}

#[test]
fn test_list_rejects_missing_envelope() {
    let r: Result<Vec<Email>, ClientError> = interpret_list(ok("[]"));
    assert!(matches!(r, Err(ClientError::Decode(_))));
}

#[test]
fn test_create_domain_body_omits_region() {
    let req = CreateDomainRequest {
        name: "example.com".to_string(),
        region: None,
    };
    assert_eq!(
        json_to_string(&req.to_json()),
        "{\"name\":\"example.com\"}"
    );
    let req = CreateDomainRequest {
        name: "example.com".to_string(),
        region: Some("eu-west-1".to_string()),
    };
    assert_eq!(
        json_to_string(&req.to_json()),
        "{\"name\":\"example.com\",\"region\":\"eu-west-1\"}"
    );
}

#[test]
fn test_update_domain_body_only_set_fields() {
    let req = UpdateDomainRequest {
        click_tracking: Some(true),
        open_tracking: None,
        tls: None,
    };
    assert_eq!(json_to_string(&req.to_json()), "{\"click_tracking\":true}");
    let req = UpdateDomainRequest {
        click_tracking: None,
        open_tracking: None,
        tls: None,
    };
    assert_eq!(json_to_string(&req.to_json()), "{}");
}
