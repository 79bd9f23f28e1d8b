use resend_cli::formatters::{format_json, format_single, format_table, format_rows};
use resend_cli::types::{ApiKey, Domain, Email, Template};

fn sample_email() -> Email {
    Email {
        id: "email-123".to_string(),
        from: Some("from@example.com".to_string()),
        to: Some(vec!["to@example.com".to_string()]),
        subject: Some("Test Subject".to_string()),
        created_at: Some("2025-01-15".to_string()),
        last_event: Some("delivered".to_string()),
    }
}

#[test]
fn test_format_table_empty() {
    let emails: Vec<Email> = vec![];
    let output = format_table(&emails);
    assert_eq!(output, "No results found.");
}

#[test]
fn test_format_table_with_items() {
    let emails = vec![sample_email()];
    let output = format_table(&emails);
    assert!(output.contains("email-123"));
    assert!(output.contains("Test Subject"));
    assert!(output.contains("delivered"));
}

#[test]
fn test_format_json_empty() {
    let emails: Vec<Email> = vec![];
    let output = format_json(&emails);
    assert_eq!(output, "[]");
}

#[test]
fn test_format_json_with_items() {
    let emails = vec![Email {
        id: "email-123".to_string(),
        from: Some("from@example.com".to_string()),
        to: Some(vec!["to@example.com".to_string()]),
        subject: Some("Test".to_string()),
        created_at: None,
        last_event: None,
    }];
    let output = format_json(&emails);
    assert!(output.contains("email-123"));
    assert!(output.contains("from@example.com"));
}

#[test]
fn test_format_rows_exact_layout() {
    let rows = vec![
        vec!["ID".to_string(), "NAME".to_string()],
        vec!["1".to_string(), "alpha".to_string()],
        vec!["1234".to_string(), "b".to_string()],
    ];
    let output = format_rows(&rows);
    let expected = "ID    NAME \n----  -----\n1     alpha\n1234  b";
    assert_eq!(output, expected);
}

#[test]
fn test_format_single_lines() {
    let key = ApiKey {
        id: "k1".to_string(),
        name: "ci".to_string(),
        token: None,
        created_at: Some("2025-02-02".to_string()),
    };
    let output = format_single(&key);
    assert_eq!(output, "ID: k1\nNAME: ci\nCREATED: 2025-02-02\n");
}

#[test]
fn test_format_json_null_fields() {
    let templates = vec![Template {
        id: "t1".to_string(),
        name: "welcome".to_string(),
        subject: None,
        created_at: None,
    }];
    let output = format_json(&templates);
    assert_eq!(
        output,
        "[{\"id\":\"t1\",\"name\":\"welcome\",\"subject\":null,\"created_at\":null}]"
    );
}

#[test]
fn test_format_table_domain_headers() {
    let domains = vec![Domain {
        id: "d1".to_string(),
        name: "example.com".to_string(),
        status: None,
        region: Some("eu-west-1".to_string()),
        records: None,
    }];
    let output = format_table(&domains);
    assert!(output.contains("ID"));
    assert!(output.contains("NAME"));
    assert!(output.contains("STATUS"));
    assert!(output.contains("REGION"));
    assert!(output.contains("example.com"));
    assert!(output.contains("eu-west-1"));
}
