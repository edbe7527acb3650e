use repocket::remote::{
    accepted, archive_actions, browser_auth_url, parse_number_field, Credentials, PocketCode,
};

#[test]
fn archive_actions_list_each_item() {
    assert_eq!(archive_actions(&vec![]), "[]");
    assert_eq!(
        archive_actions(&vec![7, 1234567890123]),
        r#"[{"action": "archive", "item_id": 7},{"action": "archive", "item_id": 1234567890123}]"#
    );
    let v: serde_json::Value = serde_json::from_str(&archive_actions(&vec![1, 2, 3])).unwrap();
    assert_eq!(v.as_array().unwrap().len(), 3);
    assert_eq!(v[2]["item_id"].as_u64(), Some(3));
}

#[test]
fn only_ok_status_is_accepted() {
    assert!(accepted(200));
    assert!(!accepted(400));
    assert!(!accepted(503));
}

#[test]
fn auth_url_needs_a_request_token() {
    let redirect = "https://127.0.0.1:3030/done";
    assert_eq!(browser_auth_url(&None, redirect), None);
    let token = Some(PocketCode { code: "abc-123".to_string() });
    assert_eq!(
        browser_auth_url(&token, redirect),
        Some("https://getpocket.com/auth/authorize?request_token=abc-123&redirect_uri=https://127.0.0.1:3030/done".to_string())
    );
}

#[test]
fn credentials_take_the_first_two_lines() {
    let lines = vec!["key".to_string(), "token".to_string(), "extra".to_string()];
    let c = Credentials::from_lines(&lines).unwrap();
    assert_eq!(c.consumer_key, "key");
    assert_eq!(c.access_token, "token");
    assert!(Credentials::from_lines(&vec!["key".to_string()]).is_none());
}

#[test]
fn number_fields_parse_like_the_service_sends_them() {
    assert_eq!(parse_number_field("", u64::MAX), Ok(None));
    assert_eq!(parse_number_field("9200", u64::MAX), Ok(Some(9200)));
    assert_eq!(parse_number_field("+42", u64::MAX), Ok(Some(42)));
    assert_eq!(parse_number_field("18446744073709551615", u64::MAX), Ok(Some(u64::MAX)));
    assert_eq!(parse_number_field("18446744073709551616", u64::MAX), Err(()));
    assert_eq!(parse_number_field("255", 255), Ok(Some(255)));
    assert_eq!(parse_number_field("256", 255), Err(()));
    assert_eq!(parse_number_field("12a", u64::MAX), Err(()));
    assert_eq!(parse_number_field("+", u64::MAX), Err(()));
    assert_eq!(parse_number_field("-1", u64::MAX), Err(()));
}
