use serde_json::Value;
use virust::http::{HttpMethod, HttpRequest, HttpResponse};

#[test]
fn test_http_request_with_path_params() {
    let req = HttpRequest {
        method: HttpMethod::Get,
        path: vec![("id".to_string(), "123".to_string())].into_iter().collect(),
        query: Default::default(),
        body: None,
    };

    assert_eq!(req.method, HttpMethod::Get);
    assert_eq!(req.path.get("id"), Some(&"123".to_string()));
}

#[test]
fn test_http_response_serialization() {
    let message: Value = serde_json::from_str(r#"{"message": "ok"}"#).unwrap();
    let resp = HttpResponse { status: 200, body: Some(message.clone()) };

    assert_eq!(resp.status, 200);
    assert_eq!(resp.body, Some(message));
}

#[test]
fn ok_and_json_responses() {
    let resp = HttpResponse::ok();
    assert_eq!(resp.status, 200);
    assert!(resp.body.is_none());
    let body: Value = serde_json::from_str("[1, 2]").unwrap();
    let resp = HttpResponse::json(body.clone());
    assert_eq!(resp.status, 200);
    assert_eq!(resp.body, Some(body));
}
