use jito_miner::request::{
    body_of, make_jito_request, request_body, Answer, HttpReply, JitoResponse, RequestError,
};

fn s(text: &str) -> String {
    text.to_string()
}

#[test]
fn a_body_holds_method_and_parameters() {
    assert_eq!(
        request_body("getTipAccounts", "[]"),
        "{\"id\":1,\"jsonrpc\":\"2.0\",\"method\":\"getTipAccounts\",\"params\":[]}"
    );
    assert_eq!(body_of("1", "2"), "{\"id\":1,\"jsonrpc\":\"2.0\",\"method\":1,\"params\":2}");
}

#[test]
fn a_body_is_what_serde_json_writes() {
    let params = serde_json::Value::from(vec!["a\"b", "c"]);
    let mut map = serde_json::Map::new();
    map.insert(s("jsonrpc"), serde_json::Value::from("2.0"));
    map.insert(s("id"), serde_json::Value::from(1));
    map.insert(s("method"), serde_json::Value::from("send\"Bundle\n"));
    map.insert(s("params"), params.clone());
    assert_eq!(
        request_body("send\"Bundle\n", &params.to_string()),
        serde_json::Value::Object(map).to_string()
    );
}

#[test]
fn a_success_hands_on_its_text() {
    for status in [200u16, 204, 299] {
        let reply = HttpReply::Answered { status, text: s("ok") };
        assert_eq!(make_jito_request(reply).unwrap().text, "ok");
    }
    let reply = HttpReply::Answered { status: 200, text: s("{}") };
    assert_eq!(make_jito_request(reply), Ok(Answer { text: s("{}"), status: s("200 OK") }));
}

#[test]
fn another_status_is_an_error() {
    for status in [100u16, 199, 300, 404, 999] {
        let reply = HttpReply::Answered { status, text: s("no") };
        assert!(make_jito_request(reply).is_err());
    }
    let reply = HttpReply::Answered { status: 404, text: s("gone") };
    let error = make_jito_request(reply).unwrap_err();
    assert_eq!(error, RequestError::Status { status: s("404 Not Found"), text: s("gone") });
    assert_eq!(error.text(), "status code: 404 Not Found, response: gone");
}

#[test]
fn a_request_that_fails_is_reported() {
    let unsent = make_jito_request(HttpReply::Unsent { error: s("no route") }).unwrap_err();
    assert_eq!(unsent.text(), "fail to send request: no route");
    let reply = HttpReply::Unread { status: 200, error: s("cut off") };
    assert_eq!(
        make_jito_request(reply).unwrap_err().text(),
        "fail to read response content: cut off"
    );
}

#[test]
fn an_answer_that_cannot_be_parsed_is_reported() {
    let answer = Answer { text: s("<html>"), status: s("200 OK") };
    assert_eq!(
        answer.unparsed(s("expected value")).text(),
        "fail to deserialize response: expected value, response: <html>, status: 200 OK"
    );
}

#[test]
fn a_response_wraps_its_result() {
    assert_eq!(JitoResponse { result: 5 }.result, 5);
}

#[test]
fn a_plain_method_is_written_in_quotes() {
    let delete = "getInflight\u{7f}größe";
    assert_eq!(
        request_body(delete, "1"),
        format!("{{\"id\":1,\"jsonrpc\":\"2.0\",\"method\":\"{}\",\"params\":1}}", delete)
    );
    for odd in ["\"", "\\", "\u{1f}", "\n"] {
        let plain =
            format!("{{\"id\":1,\"jsonrpc\":\"2.0\",\"method\":\"{}\",\"params\":1}}", odd);
        assert_ne!(request_body(odd, "1"), plain);
    }
}
