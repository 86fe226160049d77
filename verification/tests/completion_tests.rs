use chat_relay::completion::{
    completion_request_body, parse_completion_response, reply_for, CompletionFailure,
};

#[test]
fn request_body_for_plain_prompt() {
    assert_eq!(
        completion_request_body("hi"),
        "{\"model\":\"text-davinci-003\",\"prompt\":\"hi\",\"max_tokens\":4000,\"temperature\":1.0}"
    );
}

#[test]
fn request_body_is_json_with_the_fixed_fields() {
    let prompt = "say \"hi\",\n\ta \\ backslash, and a control char: \u{1}";
    let body = completion_request_body(prompt);
    let v: serde_json::Value = serde_json::from_str(&body).expect("body must be valid JSON");
    assert_eq!(v["model"], "text-davinci-003");
    assert_eq!(v["prompt"], prompt);
    assert_eq!(v["max_tokens"], 4000);
    assert_eq!(v["temperature"], 1.0);
}

#[test]
fn request_body_escapes_like_serde_json() {
    let prompt = "quote \" backslash \\ newline \n bell \u{7} high \u{1f600}";
    let body = completion_request_body(prompt);
    let expected = serde_json::to_string(&serde_json::Value::String(prompt.to_string())).unwrap();
    assert!(body.contains(expected.trim_matches('"')));
    let v: serde_json::Value = serde_json::from_str(&body).unwrap();
    assert_eq!(v["prompt"], prompt);
}

#[test]
fn completion_text_extracted_from_first_choice() {
    let body = "{\"choices\":[{\"text\":\"hello\"}]}";
    // the extracted payload is the JSON rendering of the field, quotes included
    assert_eq!(parse_completion_response(body), Ok("\"hello\"".to_string()));
}

#[test]
fn api_error_message_returned_as_text() {
    let body = "{\"error\":{\"message\":\"rate limited\"}}";
    assert_eq!(parse_completion_response(body), Ok("\"rate limited\"".to_string()));
}

#[test]
fn error_field_takes_precedence_over_choices() {
    let body = "{\"error\":{\"message\":\"m\"},\"choices\":[{\"text\":\"t\"}]}";
    assert_eq!(parse_completion_response(body), Ok("\"m\"".to_string()));
}

#[test]
fn invalid_json_is_the_parse_failure() {
    assert_eq!(
        parse_completion_response("not json"),
        Err(CompletionFailure::InvalidJson)
    );
    assert_eq!(
        parse_completion_response(""),
        Err(CompletionFailure::InvalidJson)
    );
}

#[test]
fn absent_choice_renders_as_null() {
    assert_eq!(parse_completion_response("{}"), Ok("null".to_string()));
}

#[test]
fn successful_completion_is_sanitized() {
    let body = "{\"choices\":[{\"text\":\"hello\"}]}";
    let outcome = parse_completion_response(body);
    // the JSON quotes around the payload are what the sanitizer strips
    assert_eq!(reply_for(&outcome), "hello");
}

#[test]
fn stray_n_and_quotes_handled_in_success_reply() {
    let body = "{\"choices\":[{\"text\":\"n hi there\\\"\"}]}";
    let outcome = parse_completion_response(body);
    assert_eq!(outcome, Ok("\"n hi there\\\"\"".to_string()));
    // leading quote and stray n stripped, one trailing quote stripped; the
    // space and the escaped inner quote are kept
    assert_eq!(reply_for(&outcome), " hi there\\\"");
}

#[test]
fn api_error_reply_is_its_sanitized_message() {
    let body = "{\"error\":{\"message\":\"rate limited\"}}";
    let outcome = parse_completion_response(body);
    assert_eq!(reply_for(&outcome), "rate limited");
}

#[test]
fn each_failure_gets_the_fallback_reply() {
    let fallback = "ChatGPT API currently is not working. Try again later...";
    assert_eq!(reply_for(&Err(CompletionFailure::Transport)), fallback);
    assert_eq!(reply_for(&Err(CompletionFailure::BodyRead)), fallback);
    assert_eq!(reply_for(&Err(CompletionFailure::InvalidJson)), fallback);
}

#[test]
fn transport_and_parse_failures_give_fallback_not_api_error_path() {
    let outcome = parse_completion_response("{\"choices\":");
    assert_eq!(outcome, Err(CompletionFailure::InvalidJson));
    assert_eq!(
        reply_for(&outcome),
        "ChatGPT API currently is not working. Try again later..."
    );
}
