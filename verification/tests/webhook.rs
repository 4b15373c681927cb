use actix_web::http::header::HeaderMap;
use actix_web::http::header::HeaderName;
use actix_web::http::header::HeaderValue;
use pagoo::api::webhook::matched_names_reply;
use pagoo::api::webhook::reply_after_enqueue;
use pagoo::api::webhook::webhook;
use pagoo::api::webhook::HttpReply;
use pagoo::api::webhook::RequestPlan;
use pagoo::config::Config;
use pagoo::config::HeaderSpec;
use pagoo::config::Matcher;
use pagoo::config::MatchersStrategy;
use pagoo::config::Webhook;

const RELEASE_BODY: &str =
    "{\"repository\":{\"url\":\"https://github.com/my-org/my-repo\"},\"action\":\"published\"}";

fn get_sample_config() -> Config {
    let mut headers = HeaderSpec::new();
    headers.insert("x-github-event".to_string(), "release".to_string());
    headers.insert("x-github-delivery".to_string(), "12345".to_string());
    Config {
        webhooks: vec![
            Webhook {
                name: "my_webhook_name".to_string(),
                matchers_strategy: Some(MatchersStrategy::One),
                matchers: vec![
                    Matcher {
                        match_json_body: Some(serde_json::from_str(RELEASE_BODY).unwrap()),
                        match_headers: None,
                    },
                    Matcher { match_json_body: None, match_headers: Some(headers) },
                ],
                actions_to_execute: "echo \"success!\"".to_string(),
            },
            Webhook {
                name: "my_webhook_name_2".to_string(),
                matchers_strategy: None,
                matchers: vec![Matcher {
                    match_json_body: Some(serde_json::from_str(RELEASE_BODY).unwrap()),
                    match_headers: None,
                }],
                actions_to_execute: "echo \"success!\"".to_string(),
            },
        ],
    }
}

fn expect_reply(plan: RequestPlan) -> HttpReply {
    match plan {
        RequestPlan::Reply(reply) => reply,
        RequestPlan::Enqueue { .. } => panic!("nothing should be queued"),
    }
}

fn expect_enqueue(plan: RequestPlan) -> (Vec<Webhook>, HttpReply) {
    match plan {
        RequestPlan::Enqueue { batch, reply } => (batch, reply),
        RequestPlan::Reply(reply) => panic!("answered at once with {}", reply.status),
    }
}

#[test]
fn test_no_matcher() {
    let body_str = RELEASE_BODY;

    let plan = webhook(body_str.as_bytes().to_vec(), &HeaderMap::new(), &Config::default());

    let res = expect_reply(plan);
    assert_eq!(res.status, 400);
    assert_eq!(res.body, format!("Request matched no webhook.\nBody:\n{}\n", body_str));
    assert_eq!(res.content_type, None);
}

#[test]
fn test_webhook_with_json() {
    let plan = webhook(RELEASE_BODY.as_bytes().to_vec(), &HeaderMap::new(), &get_sample_config());

    let (res, reply) = expect_enqueue(plan);
    assert_eq!(reply.status, 201);

    assert_eq!(2, res.len());
    assert_eq!("my_webhook_name", res[0].name);
    assert_eq!("my_webhook_name_2", res[1].name);

    assert_eq!(reply.content_type, Some("application/json".to_string()));
    assert_eq!(
        reply.body,
        "{\"matching_webhooks\":[\"my_webhook_name\",\"my_webhook_name_2\"]}"
    );
}

#[test]
fn test_command_with_headers() {
    let mut headers = HeaderMap::new();
    headers.insert(
        HeaderName::from_bytes(b"X-GitHub-Event").unwrap(),
        HeaderValue::from_static("release"),
    );
    headers.insert(
        HeaderName::from_bytes(b"X-GitHub-delivery").unwrap(),
        HeaderValue::from_static("12345"),
    );

    let plan = webhook(Vec::new(), &headers, &get_sample_config());

    let (res, reply) = expect_enqueue(plan);
    assert_eq!(reply.status, 201);

    assert_eq!(1, res.len());
    assert_eq!("my_webhook_name", res[0].name);
    assert_eq!(res[0].actions_to_execute, "echo \"success!\"");
    assert_eq!(reply.body, "{\"matching_webhooks\":[\"my_webhook_name\"]}");
}

#[test]
fn test_command_with_headers_and_any_body() {
    let mut headers = HeaderMap::new();
    headers.insert(
        HeaderName::from_static("x-github-event"),
        HeaderValue::from_static("release"),
    );
    headers.insert(
        HeaderName::from_static("x-github-delivery"),
        HeaderValue::from_static("12345"),
    );

    let plan = webhook(b"not json at all".to_vec(), &headers, &get_sample_config());

    let (res, reply) = expect_enqueue(plan);
    assert_eq!(reply.status, 201);
    assert_eq!(1, res.len());
    assert_eq!("my_webhook_name", res[0].name);
}

#[test]
fn test_invalid_body() {
    // Remove some unicode elements to create an invalid utf8 string
    let mut bytes: Vec<u8> = "ðŸš€".as_bytes().into();
    bytes.remove(0);
    bytes.pop();

    let plan = webhook(bytes, &HeaderMap::new(), &get_sample_config());

    let res = expect_reply(plan);
    assert_eq!(res.status, 400);
    assert_eq!(res.body, "Invalid body.");
}

#[test]
fn test_webhook_with_additional_key() {
    let body_str = "{\"repository\":{\"url\":\"https://github.com/my-org/my-repo\"},\"action\":\"published\",\"sender\":\"me\"}";

    let plan = webhook(body_str.as_bytes().to_vec(), &HeaderMap::new(), &get_sample_config());

    let res = expect_reply(plan);
    assert_eq!(res.status, 400);
    assert_eq!(res.body, format!("Request matched no webhook.\nBody:\n{}\n", body_str));
}

#[test]
fn test_no_rule_matches() {
    let mut headers = HeaderMap::new();
    headers.insert(
        HeaderName::from_static("x-github-event"),
        HeaderValue::from_static("release"),
    );

    let plan = webhook(b"{}".to_vec(), &headers, &get_sample_config());

    let res = expect_reply(plan);
    assert_eq!(res.status, 400);
    assert_eq!(res.body, "Request matched no webhook.\nBody:\n{}\n");
}

#[test]
fn test_body_is_given_back_as_it_came() {
    let body_str = "  caf\u{e9} \"quoted\"\n";

    let plan = webhook(body_str.as_bytes().to_vec(), &HeaderMap::new(), &get_sample_config());

    let res = expect_reply(plan);
    assert_eq!(res.body, "Request matched no webhook.\nBody:\n  caf\u{e9} \"quoted\"\n\n");
}

#[test]
fn test_header_that_is_not_text() {
    let mut headers = HeaderMap::new();
    headers.insert(
        HeaderName::from_static("x-github-event"),
        HeaderValue::from_bytes(&[0xff]).unwrap(),
    );

    let plan = webhook(RELEASE_BODY.as_bytes().to_vec(), &headers, &get_sample_config());

    let res = expect_reply(plan);
    assert_eq!(res.status, 400);
    assert_eq!(res.body, "Could not get actions to execute from this request.");
}

#[test]
fn test_reply_after_enqueue() {
    let planned = matched_names_reply(&vec!["a \"b\"".to_string()]);
    assert_eq!(planned.body, "{\"matching_webhooks\":[\"a \\\"b\\\"\"]}");

    let taken = reply_after_enqueue(planned, true);
    assert_eq!(taken.status, 201);
    assert_eq!(taken.content_type, Some("application/json".to_string()));
    assert_eq!(taken.body, "{\"matching_webhooks\":[\"a \\\"b\\\"\"]}");

    let closed = reply_after_enqueue(taken, false);
    assert_eq!(closed.status, 500);
    assert_eq!(closed.content_type, None);
    assert_eq!(closed.body, "Could not send message to queue.");
}
