use pagoo::config::config_file_error;
use pagoo::config::get_config_file;
use pagoo::config::Config;
use pagoo::config::HeaderSpec;
use pagoo::config::Matcher;
use pagoo::config::MatchersStrategy;
use pagoo::config::Webhook;

#[test]
fn test_matching_strategy_default() {
    assert_eq!(MatchersStrategy::default(), MatchersStrategy::All);
}

#[test]
fn test_matching_strategy_display_one() {
    assert_eq!(MatchersStrategy::One.to_string(), "one");
}

#[test]
fn test_matching_strategy_display_all() {
    assert_eq!(MatchersStrategy::All.to_string(), "all");
}

#[test]
fn test_default_config_has_no_rules() {
    let config = Config::default();
    assert_eq!(config.webhooks.len(), 0);
}

#[test]
fn test_default_webhook_is_empty() {
    let webhook = Webhook::default();
    assert_eq!(webhook.name, "");
    assert_eq!(webhook.matchers_strategy, None);
    assert_eq!(webhook.matchers.len(), 0);
    assert_eq!(webhook.actions_to_execute, "");
}

#[test]
fn test_header_spec_keeps_one_value_per_name() {
    let mut spec = HeaderSpec::new();
    assert_eq!(spec.entries().len(), 0);

    spec.insert("x-github-event".to_string(), "push".to_string());
    spec.insert("x-github-delivery".to_string(), "12345".to_string());
    spec.insert("x-github-event".to_string(), "release".to_string());

    let entries = spec.entries();
    assert_eq!(entries.len(), 2);
    assert_eq!(entries[0], ("x-github-event".to_string(), "release".to_string()));
    assert_eq!(entries[1], ("x-github-delivery".to_string(), "12345".to_string()));
}

#[test]
fn test_header_spec_tells_names_apart_by_case() {
    let mut spec = HeaderSpec::new();
    spec.insert("X-Token".to_string(), "a".to_string());
    spec.insert("x-token".to_string(), "b".to_string());

    assert_eq!(spec.entries().len(), 2);
}

#[test]
fn test_clone_keeps_the_rule() {
    let mut spec = HeaderSpec::new();
    spec.insert("x-github-event".to_string(), "release".to_string());
    let document: serde_json::Value = serde_json::from_str("{\"action\": [1, 2.5, null]}").unwrap();
    let webhook = Webhook {
        name: "my_webhook_name".to_string(),
        matchers_strategy: Some(MatchersStrategy::One),
        matchers: vec![
            Matcher { match_json_body: Some(document.clone()), match_headers: None },
            Matcher { match_json_body: None, match_headers: Some(spec) },
        ],
        actions_to_execute: "echo \"success!\"".to_string(),
    };

    let copy = webhook.clone();

    assert_eq!(copy.name, "my_webhook_name");
    assert_eq!(copy.matchers_strategy, Some(MatchersStrategy::One));
    assert_eq!(copy.actions_to_execute, "echo \"success!\"");
    assert_eq!(copy.matchers.len(), 2);
    assert_eq!(copy.matchers[0].match_json_body, Some(document));
    assert!(copy.matchers[0].match_headers.is_none());
    assert!(copy.matchers[1].match_json_body.is_none());
    let entries = copy.matchers[1].match_headers.as_ref().unwrap().entries();
    assert_eq!(entries.len(), 1);
    assert_eq!(entries[0], ("x-github-event".to_string(), "release".to_string()));
}

#[test]
fn test_config_file_defaults_to_the_hidden_file() {
    assert_eq!(get_config_file(None), ".pagoo.json");
    assert_eq!(get_config_file(Some("other.json")), "other.json");
}

#[test]
fn test_inexistent_file_with_no_argument() {
    assert_eq!(
        config_file_error(None),
        "No config file specified, could not find a default one. You can create a \".pagoo.json\" file in this directory to configure the application.".to_string()
    );
}

#[test]
fn test_inexistent_file_with_argument() {
    assert_eq!(
        config_file_error(Some("some_inexistent_file.json")),
        "Config file not found: some_inexistent_file.json".to_string()
    );
}
