use llm_proxy_app::api::{
    adapter_update_body, adapter_url, admin_url, api_base, endpoint_url, fetch_adapters,
    fetch_config, fetch_log_level, log_level_body, proxy_addr, proxy_port, request_succeeded,
    Endpoint, DEFAULT_PORT,
};
use llm_proxy_app::model::AdapterModel;
use llm_proxy_app::process::{binary_name, BINARIES_DIR, START_ARGUMENT};
use llm_proxy_app::text::{parse_u16, push_decimal, split_once, starts_with, str_eq};

#[test]
fn parse_u16_accepts_what_std_accepts() {
    for s in ["0", "9000", "+80", "0009000", "65535", "", "+", "-1", "-0", "65536", "12a", " 80", "80 ", "++1", "99999999999"] {
        assert_eq!(parse_u16(s), s.parse::<u16>().ok(), "input {:?}", s);
    }
}

#[test]
fn parse_u16_values() {
    assert_eq!(parse_u16("9000"), Some(9000));
    assert_eq!(parse_u16("+443"), Some(443));
    assert_eq!(parse_u16("65536"), None);
    assert_eq!(parse_u16(""), None);
}

#[test]
fn decimal_round_trip() {
    for p in [0u16, 1, 9, 10, 99, 100, 9000, 65535] {
        let mut s = String::new();
        push_decimal(&mut s, p as u32);
        assert_eq!(s, p.to_string());
        assert_eq!(parse_u16(&s), Some(p));
        assert_eq!(proxy_port(Some(&s)), p);
    }
}

#[test]
fn proxy_port_defaults() {
    assert_eq!(DEFAULT_PORT, 9000);
    assert_eq!(proxy_port(None), 9000);
    assert_eq!(proxy_port(Some("abc")), 9000);
    assert_eq!(proxy_port(Some("")), 9000);
    assert_eq!(proxy_port(Some("70000")), 9000);
    assert_eq!(proxy_port(Some("8080")), 8080);
}

#[test]
fn urls() {
    assert_eq!(api_base(9000), "http://127.0.0.1:9000");
    assert_eq!(api_base(0), "http://127.0.0.1:0");
    assert_eq!(admin_url(9000), "http://127.0.0.1:9000/admin/");
    assert_eq!(proxy_addr(8080), "127.0.0.1:8080");
    assert_eq!(endpoint_url(9000, Endpoint::Adapters), "http://127.0.0.1:9000/admin/adapters");
    assert_eq!(endpoint_url(9000, Endpoint::Config), "http://127.0.0.1:9000/admin/config");
    assert_eq!(endpoint_url(1234, Endpoint::LogLevel), "http://127.0.0.1:1234/admin/log-level");
    assert_eq!(adapter_url(9000, "mistral"), "http://127.0.0.1:9000/admin/adapters/mistral");
}

#[test]
fn string_helpers() {
    assert!(str_eq("abc", "abc"));
    assert!(!str_eq("abc", "abd"));
    assert!(!str_eq("abc", "ab"));
    assert!(starts_with("switch:a", "switch:"));
    assert!(!starts_with("swit", "switch:"));
    assert_eq!(split_once("a:b:c", ':'), Some(("a", "b:c")));
    assert_eq!(split_once("abc", ':'), None);
    assert_eq!(split_once("日本:語", ':'), Some(("日本", "語")));
}

#[test]
fn binary_names() {
    assert_eq!(binary_name(true), "llm-proxy.exe");
    assert_eq!(binary_name(false), "llm-proxy");
    assert_eq!(BINARIES_DIR, "binaries");
    assert_eq!(START_ARGUMENT, "start");
}

#[test]
fn write_success() {
    assert!(request_succeeded(Some(200)));
    assert!(!request_succeeded(Some(201)));
    assert!(!request_succeeded(Some(500)));
    assert!(!request_succeeded(None));
}

#[test]
fn log_level_body_is_serde_json_object() {
    for level in ["debug", "info", "a\"b\\c", "line\nbreak\t\u{1}\u{1f}\u{7f}", "日志"] {
        let mut map = serde_json::Map::new();
        map.insert("level".to_string(), serde_json::Value::String(level.to_string()));
        let expected = serde_json::Value::Object(map).to_string();
        assert_eq!(log_level_body(level), expected);
    }
    assert_eq!(log_level_body("warn"), "{\"level\":\"warn\"}");
}

fn mapping(source: &str, provider: &str, target: &str, status: Option<&str>) -> AdapterModel {
    AdapterModel {
        source_model_id: source.to_string(),
        provider: provider.to_string(),
        target_model_id: target.to_string(),
        status: status.map(|s| s.to_string()),
    }
}

#[test]
fn adapter_update_body_layout() {
    let models = vec![
        mapping("gpt-4", "openai", "gpt-4o", Some("ok")),
        mapping("mistral", "anthropic", "mistral-7\"x", None),
    ];
    assert_eq!(
        adapter_update_body("main", "openai", &models),
        "{\"name\":\"main\",\"type\":\"openai\",\"models\":[{\"sourceModelId\":\"gpt-4\",\"provider\":\"openai\",\"targetModelId\":\"gpt-4o\"},{\"sourceModelId\":\"mistral\",\"provider\":\"anthropic\",\"targetModelId\":\"mistral-7\\\"x\"}]}"
    );
    assert_eq!(
        adapter_update_body("e", "t", &vec![]),
        "{\"name\":\"e\",\"type\":\"t\",\"models\":[]}"
    );
    let parsed: serde_json::Value = serde_json::from_str(&adapter_update_body("main", "openai", &models)).unwrap();
    assert_eq!(parsed["models"][1]["targetModelId"].as_str(), Some("mistral-7\"x"));
}

const ADAPTERS_BODY: &str = r#"{
  "data": {
    "adapters": [
      {"name": "main", "type": "openai", "baseUrl": "http://x", "models": [
        {"sourceModelId": "gpt-4", "provider": "openai", "targetModelId": "gpt-4o", "status": "ok"},
        {"sourceModelId": "fast", "provider": "groq", "targetModelId": "llama"}
      ]},
      {"name": "broken", "type": "openai", "models": [{"sourceModelId": "x"}]},
      {"name": "no-models", "type": "openai"},
      ["second", "anthropic", null, [["s", "p", "t", null]]],
      ["short", "anthropic", null],
      {"name": 5, "type": "openai", "models": []},
      {"name": "nullstatus", "type": "t", "baseUrl": null, "extra": 1, "models": [
        {"sourceModelId": "a", "provider": "b", "targetModelId": "c", "status": null}
      ]},
      {"name": "badstatus", "type": "t", "models": [
        {"sourceModelId": "a", "provider": "b", "targetModelId": "c", "status": 3}
      ]},
      "text"
    ]
  }
}"#;

#[test]
fn fetch_adapters_reads_as_serde() {
    let adapters = fetch_adapters(Some(ADAPTERS_BODY));
    let names: Vec<&str> = adapters.iter().map(|a| a.name.as_str()).collect();
    assert_eq!(names, vec!["main", "second", "nullstatus"]);
    let main = &adapters[0];
    assert_eq!(main.adapter_type, "openai");
    assert_eq!(main.base_url.as_deref(), Some("http://x"));
    assert_eq!(main.models.len(), 2);
    assert_eq!(main.models[0].status.as_deref(), Some("ok"));
    assert_eq!(main.models[1].provider, "groq");
    assert_eq!(main.models[1].status, None);
    let second = &adapters[1];
    assert_eq!(second.adapter_type, "anthropic");
    assert_eq!(second.base_url, None);
    assert_eq!(second.models[0].target_model_id, "t");
    assert_eq!(adapters[2].models[0].status, None);
}

#[test]
fn fetch_adapters_failures_give_nothing() {
    assert!(fetch_adapters(None).is_empty());
    assert!(fetch_adapters(Some("not json")).is_empty());
    assert!(fetch_adapters(Some("{\"data\": 1}")).is_empty());
    assert!(fetch_adapters(Some("{\"data\": {\"adapters\": {}}}")).is_empty());
    assert!(fetch_adapters(Some("[1, 2]")).is_empty());
    assert!(fetch_adapters(Some("{\"data\": {\"adapters\": []}} trailing")).is_empty());
}

#[test]
fn fetch_config_reads_providers() {
    let body = r#"{"data": {"providers": [
        {"name": "openai", "type": "openai", "models": [{"id": "gpt-4o"}, {"id": "o1"}]},
        {"name": "bad", "type": "x", "models": [{"name": "no id"}]},
        {"name": "groq", "type": "groq", "models": [["llama"]]},
        {"name": "nomodels", "type": "x"}
    ], "other": true}}"#;
    let config = fetch_config(Some(body)).unwrap();
    let names: Vec<&str> = config.providers.iter().map(|p| p.name.as_str()).collect();
    assert_eq!(names, vec!["openai", "groq"]);
    assert_eq!(config.providers[0].models[1].id, "o1");
    assert_eq!(config.providers[1].models[0].id, "llama");
    assert_eq!(config.providers[1].provider_type, "groq");
}

#[test]
fn fetch_config_edges() {
    assert!(fetch_config(None).is_none());
    assert!(fetch_config(Some("oops")).is_none());
    assert!(fetch_config(Some("{\"data\": []}")).is_none());
    assert!(fetch_config(Some("{\"nodata\": {}}")).is_none());
    assert!(fetch_config(Some("{\"data\": {}}")).unwrap().providers.is_empty());
    assert!(fetch_config(Some("{\"data\": {\"providers\": 3}}")).unwrap().providers.is_empty());
}

#[test]
fn fetch_log_level_reads_level() {
    assert_eq!(fetch_log_level(Some("{\"data\": {\"level\": \"debug\"}}")), "debug");
    assert_eq!(fetch_log_level(Some("{\"data\": {\"level\": 3}}")), "info");
    assert_eq!(fetch_log_level(Some("{\"data\": {}}")), "info");
    assert_eq!(fetch_log_level(Some("garbage")), "info");
    assert_eq!(fetch_log_level(None), "info");
}
