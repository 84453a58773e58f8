use mash::json::Json;
use mash::config::{
    parse_u32, ApiConfig, Environment, ModelProvider, Settings, API_VERSION, DEFAULT_BASE_URL,
    DEFAULT_MAX_TOKENS, DEFAULT_MODEL,
};

fn provider(name: &str, base_url: &str, api_key: &str) -> ModelProvider {
    ModelProvider { name: name.to_string(), base_url: base_url.to_string(), api_key: api_key.to_string() }
}

fn no_env() -> Environment {
    Environment { api_key: None, base_url: None, model: None, max_tokens: None }
}

fn env_with_key() -> Environment {
    Environment { api_key: Some("env-key".to_string()), base_url: None, model: None, max_tokens: None }
}

#[test]
fn constants() {
    assert_eq!(DEFAULT_BASE_URL, "https://api.anthropic.com");
    assert_eq!(API_VERSION, "2023-06-01");
    assert_eq!(DEFAULT_MAX_TOKENS, 131072);
}

#[test]
fn load_takes_the_selected_provider() {
    let settings = Settings {
        model_provider: "second".to_string(),
        model: "big".to_string(),
        model_providers: vec![
            provider("first", "https://one", "k1"),
            provider("second", "https://two", "k2"),
            provider("second", "https://three", "k3"),
        ],
    };
    assert_eq!(
        ApiConfig::load(Some(&settings), &no_env(), "fallback-model"),
        Some(ApiConfig {
            base_url: "https://two".to_string(),
            api_key: "k2".to_string(),
            model: "big".to_string(),
            max_tokens: DEFAULT_MAX_TOKENS,
        })
    );
}

#[test]
fn load_fills_in_defaults() {
    let settings = Settings {
        model_provider: "p".to_string(),
        model: String::new(),
        model_providers: vec![provider("p", "", "key")],
    };
    assert_eq!(
        ApiConfig::load(Some(&settings), &env_with_key(), "fallback-model"),
        Some(ApiConfig {
            base_url: DEFAULT_BASE_URL.to_string(),
            api_key: "key".to_string(),
            model: DEFAULT_MODEL.to_string(),
            max_tokens: DEFAULT_MAX_TOKENS,
        })
    );
}

#[test]
fn load_falls_back_to_the_environment() {
    let without_key = Settings {
        model_provider: "p".to_string(),
        model: "m".to_string(),
        model_providers: vec![provider("p", "https://p", "")],
    };
    let unknown = Settings {
        model_provider: "q".to_string(),
        model: "m".to_string(),
        model_providers: vec![provider("p", "https://p", "key")],
    };
    let from_env = ApiConfig::from_env(&env_with_key(), "fallback-model");
    assert!(from_env.is_some());
    assert_eq!(ApiConfig::load(Some(&without_key), &env_with_key(), "fallback-model"), from_env);
    assert_eq!(ApiConfig::load(Some(&unknown), &env_with_key(), "fallback-model"), from_env);
    assert_eq!(ApiConfig::load(None, &env_with_key(), "fallback-model"), from_env);
    assert_eq!(ApiConfig::load(None, &no_env(), "fallback-model"), None);
    assert_eq!(ApiConfig::load(Some(&unknown), &no_env(), "fallback-model"), None);
}

#[test]
fn from_env_reads_the_variables() {
    assert_eq!(ApiConfig::from_env(&no_env(), "fallback-model"), None);
    assert_eq!(
        ApiConfig::from_env(&env_with_key(), "fallback-model"),
        Some(ApiConfig {
            base_url: DEFAULT_BASE_URL.to_string(),
            api_key: "env-key".to_string(),
            model: "fallback-model".to_string(),
            max_tokens: DEFAULT_MAX_TOKENS,
        })
    );
    let full = Environment {
        api_key: Some("k".to_string()),
        base_url: Some("http://localhost".to_string()),
        model: Some("small".to_string()),
        max_tokens: Some("4096".to_string()),
    };
    assert_eq!(
        ApiConfig::from_env(&full, "fallback-model"),
        Some(ApiConfig {
            base_url: "http://localhost".to_string(),
            api_key: "k".to_string(),
            model: "small".to_string(),
            max_tokens: 4096,
        })
    );
    let odd = Environment { max_tokens: Some("many".to_string()), ..env_with_key() };
    assert_eq!(ApiConfig::from_env(&odd, "fallback-model").map(|c| c.max_tokens), Some(DEFAULT_MAX_TOKENS));
}

#[test]
fn parse_u32_agrees_with_std() {
    for text in [
        "0", "7", "+7", "007", "4294967295", "4294967296", "42949672950", "99999999999999999999999",
        "00000000000000000000000000001", "", "+", "-1", "1 ", " 1", "1_000", "12a", "++1", "+-1",
        "１２", "1.0",
    ] {
        assert_eq!(parse_u32(text), text.parse::<u32>().ok(), "{:?}", text);
    }
    assert_eq!(parse_u32("4294967295"), Some(u32::MAX));
    assert_eq!(parse_u32("4294967296"), None);
}

#[test]
fn settings_file_is_read() {
    let content = r#"{
        "model_provider": "deepseek",
        "model": "deepseek-chat",
        "model_providers": [
            {"name": "deepseek", "base_url": "https://api.deepseek.com", "api_key": "k", "note": 1},
            {"name": "other"}
        ],
        "theme": "dark"
    }"#;
    assert_eq!(
        Settings::load(content),
        Some(Settings {
            model_provider: "deepseek".to_string(),
            model: "deepseek-chat".to_string(),
            model_providers: vec![
                provider("deepseek", "https://api.deepseek.com", "k"),
                provider("other", "", ""),
            ],
        })
    );
    assert_eq!(
        Settings::load("{}"),
        Some(Settings { model_provider: String::new(), model: String::new(), model_providers: vec![] })
    );
}

#[test]
fn settings_file_that_is_invalid() {
    for content in [
        "",
        "not json",
        "null",
        "[]",
        r#"{"model": 5}"#,
        r#"{"model": null}"#,
        r#"{"model_provider": ["x"]}"#,
        r#"{"model_providers": {}}"#,
        r#"{"model_providers": [{"base_url": "u"}]}"#,
        r#"{"model_providers": [{"name": "n", "api_key": 1}]}"#,
        r#"{"model_providers": ["n"]}"#,
    ] {
        assert_eq!(Settings::load(content), None, "{}", content);
    }
}

#[test]
fn settings_document_is_decoded() {
    let value = Json::parse(r#"{"model": "m", "model_providers": [{"name": "p"}]}"#).expect("valid JSON");
    assert_eq!(
        Settings::decode(&value),
        Some(Settings {
            model_provider: String::new(),
            model: "m".to_string(),
            model_providers: vec![provider("p", "", "")],
        })
    );
    assert_eq!(Settings::decode(&Json::Null), None);
    assert_eq!(Settings::decode(&Json::Array(vec![])), None);
    assert_eq!(Settings::decode(&Json::Object(vec![("model".to_string(), Json::Unsigned(1))])), None);
}

#[test]
fn the_two_default_models_are_kept_apart() {
    let settings = Settings {
        model_provider: "p".to_string(),
        model: String::new(),
        model_providers: vec![provider("p", "", "key")],
    };
    assert_eq!(
        ApiConfig::load(Some(&settings), &env_with_key(), "other-model").map(|c| c.model),
        Some(DEFAULT_MODEL.to_string())
    );
    assert_eq!(
        ApiConfig::load(None, &env_with_key(), "other-model").map(|c| c.model),
        Some("other-model".to_string())
    );
    let named = Environment { model: Some("named".to_string()), ..env_with_key() };
    assert_eq!(
        ApiConfig::from_env(&named, "other-model").map(|c| c.model),
        Some("named".to_string())
    );
}
