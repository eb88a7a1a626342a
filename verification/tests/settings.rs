use gitcode_pr_review::settings::{
    character_budget, parse_token_limit, text_or, ModelSettings, DEFAULT_API_KEY,
    DEFAULT_ENDPOINT, DEFAULT_MODEL, DEFAULT_TOKEN_LIMIT,
};

#[test]
fn parse_token_limit_reads_numbers() {
    assert_eq!(parse_token_limit("16384"), 16384);
    assert_eq!(parse_token_limit("0"), 0);
    assert_eq!(parse_token_limit("8192"), 8192);
    assert_eq!(parse_token_limit("4294967295"), 4294967295);
    assert_eq!(parse_token_limit("0000000000000000042"), 42);
    assert_eq!(parse_token_limit("+128"), 128);
}

#[test]
fn parse_token_limit_coerces_non_numbers_to_zero() {
    assert_eq!(parse_token_limit(""), 0);
    assert_eq!(parse_token_limit("abc"), 0);
    assert_eq!(parse_token_limit("12k"), 0);
    assert_eq!(parse_token_limit(" 12"), 0);
    assert_eq!(parse_token_limit("12 "), 0);
    assert_eq!(parse_token_limit("-5"), 0);
    assert_eq!(parse_token_limit("+"), 0);
    assert_eq!(parse_token_limit("++5"), 0);
    assert_eq!(parse_token_limit("5+"), 0);
    assert_eq!(parse_token_limit("1.5"), 0);
    assert_eq!(parse_token_limit("١٢"), 0);
}

#[test]
fn parse_token_limit_coerces_out_of_range_to_zero() {
    assert_eq!(parse_token_limit("4294967296"), 0);
    assert_eq!(parse_token_limit("99999999999999999999999999"), 0);
    assert_eq!(parse_token_limit("42949672950"), 0);
}

#[test]
fn parse_token_limit_agrees_with_std() {
    for raw in ["", "+", "-", "7", "+7", "-7", "007", "4294967295", "4294967296", "1e3", "٣"] {
        assert_eq!(parse_token_limit(raw), raw.parse::<u32>().unwrap_or(0), "{:?}", raw);
    }
}

#[test]
fn character_budget_is_twice_the_limit() {
    assert_eq!(character_budget(16384), 32768);
    assert_eq!(character_budget(0), 0);
    assert_eq!(character_budget(1), 2);
    assert_eq!(character_budget(8192), 16384);
}

#[test]
fn character_budget_of_largest_limit() {
    let expected = usize::try_from(2u64 * (u32::MAX as u64)).unwrap_or(0);
    assert_eq!(character_budget(u32::MAX), expected);
}

#[test]
fn settings_default_when_nothing_is_configured() {
    let settings = ModelSettings::resolve(None, None, None, None);
    assert_eq!(settings.endpoint, "https://api.openai.com/v1");
    assert_eq!(settings.model_name, "gpt-4o");
    assert_eq!(settings.token_limit, 16384);
    assert_eq!(settings.api_key, "LLAMAEDGE");
    assert_eq!(settings.endpoint, DEFAULT_ENDPOINT);
    assert_eq!(settings.model_name, DEFAULT_MODEL);
    assert_eq!(settings.token_limit, DEFAULT_TOKEN_LIMIT);
    assert_eq!(settings.api_key, DEFAULT_API_KEY);
}

#[test]
fn settings_take_configured_values() {
    let settings = ModelSettings::resolve(
        Some("http://localhost:8080/v1".to_string()),
        Some("llama".to_string()),
        Some("4096".to_string()),
        Some("key".to_string()),
    );
    assert_eq!(
        settings,
        ModelSettings {
            endpoint: "http://localhost:8080/v1".to_string(),
            model_name: "llama".to_string(),
            token_limit: 4096,
            api_key: "key".to_string(),
        }
    );
}

#[test]
fn settings_coerce_bad_token_limit_to_zero() {
    let settings = ModelSettings::resolve(None, None, Some("lots".to_string()), None);
    assert_eq!(settings.token_limit, 0);
    assert_eq!(character_budget(settings.token_limit), 0);
    assert_eq!(settings.model_name, "gpt-4o");
}

#[test]
fn text_or_prefers_configured_text() {
    assert_eq!(text_or(Some("given".to_string()), "default"), "given");
    assert_eq!(text_or(Some(String::new()), "default"), "");
    assert_eq!(text_or(None, "default"), "default");
}
