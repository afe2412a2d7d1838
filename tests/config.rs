use commitbot::cli_args::Cli;
use commitbot::config::{build_llm_client, trim_quotes, ClientSettings, Config, ConfigLayer};
use commitbot::error::LlmError;

fn cli() -> Cli {
    Cli {
        ask: false,
        stage: false,
        apply: false,
        max: None,
        model: None,
        api_key: None,
        provider: None,
        url: None,
        stream: None,
        verbose: 0,
        command: None,
    }
}

fn s(v: &str) -> Option<String> {
    Some(v.to_string())
}

#[test]
fn defaults_need_an_openai_key() {
    let empty = ConfigLayer::default();
    let r = Config::from_sources(&cli(), &empty, &empty, &empty);
    assert!(matches!(r, Err(LlmError::Config { .. })));
    let env = ConfigLayer { openai_api_key: s("\"k\""), ..ConfigLayer::default() };
    let c = Config::from_sources(&cli(), &env, &empty, &empty).unwrap();
    assert_eq!(c.provider, "openai");
    assert_eq!(c.model, "gpt-5-nano");
    assert_eq!(c.openai_api_key, s("k"));
    assert_eq!(c.base_url, None);
    assert_eq!(c.max_concurrent_requests, 4);
    assert!(c.stream);
}

#[test]
fn earlier_sources_win() {
    let mut line = cli();
    line.model = s("cli-model");
    line.stream = Some(false);
    let env = ConfigLayer { provider: s("\"OLLAMA\""), max_concurrent_requests: Some(2), ..ConfigLayer::default() };
    let repo = ConfigLayer {
        provider: s("openai"),
        model: s("repo-model"),
        base_url: s("http://repo:1"),
        max_concurrent_requests: Some(9),
        ..ConfigLayer::default()
    };
    let default = ConfigLayer { base_url: s("http://default"), stream: Some(true), ..ConfigLayer::default() };
    let c = Config::from_sources(&line, &env, &repo, &default).unwrap();
    assert_eq!(c.provider, "ollama");
    assert_eq!(c.model, "cli-model");
    assert_eq!(c.base_url, s("http://repo:1"));
    assert_eq!(c.max_concurrent_requests, 2);
    assert!(!c.stream);
    assert_eq!(c.openai_api_key, None);
}

#[test]
fn quotes_are_stripped() {
    assert_eq!(trim_quotes("\"\"abc\""), "abc");
    assert_eq!(trim_quotes("a\"b"), "a\"b");
    assert_eq!(trim_quotes("\"\""), "");
}

fn config(provider: &str, key: Option<String>, base: Option<String>) -> Config {
    Config {
        provider: provider.to_string(),
        openai_api_key: key,
        base_url: base,
        model: "m".to_string(),
        max_concurrent_requests: 4,
        stream: true,
    }
}

#[test]
fn backend_selection() {
    match build_llm_client(&config("openai", s("k"), None)) {
        Ok(ClientSettings::OpenAi { api_key, model, base_url, stream }) => {
            assert_eq!(api_key, "k");
            assert_eq!(model, "m");
            assert_eq!(base_url, "https://api.openai.com");
            assert!(stream);
        }
        other => panic!("unexpected {other:?}"),
    }
    match build_llm_client(&config("ollama", None, s("http://gpu:11434/"))) {
        Ok(ClientSettings::Ollama { base_url, .. }) => assert_eq!(base_url, "http://gpu:11434"),
        other => panic!("unexpected {other:?}"),
    }
    match build_llm_client(&config("ollama", None, None)) {
        Ok(ClientSettings::Ollama { base_url, .. }) => assert_eq!(base_url, "http://localhost:11434"),
        other => panic!("unexpected {other:?}"),
    }
    assert!(matches!(build_llm_client(&config("openai", None, None)), Err(LlmError::Config { .. })));
    assert!(matches!(build_llm_client(&config("mistral", s("k"), None)), Err(LlmError::Config { .. })));
}
