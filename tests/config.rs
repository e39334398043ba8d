use onnx_tts_server::config::{same_text, AppConfig, ConfigOverrides, DEFAULT_PORT};
use onnx_tts_server::tts::EngineFiles;

fn sample() -> AppConfig {
    let mut c = AppConfig::default();
    c.server.host = "127.0.0.1".to_string();
    c.server.port = 8080;
    c.tts.model = "m.onnx".to_string();
    c.tts.tokens = "t.txt".to_string();
    c.tts.lexicon = None;
    c.tts.espeak_ng_data = Some("data".to_string());
    c
}

fn no_overrides() -> ConfigOverrides {
    ConfigOverrides { host: None, port: None, model: None, tokens: None, lexicon: None, espeak_ng_data: None }
}

#[test]
fn default_config() {
    let c = AppConfig::default();
    assert_eq!(c.server.host, "0.0.0.0");
    assert_eq!(c.server.port, 3001);
    assert_eq!(DEFAULT_PORT, 3001);
    assert_eq!(c.tts.model, "");
    assert_eq!(c.tts.tokens, "");
    assert_eq!(c.tts.lexicon, Some(String::new()));
    assert_eq!(c.tts.espeak_ng_data, Some(String::new()));
}

#[test]
fn load_config_without_file_is_default() {
    let c = AppConfig::load_config(None);
    assert_eq!(c.server.host, "0.0.0.0");
    assert_eq!(c.server.port, 3001);
}

#[test]
fn load_config_keeps_file() {
    let c = AppConfig::load_config(Some(sample()));
    assert_eq!(c.server.host, "127.0.0.1");
    assert_eq!(c.server.port, 8080);
    assert_eq!(c.tts.lexicon, None);
}

#[test]
fn overrides_win_over_file() {
    let o = ConfigOverrides {
        host: Some("::1".to_string()),
        port: Some(9000),
        model: None,
        tokens: Some("other.txt".to_string()),
        lexicon: Some("lex.txt".to_string()),
        espeak_ng_data: None,
    };
    let c = sample().apply_overrides(o);
    assert_eq!(c.server.host, "::1");
    assert_eq!(c.server.port, 9000);
    assert_eq!(c.tts.model, "m.onnx");
    assert_eq!(c.tts.tokens, "other.txt");
    assert_eq!(c.tts.lexicon, Some("lex.txt".to_string()));
    assert_eq!(c.tts.espeak_ng_data, Some("data".to_string()));
}

#[test]
fn no_overrides_change_nothing() {
    let c = sample().apply_overrides(no_overrides());
    assert_eq!(c.server.host, "127.0.0.1");
    assert_eq!(c.server.port, 8080);
    assert_eq!(c.tts.model, "m.onnx");
    assert_eq!(c.tts.lexicon, None);
}

#[test]
fn config_path_per_os() {
    assert_eq!(AppConfig::config_relative_path("linux"), Some(".config/onnx-tts-server/config.toml".to_string()));
    assert_eq!(AppConfig::config_relative_path("macos"), Some(".config/onnx-tts-server/config.toml".to_string()));
    assert_eq!(
        AppConfig::config_relative_path("windows"),
        Some("AppData/Roaming/onnx-tts-server/config.toml".to_string())
    );
    assert_eq!(AppConfig::config_relative_path("freebsd"), None);
    assert_eq!(AppConfig::config_relative_path("Linux"), None);
    assert_eq!(AppConfig::config_relative_path(""), None);
}

#[test]
fn text_comparison() {
    assert!(same_text("abc", "abc"));
    assert!(same_text("", ""));
    assert!(!same_text("abc", "abd"));
    assert!(!same_text("abc", "ab"));
    assert!(same_text("ü", "ü"));
}

#[test]
fn engine_files_from_config() {
    let f = EngineFiles::from_app_config(&sample());
    assert_eq!(f.model, "m.onnx");
    assert_eq!(f.tokens, "t.txt");
    assert_eq!(f.lexicon, "");
    assert_eq!(f.data_dir, "data");
}

#[test]
fn melo_layout() {
    let f = EngineFiles::melo("models/melo");
    assert_eq!(f.model, "models/melo/model.onnx");
    assert_eq!(f.lexicon, "models/melo/lexicon.txt");
    assert_eq!(f.tokens, "models/melo/tokens.txt");
    assert_eq!(f.data_dir, "");
}

#[test]
fn piper_layout() {
    let f = EngineFiles::piper("p");
    assert_eq!(f.model, "p/model.onnx");
    assert_eq!(f.tokens, "p/tokens.txt");
    assert_eq!(f.data_dir, "p/espeak-ng-data");
    assert_eq!(f.lexicon, "");
}
