use omniscientia::config::{AppConfig, Secrets};

#[test]
fn env_file_has_one_line_per_token() {
    let both = Secrets { telegram_token: "T1".to_string(), discord_token: "D2".to_string() };
    assert_eq!(both.env_file_text(), "TELEGRAM_TOKEN=T1\nDISCORD_TOKEN=D2");
    let tg = Secrets { telegram_token: "T1".to_string(), discord_token: String::new() };
    assert_eq!(tg.env_file_text(), "TELEGRAM_TOKEN=T1");
    let dc = Secrets { telegram_token: String::new(), discord_token: "D2".to_string() };
    assert_eq!(dc.env_file_text(), "DISCORD_TOKEN=D2");
    assert_eq!(Secrets::default().env_file_text(), "");
}

#[test]
fn default_config_is_empty() {
    let c = AppConfig::default();
    assert!(c.ollama_base.is_empty() && c.model_name.is_empty());
}
