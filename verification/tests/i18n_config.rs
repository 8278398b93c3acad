use pwatch::config::{
    apply_setting, config_command, default_true, initial, loaded, parse_setting, Config, Setting,
    SettingError,
};
use pwatch::i18n::{current, init, tr, Lang, LangSlot};

#[test]
fn lang_parse_accepts_names_in_any_case() {
    assert_eq!(Lang::parse("en"), Some(Lang::En));
    assert_eq!(Lang::parse("EN"), Some(Lang::En));
    assert_eq!(Lang::parse("English"), Some(Lang::En));
    assert_eq!(Lang::parse("ja"), Some(Lang::Ja));
    assert_eq!(Lang::parse("JP"), Some(Lang::Ja));
    assert_eq!(Lang::parse("JaPaNeSe"), Some(Lang::Ja));
}

#[test]
fn lang_parse_rejects_other_names() {
    assert_eq!(Lang::parse(""), None);
    assert_eq!(Lang::parse("fr"), None);
    assert_eq!(Lang::parse(" en"), None);
    assert_eq!(Lang::parse("eng"), None);
    assert_eq!(Lang::parse("japan"), None);
}

#[test]
fn lang_default_is_english() {
    assert_eq!(Lang::default(), Lang::En);
}

#[test]
fn slot_is_english_until_set() {
    let slot = LangSlot::new();
    assert_eq!(current(&slot), Lang::En);
}

#[test]
fn slot_keeps_the_first_language_set() {
    let mut slot = LangSlot::new();
    init(&mut slot, Lang::Ja);
    assert_eq!(current(&slot), Lang::Ja);
    init(&mut slot, Lang::En);
    assert_eq!(current(&slot), Lang::Ja);
}

#[test]
fn tr_picks_by_language() {
    assert_eq!(tr(Lang::En, "hello", "こんにちは"), "hello");
    assert_eq!(tr(Lang::Ja, "hello", "こんにちは"), "こんにちは");
}

#[test]
fn config_defaults() {
    assert!(default_true());
    assert_eq!(initial(), Config { show_banner: true, language: Lang::En });
    assert_eq!(Config::default(), Config { show_banner: true, language: Lang::En });
}

#[test]
fn loading_without_file_shows_banner() {
    assert_eq!(loaded(None), Config { show_banner: true, language: Lang::En });
}

#[test]
fn loading_unparsable_file_gives_documented_defaults() {
    assert_eq!(loaded(Some(None)), Config { show_banner: true, language: Lang::En });
}

#[test]
fn loading_parsed_file_keeps_it() {
    let c = Config { show_banner: false, language: Lang::Ja };
    assert_eq!(loaded(Some(Some(c))), c);
}

#[test]
fn settings_parse() {
    assert_eq!(parse_setting("banner", "on"), Ok(Setting::Banner(true)));
    assert_eq!(parse_setting("banner", "off"), Ok(Setting::Banner(false)));
    assert_eq!(parse_setting("banner", "ON"), Err(SettingError::BannerValue));
    assert_eq!(parse_setting("lang", "Japanese"), Ok(Setting::Language(Lang::Ja)));
    assert_eq!(parse_setting("lang", "en"), Ok(Setting::Language(Lang::En)));
    assert_eq!(parse_setting("lang", "de"), Err(SettingError::LangValue));
    assert_eq!(parse_setting("Lang", "en"), Err(SettingError::UnknownKey));
    assert_eq!(parse_setting("color", "on"), Err(SettingError::UnknownKey));
}

#[test]
fn applying_a_setting_changes_only_it() {
    let c = Config { show_banner: true, language: Lang::Ja };
    assert_eq!(apply_setting(c, Setting::Banner(false)), Config { show_banner: false, language: Lang::Ja });
    assert_eq!(apply_setting(c, Setting::Language(Lang::En)), Config { show_banner: true, language: Lang::En });
}

#[test]
fn config_command_banner_off() {
    let c = Config { show_banner: true, language: Lang::En };
    let r = config_command(c, "banner", "off", Lang::En);
    assert_eq!(r.save, Some(Config { show_banner: false, language: Lang::En }));
    assert_eq!(r.text, "Banner disabled");
    assert!(!r.to_stderr);
    let r = config_command(c, "banner", "on", Lang::Ja);
    assert_eq!(r.text, "バナー表示を有効にしました");
}

#[test]
fn config_command_language_is_announced_in_new_language() {
    let c = Config { show_banner: true, language: Lang::En };
    let r = config_command(c, "lang", "ja", Lang::En);
    assert_eq!(r.save, Some(Config { show_banner: true, language: Lang::Ja }));
    assert_eq!(r.text, "言語を日本語に設定しました");
    let r = config_command(c, "lang", "english", Lang::Ja);
    assert_eq!(r.text, "Language set to English");
}

#[test]
fn config_command_refusals() {
    let c = Config { show_banner: true, language: Lang::En };
    let r = config_command(c, "banner", "maybe", Lang::En);
    assert_eq!(r.save, None);
    assert!(r.to_stderr);
    assert_eq!(r.text, "Value must be on or off");
    let r = config_command(c, "lang", "xx", Lang::Ja);
    assert_eq!(r.text, "値は en または ja を指定してください");
    let r = config_command(c, "lang", "xx", Lang::En);
    assert_eq!(r.text, "Value must be en or ja");
    let r = config_command(c, "theme", "dark", Lang::En);
    assert_eq!(r.text, "Unknown config key: theme (available: banner, lang)");
    let r = config_command(c, "theme", "dark", Lang::Ja);
    assert_eq!(r.text, "不明な設定項目: theme (使用可能: banner, lang)");
    let r = config_command(c, "banner", "x", Lang::Ja);
    assert_eq!(r.text, "値は on または off を指定してください");
}
