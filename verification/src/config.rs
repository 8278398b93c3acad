//! The settings: whether the banner is shown and the display language.
use crate::i18n::{lang_named, Lang};
use crate::text::{chars_of, concat, eq_chars, has_substring};
use vstd::prelude::*;

verus! {

/// The settings kept in the settings file.
#[derive(Debug, Clone, Copy, PartialEq, Eq, Structural)]
pub struct Config {
    pub show_banner: bool,
    pub language: Lang,
}

/// The documented defaults: the banner shown, English.
impl Default for Config {
    fn default() -> (c: Self)
        ensures
            c == (Config { show_banner: true, language: Lang::En }),
    {
        Config { show_banner: true, language: Lang::En }
    }
}

/// The value that a settings file without a `show_banner` entry gives it.
pub fn default_true() -> (b: bool)
    ensures
        b,
{
    true
}

/// The settings in use when there is no usable settings file: banner on,
/// English.
pub fn initial() -> (c: Config)
    ensures
        c == (Config { show_banner: true, language: Lang::En }),
{
    Config { show_banner: default_true(), language: Lang::default() }
}

/// The settings that loading gives, from what reading the file gave: `None`
/// when it could not be read, `Some(None)` when it could not be parsed,
/// `Some(Some(c))` when it parsed to `c`. A missing or unparsable file gives
/// the documented defaults: the banner shown, English.
pub fn loaded(read: Option<Option<Config>>) -> (c: Config)
    ensures
        c == (match read {
            Some(Some(parsed)) => parsed,
            _ => Config { show_banner: true, language: Lang::En },
        }),
{
    match read {
        Some(Some(parsed)) => parsed,
        _ => initial(),
    }
}

/// A change of one setting.
#[derive(Debug, Clone, Copy, PartialEq, Eq, Structural)]
pub enum Setting {
    Banner(bool),
    Language(Lang),
}

/// Why a setting was refused.
#[derive(Debug, Clone, Copy, PartialEq, Eq, Structural)]
pub enum SettingError {
    /// The banner value was neither `on` nor `off`.
    BannerValue,
    /// The language value named no language.
    LangValue,
    /// The key was neither `banner` nor `lang`.
    UnknownKey,
}

/// The setting that `key` and `value` ask for: key `banner` with value `on`
/// or `off`, or key `lang` with a language name (see `lang_named`).
pub open spec fn setting_for(key: Seq<char>, value: Seq<char>) -> Result<Setting, SettingError> {
    if key == seq!['b', 'a', 'n', 'n', 'e', 'r'] {
        if value == seq!['o', 'n'] {
            Ok(Setting::Banner(true))
        } else if value == seq!['o', 'f', 'f'] {
            Ok(Setting::Banner(false))
        } else {
            Err(SettingError::BannerValue)
        }
    } else if key == seq!['l', 'a', 'n', 'g'] {
        match lang_named(value) {
            Some(l) => Ok(Setting::Language(l)),
            None => Err(SettingError::LangValue),
        }
    } else {
        Err(SettingError::UnknownKey)
    }
}

/// Reads a `config <key> <value>` request.
pub fn parse_setting(key: &str, value: &str) -> (r: Result<Setting, SettingError>)
    ensures
        r == setting_for(key@, value@),
{
    let k = chars_of(key);
    let v = chars_of(value);
    if eq_chars(&k, &vec!['b', 'a', 'n', 'n', 'e', 'r']) {
        if eq_chars(&v, &vec!['o', 'n']) {
            Ok(Setting::Banner(true))
        } else if eq_chars(&v, &vec!['o', 'f', 'f']) {
            Ok(Setting::Banner(false))
        } else {
            Err(SettingError::BannerValue)
        }
    } else if eq_chars(&k, &vec!['l', 'a', 'n', 'g']) {
        match Lang::parse(value) {
            Some(l) => Ok(Setting::Language(l)),
            None => Err(SettingError::LangValue),
        }
    } else {
        Err(SettingError::UnknownKey)
    }
}

/// The settings with one of them changed.
pub open spec fn with_setting(cfg: Config, s: Setting) -> Config {
    match s {
        Setting::Banner(on) => Config { show_banner: on, ..cfg },
        Setting::Language(l) => Config { language: l, ..cfg },
    }
}

/// Changes one setting, keeping the other.
pub fn apply_setting(cfg: Config, s: Setting) -> (r: Config)
    ensures
        r == with_setting(cfg, s),
{
    match s {
        Setting::Banner(on) => Config { show_banner: on, language: cfg.language },
        Setting::Language(l) => Config { show_banner: cfg.show_banner, language: l },
    }
}

/// The notice that a setting was saved. A language change is announced in
/// the new language; the others in `lang`.
pub open spec fn notice_text(s: Setting, lang: Lang) -> Seq<char> {
    match (s, lang) {
        (Setting::Banner(true), Lang::En) => "Banner enabled"@,
        (Setting::Banner(true), Lang::Ja) => "バナー表示を有効にしました"@,
        (Setting::Banner(false), Lang::En) => "Banner disabled"@,
        (Setting::Banner(false), Lang::Ja) => "バナー表示を無効にしました"@,
        (Setting::Language(Lang::En), _) => "Language set to English"@,
        (Setting::Language(Lang::Ja), _) => "言語を日本語に設定しました"@,
    }
}

/// The message for a refused setting; `key` is the key that was given.
pub open spec fn refusal_text(e: SettingError, key: Seq<char>, lang: Lang) -> Seq<char> {
    match (e, lang) {
        (SettingError::BannerValue, Lang::En) => "Value must be on or off"@,
        (SettingError::BannerValue, Lang::Ja) => "値は on または off を指定してください"@,
        (SettingError::LangValue, Lang::En) => "Value must be en or ja"@,
        (SettingError::LangValue, Lang::Ja) => "値は en または ja を指定してください"@,
        (SettingError::UnknownKey, Lang::En) => "Unknown config key: "@ + key
            + " (available: banner, lang)"@,
        (SettingError::UnknownKey, Lang::Ja) => "不明な設定項目: "@ + key + " (使用可能: banner, lang)"@,
    }
}

/// The notice that a setting was saved.
pub fn setting_notice(s: Setting, lang: Lang) -> (r: &'static str)
    ensures
        r@ == notice_text(s, lang),
{
    match (s, lang) {
        (Setting::Banner(true), Lang::En) => "Banner enabled",
        (Setting::Banner(true), Lang::Ja) => "バナー表示を有効にしました",
        (Setting::Banner(false), Lang::En) => "Banner disabled",
        (Setting::Banner(false), Lang::Ja) => "バナー表示を無効にしました",
        (Setting::Language(Lang::En), _) => "Language set to English",
        (Setting::Language(Lang::Ja), _) => "言語を日本語に設定しました",
    }
}

/// The message for a refused setting.
pub fn setting_error_text(e: SettingError, key: &str, lang: Lang) -> (r: String)
    ensures
        r@ == refusal_text(e, key@, lang),
{
    match (e, lang) {
        (SettingError::BannerValue, Lang::En) => String::from_str("Value must be on or off"),
        (SettingError::BannerValue, Lang::Ja) => String::from_str(
            "値は on または off を指定してください",
        ),
        (SettingError::LangValue, Lang::En) => String::from_str("Value must be en or ja"),
        (SettingError::LangValue, Lang::Ja) => String::from_str(
            "値は en または ja を指定してください",
        ),
        (SettingError::UnknownKey, Lang::En) => concat(
            concat(String::from_str("Unknown config key: "), key),
            " (available: banner, lang)",
        ),
        (SettingError::UnknownKey, Lang::Ja) => concat(
            concat(String::from_str("不明な設定項目: "), key),
            " (使用可能: banner, lang)",
        ),
    }
}

/// The answer to `config <key> <value>`: the settings to save, if any, and
/// the line to print.
pub struct ConfigReply {
    /// The settings to write to the settings file; `None` when the request
    /// was refused.
    pub save: Option<Config>,
    pub text: String,
    /// Whether the line goes to standard error.
    pub to_stderr: bool,
}

/// Answers `config <key> <value>` on the settings `cfg`, in language `lang`:
/// an accepted setting is saved and announced, a refused one is reported on
/// standard error and nothing is saved.
pub fn config_command(cfg: Config, key: &str, value: &str, lang: Lang) -> (r: ConfigReply)
    ensures
        match setting_for(key@, value@) {
            Ok(s) => r.save == Some(with_setting(cfg, s)) && r.text@ == notice_text(s, lang)
                && !r.to_stderr,
            Err(e) => r.save is None && r.text@ == refusal_text(e, key@, lang) && r.to_stderr,
        },
{
    match parse_setting(key, value) {
        Ok(s) => ConfigReply {
            save: Some(apply_setting(cfg, s)),
            text: String::from_str(setting_notice(s, lang)),
            to_stderr: false,
        },
        Err(e) => ConfigReply { save: None, text: setting_error_text(e, key, lang), to_stderr: true },
    }
}

/// Setting the banner and reading it back gives what was set; the language
/// is untouched.
pub proof fn lemma_banner_setting(cfg: Config, on: bool)
    ensures
        setting_for(seq!['b', 'a', 'n', 'n', 'e', 'r'], if on {
            seq!['o', 'n']
        } else {
            seq!['o', 'f', 'f']
        }) == Ok::<Setting, SettingError>(Setting::Banner(on)),
        with_setting(cfg, Setting::Banner(on)).show_banner == on,
        with_setting(cfg, Setting::Banner(on)).language == cfg.language,
{
}

/// A banner setting is announced as what was saved: turning the banner on
/// and turning it off are announced differently in each language, and in
/// English the one says "enabled", the other "disabled".
pub proof fn lemma_banner_notice_agrees(lang: Lang)
    ensures
        notice_text(Setting::Banner(true), lang) != notice_text(Setting::Banner(false), lang),
        has_substring(notice_text(Setting::Banner(true), Lang::En), "enabled"@),
        has_substring(notice_text(Setting::Banner(false), Lang::En), "disabled"@),
{
    reveal_strlit("Banner enabled");
    reveal_strlit("Banner disabled");
    reveal_strlit("バナー表示を有効にしました");
    reveal_strlit("バナー表示を無効にしました");
    reveal_strlit("enabled");
    reveal_strlit("disabled");
    let on = "Banner enabled"@;
    let off = "Banner disabled"@;
    let z: int = 7;
    assert(on.subrange(z, z + "enabled"@.len()) =~= "enabled"@);
    assert(off.subrange(z, z + "disabled"@.len()) =~= "disabled"@);
    assert(on[7] != off[7]);
    assert("バナー表示を有効にしました"@[6] != "バナー表示を無効にしました"@[6]);
}

/// Setting the language changes only the language.
pub proof fn lemma_language_setting(cfg: Config, l: Lang)
    ensures
        with_setting(cfg, Setting::Language(l)).language == l,
        with_setting(cfg, Setting::Language(l)).show_banner == cfg.show_banner,
{
}

} // verus!
