//! The settings as the store keeps them: one text per key.

use vstd::prelude::*;
use crate::models::AppSettings;
use crate::models::DEFAULT_HISTORY_LIMIT;
use crate::session::opt_text;
use crate::text::parse_i32;
use crate::text::parsed_i32;
use crate::text::signed_decimal;
use crate::text::signed_decimal_digits;

verus! {

/// What the store holds under the keys of the settings; a key may be
/// missing.
#[derive(Debug)]
pub struct StoredSettings {
    pub history_limit: Option<String>,
    pub theme: Option<String>,
    pub app_theme: Option<String>,
    pub ai_provider: Option<String>,
    pub ai_api_key: Option<String>,
    pub ai_model: Option<String>,
    pub ai_base_url: Option<String>,
}

/// The settings as plain values.
pub struct AppSettingsView {
    pub history_limit: i32,
    pub theme: Seq<char>,
    pub app_theme: Seq<char>,
    pub ai_provider: Seq<char>,
    pub ai_api_key: Option<Seq<char>>,
    pub ai_model: Option<Seq<char>>,
    pub ai_base_url: Option<Seq<char>>,
}

/// The plain values of settings.
pub open spec fn settings_view(s: AppSettings) -> AppSettingsView {
    AppSettingsView {
        history_limit: s.history_limit,
        theme: s.theme@,
        app_theme: s.app_theme@,
        ai_provider: s.ai_provider@,
        ai_api_key: opt_text(s.ai_api_key),
        ai_model: opt_text(s.ai_model),
        ai_base_url: opt_text(s.ai_base_url),
    }
}

/// The history limit that a stored text stands for: its number, or the
/// default where the text is missing or is no number of 32 bits.
pub open spec fn history_limit_of(stored: Option<Seq<char>>) -> i32 {
    match stored {
        Some(text) => match parsed_i32(text) {
            Some(limit) => limit,
            None => DEFAULT_HISTORY_LIMIT,
        },
        None => DEFAULT_HISTORY_LIMIT,
    }
}

/// A stored text, or the default where it is missing.
pub open spec fn text_or(stored: Option<Seq<char>>, default: Seq<char>) -> Seq<char> {
    match stored {
        Some(text) => text,
        None => default,
    }
}

/// The settings that the stored texts stand for.
pub open spec fn settings_of(stored: StoredSettings) -> AppSettingsView {
    AppSettingsView {
        history_limit: history_limit_of(opt_text(stored.history_limit)),
        theme: text_or(opt_text(stored.theme), "default"@),
        app_theme: text_or(opt_text(stored.app_theme), "system"@),
        ai_provider: text_or(opt_text(stored.ai_provider), "openai"@),
        ai_api_key: opt_text(stored.ai_api_key),
        ai_model: opt_text(stored.ai_model),
        ai_base_url: opt_text(stored.ai_base_url),
    }
}

/// Reads the history limit from its stored text.
pub fn history_limit_from(stored: &Option<String>) -> (limit: i32)
    ensures
        limit == history_limit_of(opt_text(*stored)),
{
    match stored {
        Some(text) => match parse_i32(text.as_str()) {
            Some(limit) => limit,
            None => DEFAULT_HISTORY_LIMIT,
        },
        None => DEFAULT_HISTORY_LIMIT,
    }
}

fn or_default(stored: Option<String>, default: &str) -> (text: String)
    ensures
        text@ == text_or(opt_text(stored), default@),
{
    match stored {
        Some(text) => text,
        None => String::from_str(default),
    }
}

/// Makes the settings from what the store holds, with the defaults for
/// what is missing.
pub fn get_all_settings(stored: StoredSettings) -> (settings: AppSettings)
    ensures
        settings_view(settings) == settings_of(stored),
{
    AppSettings {
        history_limit: history_limit_from(&stored.history_limit),
        theme: or_default(stored.theme, "default"),
        app_theme: or_default(stored.app_theme, "system"),
        ai_provider: or_default(stored.ai_provider, "openai"),
        ai_api_key: stored.ai_api_key,
        ai_model: stored.ai_model,
        ai_base_url: stored.ai_base_url,
    }
}

/// One key of the store with the text to keep under it.
#[derive(Debug, PartialEq, Eq)]
pub struct StoredPair {
    pub key: String,
    pub value: String,
}

/// A pair as plain values.
pub struct StoredPairView {
    pub key: Seq<char>,
    pub value: Seq<char>,
}

impl View for StoredPair {
    type V = StoredPairView;

    open spec fn view(&self) -> StoredPairView {
        StoredPairView { key: self.key@, value: self.value@ }
    }
}

/// The pair for an optional setting: none where the setting is not set.
pub open spec fn optional_pair(key: Seq<char>, value: Option<Seq<char>>) -> Seq<StoredPairView> {
    match value {
        Some(text) => seq![StoredPairView { key, value: text }],
        None => Seq::empty(),
    }
}

/// The pairs to store for the settings, in the order in which they are
/// written: the four that are always there, then those of the optional
/// settings that are set.
pub open spec fn pairs_of(s: AppSettingsView) -> Seq<StoredPairView> {
    seq![
        StoredPairView {
            key: "history_limit"@,
            value: signed_decimal_digits(s.history_limit as int),
        },
        StoredPairView { key: "theme"@, value: s.theme },
        StoredPairView { key: "app_theme"@, value: s.app_theme },
        StoredPairView { key: "ai_provider"@, value: s.ai_provider },
    ] + optional_pair("ai_api_key"@, s.ai_api_key) + optional_pair("ai_model"@, s.ai_model)
        + optional_pair("ai_base_url"@, s.ai_base_url)
}

/// The pairs as plain values.
pub open spec fn pair_views(pairs: Seq<StoredPair>) -> Seq<StoredPairView> {
    Seq::new(pairs.len(), |i: int| pairs[i]@)
}

fn push_optional(pairs: &mut Vec<StoredPair>, key: &str, value: &Option<String>)
    ensures
        pair_views(final(pairs)@) == pair_views(old(pairs)@) + optional_pair(key@, opt_text(*value)),
{
    match value {
        Some(text) => {
            let pair = StoredPair { key: String::from_str(key), value: text.clone() };
            pairs.push(pair);
            assert(pair_views(pairs@) =~= pair_views(old(pairs)@) + seq![pair@]);
        },
        None => {
            assert(pair_views(pairs@) =~= pair_views(old(pairs)@) + Seq::<StoredPairView>::empty());
        },
    }
}

/// Makes the pairs to store for the settings.
pub fn update_settings(settings: &AppSettings) -> (pairs: Vec<StoredPair>)
    ensures
        pair_views(pairs@) == pairs_of(settings_view(*settings)),
{
    let mut pairs: Vec<StoredPair> = Vec::new();
    pairs.push(
        StoredPair {
            key: String::from_str("history_limit"),
            value: signed_decimal(settings.history_limit as i64),
        },
    );
    pairs.push(StoredPair { key: String::from_str("theme"), value: settings.theme.clone() });
    pairs.push(StoredPair { key: String::from_str("app_theme"), value: settings.app_theme.clone() });
    pairs.push(
        StoredPair { key: String::from_str("ai_provider"), value: settings.ai_provider.clone() },
    );
    assert(pair_views(pairs@) =~= seq![
        StoredPairView {
            key: "history_limit"@,
            value: signed_decimal_digits(settings.history_limit as int),
        },
        StoredPairView { key: "theme"@, value: settings.theme@ },
        StoredPairView { key: "app_theme"@, value: settings.app_theme@ },
        StoredPairView { key: "ai_provider"@, value: settings.ai_provider@ },
    ]);
    push_optional(&mut pairs, "ai_api_key", &settings.ai_api_key);
    push_optional(&mut pairs, "ai_model", &settings.ai_model);
    push_optional(&mut pairs, "ai_base_url", &settings.ai_base_url);
    pairs
}

/// Settings that are written to the store and read back are the same
/// settings: the pairs that are made for them give, as stored texts, the
/// history limit, the themes and the provider that they held, and the
/// optional settings that were set.
pub proof fn lemma_settings_read_back(s: AppSettingsView)
    ensures
        ({
            let pairs = pairs_of(s);
            &&& pairs.len() >= 4
            &&& pairs[0].key == "history_limit"@
            &&& history_limit_of(Some(pairs[0].value)) == s.history_limit
            &&& pairs[1] == (StoredPairView { key: "theme"@, value: s.theme })
            &&& pairs[2] == (StoredPairView { key: "app_theme"@, value: s.app_theme })
            &&& pairs[3] == (StoredPairView { key: "ai_provider"@, value: s.ai_provider })
        }),
{
    crate::text::lemma_i32_reads_back(s.history_limit);
}

} // verus!
