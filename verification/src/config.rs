//! Which model is asked, where, and with which credential.

use vstd::prelude::*;
use crate::codec::parsed;
use crate::json::{values, Json, JsonValue};
use crate::text::{chars_of, same};

verus! {

/// The base URL that is used where none is configured.
pub const DEFAULT_BASE_URL: &'static str = "https://api.anthropic.com";

/// The protocol version that every request names.
pub const API_VERSION: &'static str = "2023-06-01";

/// The model that is asked where the settings select a provider and name
/// no model.
pub const DEFAULT_MODEL: &'static str = "deepseek-chat";

/// The token budget of an answer where none is configured.
pub const DEFAULT_MAX_TOKENS: u32 = 131072;

/// One model provider of the settings.
#[derive(Debug, PartialEq, Eq)]
pub struct ModelProvider {
    pub name: String,
    pub base_url: String,
    pub api_key: String,
}

/// The settings: the provider and the model that are selected, and the
/// providers to select from.
#[derive(Debug, PartialEq, Eq)]
pub struct Settings {
    pub model_provider: String,
    pub model: String,
    pub model_providers: Vec<ModelProvider>,
}

/// What a request to the model needs to know.
#[derive(Debug, PartialEq, Eq)]
pub struct ApiConfig {
    pub base_url: String,
    pub api_key: String,
    pub model: String,
    pub max_tokens: u32,
}

/// The environment variables that configure the model, each as it is set.
#[derive(Debug, PartialEq, Eq)]
pub struct Environment {
    pub api_key: Option<String>,
    pub base_url: Option<String>,
    pub model: Option<String>,
    pub max_tokens: Option<String>,
}

/// The mathematical value of an [`ApiConfig`].
pub ghost struct ApiConfigView {
    pub base_url: Seq<char>,
    pub api_key: Seq<char>,
    pub model: Seq<char>,
    pub max_tokens: u32,
}

impl View for ApiConfig {
    type V = ApiConfigView;

    open spec fn view(&self) -> ApiConfigView {
        ApiConfigView {
            base_url: self.base_url@,
            api_key: self.api_key@,
            model: self.model@,
            max_tokens: self.max_tokens,
        }
    }
}

/// The first provider named `name`, if there is one.
pub open spec fn provider_named(providers: Seq<ProviderView>, name: Seq<char>) -> Option<
    ProviderView,
>
    decreases providers.len(),
{
    if providers.len() == 0 {
        None
    } else if providers[0].name == name {
        Some(providers[0])
    } else {
        provider_named(providers.drop_first(), name)
    }
}

/// `text` where it is not empty, else `fallback`.
pub open spec fn or_default(text: Seq<char>, fallback: Seq<char>) -> Seq<char> {
    if text.len() == 0 {
        fallback
    } else {
        text
    }
}

/// The configuration that the settings give: that of the selected
/// provider, if it is listed and has a key. Its base URL and the model fall
/// back to defaults where they are empty.
pub open spec fn from_settings(settings: SettingsView) -> Option<ApiConfigView> {
    match provider_named(settings.model_providers, settings.model_provider) {
        Some(provider) => if provider.api_key.len() == 0 {
            None
        } else {
            Some(
                ApiConfigView {
                    base_url: or_default(provider.base_url, DEFAULT_BASE_URL@),
                    api_key: provider.api_key,
                    model: or_default(settings.model, DEFAULT_MODEL@),
                    max_tokens: DEFAULT_MAX_TOKENS,
                },
            )
        },
        None => None,
    }
}

/// Whether `c` is a decimal digit.
pub open spec fn is_digit(c: char) -> bool {
    '0' <= c <= '9'
}

/// The number that the decimal digits `digits` write.
pub open spec fn digits_value(digits: Seq<char>) -> nat
    decreases digits.len(),
{
    if digits.len() == 0 {
        0
    } else {
        digits_value(digits.drop_last()) * 10 + (digits.last() as nat - '0' as nat) as nat
    }
}

/// Every character is a decimal digit.
pub open spec fn all_digits(digits: Seq<char>) -> bool {
    forall|i: int| 0 <= i < digits.len() ==> is_digit(#[trigger] digits[i])
}

/// The number that `text` writes: decimal digits, at least one, after an
/// optional plus sign, and a value that fits.
pub open spec fn parsed_u32(text: Seq<char>) -> Option<u32> {
    let digits = if text.len() > 0 && text[0] == '+' {
        text.drop_first()
    } else {
        text
    };
    if digits.len() > 0 && all_digits(digits) && digits_value(digits) <= u32::MAX {
        Some(digits_value(digits) as u32)
    } else {
        None
    }
}

/// More digits do not write a smaller number.
pub proof fn lemma_digits_grow(digits: Seq<char>, upto: int)
    requires
        0 <= upto <= digits.len(),
    ensures
        digits_value(digits.take(upto)) <= digits_value(digits),
    decreases digits.len() - upto,
{
    if upto < digits.len() {
        lemma_digits_grow(digits, upto + 1);
        assert(digits.take(upto + 1).drop_last() =~= digits.take(upto));
    } else {
        assert(digits.take(upto) =~= digits);
    }
}

/// Reads a decimal number that fits into 32 bits.
pub fn parse_u32(text: &str) -> (out: Option<u32>)
    ensures
        out == parsed_u32(text@),
{
    let chars = chars_of(text);
    let from: usize = if chars.len() > 0 && chars[0] == '+' {
        1
    } else {
        0
    };
    let ghost digits = chars@.subrange(from as int, chars.len() as int);
    assert(digits =~= if text@.len() > 0 && text@[0] == '+' {
        text@.drop_first()
    } else {
        text@
    });
    if from == chars.len() {
        return None;
    }
    let mut value: u64 = 0;
    let mut i: usize = from;
    assert(digits.take(0) =~= Seq::<char>::empty());
    while i < chars.len()
        invariant
            from <= i <= chars.len(),
            digits == chars@.subrange(from as int, chars.len() as int),
            digits == if text@.len() > 0 && text@[0] == '+' {
                text@.drop_first()
            } else {
                text@
            },
            all_digits(digits.take(i - from)),
            value == digits_value(digits.take(i - from)),
            value <= u32::MAX,
        decreases chars.len() - i,
    {
        let c = chars[i];
        assert(digits[i - from] == c);
        if c < '0' || c > '9' {
            assert(!is_digit(digits[i - from]));
            return None;
        }
        let d: u64 = (c as u64) - ('0' as u64);
        let next: u64 = value * 10 + d;
        proof {
            assert(digits.take(i - from + 1).drop_last() =~= digits.take(i - from));
            assert(digits.take(i - from + 1).last() == c);
            assert forall|j: int| 0 <= j < i - from + 1 implies is_digit(
                #[trigger] digits.take(i - from + 1)[j],
            ) by {
                if j < i - from {
                    assert(digits.take(i - from)[j] == digits[j]);
                }
            }
        }
        if next > 0xffff_ffff {
            proof {
                lemma_digits_grow(digits, i - from + 1);
            }
            return None;
        }
        value = next;
        i += 1;
    }
    assert(digits.take(chars.len() - from) =~= digits);
    Some(value as u32)
}

/// The configuration that the environment gives: none without a key; the
/// base URL and the token budget fall back to defaults where they are not
/// set, the budget also where it is no number; the model falls back to
/// `fallback_model`, which is the caller's to choose and need not be the
/// default of the settings.
pub open spec fn from_environment(env: Environment, fallback_model: Seq<char>) -> Option<
    ApiConfigView,
> {
    match env.api_key {
        None => None,
        Some(key) => Some(
            ApiConfigView {
                base_url: match env.base_url {
                    Some(url) => url@,
                    None => DEFAULT_BASE_URL@,
                },
                api_key: key@,
                model: match env.model {
                    Some(model) => model@,
                    None => fallback_model,
                },
                max_tokens: match env.max_tokens {
                    Some(text) => match parsed_u32(text@) {
                        Some(n) => n,
                        None => DEFAULT_MAX_TOKENS,
                    },
                    None => DEFAULT_MAX_TOKENS,
                },
            },
        ),
    }
}

/// The first provider named `name`.
fn find_provider<'a>(providers: &'a Vec<ModelProvider>, name: &str) -> (out: Option<
    &'a ModelProvider,
>)
    ensures
        match out {
            Some(provider) => provider_named(providers.deep_view(), name@) == Some(provider@),
            None => provider_named(providers.deep_view(), name@) is None,
        },
{
    let ghost all = providers.deep_view();
    let mut i: usize = 0;
    assert(all.subrange(0, providers.len() as int) =~= all);
    while i < providers.len()
        invariant
            i <= providers.len(),
            all == providers.deep_view(),
            provider_named(all, name@) == provider_named(
                all.subrange(i as int, providers.len() as int),
                name@,
            ),
        decreases providers.len() - i,
    {
        assert(all.subrange(i as int, providers.len() as int)[0] == providers@[i as int]@);
        if same(providers[i].name.as_str(), name) {
            return Some(&providers[i]);
        }
        assert(all.subrange(i as int, providers.len() as int).drop_first() =~= all.subrange(
            i + 1,
            providers.len() as int,
        ));
        i += 1;
    }
    None
}

impl ApiConfig {
    /// The configuration in force: that of the settings where they give one,
    /// else that of the environment, with `fallback_model` where the
    /// environment names no model. `None` where neither gives a key.
    pub fn load(settings: Option<&Settings>, env: &Environment, fallback_model: &str) -> (out:
        Option<ApiConfig>)
        ensures
            out.deep_view() == match settings {
                Some(s) => match from_settings(s@) {
                    Some(config) => Some(config),
                    None => from_environment(*env, fallback_model@),
                },
                None => from_environment(*env, fallback_model@),
            },
    {
        if let Some(s) = settings {
            if let Some(provider) = find_provider(&s.model_providers, s.model_provider.as_str()) {
                if !provider.api_key.as_str().is_empty() {
                    let base_url = if provider.base_url.as_str().is_empty() {
                        DEFAULT_BASE_URL.to_owned()
                    } else {
                        provider.base_url.clone()
                    };
                    let model = if s.model.as_str().is_empty() {
                        DEFAULT_MODEL.to_owned()
                    } else {
                        s.model.clone()
                    };
                    return Some(
                        ApiConfig {
                            base_url,
                            api_key: provider.api_key.clone(),
                            model,
                            max_tokens: DEFAULT_MAX_TOKENS,
                        },
                    );
                }
            }
        }
        ApiConfig::from_env(env, fallback_model)
    }

    /// The configuration that the environment gives, with `fallback_model`
    /// where it names no model.
    pub fn from_env(env: &Environment, fallback_model: &str) -> (out: Option<ApiConfig>)
        ensures
            out.deep_view() == from_environment(*env, fallback_model@),
    {
        let api_key = match &env.api_key {
            Some(key) => key.clone(),
            None => {
                return None;
            },
        };
        let base_url = match &env.base_url {
            Some(url) => url.clone(),
            None => DEFAULT_BASE_URL.to_owned(),
        };
        let model = match &env.model {
            Some(model) => model.clone(),
            None => fallback_model.to_owned(),
        };
        let max_tokens = match &env.max_tokens {
            Some(text) => match parse_u32(text.as_str()) {
                Some(n) => n,
                None => DEFAULT_MAX_TOKENS,
            },
            None => DEFAULT_MAX_TOKENS,
        };
        Some(ApiConfig { base_url, api_key, model, max_tokens })
    }
}

impl DeepView for ApiConfig {
    type V = ApiConfigView;

    open spec fn deep_view(&self) -> ApiConfigView {
        self@
    }
}

/// The mathematical value of a [`ModelProvider`].
pub ghost struct ProviderView {
    pub name: Seq<char>,
    pub base_url: Seq<char>,
    pub api_key: Seq<char>,
}

impl View for ModelProvider {
    type V = ProviderView;

    open spec fn view(&self) -> ProviderView {
        ProviderView { name: self.name@, base_url: self.base_url@, api_key: self.api_key@ }
    }
}

impl DeepView for ModelProvider {
    type V = ProviderView;

    open spec fn deep_view(&self) -> ProviderView {
        self@
    }
}

/// The mathematical value of a [`Settings`].
pub ghost struct SettingsView {
    pub model_provider: Seq<char>,
    pub model: Seq<char>,
    pub model_providers: Seq<ProviderView>,
}

impl View for Settings {
    type V = SettingsView;

    open spec fn view(&self) -> SettingsView {
        SettingsView {
            model_provider: self.model_provider@,
            model: self.model@,
            model_providers: self.model_providers.deep_view(),
        }
    }
}

/// A member that is a string, and empty where it is missing.
pub open spec fn text_or_empty(member: Option<JsonValue>) -> Option<Seq<char>> {
    match member {
        None => Some(Seq::empty()),
        Some(JsonValue::Text(text)) => Some(text),
        Some(_) => None,
    }
}

/// The provider that an entry of the settings describes: an object with a
/// string `name`; `base_url` and `api_key` are strings or missing.
pub open spec fn provider_of(entry: JsonValue) -> Option<ProviderView> {
    match (
        entry.get("name"@),
        text_or_empty(entry.get("base_url"@)),
        text_or_empty(entry.get("api_key"@)),
    ) {
        (Some(JsonValue::Text(name)), Some(base_url), Some(api_key)) => Some(
            ProviderView { name, base_url, api_key },
        ),
        _ => None,
    }
}

/// The providers that the entries describe, in order; `None` where one of
/// them describes none.
pub open spec fn providers_in(entries: Seq<JsonValue>) -> Option<Seq<ProviderView>>
    decreases entries.len(),
{
    if entries.len() == 0 {
        Some(Seq::empty())
    } else {
        match (providers_in(entries.drop_last()), provider_of(entries.last())) {
            (Some(providers), Some(provider)) => Some(providers.push(provider)),
            _ => None,
        }
    }
}

/// The providers that the settings list: none where the member is missing.
pub open spec fn listed_providers(member: Option<JsonValue>) -> Option<Seq<ProviderView>> {
    match member {
        None => Some(Seq::empty()),
        Some(JsonValue::Array(entries)) => providers_in(entries),
        Some(_) => None,
    }
}

/// The settings that a document describes: an object whose
/// `model_provider` and `model` are strings or missing, and whose
/// `model_providers` is an array of providers or missing.
pub open spec fn settings_of(value: JsonValue) -> Option<SettingsView> {
    if value is Object {
        match (
            text_or_empty(value.get("model_provider"@)),
            text_or_empty(value.get("model"@)),
            listed_providers(value.get("model_providers"@)),
        ) {
            (Some(model_provider), Some(model), Some(model_providers)) => Some(
                SettingsView { model_provider, model, model_providers },
            ),
            _ => None,
        }
    } else {
        None
    }
}

/// The settings that the content of a settings file describes; `None` where
/// it is not JSON or describes none.
pub open spec fn settings_in(content: Seq<char>) -> Option<SettingsView> {
    match parsed(content) {
        Some(value) => settings_of(value),
        None => None,
    }
}

/// One entry that describes no provider spoils the whole list.
pub proof fn lemma_providers_in_fails(entries: Seq<JsonValue>, at: int)
    requires
        0 <= at < entries.len(),
        provider_of(entries[at]) is None,
    ensures
        providers_in(entries) is None,
    decreases entries.len(),
{
    if at < entries.len() - 1 {
        lemma_providers_in_fails(entries.drop_last(), at);
    }
}

/// Reads a member that is a string, and empty where it is missing.
fn read_text_or_empty(member: Option<&Json>) -> (out: Option<String>)
    ensures
        out.deep_view() == text_or_empty(
            match member {
                Some(value) => Some(value@),
                None => None,
            },
        ),
{
    match member {
        None => Some(String::new()),
        Some(Json::Text(text)) => Some(text.clone()),
        Some(_) => None,
    }
}

/// Reads one provider.
fn read_provider(entry: &Json) -> (out: Option<ModelProvider>)
    ensures
        out.deep_view() == provider_of(entry@),
{
    let name = match entry.get("name") {
        Some(Json::Text(name)) => name.clone(),
        _ => {
            return None;
        },
    };
    let base_url = read_text_or_empty(entry.get("base_url"));
    let api_key = read_text_or_empty(entry.get("api_key"));
    match (base_url, api_key) {
        (Some(base_url), Some(api_key)) => Some(ModelProvider { name, base_url, api_key }),
        _ => None,
    }
}

/// Reads the providers that the settings list.
fn read_providers(member: Option<&Json>) -> (out: Option<Vec<ModelProvider>>)
    ensures
        out.deep_view() == listed_providers(
            match member {
                Some(value) => Some(value@),
                None => None,
            },
        ),
{
    let mut providers: Vec<ModelProvider> = Vec::new();
    assert(providers.deep_view() =~= Seq::<ProviderView>::empty());
    let entries = match member {
        None => {
            return Some(providers);
        },
        Some(value) => match value.as_array() {
            Some(entries) => entries,
            None => {
                return None;
            },
        },
    };
    let ghost all = values(entries@);
    let mut i: usize = 0;
    assert(all.take(0) =~= Seq::<JsonValue>::empty());
    while i < entries.len()
        invariant
            i <= entries.len(),
            all == values(entries@),
            member is Some,
            member->0@ == JsonValue::Array(all),
            providers_in(all.take(i as int)) == Some(providers.deep_view()),
        decreases entries.len() - i,
    {
        let ghost before = providers.deep_view();
        assert(all.take(i + 1).drop_last() =~= all.take(i as int));
        assert(all.take(i + 1).last() == entries@[i as int]@);
        match read_provider(&entries[i]) {
            Some(provider) => {
                providers.push(provider);
                assert(providers.deep_view() =~= before.push(provider@));
            },
            None => {
                proof {
                    lemma_providers_in_fails(all, i as int);
                }
                return None;
            },
        }
        i += 1;
    }
    assert(all.take(entries.len() as int) =~= all);
    Some(providers)
}

impl Settings {
    /// The settings that a document describes.
    pub fn decode(value: &Json) -> (out: Option<Settings>)
        ensures
            match out {
                Some(settings) => settings_of(value@) == Some(settings@),
                None => settings_of(value@) is None,
            },
    {
        if value.as_object().is_none() {
            return None;
        }
        let model_provider = read_text_or_empty(value.get("model_provider"));
        let model = read_text_or_empty(value.get("model"));
        let model_providers = read_providers(value.get("model_providers"));
        match (model_provider, model, model_providers) {
            (Some(model_provider), Some(model), Some(model_providers)) => Some(
                Settings { model_provider, model, model_providers },
            ),
            _ => None,
        }
    }

    /// The settings that the content of a settings file describes.
    pub fn load(content: &str) -> (out: Option<Settings>)
        ensures
            match out {
                Some(settings) => settings_in(content@) == Some(settings@),
                None => settings_in(content@) is None,
            },
    {
        match Json::parse(content) {
            Ok(value) => Settings::decode(&value),
            Err(_) => None,
        }
    }
}

} // verus!
