//! Local configuration: API key, AI-provider settings and image paths.
//!
//! Where a value comes from is decided here; reading the environment and the
//! stored file is the caller's part.

use vstd::prelude::*;
use vstd::string::StringExecFns;

use crate::text::{
    borrow_text, keep_unless_blank, keep_unless_none, lower_chars, lowered, same_chars,
    slice_text_of, text_of, trim, trimmed, unless_blank, unless_none, chars_of,
};

verus! {

/// Minimum accepted length of a trimmed API key, in bytes.
pub const MIN_KEY_LEN: usize = 8;

/// Maximum accepted length of a trimmed API key, in bytes.
pub const MAX_KEY_LEN: usize = 8192;

/// Environment variable that, when set, overrides the stored API key.
pub const API_KEY_ENV_VAR: &'static str = "ANTHROPIC_API_KEY";

/// Environment variable that, when set, overrides the stored AI provider.
pub const PROVIDER_ENV_VAR: &'static str = "AI_VMM_PROVIDER";

/// Environment variable that, when set, overrides the stored provider URL.
pub const BASE_URL_ENV_VAR: &'static str = "AI_VMM_BASE_URL";

/// Environment variable that, when set, overrides the stored model identifier.
pub const MODEL_ENV_VAR: &'static str = "AI_VMM_MODEL";

/// Environment variable that, when set, overrides the kernel image path.
pub const KERNEL_PATH_ENV_VAR: &'static str = "AI_VMM_KERNEL";

/// Environment variable that, when set, overrides the default disk image path.
pub const DISK_PATH_ENV_VAR: &'static str = "AI_VMM_DISK";

/// Kernel image path used when neither the environment nor the configuration file
/// names one.
pub const DEFAULT_KERNEL_PATH: &'static str = "./vmlinux";

/// The reasoning back end the control plane talks to.
#[derive(Debug, Clone, Copy, PartialEq, Eq, Structural)]
pub enum AiProvider {
    /// The hosted Anthropic Messages API.
    Anthropic,
    /// A local OpenAI-compatible server (Ollama, vLLM, llama.cpp).
    OpenAiCompatible,
}

impl Default for AiProvider {
    fn default() -> (provider: Self)
        ensures
            provider == AiProvider::Anthropic,
    {
        AiProvider::Anthropic
    }
}

/// The stored configuration.
///
/// It holds a secret, so it cannot be formatted for a log.
pub struct Config {
    /// The Anthropic API key, if one has been stored.
    pub anthropic_api_key: Option<String>,
    /// Which AI back end to talk to.
    pub provider: AiProvider,
    /// Base URL of an OpenAI-compatible server.
    pub base_url: Option<String>,
    /// Model identifier to request from the provider.
    pub model: Option<String>,
    /// Path to the kernel image booted for every VM.
    pub kernel_path: Option<String>,
    /// Default root-filesystem disk image, used when a request names none.
    pub disk_path: Option<String>,
}

impl Default for Config {
    fn default() -> (config: Self)
        ensures
            config == (Config {
                anthropic_api_key: None,
                provider: AiProvider::Anthropic,
                base_url: None,
                model: None,
                kernel_path: None,
                disk_path: None,
            }),
    {
        Config {
            anthropic_api_key: None,
            provider: AiProvider::Anthropic,
            base_url: None,
            model: None,
            kernel_path: None,
            disk_path: None,
        }
    }
}

/// The values of the environment variables that override the stored configuration,
/// as far as they are set.
pub struct EnvOverrides {
    pub api_key: Option<String>,
    pub provider: Option<String>,
    pub base_url: Option<String>,
    pub model: Option<String>,
}

/// Resolved AI-provider settings consumed by the agent.
///
/// They may hold the API key, so they cannot be formatted for a log.
pub struct ProviderSettings {
    /// Which back end to talk to.
    pub provider: AiProvider,
    /// API key, if one is configured. An air-gapped local server needs none.
    pub api_key: Option<String>,
    /// Base URL of an OpenAI-compatible server; ignored for `Anthropic`.
    pub base_url: Option<String>,
    /// Model identifier. When `None`, requests to `Anthropic` name the default model that
    /// they are made with; an OpenAI-compatible server has no default.
    pub model: Option<String>,
}

/// Why a candidate API key was rejected by [`validate_key_len`].
#[derive(Debug, Clone, Copy, PartialEq, Eq)]
pub enum KeyError {
    /// The key is empty, or only white space.
    Empty,
    /// The key is shorter than [`MIN_KEY_LEN`].
    TooShort,
    /// The key is longer than [`MAX_KEY_LEN`].
    TooLong,
}

impl KeyError {
    /// The text of the message.
    pub open spec fn text(self) -> Seq<char> {
        match self {
            KeyError::Empty => "the API key is empty"@,
            KeyError::TooShort => "the API key is too short to be valid"@,
            KeyError::TooLong => "the API key is unreasonably long"@,
        }
    }

    /// Readable, static message describing the rejection cause.
    pub fn as_str(self) -> (text: &'static str)
        ensures
            text@ == self.text(),
    {
        match self {
            KeyError::Empty => "the API key is empty",
            KeyError::TooShort => "the API key is too short to be valid",
            KeyError::TooLong => "the API key is unreasonably long",
        }
    }
}

/// What is wrong with a key of `len` bytes, if anything is.
pub open spec fn key_error(len: int) -> Option<KeyError> {
    if len == 0 {
        Some(KeyError::Empty)
    } else if len < MIN_KEY_LEN {
        Some(KeyError::TooShort)
    } else if len > MAX_KEY_LEN {
        Some(KeyError::TooLong)
    } else {
        None
    }
}

/// How many bytes a text takes.
pub open spec fn byte_len(text: Seq<char>) -> int {
    vstd::utf8::encode_utf8(text).len() as int
}

/// Validates the length of a trimmed API key.
pub fn validate_key_len(len: usize) -> (result: Result<(), KeyError>)
    ensures
        match key_error(len as int) {
            Some(error) => result == Err::<(), KeyError>(error),
            None => result is Ok,
        },
        result is Ok <==> MIN_KEY_LEN <= len <= MAX_KEY_LEN,
{
    if len == 0 {
        return Err(KeyError::Empty);
    }
    if len < MIN_KEY_LEN {
        return Err(KeyError::TooShort);
    }
    if len > MAX_KEY_LEN {
        return Err(KeyError::TooLong);
    }
    Ok(())
}

/// Trims surrounding white space from a candidate key and validates its length.
/// Keys typed or pasted on a terminal carry a line break.
pub fn check_key(key: &str) -> (result: Result<&str, KeyError>)
    ensures
        match key_error(byte_len(trimmed(key@))) {
            Some(error) => result == Err::<&str, KeyError>(error),
            None => result is Ok && result->Ok_0@ == trimmed(key@),
        },
{
    let rest = trim(key);
    let bytes = rest.as_bytes();
    match validate_key_len(bytes.len()) {
        Ok(_) => Ok(rest),
        Err(error) => Err(error),
    }
}

/// Selects a usable, trimmed value from a raw environment-variable value: a missing
/// or blank one yields `None`.
pub fn nonempty_env_value(raw: Option<String>) -> (value: Option<String>)
    ensures
        text_of(value) == unless_blank(text_of(raw)),
{
    keep_unless_blank(borrow_text(&raw))
}

/// The provider that a name or one of its aliases stands for, in any case and with
/// white space around it or not.
pub open spec fn provider_named(raw: Seq<char>) -> Option<AiProvider> {
    let name = lowered(trimmed(raw));
    if name == "anthropic"@ {
        Some(AiProvider::Anthropic)
    } else if name == "openai"@ || name == "openai_compatible"@ || name == "ollama"@ || name == "vllm"@ || name
        == "llamacpp"@ {
        Some(AiProvider::OpenAiCompatible)
    } else {
        None
    }
}

fn is_word(name: &Vec<char>, word: &str) -> (equal: bool)
    ensures
        equal == (name@ == word@),
{
    let chars = chars_of(word);
    same_chars(name.as_slice(), chars.as_slice())
}

/// Parses an [`AiProvider`] from a user-supplied text, accepting friendly aliases.
pub fn parse_provider(raw: &str) -> (provider: Option<AiProvider>)
    ensures
        provider == provider_named(raw@),
{
    let name = lower_chars(trim(raw));
    if is_word(&name, "anthropic") {
        Some(AiProvider::Anthropic)
    } else if is_word(&name, "openai") || is_word(&name, "openai_compatible") || is_word(&name, "ollama")
        || is_word(&name, "vllm") || is_word(&name, "llamacpp") {
        Some(AiProvider::OpenAiCompatible)
    } else {
        None
    }
}

/// The provider that a name, one of its aliases, or the further alias that the hosted
/// provider is known by stands for.
pub open spec fn provider_known_as(raw: Seq<char>, hosted_alias: Option<Seq<char>>) -> Option<AiProvider> {
    match provider_named(raw) {
        Some(provider) => Some(provider),
        None => match unless_blank(hosted_alias) {
            Some(alias) if lowered(trimmed(raw)) == lowered(alias) => Some(AiProvider::Anthropic),
            _ => None,
        },
    }
}

/// Parses an [`AiProvider`] from a user-supplied text, as [`parse_provider`] does, where
/// the hosted provider has one more alias.
pub fn parse_provider_or_alias(raw: &str, hosted_alias: Option<&str>) -> (provider: Option<AiProvider>)
    ensures
        provider == provider_known_as(raw@, slice_text_of(hosted_alias)),
{
    match parse_provider(raw) {
        Some(provider) => Some(provider),
        None => match keep_unless_blank(hosted_alias) {
            Some(alias) => {
                let name = lower_chars(trim(raw));
                let known = lower_chars(alias.as_str());
                if same_chars(name.as_slice(), known.as_slice()) {
                    Some(AiProvider::Anthropic)
                } else {
                    None
                }
            },
            None => None,
        },
    }
}

/// Friendly, actionable message shown when no usable key is configured.
pub fn not_configured_message() -> (message: &'static str)
    ensures
        message@
            == "no Anthropic API key configured — run `ai-vmm auth login` to store one, or set AI_VMM_PROVIDER=openai to use a local air-gapped model instead"@,
{
    "no Anthropic API key configured — run `ai-vmm auth login` to store one, or set AI_VMM_PROVIDER=openai to use a local air-gapped model instead"
}

/// The configuration to store once `key` was given: only the key changes. A
/// configuration that cannot be read counts as the default one, so that a key can
/// always be stored.
pub fn save_api_key(key: &str, stored: Option<Config>) -> (config: Result<Config, KeyError>)
    ensures
        match key_error(byte_len(trimmed(key@))) {
            Some(error) => config is Err && config->Err_0 == error,
            None => {
                let before = match stored {
                    Some(config) => config,
                    None => Config {
                        anthropic_api_key: None,
                        provider: AiProvider::Anthropic,
                        base_url: None,
                        model: None,
                        kernel_path: None,
                        disk_path: None,
                    },
                };
                &&& config is Ok
                &&& text_of(config->Ok_0.anthropic_api_key) == Some(trimmed(key@))
                &&& config->Ok_0 == Config { anthropic_api_key: config->Ok_0.anthropic_api_key, ..before }
            },
        },
{
    let validated = match check_key(key) {
        Ok(validated) => validated,
        Err(error) => return Err(error),
    };
    let mut config = match stored {
        Some(config) => config,
        None => Config::default(),
    };
    config.anthropic_api_key = Some(validated.to_owned());
    Ok(config)
}

/// Why the provider settings cannot be resolved.
#[derive(Debug)]
pub enum SettingsError {
    /// The environment names a provider that does not exist.
    UnknownProvider(String),
    /// The API key is not acceptable.
    Key(KeyError),
    /// The provider needs a key and there is none.
    NotConfigured,
}

impl SettingsError {
    /// The message that reports this error.
    pub fn message(&self) -> (message: String)
        ensures
            message@ == match self {
                SettingsError::UnknownProvider(name) => "AI_VMM_PROVIDER names an unknown provider: '"@ + name@
                    + "'"@,
                SettingsError::Key(error) => error.text(),
                SettingsError::NotConfigured =>
                    "no Anthropic API key configured — run `ai-vmm auth login` to store one, or set AI_VMM_PROVIDER=openai to use a local air-gapped model instead"@,
            },
    {
        match self {
            SettingsError::UnknownProvider(name) => {
                let mut message = String::from_str("AI_VMM_PROVIDER names an unknown provider: '");
                message.append(name.as_str());
                message.append("'");
                message
            },
            SettingsError::Key(error) => String::from_str(error.as_str()),
            SettingsError::NotConfigured => String::from_str(not_configured_message()),
        }
    }
}

/// What the resolution of the provider settings comes to.
pub enum SettingsModel {
    Settings {
        provider: AiProvider,
        api_key: Option<Seq<char>>,
        base_url: Option<Seq<char>>,
        model: Option<Seq<char>>,
    },
    UnknownProvider(Seq<char>),
    Key(KeyError),
    NotConfigured,
}

/// What a resolution came to.
pub open spec fn settings_model(result: Result<ProviderSettings, SettingsError>) -> SettingsModel {
    match result {
        Ok(settings) => SettingsModel::Settings {
            provider: settings.provider,
            api_key: text_of(settings.api_key),
            base_url: text_of(settings.base_url),
            model: text_of(settings.model),
        },
        Err(SettingsError::UnknownProvider(name)) => SettingsModel::UnknownProvider(name@),
        Err(SettingsError::Key(error)) => SettingsModel::Key(error),
        Err(SettingsError::NotConfigured) => SettingsModel::NotConfigured,
    }
}

/// The value of an override, or the stored value if there is none.
pub open spec fn overridden(override_value: Option<Seq<char>>, stored: Option<Seq<char>>) -> Option<
    Seq<char>,
> {
    match unless_blank(override_value) {
        Some(value) => Some(value),
        None => stored,
    }
}

/// The provider settings that a stored configuration and the environment make: each
/// value that the environment gives replaces the stored one; a key must be
/// acceptable where there is one, and the Anthropic provider needs one.
pub open spec fn settings_of(config: Config, env: EnvOverrides, hosted_alias: Option<Seq<char>>) -> SettingsModel {
    let name = unless_blank(text_of(env.provider));
    let provider = match name {
        Some(text) => provider_known_as(text, hosted_alias),
        None => Some(config.provider),
    };
    let key = overridden(text_of(env.api_key), text_of(config.anthropic_api_key));
    match provider {
        None => SettingsModel::UnknownProvider(name->Some_0),
        Some(chosen) => match key {
            Some(raw) if key_error(byte_len(trimmed(raw))) is Some => SettingsModel::Key(
                key_error(byte_len(trimmed(raw)))->Some_0,
            ),
            None if chosen == AiProvider::Anthropic => SettingsModel::NotConfigured,
            _ => SettingsModel::Settings {
                provider: chosen,
                api_key: match key {
                    Some(raw) => Some(trimmed(raw)),
                    None => None,
                },
                base_url: overridden(text_of(env.base_url), text_of(config.base_url)),
                model: overridden(text_of(env.model), text_of(config.model)),
            },
        },
    }
}

/// Resolves the AI-provider settings from the stored configuration and the
/// environment. `hosted_alias` is a further name that the hosted provider goes by.
pub fn load_provider_settings(config: Config, env: EnvOverrides, hosted_alias: Option<&str>) -> (settings:
    Result<ProviderSettings, SettingsError>)
    ensures
        settings_model(settings) == settings_of(config, env, slice_text_of(hosted_alias)),
{
    let key = match nonempty_env_value(env.api_key) {
        Some(key) => Some(key),
        None => config.anthropic_api_key,
    };
    let provider = match nonempty_env_value(env.provider) {
        Some(raw) => match parse_provider_or_alias(raw.as_str(), hosted_alias) {
            Some(provider) => provider,
            None => return Err(SettingsError::UnknownProvider(raw)),
        },
        None => config.provider,
    };
    let base_url = match nonempty_env_value(env.base_url) {
        Some(url) => Some(url),
        None => config.base_url,
    };
    let model = match nonempty_env_value(env.model) {
        Some(model) => Some(model),
        None => config.model,
    };
    let api_key = match key {
        Some(raw) => match check_key(raw.as_str()) {
            Ok(validated) => Some(validated.to_owned()),
            Err(error) => return Err(SettingsError::Key(error)),
        },
        None => None,
    };
    if provider == AiProvider::Anthropic && api_key.is_none() {
        return Err(SettingsError::NotConfigured);
    }
    Ok(ProviderSettings { provider, api_key, base_url, model })
}

/// Cleans an explicit disk value: trims it, and treats an empty text or `none` in
/// any case as no disk given.
pub fn clean_explicit_disk(explicit: Option<&str>) -> (disk: Option<String>)
    ensures
        text_of(disk) == unless_none(slice_text_of(explicit)),
{
    keep_unless_none(explicit)
}

/// The kernel image path: the environment's, else the stored one, else the default.
pub open spec fn kernel_path_of(env: Option<Seq<char>>, stored: Option<Seq<char>>) -> Seq<char> {
    match overridden(env, stored) {
        Some(path) => path,
        None => DEFAULT_KERNEL_PATH@,
    }
}

/// Resolves the path to the kernel image to boot. The path is not checked for
/// existence.
pub fn resolve_kernel_path(env: Option<String>, stored: Option<String>) -> (path: String)
    ensures
        path@ == kernel_path_of(text_of(env), text_of(stored)),
{
    match nonempty_env_value(env) {
        Some(path) => path,
        None => match stored {
            Some(path) => path,
            None => DEFAULT_KERNEL_PATH.to_owned(),
        },
    }
}

/// The disk image path: the explicit one, else the environment's, else the stored
/// one.
pub open spec fn disk_path_of(
    explicit: Option<Seq<char>>,
    env: Option<Seq<char>>,
    stored: Option<Seq<char>>,
) -> Option<Seq<char>> {
    match unless_none(explicit) {
        Some(path) => Some(path),
        None => overridden(env, stored),
    }
}

/// Resolves the root-filesystem disk image for a VM; `None` when none is configured.
pub fn resolve_disk_path(explicit: Option<&str>, env: Option<String>, stored: Option<String>) -> (disk:
    Option<String>)
    ensures
        text_of(disk) == disk_path_of(slice_text_of(explicit), text_of(env), text_of(stored)),
{
    match clean_explicit_disk(explicit) {
        Some(path) => Some(path),
        None => match nonempty_env_value(env) {
            Some(path) => Some(path),
            None => stored,
        },
    }
}

/// A key is accepted exactly if its length is within bounds, and an empty one is
/// refused as such.
pub proof fn law_key_length_bounds(len: int)
    requires
        0 <= len,
    ensures
        key_error(0) == Some(KeyError::Empty),
        key_error(len) is None <==> MIN_KEY_LEN <= len <= MAX_KEY_LEN,
{
}

/// A path named in the request wins over every other, and one in the environment
/// over the stored one.
pub proof fn law_disk_precedence(explicit: Seq<char>, env: Option<Seq<char>>, stored: Option<Seq<char>>)
    ensures
        unless_none(Some(explicit)) is Some ==> disk_path_of(Some(explicit), env, stored) == Some(
            trimmed(explicit),
        ),
        disk_path_of(None, env, stored) == overridden(env, stored),
        disk_path_of(None, None, stored) == stored,
{
}

/// A kernel named in the environment wins over the stored one, and that over the
/// default.
pub proof fn law_kernel_precedence(env: Seq<char>, stored: Option<Seq<char>>)
    ensures
        trimmed(env).len() > 0 ==> kernel_path_of(Some(env), stored) == trimmed(env),
        stored is Some ==> kernel_path_of(None, stored) == stored->Some_0,
        kernel_path_of(None, None) == DEFAULT_KERNEL_PATH@,
{
}

/// The Anthropic provider is never used without a key, and a key that is used is
/// acceptable.
pub proof fn law_settings_carry_an_acceptable_key(
    config: Config,
    env: EnvOverrides,
    hosted_alias: Option<Seq<char>>,
)
    ensures
        settings_of(config, env, hosted_alias) matches SettingsModel::Settings { provider, api_key, .. } ==> {
            &&& provider == AiProvider::Anthropic ==> api_key is Some
            &&& api_key is Some ==> MIN_KEY_LEN <= byte_len(api_key->Some_0) <= MAX_KEY_LEN
        },
{
}

/// Each setting is what the environment says, trimmed, if it says anything, and what is
/// stored otherwise; a key is trimmed wherever it comes from.
pub proof fn law_environment_comes_first(config: Config, env: EnvOverrides, hosted_alias: Option<Seq<char>>)
    ensures
        settings_of(config, env, hosted_alias) matches SettingsModel::Settings {
            provider,
            api_key,
            base_url,
            model,
        } ==> {
            &&& env.model matches Some(value) ==> trimmed(value@).len() > 0 ==> model == Some(trimmed(value@))
            &&& env.model is None ==> model == text_of(config.model)
            &&& env.base_url matches Some(value) ==> trimmed(value@).len() > 0 ==> base_url == Some(trimmed(value@))
            &&& env.base_url is None ==> base_url == text_of(config.base_url)
            &&& env.api_key matches Some(value) ==> trimmed(value@).len() > 0 ==> api_key == Some(trimmed(value@))
            &&& env.api_key is None ==> match config.anthropic_api_key {
                Some(key) => api_key == Some(trimmed(key@)),
                None => api_key is None,
            }
            &&& env.provider is None ==> provider == config.provider
            &&& env.provider matches Some(name) ==> trimmed(name@).len() > 0 ==> provider_known_as(
                name@,
                hosted_alias,
            ) == Some(provider)
        },
{
    if let Some(value) = env.api_key {
        crate::text::lemma_trimmed_is_trimmed(value@);
    }
    if let Some(name) = env.provider {
        crate::text::lemma_trimmed_is_trimmed(name@);
    }
}

/// A blank value in the environment counts as none.
pub proof fn law_blank_override_counts_as_none(blank: Seq<char>, value: Seq<char>, stored: Option<Seq<char>>)
    requires
        trimmed(blank).len() == 0,
    ensures
        overridden(Some(blank), stored) == stored,
        overridden(None, stored) == stored,
        trimmed(value).len() > 0 ==> overridden(Some(value), stored) == Some(trimmed(value)),
{
}

/// Settings are refused for an unknown provider, for a key that is not acceptable and for
/// a hosted provider without a key, and for nothing else.
pub proof fn law_when_settings_are_refused(config: Config, env: EnvOverrides, hosted_alias: Option<Seq<char>>)
    ensures
        ({
            let outcome = settings_of(config, env, hosted_alias);
            let named = unless_blank(text_of(env.provider));
            let key = overridden(text_of(env.api_key), text_of(config.anthropic_api_key));
            let unknown = named is Some && provider_known_as(named->Some_0, hosted_alias) is None;
            let bad_key = key is Some && !(8 <= byte_len(trimmed(key->Some_0)) <= 8192);
            let hosted = if named is Some {
                provider_known_as(named->Some_0, hosted_alias) == Some(AiProvider::Anthropic)
            } else {
                config.provider is Anthropic
            };
            &&& outcome is UnknownProvider <==> unknown
            &&& outcome matches SettingsModel::UnknownProvider(name) ==> Some(name) == named
            &&& outcome is Key <==> !unknown && bad_key
            &&& outcome is NotConfigured <==> !unknown && key is None && hosted
            &&& outcome is Settings <==> !unknown && !bad_key && !(key is None && hosted)
        }),
{
}

/// What is wrong with a key: one that is empty, one of fewer than 8 bytes, one of more
/// than 8192.
pub proof fn law_key_errors(len: int)
    requires
        0 <= len,
    ensures
        key_error(len) == Some(KeyError::Empty) <==> len == 0,
        key_error(len) == Some(KeyError::TooShort) <==> 0 < len < 8,
        key_error(len) == Some(KeyError::TooLong) <==> len > 8192,
        key_error(len) is None <==> 8 <= len <= 8192,
{
}

/// The names of the providers, in any case and with white space around them or not, and
/// the further name that the hosted one may go by; no other name stands for one.
pub proof fn law_provider_names(raw: Seq<char>, alias: Seq<char>)
    ensures
        provider_named(raw) == Some(AiProvider::Anthropic) <==> lowered(trimmed(raw)) == "anthropic"@,
        provider_named(raw) == Some(AiProvider::OpenAiCompatible) <==> lowered(trimmed(raw)) == "openai"@ || lowered(
            trimmed(raw),
        ) == "openai_compatible"@ || lowered(trimmed(raw)) == "ollama"@ || lowered(trimmed(raw)) == "vllm"@
            || lowered(trimmed(raw)) == "llamacpp"@,
        provider_known_as(raw, None) == provider_named(raw),
        provider_named(raw) is Some ==> provider_known_as(raw, Some(alias)) == provider_named(raw),
        provider_named(raw) is None && trimmed(alias).len() > 0 ==> provider_known_as(raw, Some(alias)) == (if lowered(
            trimmed(raw),
        ) == lowered(trimmed(alias)) {
            Some(AiProvider::Anthropic)
        } else {
            None
        }),
{
    reveal_strlit("anthropic");
    reveal_strlit("openai");
    reveal_strlit("openai_compatible");
    reveal_strlit("ollama");
    reveal_strlit("vllm");
    reveal_strlit("llamacpp");
    assert("anthropic"@.len() == 9);
    assert("openai"@.len() == 6);
    assert("openai_compatible"@.len() == 17);
    assert("ollama"@.len() == 6);
    assert("vllm"@.len() == 4);
    assert("llamacpp"@.len() == 8);
}

/// Where nothing names a kernel image, the one in the working directory is booted; a disk
/// that is named `none` counts as not named.
pub proof fn law_image_paths(explicit: Seq<char>, env: Option<Seq<char>>, stored: Option<Seq<char>>)
    ensures
        kernel_path_of(None, None) == "./vmlinux"@,
        lowered(trimmed(explicit)) == "none"@ || trimmed(explicit).len() == 0 ==> disk_path_of(
            Some(explicit),
            env,
            stored,
        ) == overridden(env, stored),
        lowered(trimmed(explicit)) != "none"@ && trimmed(explicit).len() > 0 ==> disk_path_of(
            Some(explicit),
            env,
            stored,
        ) == Some(trimmed(explicit)),
        disk_path_of(None, None, None) is None,
{
}

} // verus!
