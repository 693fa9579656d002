//! Configuration of the proxy: server, database, providers, policies.
//!
//! The types here hold a configuration that has already been read. Reading a
//! file and decoding its text are left to the caller.

use crate::text::{
    alphanumeric, chars_of, contains, is_alphanumeric, occurs_in, string_of, uppercase,
    uppercase_of,
};
use vstd::prelude::*;

verus! {

/// HTTP server configuration.
#[derive(Debug, Clone)]
pub struct ServerConfig {
    /// Address to listen on, such as `127.0.0.1:8080`.
    pub listen: String,
}

/// The address a server listens on unless told otherwise.
pub fn default_listen() -> (r: String)
    ensures
        r@ == "127.0.0.1:8080"@,
{
    String::from_str("127.0.0.1:8080")
}

/// Database configuration.
#[derive(Debug, Clone)]
pub struct DatabaseConfig {
    /// Path of the database file.
    pub path: String,
}

/// The database path used unless told otherwise.
pub fn default_db_path() -> (r: String)
    ensures
        r@ == "./arbstr.db"@,
{
    String::from_str("./arbstr.db")
}

impl Default for DatabaseConfig {
    fn default() -> (r: Self)
        ensures
            r.path@ == "./arbstr.db"@,
    {
        Self { path: default_db_path() }
    }
}

/// A provider credential, kept in a `secrecy::SecretString`. It does not show
/// its value when printed, and the value is wiped from memory when the key is
/// dropped.
#[verifier::external_body]
#[derive(Debug)]
pub struct ApiKey {
    secret: secrecy::SecretString,
}

/// The text that a key holds.
pub uninterp spec fn key_text(key: ApiKey) -> Seq<char>;

/// Calls `SecretString::from` on a `String`. Trusted: the secret holds the
/// text it was made from.
#[verifier::external_body]
fn seal(text: String) -> (r: ApiKey)
    ensures
        key_text(r) == text@,
{
    ApiKey { secret: secrecy::SecretString::from(text) }
}

/// Calls `ExposeSecret::expose_secret`. Trusted: it hands out the text that
/// the secret holds.
#[verifier::external_body]
fn expose(key: &ApiKey) -> (r: &str)
    ensures
        r@ == key_text(*key),
{
    secrecy::ExposeSecret::expose_secret(&key.secret)
}

/// Calls `Clone::clone` on a `SecretString`. Trusted: the copy holds the same
/// text.
#[verifier::external_body]
fn copy_secret(key: &ApiKey) -> (r: ApiKey)
    ensures
        key_text(r) == key_text(*key),
{
    ApiKey { secret: key.secret.clone() }
}

impl View for ApiKey {
    type V = Seq<char>;

    open spec fn view(&self) -> Seq<char> {
        key_text(*self)
    }
}

impl ApiKey {
    /// Wraps a credential.
    pub fn new(value: String) -> (r: Self)
        ensures
            r@ == value@,
    {
        seal(value)
    }

    /// The raw credential. This is the only way to read it.
    pub fn expose_secret(&self) -> (r: &str)
        ensures
            r@ == self@,
    {
        expose(self)
    }

    /// What is shown in place of the credential.
    pub fn redacted(&self) -> (r: String)
        ensures
            r@ == "[REDACTED]"@,
    {
        String::from_str("[REDACTED]")
    }
}

impl Clone for ApiKey {
    fn clone(&self) -> (r: Self)
        ensures
            r@ == self@,
    {
        copy_secret(self)
    }
}

/// How a provider's credential was found.
#[derive(Debug, Clone, PartialEq)]
pub enum KeySource {
    /// A literal string in the configuration.
    Literal,
    /// `${VAR}` references expanded from the environment.
    EnvExpanded,
    /// Found under the conventional environment variable, whose name it holds.
    Convention(String),
    /// No credential.
    Missing,
}

/// Provider configuration.
#[derive(Debug, Clone)]
pub struct ProviderConfig {
    /// Unique name of the provider.
    pub name: String,
    /// Base URL of the provider's API.
    pub url: String,
    /// Credential, if any.
    pub api_key: Option<ApiKey>,
    /// Models the provider offers; empty means any model.
    pub models: Vec<String>,
    /// Input rate per 1000 tokens.
    pub input_rate: u64,
    /// Output rate per 1000 tokens.
    pub output_rate: u64,
    /// Fee per request.
    pub base_fee: u64,
}

/// A routing policy.
#[derive(Debug, Clone)]
pub struct PolicyRule {
    /// Name of the policy.
    pub name: String,
    /// Models the policy allows; empty means any model.
    pub allowed_models: Vec<String>,
    /// Routing strategy.
    pub strategy: String,
    /// Highest output rate a provider may have.
    pub max_sats_per_1k_output: Option<u64>,
    /// Keywords that select the policy when one occurs in the prompt.
    pub keywords: Vec<String>,
}

/// Policies configuration.
#[derive(Debug, Clone, Default)]
pub struct PoliciesConfig {
    /// Default routing strategy.
    pub default_strategy: String,
    /// Policy rules, in order of precedence.
    pub rules: Vec<PolicyRule>,
}

/// The routing strategy used unless told otherwise.
pub fn default_strategy() -> (r: String)
    ensures
        r@ == "cheapest"@,
{
    String::from_str("cheapest")
}

/// Logging configuration.
#[derive(Debug, Clone)]
pub struct LoggingConfig {
    /// Log level.
    pub level: String,
    /// Whether requests are logged to the database.
    pub log_requests: bool,
}

/// The log level used unless told otherwise.
pub fn default_log_level() -> (r: String)
    ensures
        r@ == "info"@,
{
    String::from_str("info")
}

/// The default of a switch that is on unless told otherwise.
pub fn default_true() -> (r: bool)
    ensures
        r,
{
    true
}

impl Default for LoggingConfig {
    fn default() -> (r: Self)
        ensures
            r.level@ == "info"@,
            r.log_requests,
    {
        Self { level: default_log_level(), log_requests: true }
    }
}

/// What can be wrong with a configuration.
#[derive(Debug)]
pub enum ConfigError {
    /// The file could not be read.
    Io { path: String, message: String },
    /// The text is not a configuration.
    Parse(String),
    /// The configuration breaks a rule.
    Validation(String),
    /// A reference to an environment variable could not be resolved.
    EnvVar { var: String, provider: String, message: String },
}

impl ConfigError {
    /// The sentence that describes the error.
    pub open spec fn message_text(self) -> Seq<char> {
        match self {
            ConfigError::Io { path, message } => "Failed to read config file '"@ + path@ + "': "@
                + message@,
            ConfigError::Parse(text) => "Failed to parse config: "@ + text@,
            ConfigError::Validation(text) => "Configuration validation error: "@ + text@,
            ConfigError::EnvVar { var, provider, message } => "Environment variable '"@ + var@
                + "' not set for provider '"@ + provider@ + "': "@ + message@,
        }
    }

    /// The error as a sentence.
    pub fn message(&self) -> (r: String)
        ensures
            r@ == self.message_text(),
    {
        match self {
            ConfigError::Io { path, message } => {
                let mut text = String::from_str("Failed to read config file '");
                text.append(path.as_str());
                text.append("': ");
                text.append(message.as_str());
                text
            },
            ConfigError::Parse(detail) => {
                let mut text = String::from_str("Failed to parse config: ");
                text.append(detail.as_str());
                text
            },
            ConfigError::Validation(detail) => {
                let mut text = String::from_str("Configuration validation error: ");
                text.append(detail.as_str());
                text
            },
            ConfigError::EnvVar { var, provider, message } => {
                let mut text = String::from_str("Environment variable '");
                text.append(var.as_str());
                text.append("' not set for provider '");
                text.append(provider.as_str());
                text.append("': ");
                text.append(message.as_str());
                text
            },
        }
    }
}

/// Provider configuration as it is written down: the credential may still
/// hold `${VAR}` references.
#[derive(Debug, Clone)]
pub struct RawProviderConfig {
    pub name: String,
    pub url: String,
    pub api_key: Option<String>,
    pub models: Vec<String>,
    pub input_rate: u64,
    pub output_rate: u64,
    pub base_fee: u64,
}

/// Configuration as it is written down.
#[derive(Debug, Clone)]
pub struct RawConfig {
    pub server: ServerConfig,
    pub database: Option<DatabaseConfig>,
    pub providers: Vec<RawProviderConfig>,
    pub policies: PoliciesConfig,
    pub logging: LoggingConfig,
}

/// Root of the configuration.
#[derive(Debug, Clone)]
pub struct Config {
    pub server: ServerConfig,
    pub database: Option<DatabaseConfig>,
    pub providers: Vec<ProviderConfig>,
    pub policies: PoliciesConfig,
    pub logging: LoggingConfig,
}

/// A name in upper snake case: every character that is neither a letter nor
/// a digit becomes an underscore.
pub open spec fn snake(name: Seq<char>) -> Seq<char> {
    name.map_values(
        |c: char|
            if alphanumeric(c) {
                c
            } else {
                '_'
            },
    )
}

/// The name of the environment variable that holds a provider's credential
/// by convention.
pub open spec fn convention_name(provider_name: Seq<char>) -> Seq<char> {
    "ARBSTR_"@ + snake(uppercase_of(provider_name)) + "_API_KEY"@
}

/// The conventional environment variable for a provider's credential:
/// `ARBSTR_<NAME>_API_KEY`, with the name in upper snake case.
pub fn convention_env_var_name(provider_name: &str) -> (r: String)
    ensures
        r@ == convention_name(provider_name@),
{
    let upper = uppercase(provider_name);
    let chars = chars_of(upper.as_str());
    let mut mapped: Vec<char> = Vec::new();
    let mut i: usize = 0;
    while i < chars.len()
        invariant
            i <= chars@.len(),
            mapped@ == snake(chars@.take(i as int)),
        decreases chars@.len() - i,
    {
        let c = chars[i];
        let kept = if is_alphanumeric(c) {
            c
        } else {
            '_'
        };
        mapped.push(kept);
        assert(mapped@ =~= snake(chars@.take(i + 1)));
        i += 1;
    }
    assert(chars@.take(i as int) =~= chars@);
    let middle = string_of(mapped.as_slice());
    let mut name = String::from_str("ARBSTR_");
    name.append(middle.as_str());
    name.append("_API_KEY");
    name
}

/// Whether a file mode lets anyone but the owner read, write or run the
/// file: one of the bits for the group or for others is set.
pub open spec fn readable_beyond_owner(mode: u32) -> bool {
    mode & 0o077 != 0
}

/// Whether a configuration file with this mode is open to others than its
/// owner.
pub fn permissions_too_wide(mode: u32) -> (r: bool)
    ensures
        r == readable_beyond_owner(mode),
{
    mode & 0o077 != 0
}

/// The message for a provider without a URL.
pub open spec fn empty_url_message(provider: Seq<char>) -> Seq<char> {
    "Provider '"@ + provider + "' has empty URL"@
}

/// The index of the first provider without a URL, or the number of
/// providers if each has one.
pub open spec fn first_without_url(providers: Seq<ProviderConfig>, from: int) -> int
    decreases providers.len() - from,
{
    if from < 0 || from >= providers.len() {
        providers.len() as int
    } else if providers[from].url@.len() == 0 {
        from
    } else {
        first_without_url(providers, from + 1)
    }
}

impl Config {
    /// Checks the configuration: every provider has a URL. The error names
    /// the first provider that has none.
    pub fn validate(&self) -> (r: Result<(), ConfigError>)
        ensures
            ({
                let at = first_without_url(self.providers@, 0);
                match r {
                    Ok(_) => at == self.providers@.len(),
                    Err(e) => {
                        &&& at < self.providers@.len()
                        &&& e matches ConfigError::Validation(text)
                        &&& text@ == empty_url_message(self.providers@[at].name@)
                    },
                }
            }),
    {
        let mut i: usize = 0;
        while i < self.providers.len()
            invariant
                i <= self.providers@.len(),
                first_without_url(self.providers@, 0) == first_without_url(
                    self.providers@,
                    i as int,
                ),
            decreases self.providers@.len() - i,
        {
            if self.providers[i].url.as_str().is_empty() {
                let mut text = String::from_str("Provider '");
                text.append(self.providers[i].name.as_str());
                text.append("' has empty URL");
                return Err(ConfigError::Validation(text));
            }
            i += 1;
        }
        Ok(())
    }

    /// The database configuration, with the default path where none is
    /// given.
    pub fn database(&self) -> (r: DatabaseConfig)
        ensures
            r.path@ == match self.database {
                Some(d) => d.path@,
                None => "./arbstr.db"@,
            },
    {
        match &self.database {
            Some(d) => DatabaseConfig { path: d.path.clone() },
            None => DatabaseConfig { path: default_db_path() },
        }
    }
}

impl KeySource {
    /// The words for the source.
    pub open spec fn label_text(self) -> Seq<char> {
        match self {
            KeySource::Literal => "config-literal"@,
            KeySource::EnvExpanded => "env-expanded"@,
            KeySource::Convention(var) => "convention ("@ + var@ + ")"@,
            KeySource::Missing => "none"@,
        }
    }

    /// The source in words.
    pub fn label(&self) -> (r: String)
        ensures
            r@ == self.label_text(),
    {
        match self {
            KeySource::Literal => String::from_str("config-literal"),
            KeySource::EnvExpanded => String::from_str("env-expanded"),
            KeySource::Convention(var) => {
                let mut text = String::from_str("convention (");
                text.append(var.as_str());
                text.append(")");
                text
            },
            KeySource::Missing => String::from_str("none"),
        }
    }
}

/// What comes of expanding the `${VAR}` references of a text.
pub ghost enum Expansion {
    /// Every reference was resolved; this is the text with the values in
    /// their place.
    Text(Seq<char>),
    /// A `${` has no `}` after it.
    Unclosed,
    /// A reference has no name: `${}`.
    EmptyName,
    /// The variable of this name has no value.
    Missing(Seq<char>),
}

/// The index of the first `${` at or after `from`, or the length of the text
/// if there is none.
pub open spec fn find_open(text: Seq<char>, from: int) -> int
    decreases text.len() - from,
{
    if from < 0 || from + 1 >= text.len() {
        text.len() as int
    } else if text[from] == '$' && text[from + 1] == '{' {
        from
    } else {
        find_open(text, from + 1)
    }
}

/// The index of the first `}` at or after `from`, or the length of the text
/// if there is none.
pub open spec fn find_close(text: Seq<char>, from: int) -> int
    decreases text.len() - from,
{
    if from < 0 || from >= text.len() {
        text.len() as int
    } else if text[from] == '}' {
        from
    } else {
        find_close(text, from + 1)
    }
}

/// An expansion with more text in front of it.
pub open spec fn prepend(prefix: Seq<char>, rest: Expansion) -> Expansion {
    match rest {
        Expansion::Text(t) => Expansion::Text(prefix + t),
        other => other,
    }
}

/// What comes of a text that begins with `prefix` and a reference to `name`:
/// without a value the variable is missing; with one, the prefix and the
/// value stand in front of what the rest of the text expands to.
pub open spec fn resolved(
    name: Seq<char>,
    prefix: Seq<char>,
    value: Option<String>,
    rest: Expansion,
) -> Expansion {
    match value {
        None => Expansion::Missing(name),
        Some(v) => prepend(prefix + v@, rest),
    }
}

/// `out` is what comes of expanding `text` from `from` on, with the values
/// that `lookup` gives. References are resolved from left to right, and the
/// first one that cannot be resolved decides the outcome.
pub open spec fn expands<F: Fn(&str) -> Option<String>>(
    text: Seq<char>,
    from: int,
    lookup: F,
    out: Expansion,
) -> bool
    decreases text.len() - from,
{
    let start = find_open(text, from);
    if from < 0 || start >= text.len() || start < from {
        out == Expansion::Text(text.subrange(from, text.len() as int))
    } else {
        let end = find_close(text, start + 2);
        if end >= text.len() || end < start + 2 {
            out == Expansion::Unclosed
        } else if end == start + 2 {
            out == Expansion::EmptyName
        } else {
            let name = text.subrange(start + 2, end);
            exists|key: &str, value: Option<String>, rest: Expansion|
                #![trigger lookup.ensures((key,), value), resolved(name, text.subrange(from, start), value, rest)]
                key@ == name && lookup.ensures((key,), value) && (value is Some ==> expands(
                    text,
                    end + 1,
                    lookup,
                    rest,
                )) && out == resolved(name, text.subrange(from, start), value, rest)
        }
    }
}

/// The message for a missing variable.
pub open spec fn missing_message(var: Seq<char>, provider: Seq<char>) -> Seq<char> {
    "Environment variable '"@ + var + "' is not set (referenced in provider '"@ + provider + "')"@
}

/// The message for an unclosed reference.
pub open spec fn unclosed_message(text: Seq<char>) -> Seq<char> {
    "Unclosed '${' in config value: "@ + text
}

/// Whether `r` reports the expansion `out` of `text` for `provider`.
pub open spec fn reports_expansion(
    r: Result<String, ConfigError>,
    out: Expansion,
    text: Seq<char>,
    provider: Seq<char>,
) -> bool {
    match out {
        Expansion::Text(t) => r matches Ok(s) && s@ == t,
        Expansion::Unclosed => {
            &&& r matches Err(ConfigError::EnvVar { var, provider: p, message })
            &&& var@ == "<unclosed>"@
            &&& p@ == provider
            &&& message@ == unclosed_message(text)
        },
        Expansion::EmptyName => {
            &&& r matches Err(ConfigError::EnvVar { var, provider: p, message })
            &&& var@ == ""@
            &&& p@ == provider
            &&& message@ == "Empty variable name in '${}' reference"@
        },
        Expansion::Missing(name) => {
            &&& r matches Err(ConfigError::EnvVar { var, provider: p, message })
            &&& var@ == name
            &&& p@ == provider
            &&& message@ == missing_message(name, provider)
        },
    }
}

/// One resolved reference: what follows it expands to `rest`, so the text
/// from `from` on expands to the text before the reference, the value, and
/// `rest`.
proof fn lemma_expands_step<F: Fn(&str) -> Option<String>>(
    text: Seq<char>,
    from: int,
    lookup: F,
    key: &str,
    found: String,
    rest: Expansion,
)
    requires
        0 <= from <= find_open(text, from) < text.len(),
        find_open(text, from) + 2 < find_close(text, find_open(text, from) + 2) < text.len(),
        key@ == text.subrange(
            find_open(text, from) + 2,
            find_close(text, find_open(text, from) + 2),
        ),
        lookup.ensures((key,), Some(found)),
        expands(text, find_close(text, find_open(text, from) + 2) + 1, lookup, rest),
    ensures
        expands(
            text,
            from,
            lookup,
            prepend(text.subrange(from, find_open(text, from)) + found@, rest),
        ),
{
    let start = find_open(text, from);
    let end = find_close(text, start + 2);
    let name = text.subrange(start + 2, end);
    let out = resolved(name, text.subrange(from, start), Some(found), rest);
    assert(out == prepend(text.subrange(from, start) + found@, rest));
}

/// Finds the first `${` at or after `from`.
fn locate_open(chars: &Vec<char>, from: usize) -> (r: usize)
    requires
        from <= chars@.len(),
    ensures
        r == find_open(chars@, from as int),
        from <= r <= chars@.len(),
        r < chars@.len() ==> r + 1 < chars@.len(),
{
    let mut i: usize = from;
    while i < chars.len() && i + 1 < chars.len()
        invariant
            from <= i <= chars@.len(),
            find_open(chars@, from as int) == find_open(chars@, i as int),
        decreases chars@.len() - i,
    {
        if chars[i] == '$' && chars[i + 1] == '{' {
            return i;
        }
        i += 1;
    }
    chars.len()
}

/// Finds the first `}` at or after `from`.
fn locate_close(chars: &Vec<char>, from: usize) -> (r: usize)
    requires
        from <= chars@.len(),
    ensures
        r == find_close(chars@, from as int),
        from <= r <= chars@.len(),
{
    let mut i: usize = from;
    while i < chars.len()
        invariant
            from <= i <= chars@.len(),
            find_close(chars@, from as int) == find_close(chars@, i as int),
        decreases chars@.len() - i,
    {
        if chars[i] == '}' {
            return i;
        }
        i += 1;
    }
    chars.len()
}

/// Appends `piece` to `acc`.
fn append_chars(acc: &mut Vec<char>, piece: &[char])
    ensures
        final(acc)@ == old(acc)@ + piece@,
{
    let ghost before = acc@;
    let mut i: usize = 0;
    while i < piece.len()
        invariant
            i <= piece@.len(),
            acc@ == before + piece@.take(i as int),
        decreases piece@.len() - i,
    {
        acc.push(piece[i]);
        assert(before + piece@.take(i + 1) =~= (before + piece@.take(i as int)).push(
            piece@[i as int],
        ));
        i += 1;
    }
    assert(piece@.take(i as int) =~= piece@);
}

/// Expands every `${VAR}` reference in `input` with the value that `lookup`
/// gives for `VAR`. A text without a reference is returned as it is. The
/// expansion fails at the first reference that is unclosed, has no name, or
/// names a variable without a value; `provider_name` is named in the error.
pub fn expand_env_vars_with<F>(input: &str, provider_name: &str, lookup: F) -> (r: Result<
    String,
    ConfigError,
>) where F: Fn(&str) -> Option<String>
    requires
        forall|name: &str| lookup.requires((name,)),
    ensures
        exists|out: Expansion|
            #![trigger expands(input@, 0, lookup, out)]
            expands(input@, 0, lookup, out) && reports_expansion(
                r,
                out,
                input@,
                provider_name@,
            ),
{
    expand_with(input, provider_name, &lookup)
}

/// Expands the references of `input`, with a borrowed lookup.
fn expand_with<F>(input: &str, provider_name: &str, lookup: &F) -> (r: Result<
    String,
    ConfigError,
>) where F: Fn(&str) -> Option<String>
    requires
        forall|name: &str| lookup.requires((name,)),
    ensures
        exists|out: Expansion|
            #![trigger expands(input@, 0, *lookup, out)]
            expands(input@, 0, *lookup, out) && reports_expansion(
                r,
                out,
                input@,
                provider_name@,
            ),
{
    let chars = chars_of(input);
    let n = chars.len();
    let mut acc: Vec<char> = Vec::new();
    let mut pos: usize = 0;
    loop
        invariant
            pos <= n,
            n == chars@.len(),
            chars@ == input@,
            forall|name: &str| lookup.requires((name,)),
            forall|rest: Expansion|
                #![trigger expands(chars@, pos as int, *lookup, rest)]
                expands(chars@, pos as int, *lookup, rest) ==> expands(
                    chars@,
                    0,
                    *lookup,
                    prepend(acc@, rest),
                ),
        decreases n - pos,
    {
        let start = locate_open(&chars, pos);
        if start >= n {
            let tail = vstd::slice::slice_subrange(chars.as_slice(), pos, n);
            let ghost last = Expansion::Text(chars@.subrange(pos as int, n as int));
            assert(expands(chars@, pos as int, *lookup, last));
            append_chars(&mut acc, tail);
            let text = string_of(acc.as_slice());
            assert(expands(input@, 0, *lookup, Expansion::Text(text@)));
            return Ok(text);
        }
        let end = locate_close(&chars, start + 2);
        if end >= n {
            assert(expands(chars@, pos as int, *lookup, Expansion::Unclosed));
            assert(expands(input@, 0, *lookup, Expansion::Unclosed));
            let mut message = String::from_str("Unclosed '${' in config value: ");
            message.append(input);
            return Err(
                ConfigError::EnvVar {
                    var: String::from_str("<unclosed>"),
                    provider: String::from_str(provider_name),
                    message,
                },
            );
        }
        if end == start + 2 {
            assert(expands(chars@, pos as int, *lookup, Expansion::EmptyName));
            assert(expands(input@, 0, *lookup, Expansion::EmptyName));
            return Err(
                ConfigError::EnvVar {
                    var: String::from_str(""),
                    provider: String::from_str(provider_name),
                    message: String::from_str("Empty variable name in '${}' reference"),
                },
            );
        }
        let name = string_of(vstd::slice::slice_subrange(chars.as_slice(), start + 2, end));
        let ghost name_chars = chars@.subrange(start + 2, end as int);
        let key: &str = name.as_str();
        let value = lookup(key);
        match value {
            None => {
                assert(lookup.ensures((key,), value));
                assert(resolved(
                    name_chars,
                    chars@.subrange(pos as int, start as int),
                    value,
                    Expansion::Unclosed,
                ) == Expansion::Missing(name_chars));
                assert(expands(chars@, pos as int, *lookup, Expansion::Missing(name_chars)));
                assert(expands(input@, 0, *lookup, Expansion::Missing(name_chars)));
                let mut message = String::from_str("Environment variable '");
                message.append(name.as_str());
                message.append("' is not set (referenced in provider '");
                message.append(provider_name);
                message.append("')");
                return Err(
                    ConfigError::EnvVar {
                        var: name,
                        provider: String::from_str(provider_name),
                        message,
                    },
                );
            },
            Some(found) => {
                let ghost before = acc@;
                let ghost literal = chars@.subrange(pos as int, start as int);
                let found_chars = chars_of(found.as_str());
                append_chars(&mut acc, vstd::slice::slice_subrange(chars.as_slice(), pos, start));
                append_chars(&mut acc, found_chars.as_slice());
                proof {
                    assert forall|rest: Expansion|
                        #![trigger expands(chars@, end + 1, *lookup, rest)]
                        expands(chars@, end + 1, *lookup, rest) implies expands(
                        chars@,
                        0,
                        *lookup,
                        prepend(acc@, rest),
                    ) by {
                        let step = prepend(literal + found@, rest);
                        assert(lookup.ensures((key,), value));
                        assert(key@ == name_chars);
                        assert(value == Some(found));
                        assert(find_open(chars@, pos as int) == start);
                        assert(find_close(chars@, start + 2) == end);
                        assert(expands(chars@, end + 1, *lookup, rest) && step == prepend(
                            chars@.subrange(pos as int, start as int) + found@,
                            rest,
                        ));
                        lemma_expands_step(chars@, pos as int, *lookup, key, found, rest);
                        assert(expands(chars@, pos as int, *lookup, step));
                        assert(expands(chars@, 0, *lookup, prepend(before, step)));
                        match rest {
                            Expansion::Text(t) => {
                                assert(before + (literal + found@ + t) =~= acc@ + t);
                            },
                            _ => {},
                        }
                        assert(prepend(before, step) == prepend(acc@, rest));
                    }
                }
                pos = end + 1;
            },
        }
    }
}

/// The text of a credential, if there is one.
pub open spec fn credential(key: Option<ApiKey>) -> Option<Seq<char>> {
    match key {
        Some(k) => Some(k@),
        None => None,
    }
}

/// The credential of a provider was resolved to `key`, from `source`:
/// a credential with `${` in it is expanded; any other one is taken as it
/// is; without one, the variable named by convention is looked up.
pub open spec fn key_resolved<F: Fn(&str) -> Option<String>>(
    raw: RawProviderConfig,
    lookup: F,
    key: Option<Seq<char>>,
    source: KeySource,
) -> bool {
    match raw.api_key {
        Some(text) => if occurs_in("${"@, text@) {
            source == KeySource::EnvExpanded && key is Some && expands(
                text@,
                0,
                lookup,
                Expansion::Text(key.unwrap()),
            )
        } else {
            source == KeySource::Literal && key == Some(text@)
        },
        None => exists|var: &str, value: Option<String>|
            #![trigger lookup.ensures((var,), value)]
            var@ == convention_name(raw.name@) && lookup.ensures((var,), value) && match value {
                Some(v) => key == Some(v@) && source is Convention && source->Convention_0@
                    == var@,
                None => key is None && source is Missing,
            },
    }
}

/// The credential of a provider can be resolved with `lookup`.
pub open spec fn key_resolvable<F: Fn(&str) -> Option<String>>(
    raw: RawProviderConfig,
    lookup: F,
) -> bool {
    exists|key: Option<Seq<char>>, source: KeySource|
        #![trigger key_resolved(raw, lookup, key, source)]
        key_resolved(raw, lookup, key, source)
}

/// The credential of a provider could not be resolved, and `e` says why.
pub open spec fn key_failed<F: Fn(&str) -> Option<String>>(
    raw: RawProviderConfig,
    lookup: F,
    e: ConfigError,
) -> bool {
    &&& raw.api_key is Some
    &&& occurs_in("${"@, raw.api_key.unwrap()@)
    &&& exists|out: Expansion|
        #![trigger expands(raw.api_key.unwrap()@, 0, lookup, out)]
        expands(raw.api_key.unwrap()@, 0, lookup, out) && !(out is Text) && reports_expansion(
            Err(e),
            out,
            raw.api_key.unwrap()@,
            raw.name@,
        )
}

/// `p` is the provider `raw` with its credential resolved from `source`.
pub open spec fn provider_resolved<F: Fn(&str) -> Option<String>>(
    raw: RawProviderConfig,
    lookup: F,
    p: ProviderConfig,
    source: (String, KeySource),
) -> bool {
    &&& p.name@ == raw.name@
    &&& p.url@ == raw.url@
    &&& p.models@ == raw.models@
    &&& p.input_rate == raw.input_rate
    &&& p.output_rate == raw.output_rate
    &&& p.base_fee == raw.base_fee
    &&& source.0@ == raw.name@
    &&& key_resolved(raw, lookup, credential(p.api_key), source.1)
}

/// Copies a list of words.
fn copy_words(words: &Vec<String>) -> (r: Vec<String>)
    ensures
        r@ == words@,
{
    let mut out: Vec<String> = Vec::new();
    let mut i: usize = 0;
    while i < words.len()
        invariant
            i <= words@.len(),
            out@ == words@.take(i as int),
        decreases words@.len() - i,
    {
        out.push(words[i].clone());
        assert(out@ =~= words@.take(i + 1));
        i += 1;
    }
    assert(words@.take(i as int) =~= words@);
    out
}

/// Resolves the credential of one provider.
fn resolve_key<F>(raw: &RawProviderConfig, lookup: &F) -> (r: Result<
    (Option<ApiKey>, KeySource),
    ConfigError,
>) where F: Fn(&str) -> Option<String>
    requires
        forall|name: &str| lookup.requires((name,)),
    ensures
        match r {
            Ok(found) => key_resolved(*raw, *lookup, credential(found.0), found.1),
            Err(e) => key_failed(*raw, *lookup, e),
        },
{
    match &raw.api_key {
        Some(text) => {
            if contains(text.as_str(), "${") {
                let expanded = expand_with(text.as_str(), raw.name.as_str(), lookup);
                let ghost out = choose|out: Expansion|
                    expands(text@, 0, *lookup, out) && reports_expansion(
                        expanded,
                        out,
                        text@,
                        raw.name@,
                    );
                match expanded {
                    Ok(value) => Ok((Some(ApiKey::new(value)), KeySource::EnvExpanded)),
                    Err(e) => {
                        assert(expands(raw.api_key.unwrap()@, 0, *lookup, out));
                        Err(e)
                    },
                }
            } else {
                Ok((Some(ApiKey::new(text.clone())), KeySource::Literal))
            }
        },
        None => {
            let var = convention_env_var_name(raw.name.as_str());
            let key: &str = var.as_str();
            let value = lookup(key);
            assert(lookup.ensures((key,), value));
            match value {
                Some(found) => Ok((Some(ApiKey::new(found)), KeySource::Convention(var))),
                None => Ok((None, KeySource::Missing)),
            }
        },
    }
}

impl Config {
    /// Turns a configuration as it is written down into one that can be
    /// used, resolving each provider's credential with `lookup`, which
    /// gives the value of an environment variable. The providers keep their
    /// order; the second result names, for each, where its credential came
    /// from. The first credential that cannot be resolved is the error.
    pub fn from_raw<F>(raw: RawConfig, lookup: F) -> (r: Result<
        (Config, Vec<(String, KeySource)>),
        ConfigError,
    >) where F: Fn(&str) -> Option<String>
        requires
            forall|name: &str| lookup.requires((name,)),
        ensures
            match r {
                Ok(done) => {
                    &&& done.0.server == raw.server
                    &&& done.0.database == raw.database
                    &&& done.0.policies == raw.policies
                    &&& done.0.logging == raw.logging
                    &&& done.0.providers@.len() == raw.providers@.len()
                    &&& done.1@.len() == raw.providers@.len()
                    &&& forall|i: int|
                        0 <= i < raw.providers@.len() ==> provider_resolved(
                            #[trigger] raw.providers@[i],
                            lookup,
                            done.0.providers@[i],
                            done.1@[i],
                        )
                },
                Err(e) => exists|i: int|
                    #![trigger raw.providers@[i]]
                    {
                        &&& 0 <= i < raw.providers@.len()
                        &&& key_failed(raw.providers@[i], lookup, e)
                        &&& forall|k: int|
                            0 <= k < i ==> key_resolvable(#[trigger] raw.providers@[k], lookup)
                    },
            },
    {
        let mut providers: Vec<ProviderConfig> = Vec::new();
        let mut key_sources: Vec<(String, KeySource)> = Vec::new();
        let mut i: usize = 0;
        while i < raw.providers.len()
            invariant
                i <= raw.providers@.len(),
                providers@.len() == i,
                key_sources@.len() == i,
                forall|name: &str| lookup.requires((name,)),
                forall|k: int|
                    0 <= k < i ==> provider_resolved(
                        #[trigger] raw.providers@[k],
                        lookup,
                        providers@[k],
                        key_sources@[k],
                    ),
            decreases raw.providers@.len() - i,
        {
            let rp = &raw.providers[i];
            match resolve_key(rp, &lookup) {
                Err(e) => {
                    assert forall|k: int| 0 <= k < i implies key_resolvable(
                        #[trigger] raw.providers@[k],
                        lookup,
                    ) by {
                        assert(provider_resolved(
                            raw.providers@[k],
                            lookup,
                            providers@[k],
                            key_sources@[k],
                        ));
                        assert(key_resolved(
                            raw.providers@[k],
                            lookup,
                            credential(providers@[k].api_key),
                            key_sources@[k].1,
                        ));
                    }
                    return Err(e);
                },
                Ok((api_key, source)) => {
                    key_sources.push((rp.name.clone(), source));
                    providers.push(
                        ProviderConfig {
                            name: rp.name.clone(),
                            url: rp.url.clone(),
                            api_key,
                            models: copy_words(&rp.models),
                            input_rate: rp.input_rate,
                            output_rate: rp.output_rate,
                            base_fee: rp.base_fee,
                        },
                    );
                },
            }
            i += 1;
        }
        let config = Config {
            server: raw.server,
            database: raw.database,
            providers,
            policies: raw.policies,
            logging: raw.logging,
        };
        Ok((config, key_sources))
    }
}

} // verus!
