//! The settings of the broker, read from text.

use vstd::prelude::*;

verus! {

/// The settings of the broker.
#[derive(Debug)]
pub struct Config {
    pub api_key: String,
    pub postgres_user: String,
    pub postgres_password: String,
    pub postgres_host: String,
    pub postgres_port: u32,
    pub postgres_db: String,
    pub downloader_api_key: String,
    pub downloader_url: String,
    pub library_api_key: String,
    pub library_url: String,
    pub files_api_key: String,
    pub files_url: String,
    pub bot_tokens: Vec<String>,
    pub temp_channel_id: i64,
    pub sentry_dsn: String,
}

/// The settings as text, one for each, as the surroundings give them.
#[derive(Debug)]
pub struct RawConfig {
    pub api_key: String,
    pub postgres_user: String,
    pub postgres_password: String,
    pub postgres_host: String,
    pub postgres_port: String,
    pub postgres_db: String,
    pub downloader_api_key: String,
    pub downloader_url: String,
    pub library_api_key: String,
    pub library_url: String,
    pub files_api_key: String,
    pub files_url: String,
    pub bot_tokens: String,
    pub temp_channel_id: String,
    pub sentry_dsn: String,
}

/// The setting that could not be read.
#[derive(Debug, Clone, Copy, PartialEq, Eq, Structural)]
pub enum ConfigError {
    /// The port of the database is no number that fits.
    PostgresPort,
    /// The tokens are no JSON list of strings.
    BotTokens,
    /// The staging conversation is no number that fits.
    TempChannelId,
}

/// The error of serde_json, carried through as it is.
#[verifier::external_type_specification]
#[verifier::external_body]
pub struct ExJsonError(serde_json::Error);

/// The list of strings that a text spells in JSON, or `None` where it
/// spells none.
pub uninterp spec fn json_string_list(text: Seq<char>) -> Option<Seq<Seq<char>>>;

/// `from_str` of serde_json, for a list of strings. Trusted: it yields the
/// list that `json_string_list` names for the text and fails exactly where
/// that names none.
#[verifier::external_body]
fn parse_string_list(text: &str) -> (list: Result<Vec<String>, serde_json::Error>)
    ensures
        list matches Ok(items) ==> json_string_list(text@) == Some(items.deep_view()),
        list is Err ==> json_string_list(text@) is None,
{
    serde_json::from_str::<Vec<String>>(text)
}

/// Whether the text is one decimal digit or more, and nothing else.
pub open spec fn all_digits(text: Seq<char>) -> bool {
    text.len() > 0 && forall|i: int| 0 <= i < text.len() ==> '0' <= #[trigger] text[i] <= '9'
}

/// The number that decimal digits spell.
pub open spec fn digits_value(digits: Seq<char>) -> nat
    decreases digits.len(),
{
    if digits.len() == 0 {
        0
    } else {
        (digits_value(digits.drop_last()) * 10 + (digits.last() as nat - '0' as nat)) as nat
    }
}

/// The number that a text spells in decimal, with `+` or nothing before a
/// number that is not negative and, where `signed` holds, `-` before one
/// that is; `None` where the text spells no number.
pub open spec fn decimal(text: Seq<char>, signed: bool) -> Option<int> {
    if text.len() > 0 && text[0] == '+' {
        if all_digits(text.skip(1)) {
            Some(digits_value(text.skip(1)) as int)
        } else {
            None
        }
    } else if signed && text.len() > 0 && text[0] == '-' {
        if all_digits(text.skip(1)) {
            Some(-(digits_value(text.skip(1)) as int))
        } else {
            None
        }
    } else if all_digits(text) {
        Some(digits_value(text) as int)
    } else {
        None
    }
}

/// `str::parse` for `u32`. Trusted: the text is read as decimal digits
/// with at most a `+` before them, and gives a number exactly where it
/// spells one that fits.
#[verifier::external_body]
fn parse_u32(text: &str) -> (number: Option<u32>)
    ensures
        number matches Some(n) ==> decimal(text@, false) == Some(n as int),
        number is None ==> !(decimal(text@, false) matches Some(n) && n <= u32::MAX),
{
    text.parse::<u32>().ok()
}

/// `str::parse` for `i64`. Trusted: the text is read as decimal digits
/// with at most a `+` or `-` before them, and gives a number exactly where
/// it spells one that fits.
#[verifier::external_body]
fn parse_i64(text: &str) -> (number: Option<i64>)
    ensures
        number matches Some(n) ==> decimal(text@, true) == Some(n as int),
        number is None ==> !(decimal(text@, true) matches Some(n) && i64::MIN <= n <= i64::MAX),
{
    text.parse::<i64>().ok()
}

/// What reading `raw` comes to: the first setting that cannot be read, in
/// the order port, tokens, staging conversation, or the three values read.
pub open spec fn parsed(raw: RawConfig) -> Result<(int, Seq<Seq<char>>, int), ConfigError> {
    let port = decimal(raw.postgres_port@, false);
    let tokens = json_string_list(raw.bot_tokens@);
    let channel = decimal(raw.temp_channel_id@, true);
    if !(port matches Some(n) && n <= u32::MAX) {
        Err(ConfigError::PostgresPort)
    } else if tokens is None {
        Err(ConfigError::BotTokens)
    } else if !(channel matches Some(n) && i64::MIN <= n <= i64::MAX) {
        Err(ConfigError::TempChannelId)
    } else {
        Ok((port->0, tokens->0, channel->0))
    }
}

impl Config {
    /// The settings with the three that are not text as given.
    pub fn assemble(raw: RawConfig, postgres_port: u32, bot_tokens: Vec<String>, temp_channel_id: i64) -> (config:
        Config)
        ensures
            config.postgres_port == postgres_port,
            config.bot_tokens == bot_tokens,
            config.temp_channel_id == temp_channel_id,
            config.api_key == raw.api_key,
            config.postgres_user == raw.postgres_user,
            config.postgres_password == raw.postgres_password,
            config.postgres_host == raw.postgres_host,
            config.postgres_db == raw.postgres_db,
            config.downloader_api_key == raw.downloader_api_key,
            config.downloader_url == raw.downloader_url,
            config.library_api_key == raw.library_api_key,
            config.library_url == raw.library_url,
            config.files_api_key == raw.files_api_key,
            config.files_url == raw.files_url,
            config.sentry_dsn == raw.sentry_dsn,
    {
        Config {
            api_key: raw.api_key,
            postgres_user: raw.postgres_user,
            postgres_password: raw.postgres_password,
            postgres_host: raw.postgres_host,
            postgres_port,
            postgres_db: raw.postgres_db,
            downloader_api_key: raw.downloader_api_key,
            downloader_url: raw.downloader_url,
            library_api_key: raw.library_api_key,
            library_url: raw.library_url,
            files_api_key: raw.files_api_key,
            files_url: raw.files_url,
            bot_tokens,
            temp_channel_id,
            sentry_dsn: raw.sentry_dsn,
        }
    }

    /// Reads the settings: the port of the database and the staging
    /// conversation as decimal numbers, the tokens as a JSON list of
    /// strings, everything else as it stands.
    pub fn parse(raw: RawConfig) -> (config: Result<Config, ConfigError>)
        ensures
            match parsed(raw) {
                Ok((port, tokens, channel)) => config matches Ok(c) && c.postgres_port == port
                    && c.bot_tokens.deep_view() == tokens && c.temp_channel_id == channel
                    && c.api_key == raw.api_key && c.postgres_user == raw.postgres_user
                    && c.postgres_password == raw.postgres_password && c.postgres_host
                    == raw.postgres_host && c.postgres_db == raw.postgres_db
                    && c.downloader_api_key == raw.downloader_api_key && c.downloader_url
                    == raw.downloader_url && c.library_api_key == raw.library_api_key
                    && c.library_url == raw.library_url && c.files_api_key == raw.files_api_key
                    && c.files_url == raw.files_url && c.sentry_dsn == raw.sentry_dsn,
                Err(e) => config matches Err(f) && f == e,
            },
    {
        let postgres_port = match parse_u32(raw.postgres_port.as_str()) {
            Some(port) => port,
            None => return Err(ConfigError::PostgresPort),
        };
        let bot_tokens = match parse_string_list(raw.bot_tokens.as_str()) {
            Ok(tokens) => tokens,
            Err(_) => return Err(ConfigError::BotTokens),
        };
        let temp_channel_id = match parse_i64(raw.temp_channel_id.as_str()) {
            Some(channel) => channel,
            None => return Err(ConfigError::TempChannelId),
        };
        Ok(Config::assemble(raw, postgres_port, bot_tokens, temp_channel_id))
    }

    /// Whether a caller who sent `authorization` may use the broker: the
    /// header must be there and be the key of the broker, letter for
    /// letter.
    pub fn authorizes(&self, authorization: Option<&str>) -> (allowed: bool)
        ensures
            allowed == (authorization matches Some(sent) && sent@ == self.api_key@),
    {
        match authorization {
            Some(sent) => sent.to_owned() == self.api_key,
            None => false,
        }
    }
}

} // verus!
