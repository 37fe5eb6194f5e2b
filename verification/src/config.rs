//! What the data-access core is set up with.

use vstd::prelude::*;
use vstd::string::*;
use crate::collections::str_eq;
use crate::cursor::{digits_value, is_digit};

verus! {

/// Where the primary store is and how to sign in to it.
#[derive(Debug, Clone, Copy)]
pub struct DatabaseCredentials<'a> {
    pub db_dsn: &'a str,
    pub db_user: &'a str,
    pub db_pass: &'a str,
    pub db_ns: &'a str,
    pub db: &'a str,
}

/// Where the cache is and how long its entries live.
#[derive(Debug, Clone, Copy)]
pub struct RedisConfig<'a> {
    pub redis_dsn: &'a str,
    pub clustered: bool,
    pub pool_size: u16,
    /// The time that a new entry lives.
    pub ttl: u64,
}

/// Where the sibling services are that own users and categories.
#[derive(Debug, Clone, Copy)]
pub struct Apis<'a> {
    pub users: &'a str,
    pub categories: &'a str,
}

/// Why the client of the stores could not be set up.
#[derive(Debug, Clone, PartialEq, Eq)]
pub enum ClientError {
    /// The primary store reported an error.
    Engine(String),
    /// The data for a key is not available.
    Redaction(String),
    /// The object storage reported an error.
    Bucket(String),
    /// A header was not what was expected.
    InvalidHeader { expected: String, found: String },
    /// Any other failure of a store.
    Unknown,
}

/// Why the schema of the API could not be set up.
#[derive(Debug, Clone, PartialEq, Eq)]
pub enum SchemaError {
    /// The client of the stores could not be set up.
    DatabaseError(ClientError),
}

impl<'a> RedisConfig<'a> {
    /// The time that entries live, for a cache that may not be configured.
    pub fn ttl_of(config: Option<RedisConfig<'a>>) -> (ttl: Option<u64>)
        ensures
            ttl == match config {
                Some(c) => Some(c.ttl),
                None => None,
            },
    {
        match config {
            Some(c) => Some(c.ttl),
            None => None,
        }
    }
}

impl SchemaError {
    /// Wraps the error of the client.
    pub fn from_client(error: ClientError) -> (r: SchemaError)
        ensures
            r == SchemaError::DatabaseError(error),
    {
        SchemaError::DatabaseError(error)
    }
}

/// The port that the server listens on where none is given.
pub const DEFAULT_PORT: u16 = 3001;

/// The size of the connection pool where none is given.
pub const DEFAULT_POOL_SIZE: u16 = 10;

/// The time that cache entries live where none is given.
pub const DEFAULT_CACHE_TTL: u64 = 5000;

/// What the server is run with, as far as it is read from texts.
#[derive(Debug, Clone, Copy, PartialEq, Eq, Structural)]
pub struct Settings {
    pub port: u16,
    pub pool_size: u16,
    /// The time that a new cache entry lives.
    pub cache_ttl: u64,
}

/// Why the settings could not be read.
#[derive(Debug, Clone, PartialEq, Eq)]
pub enum ConfigError {
    /// The text given for the port is no port.
    InvalidPort(String),
}

/// The number that a text denotes where the text is an unsigned decimal
/// number: an optional plus sign, then one digit or more and nothing else.
pub open spec fn unsigned_decimal(text: Seq<char>) -> Option<nat> {
    let digits = if text.len() > 0 && text[0] == '+' {
        text.drop_first()
    } else {
        text
    };
    if digits.len() > 0 && (forall|i: int| 0 <= i < digits.len() ==> is_digit(#[trigger] digits[i])) {
        Some(digits_value(digits))
    } else {
        None
    }
}

/// The 16-bit number that a text denotes, if it denotes one.
pub open spec fn decimal_u16(text: Seq<char>) -> Option<u16> {
    match unsigned_decimal(text) {
        Some(n) if n <= u16::MAX => Some(n as u16),
        _ => None,
    }
}

/// The 64-bit number that a text denotes, if it denotes one.
pub open spec fn decimal_u64(text: Seq<char>) -> Option<u64> {
    match unsigned_decimal(text) {
        Some(n) if n <= u64::MAX => Some(n as u64),
        _ => None,
    }
}

/// Calls `str::parse::<u16>`, that is `u16::from_str`, which reads an
/// optional plus sign followed by decimal digits only and reports an error
/// for an empty text, for any other character and for a number that does
/// not fit.
#[verifier::external_body]
fn parse_u16(text: &str) -> (r: Option<u16>)
    ensures
        r == decimal_u16(text@),
{
    text.parse::<u16>().ok()
}

/// Calls `str::parse::<u64>`, that is `u64::from_str`, which reads an
/// optional plus sign followed by decimal digits only and reports an error
/// for an empty text, for any other character and for a number that does
/// not fit.
#[verifier::external_body]
fn parse_u64(text: &str) -> (r: Option<u64>)
    ensures
        r == decimal_u64(text@),
{
    text.parse::<u64>().ok()
}

/// The settings that the three texts stand for. A port that is given must
/// be a port; the other two fall back where they are absent or unreadable.
pub open spec fn settings_of(
    port: Option<Seq<char>>,
    pool_size: Option<Seq<char>>,
    cache_ttl: Option<Seq<char>>,
) -> Option<Settings> {
    let pool_size = match pool_size {
        Some(text) if decimal_u16(text) is Some => decimal_u16(text).unwrap(),
        _ => DEFAULT_POOL_SIZE,
    };
    let cache_ttl = match cache_ttl {
        Some(text) if decimal_u64(text) is Some => decimal_u64(text).unwrap(),
        _ => DEFAULT_CACHE_TTL,
    };
    match port {
        None => Some(Settings { port: DEFAULT_PORT, pool_size, cache_ttl }),
        Some(text) => match decimal_u16(text) {
            Some(port) => Some(Settings { port, pool_size, cache_ttl }),
            None => None,
        },
    }
}

/// The view of a text that may be absent.
pub open spec fn text_of(text: Option<&str>) -> Option<Seq<char>> {
    match text {
        Some(t) => Some(t@),
        None => None,
    }
}

/// Reads the settings of the server from the texts that its environment
/// gives. The port is 3001 where none is given, and a text that is given
/// for it must be a 16-bit number: this is the one way to fail, and the
/// error holds the text. The size of the pool and the lifetime of cache
/// entries are 10 and 5000 where none is given or where what is given is no
/// number of their width.
pub fn settings_from(port: Option<&str>, pool_size: Option<&str>, cache_ttl: Option<&str>) -> (r:
    Result<Settings, ConfigError>)
    ensures
        match r {
            Ok(settings) => settings_of(text_of(port), text_of(pool_size), text_of(cache_ttl))
                == Some(settings),
            Err(e) => {
                &&& settings_of(text_of(port), text_of(pool_size), text_of(cache_ttl)) is None
                &&& port is Some
                &&& e is InvalidPort
                &&& e->InvalidPort_0@ == port.unwrap()@
            },
        },
        r is Err <==> port is Some && decimal_u16(port.unwrap()@) is None,
{
    let pool_size = match pool_size {
        Some(text) => match parse_u16(text) {
            Some(n) => n,
            None => DEFAULT_POOL_SIZE,
        },
        None => DEFAULT_POOL_SIZE,
    };
    let cache_ttl = match cache_ttl {
        Some(text) => match parse_u64(text) {
            Some(n) => n,
            None => DEFAULT_CACHE_TTL,
        },
        None => DEFAULT_CACHE_TTL,
    };
    match port {
        None => Ok(Settings { port: DEFAULT_PORT, pool_size, cache_ttl }),
        Some(text) => match parse_u16(text) {
            Some(port) => Ok(Settings { port, pool_size, cache_ttl }),
            None => Err(ConfigError::InvalidPort(String::from_str(text))),
        },
    }
}

/// Whether the cache is a cluster: only where the text says `true`.
pub fn clustered_from(text: Option<&str>) -> (r: bool)
    ensures
        r == (text matches Some(t) && t@ == "true"@),
{
    match text {
        Some(t) => str_eq(t, "true"),
        None => false,
    }
}

} // verus!
