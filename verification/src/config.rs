//! Process-wide read-only configuration.
//!
//! Three values are established once at startup and never mutated: the
//! database address, a 256-bit symmetric key given as 64 hex characters,
//! and the public host name used for expiry redirects.  They are modelled
//! as an explicitly constructed immutable object handed to the components,
//! so the components stay testable in isolation.

use vstd::prelude::*;

verus! {

/// One character of a hex encoding, either case.
pub open spec fn is_hex_digit(c: char) -> bool {
    ||| '0' as u32 <= c as u32 <= '9' as u32
    ||| 'a' as u32 <= c as u32 <= 'f' as u32
    ||| 'A' as u32 <= c as u32 <= 'F' as u32
}

/// The numeric value of a hex digit.
pub open spec fn hex_digit_value(c: char) -> int
    recommends
        is_hex_digit(c),
{
    if '0' as u32 <= c as u32 <= '9' as u32 {
        c as u32 - '0' as u32
    } else if 'a' as u32 <= c as u32 <= 'f' as u32 {
        c as u32 - 'a' as u32 + 10
    } else {
        c as u32 - 'A' as u32 + 10
    }
}

/// A well-formed hex encoding: even length, hex digits throughout.
pub open spec fn is_hex_string(s: Seq<char>) -> bool {
    &&& s.len() % 2 == 0
    &&& forall|i: int| 0 <= i < s.len() ==> is_hex_digit(#[trigger] s[i])
}

/// The bytes a hex encoding denotes, two digits per byte, high digit first.
pub open spec fn hex_bytes(s: Seq<char>) -> Seq<u8>
    recommends
        is_hex_string(s),
{
    Seq::new(s.len() / 2, |i: int| (16 * hex_digit_value(s[2 * i]) + hex_digit_value(s[2 * i + 1])) as u8)
}

/// Relies on `hex::decode`: it accepts exactly the even-length strings of
/// hex digits of either case, and returns the denoted bytes, two digits
/// per byte.
#[verifier::external_body]
fn decode_hex(s: &str) -> (r: Option<Vec<u8>>)
    ensures
        r is Some <==> is_hex_string(s@),
        r matches Some(b) ==> b@ == hex_bytes(s@),
{
    hex::decode(s).ok()
}

/// Why startup configuration was rejected.  Configuration errors are fatal:
/// the process must not start serving with a malformed key.
#[derive(Clone, Copy, Debug, PartialEq, Eq, Structural)]
pub enum ConfigError {
    /// The key is not a well-formed hex string.
    KeyNotHex,
    /// The key is well-formed hex but does not denote exactly 32 bytes.
    KeyWrongLength,
}

/// Mathematical model of the configuration.
pub ghost struct ConfigModel {
    pub pg_url: Seq<char>,
    pub crypto_key: Seq<u8>,
    pub host: Seq<char>,
}

/// The immutable process configuration: database address, 32-byte symmetric
/// key, public host name.
pub struct Config {
    pg_url: String,
    crypto_key: Vec<u8>,
    host: String,
}

impl View for Config {
    type V = ConfigModel;

    closed spec fn view(&self) -> ConfigModel {
        ConfigModel {
            pg_url: self.pg_url@,
            crypto_key: self.crypto_key@,
            host: self.host@,
        }
    }
}

impl Config {
    #[verifier::type_invariant]
    closed spec fn type_wf(self) -> bool {
        self.crypto_key@.len() == 32
    }

    /// Validates the startup secrets and builds the configuration.  The key
    /// must be 64 hex characters denoting 32 bytes; each rejection names
    /// exactly why.
    pub fn init_secrets(database_url: String, crypto_key_hex: &str, host: String) -> (r: Result<
        Config,
        ConfigError,
    >)
        ensures
            match r {
                Ok(c) => {
                    &&& is_hex_string(crypto_key_hex@)
                    &&& hex_bytes(crypto_key_hex@).len() == 32
                    &&& c@.pg_url == database_url@
                    &&& c@.crypto_key == hex_bytes(crypto_key_hex@)
                    &&& c@.host == host@
                },
                Err(e) => match e {
                    ConfigError::KeyNotHex => !is_hex_string(crypto_key_hex@),
                    ConfigError::KeyWrongLength => is_hex_string(crypto_key_hex@) && hex_bytes(
                        crypto_key_hex@,
                    ).len() != 32,
                },
            },
    {
        let bytes = match decode_hex(crypto_key_hex) {
            Some(b) => b,
            None => {
                return Err(ConfigError::KeyNotHex);
            },
        };
        if bytes.len() != 32 {
            return Err(ConfigError::KeyWrongLength);
        }
        Ok(Config { pg_url: database_url, crypto_key: bytes, host })
    }

    /// The database connection string.
    pub fn get_pg_url(&self) -> (r: &String)
        ensures
            r@ == self@.pg_url,
    {
        &self.pg_url
    }

    /// The 32-byte symmetric key.
    pub fn get_crypto_key(&self) -> (r: &Vec<u8>)
        ensures
            r@ == self@.crypto_key,
            r@.len() == 32,
    {
        proof {
            use_type_invariant(self);
        }
        &self.crypto_key
    }

    /// The public host name used for expiry redirects.
    pub fn get_host(&self) -> (r: &String)
        ensures
            r@ == self@.host,
    {
        &self.host
    }
}

} // verus!
