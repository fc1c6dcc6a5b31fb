//! Server options: the base URL of the server, read from the environment or guessed from the
//! address the server listens on.

use vstd::prelude::*;
use crate::text::{push_char, push_str, u64_to_decimal, decimal, str_eq};

verus! {

broadcast use vstd::seq::group_seq_axioms;

#[verifier::external_type_specification]
#[verifier::external_body]
pub struct ExUri(http::Uri);

#[verifier::external_type_specification]
#[verifier::external_body]
pub struct ExInvalidUri(http::uri::InvalidUri);

/// Whether a text parses as a URI.
pub uninterp spec fn uri_parses(text: Seq<char>) -> bool;

/// Parses a URI.
///
/// Trusted: calls `http::Uri`'s `FromStr` implementation. Whether a text parses depends on the
/// text alone, which `uri_parses` names; the parsed URI is not described.
#[verifier::external_body]
fn parse_uri(text: &str) -> (res: Result<http::Uri, http::uri::InvalidUri>)
    ensures
        res is Ok <==> uri_parses(text@),
{
    text.parse::<http::Uri>()
}

/// The text of an invalid-URI error.
///
/// Trusted: calls the `Display` implementation of `http::uri::InvalidUri`; nothing is stated of
/// the text.
#[verifier::external_body]
fn invalid_uri_text(err: &http::uri::InvalidUri) -> String {
    err.to_string()
}

/// The options for the server.
#[derive(Debug, Clone)]
pub struct ServerOptions {
    /// The base HTTP URL of the server.
    ///
    /// If the server is running behind a reverse proxy, this should be set to the base URL of the
    /// proxy. If no base URL is set, the server will attempt to determine the base URL from its
    /// own TCP listener address. It is held as its text, which parses as a URI when it was read
    /// from the environment.
    pub base_url: Option<String>,
}

impl Default for ServerOptions {
    fn default() -> (res: Self)
        ensures
            res.base_url is None,
    {
        ServerOptions { base_url: None }
    }
}

/// An error that can occur when trying to get the server options from the environment.
#[derive(Debug)]
pub enum ServerOptionsFromEnvError {
    /// An environment variable was not unicode.
    NotUnicode {
        /// The name of the environment variable.
        name: &'static str,
    },
    /// An error occurred while trying to get the base URL from the environment.
    BaseUrl {
        /// The name of the environment variable.
        name: &'static str,
        /// The URL that was attempted to be parsed.
        url: String,
        /// The error that occurred.
        err: http::uri::InvalidUri,
    },
}

/// The environment variable name for the base URL.
pub const HTMXOLOGY_BASE_URL: &'static str = "HTMXOLOGY_BASE_URL";

/// What the environment holds for a variable.
#[derive(Debug, Clone)]
pub enum EnvValue {
    /// The variable is not set.
    NotPresent,
    /// The variable is set, but its value is not unicode.
    NotUnicode,
    /// The variable holds the given text.
    Value(String),
}

impl ServerOptionsFromEnvError {
    /// The message of the error; that of an invalid URL ends with the URI parser's own
    /// description.
    pub fn to_string(&self) -> (res: String)
        ensures
            match self {
                ServerOptionsFromEnvError::NotUnicode { name } => res@ == "environment variable "@
                    + name@ + " was not unicode"@,
                ServerOptionsFromEnvError::BaseUrl { name, url, .. } => (
                "failed to parse the base URL from environment variable "@ + name@ + " (was `"@
                    + url@ + "`): "@).is_prefix_of(res@),
            },
    {
        match self {
            ServerOptionsFromEnvError::NotUnicode { name } => {
                let mut res = String::from_str("environment variable ");
                push_str(&mut res, name);
                push_str(&mut res, " was not unicode");
                res
            },
            ServerOptionsFromEnvError::BaseUrl { name, url, err } => {
                let mut res = String::from_str(
                    "failed to parse the base URL from environment variable ",
                );
                push_str(&mut res, name);
                push_str(&mut res, " (was `");
                push_str(&mut res, url.as_str());
                push_str(&mut res, "`): ");
                let ghost head = res@;
                let detail = invalid_uri_text(err);
                push_str(&mut res, detail.as_str());
                assert(head.is_prefix_of(res@)) by {
                    assert(res@.subrange(0, head.len() as int) =~= head);
                }
                res
            },
        }
    }
}

impl ServerOptions {
    /// Get the server options from what the environment holds for `HTMXOLOGY_BASE_URL`: an
    /// absent or empty variable sets no base URL, a value that is not unicode or not a URI is an
    /// error.
    pub fn from_env_value(value: EnvValue) -> (res: Result<ServerOptions, ServerOptionsFromEnvError>)
        ensures
            match value {
                EnvValue::NotPresent => res matches Ok(o) && o.base_url is None,
                EnvValue::NotUnicode => res matches Err(ServerOptionsFromEnvError::NotUnicode { name })
                    && name@ == HTMXOLOGY_BASE_URL@,
                EnvValue::Value(v) => if v@.len() == 0 {
                    res matches Ok(o) && o.base_url is None
                } else if uri_parses(v@) {
                    res matches Ok(o) && o.base_url matches Some(b) && b@ == v@
                } else {
                    res matches Err(ServerOptionsFromEnvError::BaseUrl { name, url, .. })
                        && name@ == HTMXOLOGY_BASE_URL@ && url@ == v@
                },
            },
    {
        match value {
            EnvValue::NotPresent => Ok(ServerOptions { base_url: None }),
            EnvValue::NotUnicode => Err(ServerOptionsFromEnvError::NotUnicode { name: HTMXOLOGY_BASE_URL }),
            EnvValue::Value(v) => {
                proof {
                    reveal_strlit("");
                }
                if str_eq(v.as_str(), "") {
                    return Ok(ServerOptions { base_url: None });
                }
                assert(v@.len() != 0) by {
                    if v@.len() == 0 {
                        assert(v@ =~= ""@);
                    }
                }
                match parse_uri(v.as_str()) {
                    Ok(_) => Ok(ServerOptions { base_url: Some(v) }),
                    Err(err) => Err(
                        ServerOptionsFromEnvError::BaseUrl { name: HTMXOLOGY_BASE_URL, url: v, err },
                    ),
                }
            },
        }
    }
}

/// The base URL guessed from the address the server listens on: that address when it is
/// specified; otherwise the first address of the default network interface, if one is known;
/// otherwise `localhost`. Each is written `http://<host>:<port>`.
pub open spec fn guessed_base_url(
    ip: Seq<char>,
    ip_is_unspecified: bool,
    port: u16,
    interface_ips: Option<Seq<Seq<char>>>,
) -> Seq<char> {
    let host = if !ip_is_unspecified {
        ip
    } else {
        match interface_ips {
            Some(ips) => if ips.len() > 0 {
                ips[0]
            } else {
                "localhost"@
            },
            None => "localhost"@,
        }
    };
    "http://"@ + host + seq![':'] + decimal(port as nat)
}

/// Guesses the base URL of the server from the address it listens on (`ip` and `port`) and, when
/// that address is unspecified, from the addresses of the default network interface (IPv4 ones
/// first), `None` when the interface could not be determined.
pub fn guess_base_url(ip: &str, ip_is_unspecified: bool, port: u16, interface_ips: Option<&Vec<String>>) -> (res:
    String)
    ensures
        res@ == guessed_base_url(
            ip@,
            ip_is_unspecified,
            port,
            match interface_ips {
                Some(v) => Some(v@.map_values(|s: String| s@)),
                None => None,
            },
        ),
{
    let mut res = String::from_str("http://");
    if !ip_is_unspecified {
        push_str(&mut res, ip);
    } else {
        match interface_ips {
            Some(ips) => {
                if ips.len() > 0 {
                    push_str(&mut res, ips[0].as_str());
                } else {
                    push_str(&mut res, "localhost");
                }
            },
            None => push_str(&mut res, "localhost"),
        }
    }
    push_char(&mut res, ':');
    let p = u64_to_decimal(port as u64);
    push_str(&mut res, p.as_str());
    res
}

} // verus!
