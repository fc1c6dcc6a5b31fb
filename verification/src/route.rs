//! What a route contributes to pages and requests: its `hx-<method>` attribute, its absolute URL,
//! the error when a URL does not parse as a route, and the rewriting of a request path.

use vstd::prelude::*;
use crate::text::{chars_of, push_char, push_str};
use crate::path_arg::{PathArgumentDeserializationError, describes};

verus! {

broadcast use vstd::seq::group_seq_axioms;

/// Error that can occur when parsing a route from a string.
///
/// This error is only relevant for GET routes, as only GET routes can be parsed from URL strings
/// (since they don't have request bodies).
#[derive(Debug, Clone, PartialEq, Eq)]
pub enum ParseError {
    /// The URL doesn't match any known GET route pattern.
    NoMatchingRoute { url: String },
    /// The URL matches a route, but that route is not a GET route.
    NotAGetRoute { url: String, method: String },
    /// Failed to parse a path parameter.
    PathParamParse { param_name: String, value: String, error: String },
    /// Failed to parse the query string.
    QueryStringParse { error: String },
    /// A path parameter was missing from the URL.
    MissingPathParam { param_name: String },
}

impl ParseError {
    /// The message of the error.
    pub fn to_string(&self) -> (res: String)
        ensures
            res@ == match self {
                ParseError::NoMatchingRoute { url } => "No matching GET route found for URL: "@ + url@,
                ParseError::NotAGetRoute { url, method } => "URL '"@ + url@ + "' matches a "@ + method@
                    + " route, but FromStr only works for GET routes"@,
                ParseError::PathParamParse { param_name, value, error } => "Failed to parse path parameter '"@
                    + param_name@ + "' from '"@ + value@ + "': "@ + error@,
                ParseError::QueryStringParse { error } => "Failed to parse query string: "@ + error@,
                ParseError::MissingPathParam { param_name } => "Missing required path parameter: "@
                    + param_name@,
            },
    {
        match self {
            ParseError::NoMatchingRoute { url } => {
                let mut res = String::from_str("No matching GET route found for URL: ");
                push_str(&mut res, url.as_str());
                res
            },
            ParseError::NotAGetRoute { url, method } => {
                let mut res = String::from_str("URL '");
                push_str(&mut res, url.as_str());
                push_str(&mut res, "' matches a ");
                push_str(&mut res, method.as_str());
                push_str(&mut res, " route, but FromStr only works for GET routes");
                res
            },
            ParseError::PathParamParse { param_name, value, error } => {
                let mut res = String::from_str("Failed to parse path parameter '");
                push_str(&mut res, param_name.as_str());
                push_str(&mut res, "' from '");
                push_str(&mut res, value.as_str());
                push_str(&mut res, "': ");
                push_str(&mut res, error.as_str());
                res
            },
            ParseError::QueryStringParse { error } => {
                let mut res = String::from_str("Failed to parse query string: ");
                push_str(&mut res, error.as_str());
                res
            },
            ParseError::MissingPathParam { param_name } => {
                let mut res = String::from_str("Missing required path parameter: ");
                push_str(&mut res, param_name.as_str());
                res
            },
        }
    }
}

/// The ASCII lowercase form of a character.
pub open spec fn lower_char(c: char) -> char {
    if 'A' <= c <= 'Z' {
        ((c as u32) + 32) as char
    } else {
        c
    }
}

/// The ASCII lowercase form of a text.
pub open spec fn ascii_lower(s: Seq<char>) -> Seq<char> {
    Seq::new(s.len(), |i: int| lower_char(s[i]))
}

/// Lowercases the ASCII letters of a text. HTTP method names are ASCII tokens, for which this is
/// `str::to_lowercase`.
pub fn to_ascii_lower(s: &str) -> (res: String)
    ensures
        res@ == ascii_lower(s@),
{
    let cs = chars_of(s);
    let mut res = String::new();
    let mut i: usize = 0;
    while i < cs.len()
        invariant
            cs@ == s@,
            i <= cs@.len(),
            res@ == ascii_lower(cs@.take(i as int)),
        decreases cs@.len() - i,
    {
        let c = cs[i];
        let l = if 'A' <= c && c <= 'Z' {
            ((c as u8) + 32) as char
        } else {
            c
        };
        push_char(&mut res, l);
        assert(res@ =~= ascii_lower(cs@.take(i + 1)));
        i += 1;
    }
    assert(cs@.take(cs@.len() as int) =~= cs@);
    res
}

/// The HTMX attribute that requests a route: `hx-<method>="<url>"`, the method in lowercase.
pub open spec fn htmx_attribute(method: Seq<char>, url: Seq<char>) -> Seq<char> {
    "hx-"@ + ascii_lower(method) + "=\""@ + url + seq!['"']
}

/// Get a HTMX attribute for a route with the given method name and URL.
pub fn as_htmx_attribute(method: &str, url: &str) -> (res: String)
    ensures
        res@ == htmx_attribute(method@, url@),
{
    let mut res = String::from_str("hx-");
    let lower = to_ascii_lower(method);
    push_str(&mut res, lower.as_str());
    push_str(&mut res, "=\"");
    push_str(&mut res, url);
    push_char(&mut res, '"');
    res
}

/// Get an absolute URL for a route: the base URL, a slash, and the route's URL.
pub fn to_absolute_url(base_url: &str, route: &str) -> (res: String)
    ensures
        res@ == base_url@ + seq!['/'] + route@,
{
    let mut res = base_url.to_owned();
    push_char(&mut res, '/');
    push_str(&mut res, route);
    res
}

/// The message of a path argument that could not be decoded.
pub fn path_argument_error_message(key: &str, err: &PathArgumentDeserializationError) -> (res: String)
    ensures
        exists|detail: Seq<char>|
            res@ == "error while deserializing argument `"@ + key@ + "`: "@ + detail && #[trigger] describes(
                *err,
                detail,
            ),
{
    let mut res = String::from_str("error while deserializing argument `");
    push_str(&mut res, key);
    push_str(&mut res, "`: ");
    let ghost before = res@;
    let detail = err.to_string();
    push_str(&mut res, detail.as_str());
    assert(res@ == before + detail@);
    res
}

/// A URL followed by its query string: `url?query`, or the URL alone when the query string is
/// empty (a query whose fields are all absent or empty serializes to nothing).
pub fn with_query_string(url: String, query: &str) -> (res: String)
    ensures
        res@ == if query@.len() == 0 {
            url@
        } else {
            url@ + seq!['?'] + query@
        },
{
    let mut res = url;
    proof {
        reveal_strlit("");
    }
    if !crate::text::str_eq(query, "") {
        assert(query@.len() != 0) by {
            if query@.len() == 0 {
                assert(query@ =~= ""@);
            }
        }
        push_char(&mut res, '?');
        push_str(&mut res, query);
    }
    res
}

/// The path and query of a request whose path is replaced: `path?query`, or the path alone when
/// the request has no query.
pub fn replaced_path_and_query(path: &str, query: Option<&str>) -> (res: String)
    ensures
        res@ == match query {
            Some(q) => path@ + seq!['?'] + q@,
            None => path@,
        },
{
    let mut res = path.to_owned();
    if let Some(q) = query {
        push_char(&mut res, '?');
        push_str(&mut res, q);
    }
    res
}

} // verus!
