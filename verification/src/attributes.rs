//! The arguments of the derive macros' attributes: the expressions they are written with, the
//! errors their parsers report, and the parsers of the `url`, `htmx` and `route` attributes.

use vstd::prelude::*;
use crate::route_url::{ParseError, error_range, marked_at_bytes, error_message};
use vstd::utf8::{encode_utf8, is_char_boundary};
use crate::url::{Url, UrlParseError, Elem, spec_parse_url, url_error_message};
use crate::text::{push_char, push_str, str_eq};
use crate::htmx::{default_fragment_target, snake_case_of};

verus! {

broadcast use vstd::seq::group_seq_axioms;

/// An expression given as an attribute argument, as far as the attribute parsers look into it.
#[derive(Debug)]
pub enum AttrExpr {
    /// A string literal, by its value.
    StrLit(String),
    /// A literal that is not a string.
    OtherLit,
    /// A path: its identifier when it is a single identifier, `None` otherwise.
    Path(Option<String>),
    /// An assignment `left = right`.
    Assign(Box<AttrExpr>, Box<AttrExpr>),
    /// Any other expression.
    Other,
}

/// An error raised while parsing an attribute.
#[derive(Debug, Clone, PartialEq, Eq)]
pub enum AttributeError {
    /// The attribute has no argument.
    MissingArgument,
    /// An argument should be a string literal (`expected a string literal`).
    ExpectedStringLiteral,
    /// A value should be a string literal (`expected string literal`).
    ExpectedStringValue,
    /// An expression should be a path.
    ExpectedPath,
    /// A path should be a single identifier.
    NotAnIdentifier,
    /// The key of an assignment should be `path`.
    ExpectedPathKey,
    /// The key of an assignment should be `method`.
    ExpectedMethodKey,
    /// An argument should be an assignment.
    ExpectedAssignment,
    /// An `htmx` argument should be an assignment.
    ExpectedAttributeAssignment,
    /// An `htmx` argument names an unknown key.
    UnknownAttribute { name: String },
    /// The URL of a `url` attribute is invalid.
    InvalidUrl(UrlParseError),
    /// The method of a `route` attribute is not a valid HTTP method.
    InvalidHttpMethod,
    /// The second argument of a `route` attribute should be `method = "..."`.
    ExpectedMethodAssignment,
    /// A `route` attribute has no URL.
    MissingRouteUrl,
    /// The URL of a `route` attribute is invalid: the error and the URL that was parsed.
    InvalidRouteUrl { error: ParseError, url: String },
    /// A `route` attribute has more than two arguments.
    TooManyArguments,
    /// A variant has more than one `route` or `catch_all` attribute.
    MultipleRouteAttributes,
    /// A `catch_all` attribute has arguments.
    CatchAllArguments,
    /// A variant has no `route` or `catch_all` attribute.
    MissingRouteAttribute,
}

/// The model of an attribute error.
pub ghost enum AttrErr {
    MissingArgument,
    ExpectedStringLiteral,
    ExpectedStringValue,
    ExpectedPath,
    NotAnIdentifier,
    ExpectedPathKey,
    ExpectedMethodKey,
    ExpectedAssignment,
    ExpectedAttributeAssignment,
    UnknownAttribute(Seq<char>),
    InvalidUrl(UrlParseError),
    InvalidHttpMethod,
    ExpectedMethodAssignment,
    MissingRouteUrl,
    InvalidRouteUrl(ParseError, Seq<char>),
    TooManyArguments,
    MultipleRouteAttributes,
    CatchAllArguments,
    MissingRouteAttribute,
}

impl View for AttributeError {
    type V = AttrErr;

    open spec fn view(&self) -> AttrErr {
        match *self {
            AttributeError::MissingArgument => AttrErr::MissingArgument,
            AttributeError::ExpectedStringLiteral => AttrErr::ExpectedStringLiteral,
            AttributeError::ExpectedStringValue => AttrErr::ExpectedStringValue,
            AttributeError::ExpectedPath => AttrErr::ExpectedPath,
            AttributeError::NotAnIdentifier => AttrErr::NotAnIdentifier,
            AttributeError::ExpectedPathKey => AttrErr::ExpectedPathKey,
            AttributeError::ExpectedMethodKey => AttrErr::ExpectedMethodKey,
            AttributeError::ExpectedAssignment => AttrErr::ExpectedAssignment,
            AttributeError::ExpectedAttributeAssignment => AttrErr::ExpectedAttributeAssignment,
            AttributeError::UnknownAttribute { name } => AttrErr::UnknownAttribute(name@),
            AttributeError::InvalidUrl(e) => AttrErr::InvalidUrl(e),
            AttributeError::InvalidHttpMethod => AttrErr::InvalidHttpMethod,
            AttributeError::ExpectedMethodAssignment => AttrErr::ExpectedMethodAssignment,
            AttributeError::MissingRouteUrl => AttrErr::MissingRouteUrl,
            AttributeError::InvalidRouteUrl { error, url } => AttrErr::InvalidRouteUrl(error, url@),
            AttributeError::TooManyArguments => AttrErr::TooManyArguments,
            AttributeError::MultipleRouteAttributes => AttrErr::MultipleRouteAttributes,
            AttributeError::CatchAllArguments => AttrErr::CatchAllArguments,
            AttributeError::MissingRouteAttribute => AttrErr::MissingRouteAttribute,
        }
    }
}

/// The model of a result that holds a string or an attribute error.
pub open spec fn str_result(r: Result<String, AttributeError>) -> Result<Seq<char>, AttrErr> {
    match r {
        Ok(t) => Ok(t@),
        Err(e) => Err(e@),
    }
}

/// Whether the message of an invalid route URL can be shown: its error range, taken as byte
/// offsets into the URL's UTF-8 encoding, lies in the URL, and starts and ends on character
/// boundaries.
pub open spec fn route_url_error_shown(error: ParseError, url: Seq<char>) -> bool {
    &&& error_range(error).0 <= error_range(error).1 + 1
    &&& error_range(error).1 < encode_utf8(url).len() <= usize::MAX
    &&& is_char_boundary(encode_utf8(url), error_range(error).0)
    &&& is_char_boundary(encode_utf8(url), error_range(error).1 + 1)
}

/// The message of an attribute error.
pub open spec fn attr_err_message(e: AttrErr) -> Seq<char> {
    match e {
        AttrErr::MissingArgument => "expected at least one argument"@,
        AttrErr::ExpectedStringLiteral => "expected a string literal"@,
        AttrErr::ExpectedStringValue => "expected string literal"@,
        AttrErr::ExpectedPath => "expected path"@,
        AttrErr::NotAnIdentifier => "expected this path to be an identifier"@,
        AttrErr::ExpectedPathKey => "expected `path`"@,
        AttrErr::ExpectedMethodKey => "expected `method`"@,
        AttrErr::ExpectedAssignment => "expected `<foo> = <bar>`"@,
        AttrErr::ExpectedAttributeAssignment => "expected `<attr> = \"...\"`"@,
        AttrErr::UnknownAttribute(name) => "unknown attribute `"@ + name + "`"@,
        AttrErr::InvalidUrl(e) => url_error_message(e),
        AttrErr::InvalidHttpMethod => "invalid HTTP method"@,
        AttrErr::ExpectedMethodAssignment => "expected `method = \"<GET|POST|...>\"`"@,
        AttrErr::MissingRouteUrl => "expected a route URL as the first argument"@,
        AttrErr::InvalidRouteUrl(error, url) => error_message(error) + seq!['\n']
            + marked_at_bytes(url, error_range(error).0, error_range(error).1),
        AttrErr::TooManyArguments => "expected at most two arguments"@,
        AttrErr::MultipleRouteAttributes => "expected exactly one `route` or `catch_all` attribute"@,
        AttrErr::CatchAllArguments => "`catch_all` attribute does not take any arguments"@,
        AttrErr::MissingRouteAttribute => "expected one `route` or `catch_all` attribute"@,
    }
}

impl AttributeError {
    /// Whether the error's message can be shown (see [`route_url_error_shown`]).
    pub open spec fn shown(&self) -> bool {
        match *self {
            AttributeError::InvalidRouteUrl { error, url } => route_url_error_shown(error, url@),
            _ => true,
        }
    }

    /// The message of the error. For an invalid route URL: the URL error, a newline, and the
    /// URL with the range of the error surrounded with carets.
    pub fn to_string(&self) -> (res: String)
        requires
            self.shown(),
        ensures
            res@ == attr_err_message(self@),
    {
        match self {
            AttributeError::MissingArgument => String::from_str("expected at least one argument"),
            AttributeError::ExpectedStringLiteral => String::from_str("expected a string literal"),
            AttributeError::ExpectedStringValue => String::from_str("expected string literal"),
            AttributeError::ExpectedPath => String::from_str("expected path"),
            AttributeError::NotAnIdentifier => String::from_str(
                "expected this path to be an identifier",
            ),
            AttributeError::ExpectedPathKey => String::from_str("expected `path`"),
            AttributeError::ExpectedMethodKey => String::from_str("expected `method`"),
            AttributeError::ExpectedAssignment => String::from_str("expected `<foo> = <bar>`"),
            AttributeError::ExpectedAttributeAssignment => String::from_str(
                "expected `<attr> = \"...\"`",
            ),
            AttributeError::UnknownAttribute { name } => {
                let mut res = String::from_str("unknown attribute `");
                push_str(&mut res, name.as_str());
                push_char(&mut res, '`');
                proof {
                    reveal_strlit("`");
                }
                assert(res@ =~= "unknown attribute `"@ + name@ + "`"@);
                res
            },
            AttributeError::InvalidUrl(e) => e.to_string(),
            AttributeError::InvalidHttpMethod => String::from_str("invalid HTTP method"),
            AttributeError::ExpectedMethodAssignment => String::from_str(
                "expected `method = \"<GET|POST|...>\"`",
            ),
            AttributeError::MissingRouteUrl => String::from_str(
                "expected a route URL as the first argument",
            ),
            AttributeError::InvalidRouteUrl { error, url } => {
                let mut res = error.to_string();
                push_char(&mut res, '\n');
                let detail = error.detail(url.as_str());
                push_str(&mut res, detail.as_str());
                assert(res@ =~= error_message(*error) + seq!['\n'] + detail@);
                res
            },
            AttributeError::TooManyArguments => String::from_str("expected at most two arguments"),
            AttributeError::MultipleRouteAttributes => String::from_str(
                "expected exactly one `route` or `catch_all` attribute",
            ),
            AttributeError::CatchAllArguments => String::from_str(
                "`catch_all` attribute does not take any arguments",
            ),
            AttributeError::MissingRouteAttribute => String::from_str(
                "expected one `route` or `catch_all` attribute",
            ),
        }
    }
}

/// The identifier that a path expression names.
pub open spec fn ident_of(e: AttrExpr) -> Result<Seq<char>, AttrErr> {
    match e {
        AttrExpr::Path(Some(i)) => Ok(i@),
        AttrExpr::Path(None) => Err(AttrErr::NotAnIdentifier),
        _ => Err(AttrErr::ExpectedPath),
    }
}

/// Gets the identifier that a path expression names.
pub fn path_ident(e: &AttrExpr) -> (res: Result<String, AttributeError>)
    ensures
        str_result(res) == ident_of(*e),
{
    match e {
        AttrExpr::Path(Some(i)) => Ok(i.clone()),
        AttrExpr::Path(None) => Err(AttributeError::NotAnIdentifier),
        _ => Err(AttributeError::ExpectedPath),
    }
}

/// Applies the steps of key-value arguments from the first to the last: the value the last
/// one gives, `init` if there is none, or the error of the first that fails.
pub open spec fn fold_arguments(
    es: Seq<AttrExpr>,
    init: Seq<char>,
    step: spec_fn(AttrExpr) -> Result<Seq<char>, AttrErr>,
) -> Result<Seq<char>, AttrErr>
    decreases es.len(),
{
    if es.len() == 0 {
        Ok(init)
    } else {
        match step(es[0]) {
            Err(x) => Err(x),
            Ok(v) => fold_arguments(es.drop_first(), v, step),
        }
    }
}

/// The URL that the first argument of a `url` attribute gives: a string literal, or
/// `path = "..."`.
pub open spec fn url_argument(e: AttrExpr) -> Result<Seq<char>, AttrErr> {
    match e {
        AttrExpr::StrLit(s) => Ok(s@),
        AttrExpr::Assign(l, r) => match ident_of(*l) {
            Err(x) => Err(x),
            Ok(k) => if k != "path"@ {
                Err(AttrErr::ExpectedPathKey)
            } else {
                match *r {
                    AttrExpr::StrLit(s) => Ok(s@),
                    _ => Err(AttrErr::ExpectedStringLiteral),
                }
            },
        },
        _ => Err(AttrErr::ExpectedStringLiteral),
    }
}

/// The method that a further argument of a `url` attribute gives: `method = <ident>`.
pub open spec fn method_argument(e: AttrExpr) -> Result<Seq<char>, AttrErr> {
    match e {
        AttrExpr::Assign(l, r) => match ident_of(*l) {
            Err(x) => Err(x),
            Ok(k) => if k == "method"@ {
                ident_of(*r)
            } else {
                Err(AttrErr::ExpectedMethodKey)
            },
        },
        _ => Err(AttrErr::ExpectedAssignment),
    }
}

/// The outcome of parsing the arguments of a `url` attribute: the URL text and the method,
/// `get` unless an argument sets it.
pub open spec fn url_attribute(es: Seq<AttrExpr>) -> Result<(Seq<char>, Seq<char>), AttrErr> {
    if es.len() == 0 {
        Err(AttrErr::MissingArgument)
    } else {
        match url_argument(es[0]) {
            Err(x) => Err(x),
            Ok(u) => match fold_arguments(
                es.drop_first(),
                "get"@,
                |e: AttrExpr| method_argument(e),
            ) {
                Err(x) => Err(x),
                Ok(m) => Ok((u, m)),
            },
        }
    }
}

/// Gets the URL of the first argument of a `url` attribute.
fn url_argument_of(e: &AttrExpr) -> (res: Result<String, AttributeError>)
    ensures
        str_result(res) == url_argument(*e),
{
    match e {
        AttrExpr::StrLit(s) => Ok(s.clone()),
        AttrExpr::Assign(l, r) => {
            let k = match path_ident(&**l) {
                Ok(k) => k,
                Err(x) => {
                    return Err(x);
                },
            };
            if !str_eq(k.as_str(), "path") {
                return Err(AttributeError::ExpectedPathKey);
            }
            match &**r {
                AttrExpr::StrLit(s) => Ok(s.clone()),
                _ => Err(AttributeError::ExpectedStringLiteral),
            }
        },
        _ => Err(AttributeError::ExpectedStringLiteral),
    }
}

/// Gets the method of a further argument of a `url` attribute.
fn method_argument_of(e: &AttrExpr) -> (res: Result<String, AttributeError>)
    ensures
        str_result(res) == method_argument(*e),
{
    match e {
        AttrExpr::Assign(l, r) => {
            let k = match path_ident(&**l) {
                Ok(k) => k,
                Err(x) => {
                    return Err(x);
                },
            };
            if str_eq(k.as_str(), "method") {
                path_ident(&**r)
            } else {
                Err(AttributeError::ExpectedMethodKey)
            }
        },
        _ => Err(AttributeError::ExpectedAssignment),
    }
}

/// Gets the method that the arguments after the first of a `url` attribute set.
fn method_of_arguments(es: &Vec<AttrExpr>) -> (res: Result<String, AttributeError>)
    requires
        es@.len() > 0,
    ensures
        str_result(res) == fold_arguments(
            es@.drop_first(),
            "get"@,
            |e: AttrExpr| method_argument(e),
        ),
{
    let ghost step = |e: AttrExpr| method_argument(e);
    let mut method = String::from_str("get");
    let mut i: usize = 1;
    assert(es@.skip(1) =~= es@.drop_first());
    while i < es.len()
        invariant
            1 <= i <= es@.len(),
            step == (|e: AttrExpr| method_argument(e)),
            fold_arguments(es@.drop_first(), "get"@, step) == fold_arguments(
                es@.skip(i as int),
                method@,
                step,
            ),
        decreases es@.len() - i,
    {
        assert(es@.skip(i as int).drop_first() =~= es@.skip(i + 1));
        assert(es@.skip(i as int)[0] == es@[i as int]);
        match method_argument_of(&es[i]) {
            Ok(m) => {
                method = m;
            },
            Err(x) => {
                return Err(x);
            },
        }
        i += 1;
    }
    assert(es@.skip(i as int) =~= Seq::<AttrExpr>::empty());
    Ok(method)
}

/// A route of a controller: its URL and the name of its routing method.
#[derive(Debug, Clone, PartialEq, Eq)]
pub struct UrlRoute {
    pub url: String,
    pub method: String,
}

/// Parses the arguments of a controller's `url` attribute: the URL, a string literal or
/// `path = "..."`, then any number of `method = <ident>`, the last of which gives the routing
/// method (`get` by default).
pub fn parse_url_attribute(exprs: &Vec<AttrExpr>) -> (res: Result<UrlRoute, AttributeError>)
    ensures
        match res {
            Ok(r) => url_attribute(exprs@) == Ok::<(Seq<char>, Seq<char>), AttrErr>(
                (r.url@, r.method@),
            ),
            Err(e) => url_attribute(exprs@) == Err::<(Seq<char>, Seq<char>), AttrErr>(e@),
        },
{
    if exprs.len() == 0 {
        return Err(AttributeError::MissingArgument);
    }
    let url = match url_argument_of(&exprs[0]) {
        Ok(u) => u,
        Err(x) => {
            return Err(x);
        },
    };
    match method_of_arguments(exprs) {
        Ok(method) => Ok(UrlRoute { url, method }),
        Err(x) => Err(x),
    }
}

/// The outcome of parsing the arguments of a route's `url` attribute: as for a controller's,
/// with the URL text parsed as a URL right after it is read.
pub open spec fn url_route_attribute(es: Seq<AttrExpr>) -> Result<(Seq<Elem>, Seq<char>), AttrErr> {
    if es.len() == 0 {
        Err(AttrErr::MissingArgument)
    } else {
        match url_argument(es[0]) {
            Err(x) => Err(x),
            Ok(u) => match spec_parse_url(u) {
                Err(pe) => Err(AttrErr::InvalidUrl(pe)),
                Ok(elems) => match fold_arguments(
                    es.drop_first(),
                    "get"@,
                    |e: AttrExpr| method_argument(e),
                ) {
                    Err(x) => Err(x),
                    Ok(m) => Ok((elems, m)),
                },
            },
        }
    }
}

/// A route variant's URL and the name of its routing method.
#[derive(Debug, Clone)]
pub struct RouteInfo {
    pub url: Url,
    pub method: String,
}

/// Parses the arguments of a route variant's `url` attribute, as [`parse_url_attribute`] does,
/// with the URL parsed as a [`Url`].
pub fn parse_route_url_attribute(exprs: &Vec<AttrExpr>) -> (res: Result<RouteInfo, AttributeError>)
    ensures
        match res {
            Ok(r) => url_route_attribute(exprs@) == Ok::<(Seq<Elem>, Seq<char>), AttrErr>(
                (r.url@, r.method@),
            ),
            Err(e) => url_route_attribute(exprs@) == Err::<(Seq<Elem>, Seq<char>), AttrErr>(e@),
        },
{
    if exprs.len() == 0 {
        return Err(AttributeError::MissingArgument);
    }
    let text = match url_argument_of(&exprs[0]) {
        Ok(u) => u,
        Err(x) => {
            return Err(x);
        },
    };
    let url = match Url::from_str(text.as_str()) {
        Ok(url) => url,
        Err(e) => {
            return Err(AttributeError::InvalidUrl(e));
        },
    };
    match method_of_arguments(exprs) {
        Ok(method) => Ok(RouteInfo { url, method }),
        Err(x) => Err(x),
    }
}

/// The target that an argument of an `htmx` attribute sets: `target = "..."`.
pub open spec fn target_argument(e: AttrExpr) -> Result<Seq<char>, AttrErr> {
    match e {
        AttrExpr::Assign(l, r) => match ident_of(*l) {
            Err(x) => Err(x),
            Ok(k) => if k == "target"@ {
                match *r {
                    AttrExpr::StrLit(s) => Ok(s@),
                    _ => Err(AttrErr::ExpectedStringValue),
                }
            } else {
                Err(AttrErr::UnknownAttribute(k))
            },
        },
        _ => Err(AttrErr::ExpectedAttributeAssignment),
    }
}

/// Gets the target that an argument of an `htmx` attribute sets.
fn target_argument_of(e: &AttrExpr) -> (res: Result<String, AttributeError>)
    ensures
        str_result(res) == target_argument(*e),
{
    match e {
        AttrExpr::Assign(l, r) => {
            let k = match path_ident(&**l) {
                Ok(k) => k,
                Err(x) => {
                    return Err(x);
                },
            };
            if str_eq(k.as_str(), "target") {
                match &**r {
                    AttrExpr::StrLit(s) => Ok(s.clone()),
                    _ => Err(AttributeError::ExpectedStringValue),
                }
            } else {
                Err(AttributeError::UnknownAttribute { name: k })
            }
        },
        _ => Err(AttributeError::ExpectedAttributeAssignment),
    }
}

/// The HTMX target of a fragment type: the last `target = "..."` among the arguments of its
/// `htmx` attributes, in order, and `#` with the snake-case form of the type's name if there is
/// none; or the error of the first argument that is not such an assignment.
pub fn fragment_target(ident: &str, exprs: &Vec<AttrExpr>) -> (res: Result<String, AttributeError>)
    ensures
        str_result(res) == fold_arguments(
            exprs@,
            seq!['#'] + snake_case_of(ident@),
            |e: AttrExpr| target_argument(e),
        ),
{
    let ghost step = |e: AttrExpr| target_argument(e);
    let mut target = default_fragment_target(ident);
    let ghost init = target@;
    let mut i: usize = 0;
    assert(exprs@.skip(0) =~= exprs@);
    while i < exprs.len()
        invariant
            i <= exprs@.len(),
            step == (|e: AttrExpr| target_argument(e)),
            fold_arguments(exprs@, init, step) == fold_arguments(
                exprs@.skip(i as int),
                target@,
                step,
            ),
        decreases exprs@.len() - i,
    {
        assert(exprs@.skip(i as int).drop_first() =~= exprs@.skip(i + 1));
        assert(exprs@.skip(i as int)[0] == exprs@[i as int]);
        match target_argument_of(&exprs[i]) {
            Ok(t) => {
                target = t;
            },
            Err(x) => {
                return Err(x);
            },
        }
        i += 1;
    }
    assert(exprs@.skip(i as int) =~= Seq::<AttrExpr>::empty());
    Ok(target)
}

/// The kind of type a derive is applied to.
#[derive(Debug, Clone, Copy, PartialEq, Eq, Structural)]
pub enum DataKind {
    Struct,
    Enum,
    Union,
}

/// Checks that a derive meant for enums is applied to an enum: a struct or a union is refused
/// with a message naming the derive.
pub fn expect_enum(kind: DataKind, derive_name: &str) -> (res: Result<(), String>)
    ensures
        match kind {
            DataKind::Enum => res is Ok,
            DataKind::Struct => res matches Err(m) && m@ == "can't derive "@ + derive_name@ + " for a struct"@,
            DataKind::Union => res matches Err(m) && m@ == "can't derive "@ + derive_name@ + " for a union"@,
        },
{
    match kind {
        DataKind::Enum => Ok(()),
        DataKind::Struct => {
            let mut m = String::from_str("can't derive ");
            push_str(&mut m, derive_name);
            push_str(&mut m, " for a struct");
            Err(m)
        },
        DataKind::Union => {
            let mut m = String::from_str("can't derive ");
            push_str(&mut m, derive_name);
            push_str(&mut m, " for a union");
            Err(m)
        },
    }
}

} // verus!
