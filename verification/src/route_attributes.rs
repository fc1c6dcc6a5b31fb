//! The `route` and `catch_all` attributes of a route variant: which one the variant has, the URL
//! it is reached by, and the HTTP method it answers.

use vstd::prelude::*;
use crate::attributes::{AttrExpr, AttributeError, AttrErr, ident_of, path_ident, str_result};
use crate::route_url::{RouteUrl, Seg, spec_parse, segs_view};
use crate::text::{str_eq, chars_of, push_char, push_str};

verus! {

broadcast use vstd::seq::group_seq_axioms;

/// Whether a character may appear in an HTTP method: the token characters of RFC 9110.
pub open spec fn is_method_char(c: char) -> bool {
    ||| ('a' <= c <= 'z')
    ||| ('A' <= c <= 'Z')
    ||| ('0' <= c <= '9')
    ||| c == '!' || c == '#' || c == '$' || c == '%' || c == '&' || c == '\'' || c == '*'
    ||| c == '+' || c == '-' || c == '.' || c == '^' || c == '_' || c == '`' || c == '|' || c == '~'
}

/// Whether a string is an HTTP method: one or more token characters.
pub open spec fn is_method_token(s: Seq<char>) -> bool {
    s.len() > 0 && forall|k: int| 0 <= k < s.len() ==> #[trigger] is_method_char(s[k])
}

/// Parses an HTTP method, giving its name.
///
/// Trusted: calls `http::Method`'s `FromStr`, which accepts a non-empty string of token
/// characters and refuses anything else, and `as_str`, which gives back the text that was
/// parsed (the standard methods are matched by their exact text; other methods keep the bytes
/// they were made from).
#[verifier::external_body]
fn parse_http_method(s: &str) -> (res: Option<String>)
    ensures
        res is Some <==> is_method_token(s@),
        res matches Some(m) ==> m@ == s@,
{
    match s.parse::<http::Method>() {
        Ok(m) => Some(m.as_str().to_string()),
        Err(_) => None,
    }
}

/// The kind of a route variant.
#[derive(Debug, Clone, PartialEq, Eq)]
pub enum RouteType {
    /// A route answering one HTTP method.
    Simple { method: String },
    /// A prefix whose subroute handles the rest of the path.
    SubRoute,
    /// A route that takes any request the other routes leave.
    CatchAll,
}

/// The model of a route type.
pub ghost enum RouteTypeModel {
    Simple(Seq<char>),
    SubRoute,
    CatchAll,
}

impl View for RouteType {
    type V = RouteTypeModel;

    open spec fn view(&self) -> RouteTypeModel {
        match *self {
            RouteType::Simple { method } => RouteTypeModel::Simple(method@),
            RouteType::SubRoute => RouteTypeModel::SubRoute,
            RouteType::CatchAll => RouteTypeModel::CatchAll,
        }
    }
}

/// An attribute of a route variant.
#[derive(Debug)]
pub enum RouteAttribute {
    /// `#[route(...)]`, with its arguments.
    Route(Vec<AttrExpr>),
    /// `#[catch_all]`, bare or with arguments.
    CatchAll { bare: bool },
    /// Any other attribute.
    Other,
}

/// The URL text of a string-literal argument.
pub open spec fn raw_url(e: AttrExpr) -> Result<Seq<char>, AttrErr> {
    match e {
        AttrExpr::StrLit(s) => Ok(s@),
        _ => Err(AttrErr::ExpectedStringLiteral),
    }
}

/// Gets the URL text of a string-literal argument.
pub fn parse_raw_url(expr: &AttrExpr) -> (res: Result<String, AttributeError>)
    ensures
        str_result(res) == raw_url(*expr),
{
    match expr {
        AttrExpr::StrLit(s) => Ok(s.clone()),
        _ => Err(AttributeError::ExpectedStringLiteral),
    }
}

/// The text of a route URL as written in an attribute, rooted: a text that does not start with
/// a slash is taken relative to the root (`users/{id}` is `/users/{id}`, the empty text is `/`).
pub open spec fn rooted(u: Seq<char>) -> Seq<char> {
    if u.len() > 0 && u[0] == '/' {
        u
    } else {
        seq!['/'] + u
    }
}

/// The route URL that an argument gives: its rooted text parsed as a route URL.
pub open spec fn route_url_argument(e: AttrExpr) -> Result<Seq<Seg>, AttrErr> {
    match raw_url(e) {
        Err(x) => Err(x),
        Ok(u) => match spec_parse(rooted(u)) {
            Err(pe) => Err(AttrErr::InvalidRouteUrl(pe, rooted(u))),
            Ok(segs) => Ok(segs),
        },
    }
}

/// Gets the route URL of an argument.
pub fn parse_route_url(expr: &AttrExpr) -> (res: Result<RouteUrl, AttributeError>)
    ensures
        match res {
            Ok(u) => route_url_argument(*expr) == Ok::<Seq<Seg>, AttrErr>(u@),
            Err(e) => route_url_argument(*expr) == Err::<Seq<Seg>, AttrErr>(e@),
        },
{
    let raw = match parse_raw_url(expr) {
        Ok(u) => u,
        Err(x) => {
            return Err(x);
        },
    };
    let cs = chars_of(raw.as_str());
    let url = if cs.len() > 0 && cs[0] == '/' {
        raw
    } else {
        let mut t = String::new();
        push_char(&mut t, '/');
        push_str(&mut t, raw.as_str());
        assert(t@ =~= seq!['/'] + raw@);
        t
    };
    match RouteUrl::parse(url.as_str()) {
        Ok(u) => Ok(u),
        Err(error) => Err(AttributeError::InvalidRouteUrl { error, url }),
    }
}

/// The method that the second argument of a `route` attribute gives: `method = "..."`.
pub open spec fn method_of(e: AttrExpr) -> Result<Seq<char>, AttrErr> {
    match e {
        AttrExpr::Assign(l, r) => match ident_of(*l) {
            Err(x) => Err(x),
            Ok(k) => if k == "method"@ {
                match *r {
                    AttrExpr::StrLit(s) => if is_method_token(s@) {
                        Ok(s@)
                    } else {
                        Err(AttrErr::InvalidHttpMethod)
                    },
                    AttrExpr::OtherLit => Err(AttrErr::ExpectedStringValue),
                    _ => Err(AttrErr::ExpectedPath),
                }
            } else {
                Err(AttrErr::ExpectedMethodKey)
            },
        },
        _ => Err(AttrErr::ExpectedMethodAssignment),
    }
}

/// Gets the HTTP method of the second argument of a `route` attribute.
pub fn parse_method(expr: &AttrExpr) -> (res: Result<String, AttributeError>)
    ensures
        str_result(res) == method_of(*expr),
{
    match expr {
        AttrExpr::Assign(l, r) => {
            let k = match path_ident(&**l) {
                Ok(k) => k,
                Err(x) => {
                    return Err(x);
                },
            };
            if !str_eq(k.as_str(), "method") {
                return Err(AttributeError::ExpectedMethodKey);
            }
            match &**r {
                AttrExpr::StrLit(s) => match parse_http_method(s.as_str()) {
                    Some(m) => Ok(m),
                    None => Err(AttributeError::InvalidHttpMethod),
                },
                AttrExpr::OtherLit => Err(AttributeError::ExpectedStringValue),
                _ => Err(AttributeError::ExpectedPath),
            }
        },
        _ => Err(AttributeError::ExpectedMethodAssignment),
    }
}

/// Whether a route URL is a prefix: it ends with a slash that is not its first character.
pub open spec fn is_prefix_url(segs: Seq<Seg>) -> bool {
    segs.len() > 1 && segs.last() == Seg::Sep
}

/// The outcome of the arguments of a `route` attribute: the URL, then, unless the URL is a
/// prefix, the method (`GET` by default); at most two arguments. A prefix is kept without its
/// final slash: the subroute writes and reads the rest of the path, from its own slash on.
pub open spec fn route_arguments(args: Seq<AttrExpr>) -> Result<(Seq<Seg>, RouteTypeModel), AttrErr> {
    if args.len() == 0 {
        Err(AttrErr::MissingRouteUrl)
    } else {
        match route_url_argument(args[0]) {
            Err(x) => Err(x),
            Ok(segs) => if is_prefix_url(segs) {
                if args.len() > 1 {
                    Err(AttrErr::TooManyArguments)
                } else {
                    Ok((segs.drop_last(), RouteTypeModel::SubRoute))
                }
            } else {
                let m = if args.len() > 1 {
                    method_of(args[1])
                } else {
                    Ok("GET"@)
                };
                match m {
                    Err(x) => Err(x),
                    Ok(m) => if args.len() > 2 {
                        Err(AttrErr::TooManyArguments)
                    } else {
                        Ok((segs, RouteTypeModel::Simple(m)))
                    },
                }
            },
        }
    }
}

/// The outcome of one attribute: `None` for an attribute that is neither `route` nor
/// `catch_all`. A bare `catch_all` takes an empty URL.
pub open spec fn attribute_outcome(a: RouteAttribute) -> Option<
    Result<(Seq<Seg>, RouteTypeModel), AttrErr>,
> {
    match a {
        RouteAttribute::Route(args) => Some(route_arguments(args@)),
        RouteAttribute::CatchAll { bare } => Some(
            if bare {
                Ok((Seq::empty(), RouteTypeModel::CatchAll))
            } else {
                Err(AttrErr::CatchAllArguments)
            },
        ),
        RouteAttribute::Other => None,
    }
}

/// The outcome of a variant's attributes, from the first to the last, given what the ones
/// before gave: exactly one `route` or `catch_all` attribute is expected.
pub open spec fn route_info_from(
    attrs: Seq<RouteAttribute>,
    found: Option<(Seq<Seg>, RouteTypeModel)>,
) -> Result<(Seq<Seg>, RouteTypeModel), AttrErr>
    decreases attrs.len(),
{
    if attrs.len() == 0 {
        match found {
            Some(x) => Ok(x),
            None => Err(AttrErr::MissingRouteAttribute),
        }
    } else {
        match attribute_outcome(attrs[0]) {
            None => route_info_from(attrs.drop_first(), found),
            Some(r) => if found is Some {
                Err(AttrErr::MultipleRouteAttributes)
            } else {
                match r {
                    Err(x) => Err(x),
                    Ok(x) => route_info_from(attrs.drop_first(), Some(x)),
                }
            },
        }
    }
}

/// Gets the outcome of the arguments of a `route` attribute.
fn route_arguments_of(args: &Vec<AttrExpr>) -> (res: Result<(RouteUrl, RouteType), AttributeError>)
    ensures
        match res {
            Ok((u, t)) => route_arguments(args@) == Ok::<(Seq<Seg>, RouteTypeModel), AttrErr>(
                (u@, t@),
            ),
            Err(e) => route_arguments(args@) == Err::<(Seq<Seg>, RouteTypeModel), AttrErr>(e@),
        },
{
    if args.len() == 0 {
        return Err(AttributeError::MissingRouteUrl);
    }
    let url = match parse_route_url(&args[0]) {
        Ok(u) => u,
        Err(x) => {
            return Err(x);
        },
    };
    let n = url.0.len();
    let prefix = n > 1 && match &url.0[n - 1] {
        crate::route_url::RouteUrlSegment::Separator => true,
        _ => false,
    };
    proof {
        if n > 1 {
            assert(url@.last() == url.0@[n - 1]@);
        }
    }
    if prefix {
        if args.len() > 1 {
            return Err(AttributeError::TooManyArguments);
        }
        let mut segments = url.0;
        let ghost before = segments@;
        segments.pop();
        assert(segs_view(segments@) =~= segs_view(before).drop_last());
        return Ok((RouteUrl(segments), RouteType::SubRoute));
    }
    let method = if args.len() > 1 {
        match parse_method(&args[1]) {
            Ok(m) => m,
            Err(x) => {
                return Err(x);
            },
        }
    } else {
        String::from_str("GET")
    };
    if args.len() > 2 {
        return Err(AttributeError::TooManyArguments);
    }
    Ok((url, RouteType::Simple { method }))
}

/// Gets the URL and the type of a route variant from its attributes: it must have exactly one
/// `route` or `catch_all` attribute; a `route` attribute takes the URL (a string literal, rooted at
/// `/` when it does not start with a slash), then, unless the URL is a prefix (it ends with a
/// slash, which is then dropped), `method = "..."` (`GET` by default); a `catch_all` attribute
/// takes no argument.
pub fn parse_route_info(attrs: &Vec<RouteAttribute>) -> (res: Result<(RouteUrl, RouteType), AttributeError>)
    ensures
        match res {
            Ok((u, t)) => route_info_from(attrs@, None) == Ok::<
                (Seq<Seg>, RouteTypeModel),
                AttrErr,
            >((u@, t@)),
            Err(e) => route_info_from(attrs@, None) == Err::<(Seq<Seg>, RouteTypeModel), AttrErr>(
                e@,
            ),
        },
{
    let mut result: Option<(RouteUrl, RouteType)> = None;
    let mut i: usize = 0;
    assert(attrs@.skip(0) =~= attrs@);
    while i < attrs.len()
        invariant
            i <= attrs@.len(),
            route_info_from(attrs@, None) == route_info_from(
                attrs@.skip(i as int),
                match result {
                    Some((u, t)) => Some((u@, t@)),
                    None => None,
                },
            ),
        decreases attrs@.len() - i,
    {
        assert(attrs@.skip(i as int).drop_first() =~= attrs@.skip(i + 1));
        assert(attrs@.skip(i as int)[0] == attrs@[i as int]);
        match &attrs[i] {
            RouteAttribute::Route(args) => {
                if result.is_some() {
                    return Err(AttributeError::MultipleRouteAttributes);
                }
                match route_arguments_of(args) {
                    Ok(x) => {
                        result = Some(x);
                    },
                    Err(x) => {
                        return Err(x);
                    },
                }
            },
            RouteAttribute::CatchAll { bare } => {
                if result.is_some() {
                    return Err(AttributeError::MultipleRouteAttributes);
                }
                if !*bare {
                    return Err(AttributeError::CatchAllArguments);
                }
                let empty = RouteUrl(Vec::new());
                assert(empty@ =~= Seq::<Seg>::empty());
                result = Some((empty, RouteType::CatchAll));
            },
            RouteAttribute::Other => {},
        }
        i += 1;
    }
    assert(attrs@.skip(i as int) =~= Seq::<RouteAttribute>::empty());
    match result {
        Some(x) => Ok(x),
        None => Err(AttributeError::MissingRouteAttribute),
    }
}

} // verus!
