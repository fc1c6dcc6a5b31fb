use htmxology::attributes::{
    expect_enum, DataKind,
    fragment_target, parse_route_url_attribute, parse_url_attribute, AttrExpr, AttributeError, UrlRoute,
};
use htmxology::route_attributes::{parse_method, parse_raw_url, parse_route_info, RouteAttribute, RouteType};
use htmxology::route_url::ParseError;
use htmxology::url::UrlParseError;

fn lit(s: &str) -> AttrExpr {
    AttrExpr::StrLit(s.to_string())
}

fn ident(s: &str) -> AttrExpr {
    AttrExpr::Path(Some(s.to_string()))
}

fn assign(l: AttrExpr, r: AttrExpr) -> AttrExpr {
    AttrExpr::Assign(Box::new(l), Box::new(r))
}

fn route_url(r: &UrlRoute) -> (String, String) {
    (r.url.clone(), r.method.clone())
}

#[test]
fn url_attribute_literal_and_default_method() {
    let r = parse_url_attribute(&vec![lit("/users/{id}")]).unwrap();
    assert_eq!(route_url(&r), ("/users/{id}".to_string(), "get".to_string()));
}

#[test]
fn url_attribute_path_key_and_last_method() {
    let exprs = vec![
        assign(ident("path"), lit("/a")),
        assign(ident("method"), ident("post")),
        assign(ident("method"), ident("put")),
    ];
    let r = parse_url_attribute(&exprs).unwrap();
    assert_eq!(route_url(&r), ("/a".to_string(), "put".to_string()));
}

#[test]
fn url_attribute_errors() {
    let err = |exprs: Vec<AttrExpr>| parse_url_attribute(&exprs).unwrap_err();
    let e = err(vec![]);
    assert_eq!(e, AttributeError::MissingArgument);
    assert_eq!(e.to_string(), "expected at least one argument");
    let e = err(vec![AttrExpr::OtherLit]);
    assert_eq!(e, AttributeError::ExpectedStringLiteral);
    assert_eq!(e.to_string(), "expected a string literal");
    assert_eq!(err(vec![AttrExpr::Other]), AttributeError::ExpectedStringLiteral);
    let e = err(vec![assign(ident("url"), lit("/a"))]);
    assert_eq!(e, AttributeError::ExpectedPathKey);
    assert_eq!(e.to_string(), "expected `path`");
    let e = err(vec![assign(AttrExpr::Path(None), lit("/a"))]);
    assert_eq!(e, AttributeError::NotAnIdentifier);
    assert_eq!(e.to_string(), "expected this path to be an identifier");
    let e = err(vec![assign(AttrExpr::Other, lit("/a"))]);
    assert_eq!(e, AttributeError::ExpectedPath);
    assert_eq!(e.to_string(), "expected path");
    assert_eq!(err(vec![assign(ident("path"), AttrExpr::OtherLit)]), AttributeError::ExpectedStringLiteral);
    let e = err(vec![lit("/a"), AttrExpr::Other]);
    assert_eq!(e, AttributeError::ExpectedAssignment);
    assert_eq!(e.to_string(), "expected `<foo> = <bar>`");
    let e = err(vec![lit("/a"), assign(ident("verb"), ident("get"))]);
    assert_eq!(e, AttributeError::ExpectedMethodKey);
    assert_eq!(e.to_string(), "expected `method`");
    assert_eq!(err(vec![lit("/a"), assign(ident("method"), lit("get"))]), AttributeError::ExpectedPath);
}

#[test]
fn route_url_attribute_parses_the_url_first() {
    let r = parse_route_url_attribute(&vec![lit("/users/{id}"), assign(ident("method"), ident("post"))]).unwrap();
    assert_eq!(r.url.to_string(), "/users/{id}");
    assert_eq!(r.method, "post");
    let e = parse_route_url_attribute(&vec![lit("users"), AttrExpr::Other]).unwrap_err();
    assert_eq!(e, AttributeError::InvalidUrl(UrlParseError::NoLeadingSlash));
    assert_eq!(e.to_string(), "URL must start with `/`");
    let e = parse_route_url_attribute(&vec![lit("/users"), AttrExpr::Other]).unwrap_err();
    assert_eq!(e, AttributeError::ExpectedAssignment);
}

#[test]
fn fragment_target_default_and_override() {
    assert_eq!(fragment_target("MyFragment", &vec![]).unwrap(), "#my_fragment");
    let exprs = vec![assign(ident("target"), lit("#a")), assign(ident("target"), lit("#b"))];
    assert_eq!(fragment_target("MyFragment", &exprs).unwrap(), "#b");
}

#[test]
fn fragment_target_errors() {
    let e = fragment_target("X", &vec![assign(ident("swap"), lit("x"))]).unwrap_err();
    assert_eq!(e, AttributeError::UnknownAttribute { name: "swap".to_string() });
    assert_eq!(e.to_string(), "unknown attribute `swap`");
    let e = fragment_target("X", &vec![assign(ident("target"), AttrExpr::OtherLit)]).unwrap_err();
    assert_eq!(e, AttributeError::ExpectedStringValue);
    assert_eq!(e.to_string(), "expected string literal");
    let e = fragment_target("X", &vec![lit("#a")]).unwrap_err();
    assert_eq!(e, AttributeError::ExpectedAttributeAssignment);
    assert_eq!(e.to_string(), "expected `<attr> = \"...\"`");
}

#[test]
fn raw_url_and_method() {
    assert_eq!(parse_raw_url(&lit("users")).unwrap(), "users");
    assert_eq!(parse_raw_url(&AttrExpr::OtherLit).unwrap_err(), AttributeError::ExpectedStringLiteral);
    assert_eq!(parse_method(&assign(ident("method"), lit("POST"))).unwrap(), "POST");
    assert_eq!(parse_method(&assign(ident("method"), lit("purge"))).unwrap(), "purge");
    let e = parse_method(&assign(ident("method"), lit("GE T"))).unwrap_err();
    assert_eq!(e, AttributeError::InvalidHttpMethod);
    assert_eq!(e.to_string(), "invalid HTTP method");
    assert_eq!(parse_method(&assign(ident("method"), lit(""))).unwrap_err(), AttributeError::InvalidHttpMethod);
    assert_eq!(parse_method(&assign(ident("method"), AttrExpr::OtherLit)).unwrap_err(), AttributeError::ExpectedStringValue);
    assert_eq!(parse_method(&assign(ident("method"), ident("POST"))).unwrap_err(), AttributeError::ExpectedPath);
    assert_eq!(parse_method(&assign(ident("verb"), lit("POST"))).unwrap_err(), AttributeError::ExpectedMethodKey);
    let e = parse_method(&lit("POST")).unwrap_err();
    assert_eq!(e, AttributeError::ExpectedMethodAssignment);
    assert_eq!(e.to_string(), "expected `method = \"<GET|POST|...>\"`");
}

fn info(attrs: Vec<RouteAttribute>) -> Result<(String, RouteType), AttributeError> {
    parse_route_info(&attrs).map(|(u, t)| (u.to_string(), t))
}

#[test]
fn route_info_simple_prefix_and_catch_all() {
    assert_eq!(
        info(vec![RouteAttribute::Other, RouteAttribute::Route(vec![lit("/users/{id}")])]),
        Ok(("/users/{id}".to_string(), RouteType::Simple { method: "GET".to_string() }))
    );
    assert_eq!(
        info(vec![RouteAttribute::Route(vec![lit("/submit"), assign(ident("method"), lit("POST"))])]),
        Ok(("/submit".to_string(), RouteType::Simple { method: "POST".to_string() }))
    );
    assert_eq!(
        info(vec![RouteAttribute::Route(vec![lit("/")])]),
        Ok(("/".to_string(), RouteType::Simple { method: "GET".to_string() }))
    );
    // A prefix keeps no final slash: the subroute writes the rest of the path.
    assert_eq!(info(vec![RouteAttribute::Route(vec![lit("/blog/")])]), Ok(("/blog".to_string(), RouteType::SubRoute)));
    // A URL written without a leading slash is taken from the root.
    assert_eq!(
        info(vec![RouteAttribute::Route(vec![lit("users/{user_id}")])]),
        Ok(("/users/{user_id}".to_string(), RouteType::Simple { method: "GET".to_string() }))
    );
    assert_eq!(
        info(vec![RouteAttribute::Route(vec![lit("")])]),
        Ok(("/".to_string(), RouteType::Simple { method: "GET".to_string() }))
    );
    assert_eq!(info(vec![RouteAttribute::Route(vec![lit("api/")])]), Ok(("/api".to_string(), RouteType::SubRoute)));
    assert_eq!(
        info(vec![RouteAttribute::Route(vec![lit("posts/{post_id}/")])]),
        Ok(("/posts/{post_id}".to_string(), RouteType::SubRoute))
    );
    assert_eq!(info(vec![RouteAttribute::CatchAll { bare: true }]), Ok(("".to_string(), RouteType::CatchAll)));
}

#[test]
fn route_info_errors() {
    let e = info(vec![]).unwrap_err();
    assert_eq!(e, AttributeError::MissingRouteAttribute);
    assert_eq!(e.to_string(), "expected one `route` or `catch_all` attribute");
    let e = info(vec![RouteAttribute::Route(vec![lit("/a")]), RouteAttribute::CatchAll { bare: true }]).unwrap_err();
    assert_eq!(e, AttributeError::MultipleRouteAttributes);
    assert_eq!(e.to_string(), "expected exactly one `route` or `catch_all` attribute");
    let e = info(vec![RouteAttribute::CatchAll { bare: false }]).unwrap_err();
    assert_eq!(e, AttributeError::CatchAllArguments);
    assert_eq!(e.to_string(), "`catch_all` attribute does not take any arguments");
    let e = info(vec![RouteAttribute::Route(vec![])]).unwrap_err();
    assert_eq!(e, AttributeError::MissingRouteUrl);
    assert_eq!(e.to_string(), "expected a route URL as the first argument");
    let e = info(vec![RouteAttribute::Route(vec![lit("/blog/"), assign(ident("method"), lit("GET"))])]).unwrap_err();
    assert_eq!(e, AttributeError::TooManyArguments);
    assert_eq!(e.to_string(), "expected at most two arguments");
    let three = vec![lit("/a"), assign(ident("method"), lit("GET")), AttrExpr::Other];
    assert_eq!(info(vec![RouteAttribute::Route(three)]).unwrap_err(), AttributeError::TooManyArguments);
    // Errors are reported on the rooted text.
    let e = info(vec![RouteAttribute::Route(vec![lit("us<ers")])]).unwrap_err();
    assert_eq!(
        e,
        AttributeError::InvalidRouteUrl {
            error: ParseError::UnexpectedCharacter { position: 3, character: '<' },
            url: "/us<ers".to_string()
        }
    );
    assert_eq!(e.to_string(), "the path contains an unexpected character (`<`)\n/us^<^ers");
    // The first route attribute's own error comes before a second attribute is seen.
    let e = info(vec![RouteAttribute::Route(vec![AttrExpr::OtherLit]), RouteAttribute::Route(vec![lit("/a")])]).unwrap_err();
    assert_eq!(e, AttributeError::ExpectedStringLiteral);
}

#[test]
fn derives_for_enums_refuse_structs_and_unions() {
    assert_eq!(expect_enum(DataKind::Enum, "Route"), Ok(()));
    assert_eq!(expect_enum(DataKind::Struct, "Route"), Err("can't derive Route for a struct".to_string()));
    assert_eq!(expect_enum(DataKind::Union, "DisplayDelegate"), Err("can't derive DisplayDelegate for a union".to_string()));
}
