use htmxology::route_format::{FormatError, FormatStatement};
use htmxology::route_url::{is_valid_url_path_character, ParseError, RouteUrl, RouteUrlSegment};

fn named(params: &[(&str, &str)]) -> Vec<(String, String)> {
    params.iter().map(|(n, i)| (n.to_string(), i.to_string())).collect()
}

#[test]
fn test_parse_route_url() {
    let u: RouteUrl = "/".parse().unwrap();
    assert_eq!(u.to_string(), "/");
    assert_eq!(u.to_path_regex(false), "/$");
    assert_eq!(u.to_path_regex(true), "/(?P<subroute>/.*)$");

    let u: RouteUrl = "/foo".parse().unwrap();
    assert_eq!(u.to_string(), "/foo");
    assert_eq!(u.to_path_regex(false), "/foo$");
    assert_eq!(u.to_path_regex(true), "/foo(?P<subroute>/.*)$");

    let u: RouteUrl = "/foo/{bar}".parse().unwrap();
    assert_eq!(u.to_string(), "/foo/{bar}");
    assert_eq!(u.to_path_regex(false), "/foo/(?P<bar>[^/]+)$");
    assert_eq!(
        u.to_path_regex(true),
        "/foo/(?P<bar>[^/]+)(?P<subroute>/.*)$"
    );

    let u: RouteUrl = "/user/{uid}/comment/{cid}".parse().unwrap();
    assert_eq!(u.to_string(), "/user/{uid}/comment/{cid}");
    assert_eq!(
        u.to_path_regex(false),
        "/user/(?P<uid>[^/]+)/comment/(?P<cid>[^/]+)$"
    );
    assert_eq!(
        u.to_path_regex(true),
        "/user/(?P<uid>[^/]+)/comment/(?P<cid>[^/]+)(?P<subroute>/.*)$"
    );
}

#[test]
fn test_subroute_regex_match() {
    let u: RouteUrl = "/foo/{bar}".parse().unwrap();
    let rx = u.to_path_regex(true);
    assert_eq!(rx, "/foo/(?P<bar>[^/]+)(?P<subroute>/.*)$");
    let re = regex::Regex::new(&rx).unwrap();

    // Subroute regex should not match as it requires a `/` as the first character of the
    // subroute.
    assert!(re.captures("/foo/123").is_none());

    let caps = re.captures("/foo/123/").unwrap();
    assert_eq!(caps.name("bar").unwrap().as_str(), "123");
    assert_eq!(caps.name("subroute").unwrap().as_str(), "/");

    let caps = re.captures("/foo/123/").unwrap();
    assert_eq!(caps.name("bar").unwrap().as_str(), "123");
    assert_eq!(caps.name("subroute").unwrap().as_str(), "/");

    let caps = re.captures("/foo/123/bar").unwrap();
    assert_eq!(caps.name("bar").unwrap().as_str(), "123");
    assert_eq!(caps.name("subroute").unwrap().as_str(), "/bar");
}

#[test]
fn test_parse_route_url_no_leading_slash() {
    let err = "foo".parse::<RouteUrl>().unwrap_err();

    match err {
        ParseError::NoLeadingSlash => {}
        _ => panic!("unexpected error: {err:?}"),
    }
}

#[test]
fn test_parse_route_url_unexpected_character() {
    let err = "/foo</bar".parse::<RouteUrl>().unwrap_err();

    match err {
        ParseError::UnexpectedCharacter {
            position,
            character,
        } => {
            assert_eq!(position, 4);
            assert_eq!(character, '<');
        }
        _ => panic!("unexpected error: {err:?}"),
    }

    assert_eq!(err.range(), 4..=4);
}

#[test]
fn test_parse_route_url_invalid_parameter_character() {
    let err = "/foo/{bar<}".parse::<RouteUrl>().unwrap_err();

    match err {
        ParseError::InvalidParameterCharacter {
            start,
            position,
            character,
        } => {
            assert_eq!(start, 6);
            assert_eq!(position, 9);
            assert_eq!(character, '<');
        }
        _ => panic!("unexpected error: {err:?}"),
    }

    assert_eq!(err.range(), 6..=9);
}

#[test]
fn test_parse_route_url_parameter_not_allowed() {
    let err = "/foo/prefix-{bar}".parse::<RouteUrl>().unwrap_err();

    match err {
        ParseError::ParameterNotAllowed { position } => {
            assert_eq!(position, 12);
        }
        _ => panic!("unexpected error: {err:?}"),
    }

    assert_eq!(err.range(), 12..=12);
}

#[test]
fn test_parse_route_url_parameter_not_allowed_twice() {
    let err = "/foo/{foo}{bar}".parse::<RouteUrl>().unwrap_err();

    match err {
        ParseError::ParameterNotAllowed { position } => {
            assert_eq!(position, 10);
        }
        _ => panic!("unexpected error: {err:?}"),
    }

    assert_eq!(err.range(), 10..=10);
}

#[test]
fn test_parse_route_url_unclosed_parameter() {
    let err = "/foo/{bar".parse::<RouteUrl>().unwrap_err();

    match err {
        ParseError::UnclosedParameter { start, end } => {
            assert_eq!(start, 5);
            assert_eq!(end, 8);
        }
        _ => panic!("unexpected error: {err:?}"),
    }

    assert_eq!(err.range(), 5..=8);
}

#[test]
fn route_url_error_detail_marks_the_range() {
    let s = "/foo/{bar<}";
    let err = s.parse::<RouteUrl>().unwrap_err();
    assert_eq!(err.detail(s), "/foo/{^bar<^}");
    let s = "/foo</bar";
    let err = s.parse::<RouteUrl>().unwrap_err();
    assert_eq!(err.detail(s), "/foo^<^/bar");
    // Positions are byte offsets: `é` takes two bytes.
    let err = ParseError::ParameterNotAllowed { position: 2 };
    assert_eq!(err.detail("é<x"), "é^<^x");
}

#[test]
fn route_url_segments_and_round_trip() {
    let u: RouteUrl = "/users/{user_id}/posts".parse().unwrap();
    let segs: Vec<String> = u
        .segments()
        .iter()
        .map(|s| match s {
            RouteUrlSegment::Separator => "/".to_string(),
            RouteUrlSegment::Parameter { name } => format!("param:{name}"),
            RouteUrlSegment::Literal(l) => format!("lit:{l}"),
        })
        .collect();
    assert_eq!(segs, vec!["/", "lit:users", "/", "param:user_id", "/", "lit:posts"]);
    for s in ["/", "/a/b/", "/x/{y}/z", "/a~b.c/{d_1}"] {
        let u: RouteUrl = s.parse().unwrap();
        assert_eq!(u.to_string(), s);
        let again: RouteUrl = u.to_string().parse().unwrap();
        assert_eq!(again.to_string(), s);
    }
}

#[test]
fn route_url_format_statements() {
    let u: RouteUrl = "/users/{user_id}/posts".parse().unwrap();
    assert_eq!(
        u.to_named_parameters_format(&named(&[("user_id", "uid")])).unwrap(),
        vec![
            FormatStatement::WriteSlash,
            FormatStatement::WriteStr("users".to_string()),
            FormatStatement::WriteSlash,
            FormatStatement::WriteArg("uid".to_string()),
            FormatStatement::WriteSlash,
            FormatStatement::WriteStr("posts".to_string()),
        ]
    );
    assert_eq!(
        u.to_unnamed_parameters_format(&vec!["arg0".to_string()]).unwrap(),
        vec![
            FormatStatement::WriteSlash,
            FormatStatement::WriteStr("users".to_string()),
            FormatStatement::WriteSlash,
            FormatStatement::WriteArg("arg0".to_string()),
            FormatStatement::WriteSlash,
            FormatStatement::WriteStr("posts".to_string()),
        ]
    );
    let err = u.to_unparameterized_string().unwrap_err();
    assert_eq!(err, FormatError::RequiredParameter { name: "user_id".to_string() });
    assert_eq!(
        err.to_string(),
        "the URL contains a required path parameter `user_id`, which cannot be formatted without parameters"
    );

    let err = u.to_named_parameters_format(&named(&[])).unwrap_err();
    assert_eq!(err, FormatError::MissingNamedParameter { name: "user_id".to_string() });
    assert_eq!(err.to_string(), "missing named path parameter `user_id`");

    let err = u
        .to_named_parameters_format(&named(&[("zz", "a"), ("user_id", "b"), ("page", "c")]))
        .unwrap_err();
    assert_eq!(err, FormatError::UnusedNamedParameter { name: "page".to_string() });
    assert_eq!(
        err.to_string(),
        "the URL does not contain all named path parameters (missing: page)"
    );

    let err = u.to_unnamed_parameters_format(&vec![]).unwrap_err();
    assert_eq!(err, FormatError::MissingArgument);
    assert_eq!(
        err.to_string(),
        "the URL contains more path parameters than route has arguments"
    );
    let err = u
        .to_unnamed_parameters_format(&vec!["a".to_string(), "b".to_string()])
        .unwrap_err();
    assert_eq!(err, FormatError::UnusedArgument);
    assert_eq!(err.to_string(), "the URL does not contain all unnamed path parameters");

    let plain: RouteUrl = "/about".parse().unwrap();
    assert_eq!(
        plain.to_unparameterized_string().unwrap(),
        vec![
            FormatStatement::WriteSlash,
            FormatStatement::WriteStr("about".to_string())
        ]
    );
}

#[test]
fn route_url_valid_path_characters() {
    for c in ['a', 'Z', '0', '-', '.', '_', '~', '!', '$', '&', '\'', '(', ')', '*', '+', ',', ';', '=', ':', '@', '%', '/'] {
        assert!(is_valid_url_path_character(c), "{c}");
    }
    for c in ['<', '>', ' ', '{', '}', '?', '#', 'é'] {
        assert!(!is_valid_url_path_character(c), "{c}");
    }
}

#[test]
fn unicode_alphanumeric_parameter_names() {
    // Parameter names may hold any alphanumeric character, as `char::is_alphanumeric` says.
    let url: RouteUrl = "/users/{nom_é2}/x".parse().unwrap();
    assert_eq!(url.to_string(), "/users/{nom_é2}/x");
    let url: RouteUrl = "/{éé}".parse().unwrap();
    assert_eq!(url.to_string(), "/{éé}");
    // Other characters are still refused.
    let err = "/{a-b}".parse::<RouteUrl>().unwrap_err();
    assert!(matches!(err, ParseError::InvalidParameterCharacter { position: 3, character: '-', .. }));
}

#[test]
fn unclosed_parameter_ends_at_the_last_byte() {
    // The end of an unclosed parameter is the last byte offset of the text.
    let err = "/{é".parse::<RouteUrl>().unwrap_err();
    assert_eq!(err, ParseError::UnclosedParameter { start: 1, end: 3 });
    let err = "/{ab".parse::<RouteUrl>().unwrap_err();
    assert_eq!(err, ParseError::UnclosedParameter { start: 1, end: 3 });
}
