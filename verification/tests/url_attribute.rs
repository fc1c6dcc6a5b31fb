use htmxology::url::{Url, UrlElement, UrlParseError};
use htmxology::url_format::{UrlExpression, UrlFormatError};

fn named(params: &[(&str, &str)]) -> Vec<(String, String)> {
    params.iter().map(|(n, i)| (n.to_string(), i.to_string())).collect()
}

fn unnamed(params: &[&str]) -> Vec<String> {
    params.iter().map(|i| i.to_string()).collect()
}

fn elements(url: &Url) -> Vec<String> {
    url.elements()
        .iter()
        .map(|e| match e {
            UrlElement::Slash => "/".to_string(),
            UrlElement::Literal(l) => format!("lit:{l}"),
            UrlElement::NamedPathParameter(n) => format!("named:{n}"),
            UrlElement::UnnamedPathParameter => "unnamed".to_string(),
        })
        .collect()
}

#[test]
fn test_url_root() {
    let s = "/";
    let url = Url::from_str(s).unwrap();

    assert_eq!(elements(&url), vec!["/"]);
    assert_eq!(url.to_string(), "/");
    assert_eq!(url.to_axum_route_path().unwrap(), "/");
    assert_eq!(
        url.to_named_parameters_format(&named(&[])).unwrap(),
        UrlExpression::Owned("/".to_string())
    );
}

#[test]
fn test_url_without_args() {
    let s = "/some/nice/url";
    let url = Url::from_str(s).unwrap();

    assert_eq!(
        elements(&url),
        vec!["/", "lit:some", "/", "lit:nice", "/", "lit:url"]
    );
    assert_eq!(url.to_string(), "/some/nice/url");
    assert_eq!(url.to_axum_route_path().unwrap(), "/some/nice/url");
    assert_eq!(
        url.to_named_parameters_format(&named(&[])).unwrap(),
        UrlExpression::Owned("/some/nice/url".to_string())
    );
}

#[test]
fn test_url_with_named_arguments() {
    let s = "/fruits/{fruit}/colors/{color}/";
    let url = Url::from_str(s).unwrap();

    assert_eq!(
        elements(&url),
        vec![
            "/",
            "lit:fruits",
            "/",
            "named:fruit",
            "/",
            "lit:colors",
            "/",
            "named:color",
            "/"
        ]
    );
    assert_eq!(url.to_string(), "/fruits/{fruit}/colors/{color}/");
    assert_eq!(
        url.to_axum_route_path().unwrap(),
        "/fruits/:fruit/colors/:color/"
    );
    assert_eq!(
        url.to_named_parameters_format(&named(&[("fruit", "myfruit"), ("color", "mycolor")]))
            .unwrap(),
        UrlExpression::Format("/fruits/{myfruit}/colors/{mycolor}/".to_string())
    );
    assert_eq!(
        url.to_unnamed_parameters_format(&unnamed(&["myfruit", "mycolor"]))
            .unwrap(),
        UrlExpression::Format("/fruits/{myfruit}/colors/{mycolor}/".to_string())
    );
}

#[test]
fn test_url_with_unnamed_arguments() {
    let s = "/fruits/{}/colors/{}/";
    let url = Url::from_str(s).unwrap();

    assert_eq!(
        elements(&url),
        vec!["/", "lit:fruits", "/", "unnamed", "/", "lit:colors", "/", "unnamed", "/"]
    );
    assert_eq!(url.to_string(), "/fruits/{}/colors/{}/");
    assert_eq!(
        url.to_axum_route_path().unwrap(),
        "/fruits/:arg0/colors/:arg1/"
    );
    assert_eq!(
        url.to_unnamed_parameters_format(&unnamed(&["myfruit", "mycolor"]))
            .unwrap(),
        UrlExpression::Format("/fruits/{myfruit}/colors/{mycolor}/".to_string())
    );
}

#[test]
fn test_invalid_url_non_ascii() {
    let s = "/fruits/🍎";
    Url::from_str(s).unwrap_err();
}

#[test]
fn test_invalid_url_doesnt_start_with_slash() {
    let s = "fruits/banana";
    Url::from_str(s).unwrap_err();
}

#[test]
fn test_invalid_url_invalid_path_arg_name() {
    let s = "/fruits/{0fruit}";
    Url::from_str(s).unwrap_err();
}

#[test]
fn test_invalid_url_unmatched_path_arg() {
    let s = "/fruits/{fruit/";
    Url::from_str(s).unwrap_err();
}

#[test]
fn test_invalid_url_invalid_char() {
    let s = "/fruits/}";
    Url::from_str(s).unwrap_err();
}

#[test]
fn test_url_with_invalid_axum_route_path() {
    let s = "/fruits/fruit-{fruit}/taste";
    let url = Url::from_str(s).unwrap();

    url.to_axum_route_path().unwrap_err();
}

#[test]
fn test_url_without_named_parameters_placeholders() {
    let s = "/fruits/{}/taste";
    let url = Url::from_str(s).unwrap();

    url.to_named_parameters_format(&named(&[("fruit", "myfruit")]))
        .unwrap_err();
}

#[test]
fn test_url_with_missing_named_parameters() {
    let s = "/fruits/{fruit}/color/{color}";
    let url = Url::from_str(s).unwrap();

    url.to_named_parameters_format(&named(&[("fruit", "myfruit")]))
        .unwrap_err();
}

#[test]
fn test_url_with_extra_named_parameters() {
    let s = "/fruits/{fruit}/color/{color}";
    let url = Url::from_str(s).unwrap();

    url.to_named_parameters_format(&named(&[
        ("fruit", "myfruit"),
        ("color", "mycolor"),
        ("name", "myname"),
    ]))
    .unwrap_err();
}

#[test]
fn test_url_with_missing_unnamed_parameters() {
    let s = "/fruits/{fruit}/color/{color}";
    let url = Url::from_str(s).unwrap();

    url.to_unnamed_parameters_format(&unnamed(&["myfruit"]))
        .unwrap_err();
}

#[test]
fn test_url_with_extra_unnamed_parameters() {
    let s = "/fruits/{fruit}/color/{color}";
    let url = Url::from_str(s).unwrap();

    url.to_unnamed_parameters_format(&unnamed(&["myfruit", "mycolor", "myname"]))
        .unwrap_err();
}

// The errors and their messages.

#[test]
fn url_errors_name_the_offending_character() {
    assert_eq!(Url::from_str("/fruits/🍎").unwrap_err(), UrlParseError::NotAscii);
    assert_eq!(Url::from_str("fruits").unwrap_err(), UrlParseError::NoLeadingSlash);
    assert_eq!(
        Url::from_str("/fruits/{0fruit}").unwrap_err(),
        UrlParseError::InvalidParameterCharacter { character: '0' }
    );
    assert_eq!(
        Url::from_str("/fruits/{fruit/").unwrap_err(),
        UrlParseError::InvalidParameterCharacter { character: '/' }
    );
    assert_eq!(Url::from_str("/fruits/{fruit").unwrap_err(), UrlParseError::UnmatchedBrace);
    assert_eq!(
        Url::from_str("/fruits/}").unwrap_err(),
        UrlParseError::InvalidCharacter { character: '}' }
    );
    assert_eq!(
        Url::from_str("/a b").unwrap_err(),
        UrlParseError::InvalidCharacter { character: ' ' }
    );

    assert_eq!(UrlParseError::NotAscii.to_string(), "URL must be ASCII");
    assert_eq!(UrlParseError::NoLeadingSlash.to_string(), "URL must start with `/`");
    assert_eq!(
        UrlParseError::InvalidParameterCharacter { character: '0' }.to_string(),
        "invalid character `48` in path parameter name"
    );
    assert_eq!(UrlParseError::UnmatchedBrace.to_string(), "unmatched `{`");
    assert_eq!(
        UrlParseError::InvalidCharacter { character: '}' }.to_string(),
        "invalid character `125` in URL"
    );
}

#[test]
fn url_digits_allowed_after_first_name_character() {
    let url = Url::from_str("/a/{fruit2}/b{}c").unwrap();
    assert_eq!(
        elements(&url),
        vec!["/", "lit:a", "/", "named:fruit2", "/", "lit:b", "unnamed", "lit:c"]
    );
    assert_eq!(url.to_string(), "/a/{fruit2}/b{}c");
}

#[test]
fn url_format_errors_and_messages() {
    let url = Url::from_str("/fruits/{fruit}/color/{color}").unwrap();
    assert_eq!(
        url.to_named_parameters_format(&named(&[("fruit", "myfruit")])).unwrap_err(),
        UrlFormatError::MissingNamedParameter { name: "color".to_string() }
    );
    let extra = url
        .to_named_parameters_format(&named(&[
            ("zeta", "z"),
            ("fruit", "myfruit"),
            ("color", "mycolor"),
            ("name", "myname"),
        ]))
        .unwrap_err();
    assert_eq!(
        extra,
        UrlFormatError::UnusedNamedParameter {
            url: "/fruits/{myfruit}/color/{mycolor}".to_string(),
            name: "name".to_string()
        }
    );
    assert_eq!(
        extra.to_string(),
        "the URL (/fruits/{myfruit}/color/{mycolor}) does not contain all named path parameters (missing: name)"
    );
    assert_eq!(
        url.to_unnamed_parameters_format(&unnamed(&["myfruit"])).unwrap_err(),
        UrlFormatError::MissingArgument
    );
    assert_eq!(
        url.to_unnamed_parameters_format(&unnamed(&["a", "b", "c"])).unwrap_err(),
        UrlFormatError::UnusedArgument
    );
    assert_eq!(
        url.to_unparametered_string().unwrap_err(),
        UrlFormatError::NamedParameterWithoutValue { name: "fruit".to_string() }
    );
    assert_eq!(
        UrlFormatError::NamedParameterWithoutValue { name: "fruit".to_string() }.to_string(),
        "the URL contains named path parameter `fruit`, which cannot be formatted without parameters"
    );
    let unnamed_url = Url::from_str("/fruits/{}").unwrap();
    assert_eq!(
        unnamed_url.to_unparametered_string().unwrap_err(),
        UrlFormatError::UnnamedParameterWithoutValue
    );
    assert_eq!(
        unnamed_url.to_named_parameters_format(&named(&[])).unwrap_err(),
        UrlFormatError::UnnamedParameterInNamedFormat
    );
    assert_eq!(
        Url::from_str("/plain/path").unwrap().to_unparametered_string().unwrap(),
        UrlExpression::Owned("/plain/path".to_string())
    );
    assert_eq!(
        Url::from_str("/a-{x}").unwrap().to_axum_route_path().unwrap_err().to_string(),
        "path parameters must be preceded by a slash when using Axum routing"
    );
}

#[test]
fn url_later_named_binding_overrides_earlier() {
    let url = Url::from_str("/f/{fruit}").unwrap();
    assert_eq!(
        url.to_named_parameters_format(&named(&[("fruit", "first"), ("fruit", "second")]))
            .unwrap(),
        UrlExpression::Format("/f/{second}".to_string())
    );
}

#[test]
fn url_display_round_trips() {
    for s in ["/", "/a/b", "/x/{y}/{}/z", "/a{}b/{c1}"] {
        let url = Url::from_str(s).unwrap();
        let again = Url::from_str(&url.to_string()).unwrap();
        assert_eq!(url.to_string(), s);
        assert_eq!(elements(&again), elements(&url));
    }
}
