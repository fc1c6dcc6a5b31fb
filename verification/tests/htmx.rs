use htmxology::response::{error_body, map_error_into_response};
use htmxology::htmx::{
    default_fragment_target, validate_html_id, validate_html_identifier, Fragment, HtmlId,
    HtmlName, Identity, InsertStrategy, InvalidHtmlId, Named,
};
use htmxology::oob::{inject_oob_attribute, is_void_element};
use htmxology::response::Response;
use std::str::FromStr;

#[test]
fn test_valid_html_ids() {
    let valid_ids = [
        "validId", "valid-id", "valid_id", "valid:id", "valid.id", "valid123", "v", "_valid",
        "1valid",
    ];

    for id in valid_ids {
        assert!(
            HtmlId::from_str(id).is_ok(),
            "Expected '{}' to be a valid HTML id",
            id
        );
    }
}

#[test]
fn test_invalid_html_ids() {
    let invalid_ids = [
        "",
        "-invalid",
        ".invalid",
        ":invalid",
        "invalid id",
        "invalid$id",
        "invalid/id",
        " invalid",
        "invalid ",
        "inva!lid",
    ];
    for id in invalid_ids {
        assert!(
            HtmlId::from_str(id).is_err(),
            "Expected '{}' to be an invalid HTML id",
            id
        );
    }
}

#[test]
fn test_valid_html_names() {
    let valid_names = [
        "validName",
        "valid-name",
        "valid_name",
        "valid:name",
        "valid.name",
        "valid123",
        "v",
        "_valid",
        "1valid",
    ];

    for name in valid_names {
        assert!(
            HtmlName::from_str(name).is_ok(),
            "Expected '{}' to be a valid HTML name",
            name
        );
    }
}

#[test]
fn test_invalid_html_names() {
    let invalid_names = [
        "",
        "-invalid",
        ".invalid",
        ":invalid",
        "invalid name",
        "invalid$name",
        "invalid/name",
        " invalid",
        "invalid ",
        "inva!lid",
    ];
    for name in invalid_names {
        assert!(
            HtmlName::from_str(name).is_err(),
            "Expected '{}' to be an invalid HTML name",
            name
        );
    }
}

#[test]
fn test_validate_html_id_valid() {
    assert!(validate_html_id("valid-id").is_ok());
    assert!(validate_html_id("valid_id").is_ok());
    assert!(validate_html_id("valid:id").is_ok());
    assert!(validate_html_id("valid.id").is_ok());
    assert!(validate_html_id("_valid").is_ok());
    assert!(validate_html_id("1valid").is_ok());
}

#[test]
fn test_validate_html_id_invalid() {
    assert!(validate_html_id("").is_err());
    assert!(validate_html_id("-invalid").is_err());
    assert!(validate_html_id(".invalid").is_err());
    assert!(validate_html_id(":invalid").is_err());
    assert!(validate_html_id("invalid id").is_err());
    assert!(validate_html_id("invalid$id").is_err());
    assert!(validate_html_id("invalid/id").is_err());
}

#[test]
fn test_validate_html_name_valid() {
    assert!(validate_html_identifier("valid-name", "name").is_ok());
    assert!(validate_html_identifier("valid_name", "name").is_ok());
    assert!(validate_html_identifier("valid:name", "name").is_ok());
    assert!(validate_html_identifier("valid.name", "name").is_ok());
    assert!(validate_html_identifier("_valid", "name").is_ok());
    assert!(validate_html_identifier("1valid", "name").is_ok());
}

#[test]
fn test_validate_html_name_invalid() {
    assert!(validate_html_identifier("", "name").is_err());
    assert!(validate_html_identifier("-invalid", "name").is_err());
    assert!(validate_html_identifier(".invalid", "name").is_err());
    assert!(validate_html_identifier(":invalid", "name").is_err());
    assert!(validate_html_identifier("invalid name", "name").is_err());
    assert!(validate_html_identifier("invalid$name", "name").is_err());
    assert!(validate_html_identifier("invalid/name", "name").is_err());
}

#[test]
fn html_identifier_messages() {
    assert_eq!(validate_html_id("").unwrap_err(), "HTML ID cannot be empty");
    assert_eq!(
        validate_html_identifier("-x", "name").unwrap_err(),
        "HTML name must start with a letter, digit, or underscore, found '-'"
    );
    assert_eq!(
        validate_html_id("a b").unwrap_err(),
        "HTML ID contains invalid character ' '. Only letters, digits, hyphens, underscores, colons, and periods are allowed"
    );
    let err: InvalidHtmlId = match HtmlId::from_str("a b") {
        Ok(_) => panic!("expected an invalid id"),
        Err(err) => err,
    };
    assert_eq!(err.to_string(), "invalid HTML id: invalid character: ' ' in 'a b'");
    match HtmlName::from_str("x y") {
        Ok(_) => panic!("expected an invalid name"),
        Err(err) => assert_eq!(err.to_string(), "invalid HTML name: invalid character: ' ' in 'x y'"),
    }
    assert_eq!(HtmlId::from_static("main").unwrap().to_string(), "main");
    assert_eq!(HtmlName::from_static("email").unwrap().as_str(), "email");
}

#[test]
fn insert_strategy_names() {
    let all = [
        (InsertStrategy::InnerHtml, "innerHTML"),
        (InsertStrategy::OuterHtml, "outerHTML"),
        (InsertStrategy::TextContent, "textContent"),
        (InsertStrategy::BeforeBegin, "beforebegin"),
        (InsertStrategy::AfterBegin, "afterbegin"),
        (InsertStrategy::BeforeEnd, "beforeend"),
        (InsertStrategy::AfterEnd, "afterend"),
        (InsertStrategy::Delete, "delete"),
        (InsertStrategy::NoSwap, "none"),
        (InsertStrategy::Custom("morph".to_string()), "morph"),
    ];
    for (strategy, name) in all {
        assert_eq!(strategy.to_string(), name);
        assert_eq!(InsertStrategy::from_name(name).to_string(), name);
    }
    assert!(InsertStrategy::OuterHtml.is_outer_html());
    assert!(!InsertStrategy::InnerHtml.is_outer_html());
}

#[test]
fn test_inject_oob_attribute_single_element() {
    let html = r#"<div id="test">Content</div>"#;
    let result = inject_oob_attribute(html, &InsertStrategy::OuterHtml, "#test");

    // Should inject hx-swap-oob="true" since ID matches and strategy is outerHTML
    assert!(
        result.contains(r#"hx-swap-oob="true""#),
        "Expected hx-swap-oob=\"true\", got: {}",
        result
    );
    assert!(result.contains("Content"), "Content should be preserved");
}

#[test]
fn test_inject_oob_attribute_with_different_target() {
    let html = r#"<div id="source">Content</div>"#;
    let result = inject_oob_attribute(html, &InsertStrategy::OuterHtml, "#target");

    assert!(
        result.contains(r#"hx-swap-oob="outerHTML:#target""#),
        "Expected hx-swap-oob=\"outerHTML:#target\", got: {}",
        result
    );
}

#[test]
fn test_inject_oob_attribute_with_strategy() {
    let html = r#"<div id="test">Content</div>"#;
    let result = inject_oob_attribute(html, &InsertStrategy::InnerHtml, "#test");

    assert!(
        result.contains(r#"hx-swap-oob="innerHTML:#test""#),
        "Expected hx-swap-oob=\"innerHTML:#test\", got: {}",
        result
    );
}

#[test]
fn test_inject_oob_attribute_multiple_elements() {
    let html = r#"<div>First</div><div>Second</div>"#;
    let result = inject_oob_attribute(html, &InsertStrategy::OuterHtml, "#target");

    assert!(
        result.starts_with("<template"),
        "Expected to wrap multiple elements in template, got: {}",
        result
    );
    assert!(
        result.contains(r#"hx-swap-oob="outerHTML:#target""#),
        "Template should have hx-swap-oob attribute"
    );
    assert!(
        result.contains("First") && result.contains("Second"),
        "Content should be preserved"
    );
}

#[test]
fn test_inject_oob_attribute_preserves_attributes() {
    let html = r#"<div id="test" class="foo" data-value="bar">Content</div>"#;
    let result = inject_oob_attribute(html, &InsertStrategy::OuterHtml, "#test");

    assert!(result.contains(r#"id="test""#), "id attribute should be preserved");
    assert!(result.contains(r#"class="foo""#), "class attribute should be preserved");
    assert!(
        result.contains(r#"data-value="bar""#),
        "data attribute should be preserved"
    );
    assert!(
        result.contains(r#"hx-swap-oob="true""#),
        "hx-swap-oob attribute should be added"
    );
}

#[test]
fn test_inject_oob_attribute_class_selector() {
    let html = r#"<div class="notification">Alert</div>"#;
    let result = inject_oob_attribute(html, &InsertStrategy::BeforeEnd, ".notification");

    assert_eq!(
        result,
        r#"<div class="notification" hx-swap-oob="beforeend:.notification">Alert</div>"#
    );
}

#[test]
fn inject_oob_attribute_void_and_replaced_attribute() {
    let result = inject_oob_attribute(r#"<br class="x">"#, &InsertStrategy::Delete, "#gone");
    assert_eq!(result, r#"<br class="x" hx-swap-oob="delete:#gone" />"#);
    let result = inject_oob_attribute(
        r#"<p hx-swap-oob="old" id="p">Hi</p>"#,
        &InsertStrategy::OuterHtml,
        "#p",
    );
    assert_eq!(result, r#"<p id="p" hx-swap-oob="true">Hi</p>"#);
    let result = inject_oob_attribute("just text", &InsertStrategy::AfterEnd, "#t");
    assert_eq!(
        result,
        r#"<template hx-swap-oob="afterend:#t">just text</template>"#
    );
}

#[test]
fn void_elements() {
    for tag in [
        "area", "base", "br", "col", "embed", "hr", "img", "input", "link", "meta", "param",
        "source", "track", "wbr",
    ] {
        assert!(is_void_element(tag));
    }
    for tag in ["div", "span", "BR", "template", ""] {
        assert!(!is_void_element(tag));
    }
}

struct TestFragment {
    id: &'static str,
    strategy: InsertStrategy,
    content: &'static str,
}

impl TestFragment {
    fn render(&self) -> String {
        format!(r#"<div id="{}">{}</div>"#, self.id, self.content)
    }
}

impl Identity for TestFragment {
    fn id(&self) -> HtmlId {
        HtmlId::from_static(self.id).expect("valid ID")
    }
}

impl Fragment for TestFragment {
    fn insert_strategy(&self) -> InsertStrategy {
        self.strategy.clone()
    }
}

struct EmailField;

impl Named for EmailField {
    fn name(&self) -> HtmlName {
        HtmlName::from_static("email").expect("valid name")
    }
}

#[test]
fn test_fragment_with_inner_html() {
    let fragment = TestFragment {
        id: "notification",
        strategy: InsertStrategy::InnerHtml,
        content: "Alert!",
    };

    assert_eq!(fragment.insert_strategy().to_string(), "innerHTML");
    assert_eq!(fragment.id().to_string(), "notification");
    assert_eq!(fragment.id_attribute(), r#"id="notification""#);
}

#[test]
fn test_fragment_with_before_end() {
    let fragment = TestFragment {
        id: "list",
        strategy: InsertStrategy::BeforeEnd,
        content: "<li>New item</li>",
    };

    assert_eq!(fragment.insert_strategy().to_string(), "beforeend");
}

#[test]
fn named_element_attribute() {
    assert_eq!(EmailField.name_attribute(), r#"name="email""#);
}

#[test]
fn test_response_with_fragment() {
    let fragment = TestFragment {
        id: "test-id",
        strategy: InsertStrategy::OuterHtml,
        content: "Test content",
    };

    let html = fragment.render();
    let response = Response::new("Main content").with_oob(&fragment, html);

    assert_eq!(response.oob_elements().len(), 1);
    let (strategy, target, _) = &response.oob_elements()[0];
    assert_eq!(strategy.to_string(), "outerHTML");
    assert_eq!(target.as_str(), "#test-id");
}

#[test]
fn test_multiple_fragments_with_different_strategies() {
    let fragment1 = TestFragment {
        id: "alert",
        strategy: InsertStrategy::OuterHtml,
        content: "Alert 1",
    };

    let fragment2 = TestFragment {
        id: "notification",
        strategy: InsertStrategy::InnerHtml,
        content: "Notification",
    };

    let html1 = fragment1.render();
    let html2 = fragment2.render();
    let response = Response::new("Main")
        .with_oob(&fragment1, html1)
        .with_oob(&fragment2, html2);

    assert_eq!(response.oob_elements().len(), 2);
    assert_eq!(response.oob_elements()[0].0.to_string(), "outerHTML");
    assert_eq!(response.oob_elements()[1].0.to_string(), "innerHTML");
    assert_eq!(response.oob_elements()[0].1.as_str(), "#alert");
    assert_eq!(response.oob_elements()[1].1.as_str(), "#notification");

    assert_eq!(
        response.full_body("Main"),
        r#"Main<div id="alert" hx-swap-oob="true">Alert 1</div><div id="notification" hx-swap-oob="innerHTML:#notification">Notification</div>"#
    );
}

fn header<T>(response: &Response<T>, name: &str) -> Option<String> {
    response
        .response_headers()
        .into_iter()
        .find(|(n, _)| n == name)
        .map(|(_, v)| v)
}

#[test]
fn test_with_redirect() {
    let response = Response::new("test body").with_redirect("/login");
    assert_eq!(header(&response, "hx-redirect").as_deref(), Some("/login"));
}

#[test]
fn test_with_location_simple() {
    let response = Response::new("test body").with_location("/dashboard");
    assert_eq!(header(&response, "hx-location").as_deref(), Some("/dashboard"));
}

#[test]
fn test_with_location_details_without_target() {
    let response = Response::new("test body").with_location_details("/dashboard", None);
    assert_eq!(header(&response, "hx-location").as_deref(), Some("/dashboard"));
}

#[test]
fn test_with_location_details_with_target() {
    let response =
        Response::new("test body").with_location_details("/dashboard", Some("#main-content"));
    let location_str = header(&response, "hx-location").unwrap();

    assert!(location_str.contains("\"path\":\"/dashboard\""));
    assert!(location_str.contains("\"target\":\"#main-content\""));
    assert_eq!(location_str, r##"{"path":"/dashboard","target":"#main-content"}"##);
}

#[test]
fn location_value_escapes_json() {
    let response = Response::new(()).with_location_details("/a\"b\\c", Some("\t#x"));
    assert_eq!(
        header(&response, "hx-location").unwrap(),
        r#"{"path":"/a\"b\\c","target":"\t#x"}"#
    );
}

#[test]
fn response_headers_in_order() {
    let response = Response::new("body")
        .with_content_type("text/plain".to_string())
        .with_retarget("#main".to_string())
        .with_header("x-one".to_string(), "1".to_string())
        .with_header("x-two".to_string(), "2".to_string())
        .with_header("x-one".to_string(), "again".to_string())
        .without_push_url();
    assert_eq!(
        response.response_headers(),
        vec![
            ("content-type".to_string(), "text/plain".to_string()),
            ("hx-retarget".to_string(), "#main".to_string()),
            ("x-one".to_string(), "1".to_string()),
            ("x-one".to_string(), "again".to_string()),
            ("x-two".to_string(), "2".to_string()),
            ("hx-push-url".to_string(), "false".to_string()),
        ]
    );
    assert!(response.has_header("x-two"));
    assert!(!response.has_header("x-three"));
    assert_eq!(*response.body(), "body");
    let plain = Response::new(1u8);
    assert_eq!(
        plain.response_headers(),
        vec![("content-type".to_string(), "text/html".to_string())]
    );
    let pushed = Response::new(()).with_push_url("/next");
    assert_eq!(header(&pushed, "hx-push-url").as_deref(), Some("/next"));
}

#[test]
fn fragment_default_target() {
    assert_eq!(default_fragment_target("MyFragment"), "#my_fragment");
    assert_eq!(default_fragment_target("Notification"), "#notification");
}

#[test]
fn valid_identifiers_need_no_escaping() {
    for s in ["a", "my-id", "x_1:y.z", "_9"] {
        let id = htmxology::htmx::HtmlId::parse(s).unwrap();
        assert!(!id.as_str().chars().any(|c| matches!(c, '"' | '\'' | '<' | '>' | '&') || c.is_whitespace()));
        assert_eq!(htmxology::htmx::id_attribute_of(&id), format!("id=\"{s}\""));
    }
    for s in ["a\"b", "a'b", "a<b", "a>b", "a&b", "a b", "\"x"] {
        assert!(htmxology::htmx::HtmlId::parse(s).is_err(), "{s}");
        assert!(htmxology::htmx::HtmlName::parse(s).is_err(), "{s}");
    }
}

#[test]
fn error_bodies_hide_server_errors() {
    assert_eq!(error_body(500, "database is down"), "internal server error");
    assert_eq!(error_body(503, "x"), "internal server error");
    assert_eq!(error_body(599, "x"), "internal server error");
    assert_eq!(error_body(404, "no such page"), "no such page");
    assert_eq!(error_body(400, "bad input"), "bad input");
    assert_eq!(error_body(600, "odd"), "odd");
}

#[test]
fn test_response_is_send() {
    // A response whose body can cross threads can cross threads too.
    fn assert_send<T: Send>() {}
    assert_send::<Response<String>>();
}

#[test]
fn repeated_header_sends_every_value() {
    let response = Response::new(())
        .with_header("x-extra".to_string(), "one".to_string())
        .with_header("x-extra".to_string(), "two".to_string());
    assert_eq!(
        response.response_headers(),
        vec![
            ("content-type".to_string(), "text/html".to_string()),
            ("x-extra".to_string(), "one".to_string()),
            ("x-extra".to_string(), "two".to_string()),
        ]
    );
    let typed = Response::new(()).with_header("content-type".to_string(), "text/plain".to_string());
    assert_eq!(
        typed.response_headers(),
        vec![
            ("content-type".to_string(), "text/html".to_string()),
            ("content-type".to_string(), "text/plain".to_string()),
        ]
    );
}

#[test]
fn oob_of_given_strategy_and_id() {
    let id = HtmlId::from_static("alert").unwrap();
    let response = Response::new(())
        .with_oob_of(InsertStrategy::BeforeEnd, &id, "<p>x</p>".to_string())
        .with_oob_of(InsertStrategy::Delete, &HtmlId::from_static("old").unwrap(), String::new());
    let oobs = response.oob_elements();
    assert_eq!(oobs.len(), 2);
    assert_eq!(oobs[0].0.to_string(), "beforeend");
    assert_eq!(oobs[0].1, "#alert");
    assert_eq!(oobs[0].2, "<p>x</p>");
    assert_eq!(oobs[1].0.to_string(), "delete");
    assert_eq!(oobs[1].1, "#old");
}

#[test]
fn map_error_into_response_hides_server_errors() {
    let ok: Result<u8, String> = Ok(7);
    assert_eq!(map_error_into_response(ok, 500), Ok(7));
    let err: Result<u8, String> = Err("database password leaked".to_string());
    assert_eq!(map_error_into_response(err, 503), Err((503, "internal server error".to_string())));
    let err: Result<u8, String> = Err("no such user".to_string());
    assert_eq!(map_error_into_response(err, 404), Err((404, "no such user".to_string())));
}
