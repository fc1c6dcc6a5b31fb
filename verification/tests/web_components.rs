use htmxology::route::{as_htmx_attribute, replaced_path_and_query, to_absolute_url};
use htmxology::web_components::{ShadowDomMode, WebComponent, WebComponents};

#[test]
fn script_block_of_components() {
    let mut components = WebComponents::default();
    components.web_components.push(WebComponent {
        html_element_name: "my-el".to_string(),
        js_component_name: "MyEl".to_string(),
        shadow_dom_mode: ShadowDomMode::default(),
        html_content: "<p>x</p>".to_string(),
    });
    let rendered = vec!["customElements.define('my-el', MyEl);".to_string()];
    assert_eq!(
        components.to_script(&rendered),
        "<script>\ncustomElements.define('my-el', MyEl);\n</script>\n"
    );
    assert_eq!(WebComponents::default().to_script(&vec![]), "<script>\n</script>\n");
    assert_eq!(ShadowDomMode::Open.to_string(), "open");
    assert_eq!(ShadowDomMode::Closed.to_string(), "closed");
}

#[test]
fn test_route_as_htmx_attribute() {
    assert_eq!(as_htmx_attribute("GET", "/test/route"), r#"hx-get="/test/route""#);
    assert_eq!(as_htmx_attribute("DELETE", "/x"), r#"hx-delete="/x""#);
}

#[test]
fn absolute_urls_and_rewritten_paths() {
    assert_eq!(to_absolute_url("http://localhost:3000/", "/users"), "http://localhost:3000///users");
    assert_eq!(replaced_path_and_query("/new", Some("a=1")), "/new?a=1");
    assert_eq!(replaced_path_and_query("/new", None), "/new");
}
