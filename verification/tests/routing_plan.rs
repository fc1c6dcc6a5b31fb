use htmxology::route_attributes::RouteType;
use htmxology::route_codegen::FieldsConfig;
use htmxology::route_url::RouteUrl;
use htmxology::routing_plan::{plan_routes, url_equal, url_less, RoutingError};
use htmxology::variant_config::VariantConfig;

fn url(s: &str) -> RouteUrl {
    if s.is_empty() {
        RouteUrl(vec![])
    } else {
        s.parse().unwrap()
    }
}

fn simple(u: &str, method: &str) -> VariantConfig {
    VariantConfig {
        ident: "Page".to_string(),
        route_url: url(u),
        route_type: RouteType::Simple { method: method.to_string() },
        fields: FieldsConfig::Unit,
    }
}

fn sub(u: &str) -> VariantConfig {
    VariantConfig { ident: "Sub".to_string(), route_url: url(u), route_type: RouteType::SubRoute, fields: FieldsConfig::Unnamed(vec![]) }
}

fn catch_all() -> VariantConfig {
    VariantConfig { ident: "NotFound".to_string(), route_url: url(""), route_type: RouteType::CatchAll, fields: FieldsConfig::Unnamed(vec![]) }
}

#[test]
fn url_order() {
    assert!(url_less(&url("/"), &url("/users")));
    assert!(url_less(&url("/submit"), &url("/users")));
    assert!(url_less(&url("/users"), &url("/users/{id}")));
    // A separator comes before a parameter, which comes before a literal.
    assert!(url_less(&url("/a/"), &url("/a/{x}")));
    assert!(url_less(&url("/a/{zzz}"), &url("/a/aaa")));
    assert!(!url_less(&url("/a"), &url("/a")));
    assert!(url_equal(&url("/a/{b}"), &url("/a/{b}")));
    assert!(!url_equal(&url("/a/{b}"), &url("/a/{c}")));
}

#[test]
fn routing_table_order() {
    let configs = vec![
        simple("/", "GET"),
        simple("/users/{user_id}", "GET"),
        simple("/submit", "POST"),
        simple("/submit", "GET"),
        sub("/blog/"),
        sub("/admin/"),
        catch_all(),
        simple("/users/{user_id}", "DELETE"),
    ];
    let plan = plan_routes(&configs).unwrap();
    assert_eq!(plan.subroutes, vec![4, 5]);
    let groups: Vec<(usize, Vec<(String, usize)>)> = plan
        .simple
        .iter()
        .map(|g| (g.first, g.routes.iter().map(|r| (r.method.clone(), r.variant)).collect()))
        .collect();
    assert_eq!(
        groups,
        vec![
            (1, vec![("GET".to_string(), 1), ("DELETE".to_string(), 7)]),
            (2, vec![("POST".to_string(), 2), ("GET".to_string(), 3)]),
            (0, vec![("GET".to_string(), 0)]),
        ]
    );
    assert_eq!(plan.get_routes, vec![1, 3, 0]);
    assert_eq!(plan.catch_all, Some(6));
    // `FromStr` tries the subroutes, then the first `GET` route of each URL, then the catch-all.
    assert_eq!(plan.from_str_routes(), vec![4, 5, 1, 3, 0, 6]);
}

#[test]
fn routing_table_without_get_or_catch_all() {
    let configs = vec![simple("/items", "POST"), simple("/items", "PUT")];
    let plan = plan_routes(&configs).unwrap();
    assert!(plan.get_routes.is_empty());
    assert_eq!(plan.catch_all, None);
    assert!(plan.from_str_routes().is_empty());
    assert_eq!(plan.simple.len(), 1);
    let configs = vec![catch_all(), catch_all()];
    assert_eq!(plan_routes(&configs).unwrap().catch_all, Some(1));
}

#[test]
fn duplicate_subroute_prefix_is_refused() {
    let configs = vec![sub("/blog/"), simple("/blog/", "GET"), sub("/shop/"), sub("/blog/"), sub("/shop/")];
    let err = plan_routes(&configs).unwrap_err();
    assert_eq!(err, RoutingError::DuplicateSubroutePrefix { variant: 3 });
    assert_eq!(err.to_string(), "duplicate subroute prefix");
}
