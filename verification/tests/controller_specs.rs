use htmxology::controller_specs::{
    parse_component, parse_controller, parse_subcontroller, read_subcontrollers, ComponentArg, ControllerArg,
    ParamSpec, SpecError, SubcontrollerArg, SubcontrollerAttribute,
};
use htmxology::lifetimes::{GenericArg, PathSegment, TypeExpr};

fn path(ident: &str, args: Option<Vec<GenericArg>>) -> TypeExpr {
    TypeExpr::Path(vec![PathSegment { ident: ident.to_string(), args }])
}

fn named(ident: &str) -> TypeExpr {
    path(ident, None)
}

fn first_lifetime(t: &TypeExpr) -> Option<String> {
    match t {
        TypeExpr::Reference { lifetime, .. } => lifetime.clone(),
        TypeExpr::Path(segs) => segs.iter().flat_map(|s| s.args.iter().flatten()).find_map(|a| match a {
            GenericArg::Lifetime(l) => Some(l.clone()),
            _ => None,
        }),
        TypeExpr::Other(_) => None,
    }
}

fn s(x: &str) -> String {
    x.to_string()
}

#[test]
fn subcontroller_with_path_params_and_conversions() {
    let args = vec![
        SubcontrollerArg::Route(s("Blog")),
        SubcontrollerArg::Path(s("blog/{id}/")),
        SubcontrollerArg::Params(vec![ParamSpec { name: s("id"), ty: named("u32") }]),
        SubcontrollerArg::ConvertWith(s("Self::first")),
        SubcontrollerArg::ConvertWith(s("Self::blog")),
        SubcontrollerArg::ConvertResponse(s("Ok")),
        SubcontrollerArg::Doc(s("The blog")),
    ];
    let spec = parse_subcontroller(&named("BlogController"), &args).unwrap();
    assert_eq!(spec.route_variant, "Blog");
    assert_eq!(spec.path.as_deref(), Some("blog/{id}/"));
    assert_eq!(spec.doc.as_deref(), Some("The blog"));
    assert_eq!(spec.params.len(), 1);
    assert_eq!(spec.params[0].name, "id");
    assert_eq!(spec.convert_with.as_deref(), Some("Self::blog"));
    assert_eq!(spec.convert_response.as_deref(), Some("Ok"));
    assert!(!spec.has_lifetime);
}

#[test]
fn subcontroller_with_lifetime() {
    let ty = path("Page", Some(vec![GenericArg::Lifetime(s("a"))]));
    let spec = parse_subcontroller(&ty, &vec![SubcontrollerArg::Route(s("Page"))]).unwrap();
    assert!(spec.has_lifetime);
    assert_eq!(first_lifetime(&spec.controller_type).as_deref(), Some("static"));
    assert_eq!(
        first_lifetime(&spec.controller_type_with_spec_lifetime).as_deref(),
        Some("_component_spec_lifetime")
    );
    assert!(spec.path.is_none());
}

#[test]
fn subcontroller_errors() {
    let err = |args: Vec<SubcontrollerArg>| parse_subcontroller(&named("C"), &args).unwrap_err();
    let e = err(vec![SubcontrollerArg::Path(s("p/"))]);
    assert_eq!(e, SpecError::MissingRoute);
    assert_eq!(e.to_string(), "expected a `route` argument");
    let e = err(vec![SubcontrollerArg::Route(s("A")), SubcontrollerArg::Route(s("B"))]);
    assert_eq!(e, SpecError::DuplicateRoute);
    assert_eq!(e.to_string(), "only one `route` can be specified");
    let e = err(vec![SubcontrollerArg::Path(s("a/")), SubcontrollerArg::Path(s("b/"))]);
    assert_eq!(e, SpecError::DuplicatePath);
    assert_eq!(e.to_string(), "at most one path` can be specified");
    let e = err(vec![SubcontrollerArg::Doc(s("a")), SubcontrollerArg::Doc(s("b"))]);
    assert_eq!(e, SpecError::DuplicateDoc);
    assert_eq!(e.to_string(), "at most one `doc` can be specified");
    let p = || SubcontrollerArg::Params(vec![ParamSpec { name: s("x"), ty: named("u8") }]);
    let e = err(vec![p(), p()]);
    assert_eq!(e, SpecError::DuplicateParams);
    assert_eq!(e.to_string(), "only one `params` can be specified");
    // An empty list of parameters may be followed by another list.
    let ok = parse_subcontroller(&named("C"), &vec![SubcontrollerArg::Params(vec![]), p(), SubcontrollerArg::Route(s("R"))]);
    assert_eq!(ok.unwrap().params.len(), 1);
}

#[test]
fn component_spec() {
    let args = vec![ComponentArg::Route(s("Home")), ComponentArg::ConvertWith(s("Self::home")), ComponentArg::Doc(s("d"))];
    let spec = parse_component(&named("HomeController"), &args).unwrap();
    assert_eq!(spec.route_variant, "Home");
    assert_eq!(spec.convert_with.as_deref(), Some("Self::home"));
    assert!(spec.path.is_none());
    assert_eq!(parse_component(&named("C"), &vec![]).unwrap_err(), SpecError::MissingRoute);
    assert_eq!(
        parse_component(&named("C"), &vec![ComponentArg::Path(s("a")), ComponentArg::Path(s("b"))]).unwrap_err(),
        SpecError::DuplicatePath
    );
}

#[test]
fn controller_spec_arguments() {
    let args = vec![
        ControllerArg::Response(named("MyResponse")),
        ControllerArg::Args(named("MyArgs")),
        ControllerArg::PreHandler(s("Self::pre")),
        ControllerArg::ExtraDerives(vec![s("PartialEq"), s("Eq"), s("Hash")]),
    ];
    let spec = parse_controller("AppRoute", &args).unwrap();
    assert_eq!(spec.route_ident, "AppRoute");
    assert!(spec.response_type.is_some());
    assert!(spec.args_type.is_some());
    assert_eq!(spec.pre_handler.as_deref(), Some("Self::pre"));
    assert_eq!(spec.extra_derives, vec![s("PartialEq"), s("Eq"), s("Hash")]);
    let spec = parse_controller("AppRoute", &vec![]).unwrap();
    assert!(spec.response_type.is_none() && spec.args_type.is_none() && spec.pre_handler.is_none());
    assert!(spec.extra_derives.is_empty());
}

#[test]
fn controller_spec_errors() {
    let err = |args: Vec<ControllerArg>| parse_controller("R", &args).unwrap_err();
    let e = err(vec![ControllerArg::Response(named("A")), ControllerArg::Response(named("B"))]);
    assert_eq!(e.to_string(), "duplicate `response` parameter");
    let e = err(vec![ControllerArg::Args(named("A")), ControllerArg::Args(named("B"))]);
    assert_eq!(e.to_string(), "duplicate `args` parameter");
    let e = err(vec![ControllerArg::PreHandler(s("a")), ControllerArg::PreHandler(s("b"))]);
    assert_eq!(e.to_string(), "duplicate `pre_handler` parameter");
    let e = err(vec![ControllerArg::ExtraDerives(vec![s("Eq")]), ControllerArg::ExtraDerives(vec![s("Hash")])]);
    assert_eq!(e.to_string(), "duplicate `extra_derives` parameter");
    let e = err(vec![ControllerArg::Unknown(s("resp"))]);
    assert_eq!(e, SpecError::UnknownParameter { key: s("resp") });
    assert_eq!(
        e.to_string(),
        "expected `response`, `args`, `pre_handler`, or `extra_derives`, found `resp`"
    );
    // An empty list of extra derives may be given again.
    assert!(parse_controller("R", &vec![ControllerArg::ExtraDerives(vec![]), ControllerArg::ExtraDerives(vec![s("Eq")])]).is_ok());
}

fn attr(ty: &str, args: Vec<SubcontrollerArg>) -> SubcontrollerAttribute {
    SubcontrollerAttribute { controller_type: named(ty), args }
}

#[test]
fn multiple_default_subcontrollers_error() {
    let attrs = vec![
        attr("FallbackA", vec![SubcontrollerArg::Route(s("FallbackA"))]),
        attr("FallbackB", vec![SubcontrollerArg::Route(s("FallbackB"))]),
    ];
    let result = read_subcontrollers(&attrs);
    assert!(result.is_err(), "Expected error for multiple default subcontrollers");
    let error_message = result.unwrap_err().to_string();
    assert!(
        error_message.contains("only one default subcontroller"),
        "Expected error about multiple default subcontrollers, got: {}",
        error_message
    );
    assert_eq!(
        error_message,
        "only one default subcontroller (without `path`) is allowed; `FallbackA` is already defined as the default"
    );
}

#[test]
fn subcontrollers_in_order_with_one_default() {
    let attrs = vec![
        attr("BlogController", vec![SubcontrollerArg::Route(s("Blog")), SubcontrollerArg::Path(s("blog/"))]),
        attr("Fallback", vec![SubcontrollerArg::Route(s("Fallback"))]),
        attr("ShopController", vec![SubcontrollerArg::Route(s("Shop")), SubcontrollerArg::Path(s("shop/"))]),
    ];
    let specs = read_subcontrollers(&attrs).unwrap();
    let routes: Vec<&str> = specs.iter().map(|s| s.route_variant.as_str()).collect();
    assert_eq!(routes, vec!["Blog", "Fallback", "Shop"]);
    // The first attribute's own error comes before the default check of a later one.
    let attrs = vec![attr("A", vec![SubcontrollerArg::Route(s("A"))]), attr("B", vec![])];
    assert_eq!(read_subcontrollers(&attrs).unwrap_err(), SpecError::MissingRoute);
}

#[test]
fn unknown_keys_are_refused() {
    // An unknown key is refused before the other arguments are checked.
    let args = vec![
        SubcontrollerArg::Route(s("A")),
        SubcontrollerArg::Route(s("B")),
        SubcontrollerArg::Unknown(s("router")),
    ];
    let e = parse_subcontroller(&named("C"), &args).unwrap_err();
    assert_eq!(e, SpecError::UnknownSubcontrollerParameter { key: s("router") });
    assert_eq!(
        e.to_string(),
        "expected `route`, `path`, `convert_with`, `convert_response`, `doc`, or `params`"
    );
    let args = vec![ComponentArg::Unknown(s("catch_all")), ComponentArg::Route(s("Home"))];
    let e = parse_component(&named("C"), &args).unwrap_err();
    assert_eq!(e, SpecError::UnknownComponentParameter { key: s("catch_all") });
    assert_eq!(e.to_string(), "expected `catch_all`, `route`, or `convert_with`");
}

use htmxology::controller_plan::{
    derive_routing_controller, plan_components_controller, plan_routing_controller, ControllerAttribute,
};

#[test]
fn routing_controller_plan() {
    let spec = parse_controller(
        "AppRoute",
        &vec![
            ControllerArg::PreHandler(s("Self::authenticate")),
            ControllerArg::ExtraDerives(vec![s("PartialEq"), s("Eq")]),
        ],
    )
    .unwrap();
    let blog = SubcontrollerAttribute {
        controller_type: path("BlogController", Some(vec![GenericArg::Lifetime(s("a"))])),
        args: vec![
            SubcontrollerArg::Route(s("Blog")),
            SubcontrollerArg::Path(s("blog/{id}/")),
            SubcontrollerArg::Params(vec![ParamSpec { name: s("id"), ty: named("u32") }]),
            SubcontrollerArg::ConvertResponse(s("Self::wrap")),
            SubcontrollerArg::Doc(s("The blog")),
        ],
    };
    let home = SubcontrollerAttribute {
        controller_type: named("HomeController"),
        args: vec![SubcontrollerArg::Route(s("Home"))],
    };
    let subs = read_subcontrollers(&vec![blog, home]).unwrap();
    let plan = plan_routing_controller(&spec, &subs);
    assert_eq!(plan.route_ident, "AppRoute");
    assert_eq!(plan.derives, vec![s("Debug"), s("Clone"), s("htmxology::Route"), s("PartialEq"), s("Eq")]);
    assert_eq!(plan.pre_handler.as_deref(), Some("Self::authenticate"));
    assert!(plan.response_type.is_none() && plan.args_type.is_none());
    assert_eq!(plan.variants.len(), 2);
    let v = &plan.variants[0];
    assert_eq!((v.name.as_str(), v.doc.as_deref(), v.route_path.as_deref()), ("Blog", Some("The blog"), Some("blog/{id}/")));
    assert_eq!(v.params.len(), 1);
    assert_eq!(first_lifetime(&v.controller_type).as_deref(), Some("static"));
    let v = &plan.variants[1];
    assert_eq!((v.name.as_str(), v.route_path.as_deref()), ("Home", None));
    let a = &plan.arms[0];
    assert_eq!((a.variant.as_str(), a.params.clone(), a.convert_response.as_deref()), ("Blog", vec![s("id")], Some("Self::wrap")));
    assert_eq!(first_lifetime(&a.controller_type).as_deref(), Some("_"));
    let a = &plan.arms[1];
    assert_eq!((a.variant.as_str(), a.params.len(), a.convert_response.is_none()), ("Home", 0, true));
    // Without extra derives, the route enum derives the default traits only.
    let plain = parse_controller("R", &vec![]).unwrap();
    let plan = plan_routing_controller(&plain, &vec![]);
    assert_eq!(plan.derives, vec![s("Debug"), s("Clone"), s("htmxology::Route")]);
    assert!(plan.pre_handler.is_none() && plan.variants.is_empty() && plan.arms.is_empty());
}

#[test]
fn components_controller_plan() {
    let echo = parse_component(
        &named("EchoController"),
        &vec![ComponentArg::Route(s("Echo")), ComponentArg::Path(s("echo/"))],
    )
    .unwrap();
    let home = parse_component(&named("HomeController"), &vec![ComponentArg::Route(s("Home"))]).unwrap();
    let plan = plan_components_controller("AppRoute", &vec![echo, home]);
    assert_eq!(plan.route_ident, "AppRoute");
    assert_eq!(plan.derives, vec![s("Debug"), s("Clone"), s("htmxology::Route")]);
    assert_eq!(plan.variants[0].route_path.as_deref(), Some("echo/"));
    assert_eq!(plan.variants[1].route_path, None);
    assert_eq!(plan.arms[0].variant, "Echo");
    assert_eq!(plan.arms[1].variant, "Home");
}

#[test]
fn routing_controller_from_attributes() {
    let controller = |args: Vec<ControllerArg>| ControllerAttribute::Controller { route_ident: s("AppRoute"), args };
    let sub = |route: &str, path: Option<&str>| {
        let mut args = vec![SubcontrollerArg::Route(s(route))];
        if let Some(p) = path {
            args.push(SubcontrollerArg::Path(s(p)));
        }
        ControllerAttribute::Subcontroller(SubcontrollerAttribute { controller_type: named("C"), args })
    };
    let plan = derive_routing_controller(&vec![
        sub("Blog", Some("blog/")),
        ControllerAttribute::Other,
        controller(vec![ControllerArg::ExtraDerives(vec![s("Hash")])]),
        sub("Home", None),
    ])
    .unwrap();
    assert_eq!(plan.route_ident, "AppRoute");
    assert_eq!(plan.derives.last().map(String::as_str), Some("Hash"));
    assert_eq!(plan.variants.iter().map(|v| v.name.clone()).collect::<Vec<_>>(), vec![s("Blog"), s("Home")]);
    let e = derive_routing_controller(&vec![sub("Home", None)]).unwrap_err();
    assert_eq!(e, SpecError::MissingController);
    assert_eq!(e.to_string(), "expected `controller` attribute");
    let e = derive_routing_controller(&vec![controller(vec![]), controller(vec![])]).unwrap_err();
    assert_eq!(e, SpecError::DuplicateController);
    assert_eq!(e.to_string(), "only one `controller` attribute can be specified");
    let e = derive_routing_controller(&vec![controller(vec![]), sub("A", None), sub("B", None)]).unwrap_err();
    assert_eq!(e, SpecError::MultipleDefaultSubcontrollers { existing: s("A") });
}
