use htmxology::lifetimes::{
    extract_generic_param_idents, remove_lifetimes, replace_first_lifetime, GenericArg, GenericParam, PathSegment,
    TypeExpr,
};

/// The tokens of a type, separated by single spaces, as `quote` prints them.
fn render(t: &TypeExpr) -> String {
    match t {
        TypeExpr::Reference { lifetime, mutable, elem } => {
            let mut s = "&".to_string();
            if let Some(l) = lifetime {
                s.push_str(&format!(" '{l}"));
            }
            if *mutable {
                s.push_str(" mut");
            }
            format!("{s} {}", render(elem))
        }
        TypeExpr::Path(segments) => segments
            .iter()
            .map(|seg| match &seg.args {
                None => seg.ident.clone(),
                Some(args) => {
                    let args: Vec<String> = args
                        .iter()
                        .map(|a| match a {
                            GenericArg::Lifetime(l) => format!("'{l}"),
                            GenericArg::Type(t) => render(t),
                            GenericArg::Other(x) => x.clone(),
                        })
                        .collect();
                    format!("{} < {} >", seg.ident, args.join(" , "))
                }
            })
            .collect::<Vec<_>>()
            .join(" :: "),
        TypeExpr::Other(x) => x.clone(),
    }
}

fn path(ident: &str, args: Option<Vec<GenericArg>>) -> TypeExpr {
    TypeExpr::Path(vec![PathSegment { ident: ident.to_string(), args }])
}

fn reference(lifetime: Option<&str>, elem: TypeExpr) -> TypeExpr {
    TypeExpr::Reference { lifetime: lifetime.map(|l| l.to_string()), mutable: false, elem: Box::new(elem) }
}

/// `&'a str`
fn ref_a_str() -> TypeExpr {
    reference(Some("a"), path("str", None))
}

/// `Foo<'a>`
fn foo_a() -> TypeExpr {
    path("Foo", Some(vec![GenericArg::Lifetime("a".to_string())]))
}

/// `Option<&'a str>`
fn option_ref_a_str() -> TypeExpr {
    path("Option", Some(vec![GenericArg::Type(ref_a_str())]))
}

/// `i32`
fn i32_type() -> TypeExpr {
    path("i32", None)
}

fn check_replace(ty: TypeExpr, expected: &str, expected_replaced: bool) {
    let (new_ty, replaced) = replace_first_lifetime(&ty, "b");
    assert_eq!(render(&new_ty), expected);
    assert_eq!(replaced, expected_replaced);
}

#[test]
fn components_controller_test_replace_first_lifetime_reference() {
    check_replace(ref_a_str(), "& 'b str", true);
}

#[test]
fn components_controller_test_replace_first_lifetime_generic() {
    check_replace(foo_a(), "Foo < 'b >", true);
}

#[test]
fn components_controller_test_replace_first_lifetime_nested_generic() {
    check_replace(option_ref_a_str(), "Option < & 'b str >", true);
}

#[test]
fn components_controller_test_replace_first_lifetime_no_lifetime() {
    check_replace(i32_type(), "i32", false);
}

#[test]
fn components_controller_test_remove_lifetimes_from_reference() {
    assert_eq!(render(&remove_lifetimes(&ref_a_str())), "& str");
}

#[test]
fn components_controller_test_remove_lifetimes_from_generic() {
    assert_eq!(render(&remove_lifetimes(&foo_a())), "Foo < '_ >");
}

#[test]
fn components_controller_test_remove_lifetimes_from_nested_generic() {
    assert_eq!(render(&remove_lifetimes(&option_ref_a_str())), "Option < & str >");
}

#[test]
fn components_controller_test_remove_lifetimes_no_lifetime() {
    assert_eq!(render(&remove_lifetimes(&i32_type())), "i32");
}

#[test]
fn mod_test_replace_first_lifetime_reference() {
    check_replace(ref_a_str(), "& 'b str", true);
}

#[test]
fn mod_test_replace_first_lifetime_generic() {
    check_replace(foo_a(), "Foo < 'b >", true);
}

#[test]
fn mod_test_replace_first_lifetime_nested_generic() {
    check_replace(option_ref_a_str(), "Option < & 'b str >", true);
}

#[test]
fn mod_test_replace_first_lifetime_no_lifetime() {
    check_replace(i32_type(), "i32", false);
}

#[test]
fn mod_test_remove_lifetimes_from_reference() {
    assert_eq!(render(&remove_lifetimes(&ref_a_str())), "& str");
}

#[test]
fn mod_test_remove_lifetimes_from_generic() {
    assert_eq!(render(&remove_lifetimes(&foo_a())), "Foo < '_ >");
}

#[test]
fn mod_test_remove_lifetimes_from_nested_generic() {
    assert_eq!(render(&remove_lifetimes(&option_ref_a_str())), "Option < & str >");
}

#[test]
fn mod_test_remove_lifetimes_no_lifetime() {
    assert_eq!(render(&remove_lifetimes(&i32_type())), "i32");
}

#[test]
fn only_the_first_lifetime_is_named() {
    // `Map<'a, Vec<&'c T>, 'd>`: the first lifetime argument is named, the rest is untouched.
    let ty = path(
        "Map",
        Some(vec![
            GenericArg::Lifetime("a".to_string()),
            GenericArg::Type(path("Vec", Some(vec![GenericArg::Type(reference(Some("c"), path("T", None)))]))),
            GenericArg::Lifetime("d".to_string()),
        ]),
    );
    check_replace(ty, "Map < 'b , Vec < & 'c T > , 'd >", true);
    // A reference without a lifetime takes the new one; its referenced type is left as it is.
    let ty = reference(None, foo_a());
    check_replace(ty, "& 'b Foo < 'a >", true);
    // Depth first: a nested type argument comes before a later lifetime.
    let ty = path(
        "Pair",
        Some(vec![GenericArg::Type(foo_a()), GenericArg::Lifetime("z".to_string())]),
    );
    check_replace(ty, "Pair < Foo < 'b > , 'z >", true);
    let other = TypeExpr::Other("(&'a str, u8)".to_string());
    check_replace(other, "(&'a str, u8)", false);
}

#[test]
fn all_path_lifetimes_are_erased() {
    let ty = path(
        "Map",
        Some(vec![
            GenericArg::Lifetime("a".to_string()),
            GenericArg::Type(path("Vec", Some(vec![GenericArg::Type(reference(Some("c"), foo_a()))]))),
            GenericArg::Other("N = 3".to_string()),
        ]),
    );
    assert_eq!(render(&remove_lifetimes(&ty)), "Map < '_ , Vec < & Foo < 'a > > , N = 3 >");
}

#[test]
fn generic_param_idents_without_bounds() {
    // `<'a, T: Display = Bar, const N: usize>` is used as `<'a, T, N>`.
    let params = vec![
        GenericParam::Lifetime("a".to_string()),
        GenericParam::Type("T".to_string()),
        GenericParam::Const("N".to_string()),
    ];
    assert_eq!(extract_generic_param_idents(&params), vec!["'a".to_string(), "T".to_string(), "N".to_string()]);
    assert!(extract_generic_param_idents(&vec![]).is_empty());
}
