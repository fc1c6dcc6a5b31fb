//! Route enums whose `Display` and `FromStr` implementations are written the way the `Route`
//! derive writes them, on top of the library's route URLs, format statements and path argument
//! decoding.

use htmxology::path_arg::{PathArgumentDeserializationError, PathArgumentDeserializer};
use htmxology::route::{with_query_string, ParseError};
use htmxology::route_format::FormatStatement;
use htmxology::route_url::RouteUrl;
use std::fmt;
use std::str::FromStr;

/// Parses the URL of a `#[route("...")]` attribute: relative, with a trailing slash for a prefix.
fn route_url(url: &str) -> (RouteUrl, bool) {
    let is_prefix = url.ends_with('/');
    let url = if is_prefix { &url[..url.len() - 1] } else { url };
    (format!("/{url}").parse().expect("valid route URL"), is_prefix)
}

/// Writes the URL of a route, its path arguments bound by name to their display.
fn write_url(f: &mut fmt::Formatter<'_>, url: &str, args: &[(&str, String)]) -> fmt::Result {
    let (u, _) = route_url(url);
    let statements = if args.is_empty() {
        u.to_unparameterized_string()
    } else {
        let bindings = args.iter().map(|(n, _)| (n.to_string(), n.to_string())).collect();
        u.to_named_parameters_format(&bindings)
    }
    .map_err(|_| fmt::Error)?;
    for statement in statements {
        match statement {
            FormatStatement::WriteSlash => fmt::Write::write_char(f, '/')?,
            FormatStatement::WriteStr(s) => f.write_str(&s)?,
            FormatStatement::WriteArg(ident) => {
                let (_, value) = args.iter().find(|(n, _)| *n == ident).ok_or(fmt::Error)?;
                f.write_str(value)?
            }
            FormatStatement::WriteQuery(_) => return Err(fmt::Error),
        }
    }
    Ok(())
}

/// Writes the URL of a prefix route, whose subroute writes the rest.
fn write_prefix(f: &mut fmt::Formatter<'_>, url: &str, args: &[(&str, String)], sub: &dyn fmt::Display) -> fmt::Result {
    write_url(f, url, args)?;
    fmt::Display::fmt(sub, f)
}

/// Writes a route URL with its query string, if the query serializes to anything.
fn write_with_query(f: &mut fmt::Formatter<'_>, url: &str, args: &[(&str, String)], query: &[(&str, String)]) -> fmt::Result {
    struct Url<'a>(&'a str, &'a [(&'a str, String)]);
    impl fmt::Display for Url<'_> {
        fn fmt(&self, f: &mut fmt::Formatter<'_>) -> fmt::Result {
            write_url(f, self.0, self.1)
        }
    }
    let path = Url(url, args).to_string();
    let qs = serde_html_form::to_string(query).map_err(|_| fmt::Error)?;
    f.write_str(&with_query_string(path, &qs))
}

/// Matches a request path against a route URL, giving its captures.
fn captures<'a>(url: &str, path: &'a str) -> Option<regex::Captures<'a>> {
    let (u, is_prefix) = route_url(url);
    let re = regex::Regex::new(&format!("^{}", u.to_path_regex(is_prefix))).expect("valid regex");
    re.captures(path)
}

fn path_error(name: &str, value: &str, err: PathArgumentDeserializationError) -> ParseError {
    ParseError::PathParamParse {
        param_name: name.to_string(),
        value: value.to_string(),
        error: err.to_string(),
    }
}

fn split_query(s: &str) -> (&str, &str) {
    match s.split_once('?') {
        Some((path, query)) => (path, query),
        None => (s, ""),
    }
}

fn query_pairs(query: &str) -> Result<Vec<(String, String)>, ParseError> {
    serde_html_form::from_str(query).map_err(|err: serde_html_form::de::Error| ParseError::QueryStringParse {
        error: err.to_string(),
    })
}

fn not_get(url: &str, method: &str) -> ParseError {
    ParseError::NotAGetRoute { url: url.to_string(), method: method.to_string() }
}

fn no_match(url: &str) -> ParseError {
    ParseError::NoMatchingRoute { url: url.to_string() }
}

// The routes of `from_str_roundtrip`.

#[derive(Debug, Clone, PartialEq)]
struct SearchQuery {
    q: String,
}

#[derive(Debug, Clone, PartialEq)]
struct PageQuery {
    page: Option<u32>,
}

#[derive(Debug, Clone, PartialEq)]
enum TestRoute {
    Home,
    User { user_id: u32 },
    Comment { post_id: u32, comment_id: u64 },
    Search { query: SearchQuery },
    UserPosts { user_id: u32, query: PageQuery },
    Product(u32),
    CategoryItem(u32, String),
    Submit { data: String },
    Delete { id: u32 },
}

impl fmt::Display for TestRoute {
    fn fmt(&self, f: &mut fmt::Formatter<'_>) -> fmt::Result {
        match self {
            Self::Home => write_url(f, "", &[]),
            Self::User { user_id } => write_url(f, "users/{user_id}", &[("user_id", user_id.to_string())]),
            Self::Comment { post_id, comment_id } => write_url(
                f,
                "posts/{post_id}/comments/{comment_id}",
                &[("post_id", post_id.to_string()), ("comment_id", comment_id.to_string())],
            ),
            Self::Search { query } => write_with_query(f, "search", &[], &[("q", query.q.clone())]),
            Self::UserPosts { user_id, query } => {
                let page: Vec<(&str, String)> = query.page.iter().map(|p| ("page", p.to_string())).collect();
                write_with_query(f, "users/{user_id}/posts", &[("user_id", user_id.to_string())], &page)
            }
            Self::Product(arg0) => write_url(f, "products/{id}", &[("id", arg0.to_string())]),
            Self::CategoryItem(arg0, arg1) => write_url(
                f,
                "categories/{cat_id}/items/{item_id}",
                &[("cat_id", arg0.to_string()), ("item_id", arg1.clone())],
            ),
            Self::Submit { .. } => write_url(f, "submit", &[]),
            Self::Delete { id } => write_url(f, "delete/{id}", &[("id", id.to_string())]),
        }
    }
}

impl FromStr for TestRoute {
    type Err = ParseError;

    fn from_str(s: &str) -> Result<Self, Self::Err> {
        let (path, query) = split_query(s);
        if captures("", path).is_some() {
            return Ok(Self::Home);
        }
        if let Some(c) = captures("users/{user_id}", path) {
            let v = &c["user_id"];
            let user_id = PathArgumentDeserializer::new(v).deserialize_u32().map_err(|e| path_error("user_id", v, e))?;
            return Ok(Self::User { user_id });
        }
        if let Some(c) = captures("posts/{post_id}/comments/{comment_id}", path) {
            let v = &c["post_id"];
            let post_id = PathArgumentDeserializer::new(v).deserialize_u32().map_err(|e| path_error("post_id", v, e))?;
            let v = &c["comment_id"];
            let comment_id = PathArgumentDeserializer::new(v).deserialize_u64().map_err(|e| path_error("comment_id", v, e))?;
            return Ok(Self::Comment { post_id, comment_id });
        }
        if captures("search", path).is_some() {
            let pairs = query_pairs(query)?;
            let q = pairs.into_iter().find(|(k, _)| k == "q").map(|(_, v)| v).ok_or_else(|| ParseError::QueryStringParse {
                error: "missing field `q`".to_string(),
            })?;
            return Ok(Self::Search { query: SearchQuery { q } });
        }
        if let Some(c) = captures("users/{user_id}/posts", path) {
            let v = &c["user_id"];
            let user_id = PathArgumentDeserializer::new(v).deserialize_u32().map_err(|e| path_error("user_id", v, e))?;
            let page = match query_pairs(query)?.into_iter().find(|(k, _)| k == "page") {
                Some((_, v)) => Some(v.parse().map_err(|_| ParseError::QueryStringParse { error: format!("invalid page `{v}`") })?),
                None => None,
            };
            return Ok(Self::UserPosts { user_id, query: PageQuery { page } });
        }
        if let Some(c) = captures("products/{id}", path) {
            let v = &c[1];
            let arg0 = PathArgumentDeserializer::new(v).deserialize_u32().map_err(|e| path_error("arg0", v, e))?;
            return Ok(Self::Product(arg0));
        }
        if let Some(c) = captures("categories/{cat_id}/items/{item_id}", path) {
            let v = &c[1];
            let arg0 = PathArgumentDeserializer::new(v).deserialize_u32().map_err(|e| path_error("arg0", v, e))?;
            let v = &c[2];
            let arg1 = PathArgumentDeserializer::new(v).deserialize_string().map_err(|e| path_error("arg1", v, e))?;
            return Ok(Self::CategoryItem(arg0, arg1));
        }
        if captures("submit", path).is_some() {
            return Err(not_get(s, "POST"));
        }
        if captures("delete/{id}", path).is_some() {
            return Err(not_get(s, "DELETE"));
        }
        Err(no_match(s))
    }
}

#[test]
fn test_unit_variant() {
    let home = TestRoute::Home;
    let home_str = home.to_string();
    assert_eq!(home_str, "/");
    let parsed = TestRoute::from_str(&home_str).unwrap();
    assert_eq!(parsed, home);
}

#[test]
fn test_named_single_path_param() {
    let user = TestRoute::User { user_id: 42 };
    let user_str = user.to_string();
    assert_eq!(user_str, "/users/42");
    let parsed = TestRoute::from_str(&user_str).unwrap();
    assert_eq!(parsed, user);
}

#[test]
fn test_named_multiple_path_params() {
    let comment = TestRoute::Comment {
        post_id: 123,
        comment_id: 456,
    };
    let comment_str = comment.to_string();
    assert_eq!(comment_str, "/posts/123/comments/456");
    let parsed = TestRoute::from_str(&comment_str).unwrap();
    assert_eq!(parsed, comment);
}

#[test]
fn test_named_with_query_param() {
    let search = TestRoute::Search {
        query: SearchQuery {
            q: "rust".to_string(),
        },
    };
    let search_str = search.to_string();
    assert_eq!(search_str, "/search?q=rust");
    let parsed = TestRoute::from_str(&search_str).unwrap();
    assert_eq!(parsed, search);
}

#[test]
fn test_named_with_path_and_query_params() {
    let user_posts = TestRoute::UserPosts {
        user_id: 10,
        query: PageQuery { page: Some(2) },
    };
    let user_posts_str = user_posts.to_string();
    assert_eq!(user_posts_str, "/users/10/posts?page=2");
    let parsed = TestRoute::from_str(&user_posts_str).unwrap();
    assert_eq!(parsed, user_posts);

    let user_posts_no_page = TestRoute::UserPosts {
        user_id: 10,
        query: PageQuery { page: None },
    };
    let user_posts_no_page_str = user_posts_no_page.to_string();
    assert_eq!(user_posts_no_page_str, "/users/10/posts");
    let parsed = TestRoute::from_str(&user_posts_no_page_str).unwrap();
    assert_eq!(parsed, user_posts_no_page);
}

#[test]
fn test_unnamed_single_path_param() {
    let product = TestRoute::Product(999);
    let product_str = product.to_string();
    assert_eq!(product_str, "/products/999");
    let parsed = TestRoute::from_str(&product_str).unwrap();
    assert_eq!(parsed, product);
}

#[test]
fn test_unnamed_multiple_path_params() {
    let category_item = TestRoute::CategoryItem(5, "widget".to_string());
    let category_item_str = category_item.to_string();
    assert_eq!(category_item_str, "/categories/5/items/widget");
    let parsed = TestRoute::from_str(&category_item_str).unwrap();
    assert_eq!(parsed, category_item);
}

#[test]
fn test_non_get_routes_dont_parse() {
    let submit_str = "/submit";
    assert!(TestRoute::from_str(submit_str).is_err());

    let delete_str = "/delete/123";
    assert!(TestRoute::from_str(delete_str).is_err());
}

#[test]
fn test_invalid_paths_dont_parse() {
    assert!(TestRoute::from_str("/invalid/path").is_err());
    assert!(TestRoute::from_str("/users/not_a_number").is_err());
}

#[derive(Debug, Clone, PartialEq)]
enum ItemRoute {
    Item { name: String },
}

impl fmt::Display for ItemRoute {
    fn fmt(&self, f: &mut fmt::Formatter<'_>) -> fmt::Result {
        match self {
            Self::Item { name } => write_url(f, "items/{name}", &[("name", name.clone())]),
        }
    }
}

impl FromStr for ItemRoute {
    type Err = ParseError;

    fn from_str(s: &str) -> Result<Self, Self::Err> {
        let (path, _) = split_query(s);
        if let Some(c) = captures("items/{name}", path) {
            let v = &c["name"];
            let name = PathArgumentDeserializer::new(v).deserialize_string().map_err(|e| path_error("name", v, e))?;
            return Ok(Self::Item { name });
        }
        Err(no_match(s))
    }
}

#[test]
fn test_special_characters_in_path_params() {
    let item = ItemRoute::Item {
        name: "widget".to_string(),
    };
    let item_str = item.to_string();
    assert_eq!(item_str, "/items/widget");

    let parsed = ItemRoute::from_str(&item_str).unwrap();
    assert_eq!(parsed, item);
}

#[test]
fn route_parse_errors() {
    assert_eq!(
        TestRoute::from_str("/delete/123").unwrap_err(),
        ParseError::NotAGetRoute { url: "/delete/123".to_string(), method: "DELETE".to_string() }
    );
    let err = TestRoute::from_str("/users/not_a_number").unwrap_err();
    assert_eq!(
        err.to_string(),
        "Failed to parse path parameter 'user_id' from 'not_a_number': failed to parse value `not_a_number` as u32"
    );
    assert_eq!(
        TestRoute::from_str("/invalid/path").unwrap_err().to_string(),
        "No matching GET route found for URL: /invalid/path"
    );
    assert_eq!(
        ParseError::NotAGetRoute { url: "/submit".to_string(), method: "POST".to_string() }.to_string(),
        "URL '/submit' matches a POST route, but FromStr only works for GET routes"
    );
    assert_eq!(
        ParseError::QueryStringParse { error: "bad".to_string() }.to_string(),
        "Failed to parse query string: bad"
    );
    assert_eq!(
        ParseError::MissingPathParam { param_name: "id".to_string() }.to_string(),
        "Missing required path parameter: id"
    );
}

// The routes of `from_str_subroutes`.

#[derive(Debug, Clone, PartialEq)]
enum ApiRoute {
    Users,
    Post { id: u32 },
}

impl fmt::Display for ApiRoute {
    fn fmt(&self, f: &mut fmt::Formatter<'_>) -> fmt::Result {
        match self {
            Self::Users => write_url(f, "users", &[]),
            Self::Post { id } => write_url(f, "posts/{id}", &[("id", id.to_string())]),
        }
    }
}

impl FromStr for ApiRoute {
    type Err = ParseError;

    fn from_str(s: &str) -> Result<Self, Self::Err> {
        let (path, _) = split_query(s);
        if captures("users", path).is_some() {
            return Ok(Self::Users);
        }
        if let Some(c) = captures("posts/{id}", path) {
            let v = &c["id"];
            let id = PathArgumentDeserializer::new(v).deserialize_u32().map_err(|e| path_error("id", v, e))?;
            return Ok(Self::Post { id });
        }
        Err(no_match(s))
    }
}

#[derive(Debug, Clone, PartialEq)]
enum AppRoute {
    Home,
    Api { route: ApiRoute },
}

impl fmt::Display for AppRoute {
    fn fmt(&self, f: &mut fmt::Formatter<'_>) -> fmt::Result {
        match self {
            Self::Home => write_url(f, "", &[]),
            Self::Api { route } => write_prefix(f, "api/", &[], route),
        }
    }
}

impl FromStr for AppRoute {
    type Err = ParseError;

    fn from_str(s: &str) -> Result<Self, Self::Err> {
        let (path, _) = split_query(s);
        if captures("", path).is_some() {
            return Ok(Self::Home);
        }
        if let Some(c) = captures("api/", path) {
            return Ok(Self::Api { route: ApiRoute::from_str(&s[c.name("subroute").unwrap().start()..])? });
        }
        Err(no_match(s))
    }
}

#[test]
fn test_subroute_simple() {
    let route = AppRoute::Api {
        route: ApiRoute::Users,
    };
    let route_str = route.to_string();
    assert_eq!(route_str, "/api/users");

    let parsed = AppRoute::from_str(&route_str).unwrap();
    assert_eq!(parsed, route);
}

#[test]
fn test_subroute_with_params() {
    let route = AppRoute::Api {
        route: ApiRoute::Post { id: 123 },
    };
    let route_str = route.to_string();
    assert_eq!(route_str, "/api/posts/123");

    let parsed = AppRoute::from_str(&route_str).unwrap();
    assert_eq!(parsed, route);
}

#[derive(Debug, Clone, PartialEq)]
enum PostRoute {
    Show,
    Edit,
}

impl fmt::Display for PostRoute {
    fn fmt(&self, f: &mut fmt::Formatter<'_>) -> fmt::Result {
        match self {
            Self::Show => write_url(f, "", &[]),
            Self::Edit => write_url(f, "edit", &[]),
        }
    }
}

impl FromStr for PostRoute {
    type Err = ParseError;

    fn from_str(s: &str) -> Result<Self, Self::Err> {
        let (path, _) = split_query(s);
        if captures("", path).is_some() {
            return Ok(Self::Show);
        }
        if captures("edit", path).is_some() {
            return Ok(Self::Edit);
        }
        Err(no_match(s))
    }
}

#[derive(Debug, Clone, PartialEq)]
enum BlogRoute {
    Index,
    Post { post_id: u32, route: PostRoute },
}

impl fmt::Display for BlogRoute {
    fn fmt(&self, f: &mut fmt::Formatter<'_>) -> fmt::Result {
        match self {
            Self::Index => write_url(f, "", &[]),
            Self::Post { post_id, route } => {
                write_prefix(f, "posts/{post_id}/", &[("post_id", post_id.to_string())], route)
            }
        }
    }
}

impl FromStr for BlogRoute {
    type Err = ParseError;

    fn from_str(s: &str) -> Result<Self, Self::Err> {
        let (path, _) = split_query(s);
        if captures("", path).is_some() {
            return Ok(Self::Index);
        }
        if let Some(c) = captures("posts/{post_id}/", path) {
            let v = &c["post_id"];
            let post_id = PathArgumentDeserializer::new(v).deserialize_u32().map_err(|e| path_error("post_id", v, e))?;
            let route = PostRoute::from_str(&s[c.name("subroute").unwrap().start()..])?;
            return Ok(Self::Post { post_id, route });
        }
        Err(no_match(s))
    }
}

#[derive(Debug, Clone, PartialEq)]
enum SiteRoute {
    Home,
    Blog { route: BlogRoute },
}

impl fmt::Display for SiteRoute {
    fn fmt(&self, f: &mut fmt::Formatter<'_>) -> fmt::Result {
        match self {
            Self::Home => write_url(f, "", &[]),
            Self::Blog { route } => write_prefix(f, "blog/", &[], route),
        }
    }
}

impl FromStr for SiteRoute {
    type Err = ParseError;

    fn from_str(s: &str) -> Result<Self, Self::Err> {
        let (path, _) = split_query(s);
        if captures("", path).is_some() {
            return Ok(Self::Home);
        }
        if let Some(c) = captures("blog/", path) {
            return Ok(Self::Blog { route: BlogRoute::from_str(&s[c.name("subroute").unwrap().start()..])? });
        }
        Err(no_match(s))
    }
}

#[test]
fn test_nested_subroute_index() {
    let route = SiteRoute::Blog {
        route: BlogRoute::Index,
    };
    let route_str = route.to_string();
    assert_eq!(route_str, "/blog/");

    let parsed = SiteRoute::from_str(&route_str).unwrap();
    assert_eq!(parsed, route);
}

#[test]
fn test_nested_subroute_deep() {
    let route = SiteRoute::Blog {
        route: BlogRoute::Post {
            post_id: 42,
            route: PostRoute::Edit,
        },
    };
    let route_str = route.to_string();
    assert_eq!(route_str, "/blog/posts/42/edit");

    let parsed = SiteRoute::from_str(&route_str).unwrap();
    assert_eq!(parsed, route);
}

#[derive(Debug, Clone, PartialEq)]
enum NotFoundRoute {
    NotFound,
    NotFoundWithPath { path: String },
}

impl fmt::Display for NotFoundRoute {
    fn fmt(&self, f: &mut fmt::Formatter<'_>) -> fmt::Result {
        match self {
            Self::NotFound => write_url(f, "", &[]),
            Self::NotFoundWithPath { path } => write_url(f, "{path}", &[("path", path.clone())]),
        }
    }
}

impl FromStr for NotFoundRoute {
    type Err = ParseError;

    fn from_str(s: &str) -> Result<Self, Self::Err> {
        let (path, _) = split_query(s);
        if captures("", path).is_some() {
            return Ok(Self::NotFound);
        }
        if let Some(c) = captures("{path}", path) {
            let v = &c["path"];
            let path = PathArgumentDeserializer::new(v).deserialize_string().map_err(|e| path_error("path", v, e))?;
            return Ok(Self::NotFoundWithPath { path });
        }
        Err(no_match(s))
    }
}

#[derive(Debug, Clone, PartialEq)]
enum MainRoute {
    Home,
    About,
    NotFound(NotFoundRoute),
}

impl fmt::Display for MainRoute {
    fn fmt(&self, f: &mut fmt::Formatter<'_>) -> fmt::Result {
        match self {
            Self::Home => write_url(f, "", &[]),
            Self::About => write_url(f, "about", &[]),
            Self::NotFound(route) => fmt::Display::fmt(route, f),
        }
    }
}

impl FromStr for MainRoute {
    type Err = ParseError;

    fn from_str(s: &str) -> Result<Self, Self::Err> {
        let (path, _) = split_query(s);
        if captures("", path).is_some() {
            return Ok(Self::Home);
        }
        if captures("about", path).is_some() {
            return Ok(Self::About);
        }
        Ok(Self::NotFound(NotFoundRoute::from_str(s)?))
    }
}

#[test]
fn test_catch_all_simple() {
    let route = MainRoute::NotFound(NotFoundRoute::NotFound);
    let route_str = route.to_string();
    assert_eq!(route_str, "/");

    let parsed = MainRoute::from_str(&route_str).unwrap();
    assert_eq!(parsed, MainRoute::Home);
}

#[test]
fn test_catch_all_with_path() {
    let route = MainRoute::NotFound(NotFoundRoute::NotFoundWithPath {
        path: "unknown".to_string(),
    });
    let route_str = route.to_string();
    assert_eq!(route_str, "/unknown");

    let parsed = MainRoute::from_str(&route_str).unwrap();
    assert_eq!(parsed, route);
}

#[test]
fn test_main_routes_still_work() {
    let home = MainRoute::Home;
    let home_str = home.to_string();
    assert_eq!(home_str, "/");
    let parsed = MainRoute::from_str(&home_str).unwrap();
    assert_eq!(parsed, home);

    let about = MainRoute::About;
    let about_str = about.to_string();
    assert_eq!(about_str, "/about");
    let parsed = MainRoute::from_str(&about_str).unwrap();
    assert_eq!(parsed, about);
}

// The routes of `query_params`.

#[derive(Debug, Clone, PartialEq)]
struct VecQuery {
    tags: Vec<String>,
}

#[derive(Debug, Clone, PartialEq)]
struct MixedQuery {
    tags: Vec<String>,
    category: String,
}

#[derive(Debug, Clone, PartialEq)]
struct OptionalVecQuery {
    tags: Vec<String>,
    category: Option<String>,
}

#[derive(Debug, Clone, PartialEq)]
struct IntVecQuery {
    ids: Vec<u32>,
}

#[derive(Debug, Clone, PartialEq)]
struct ComplexQuery {
    tags: Vec<String>,
    ids: Vec<u32>,
    limit: Option<usize>,
    offset: usize,
}

fn each<'a, T: ToString>(name: &'a str, values: &[T]) -> Vec<(&'a str, String)> {
    values.iter().map(|v| (name, v.to_string())).collect()
}

#[derive(Debug, Clone)]
enum VecRoute {
    Search { query: VecQuery },
}

impl fmt::Display for VecRoute {
    fn fmt(&self, f: &mut fmt::Formatter<'_>) -> fmt::Result {
        match self {
            Self::Search { query } => write_with_query(f, "search", &[], &each("tags", &query.tags)),
        }
    }
}

#[derive(Debug, Clone)]
enum MixedRoute {
    Search { query: MixedQuery },
}

impl fmt::Display for MixedRoute {
    fn fmt(&self, f: &mut fmt::Formatter<'_>) -> fmt::Result {
        match self {
            Self::Search { query } => {
                let mut pairs = each("tags", &query.tags);
                pairs.push(("category", query.category.clone()));
                write_with_query(f, "search", &[], &pairs)
            }
        }
    }
}

#[derive(Debug, Clone)]
enum OptionalVecRoute {
    Search { query: OptionalVecQuery },
}

impl fmt::Display for OptionalVecRoute {
    fn fmt(&self, f: &mut fmt::Formatter<'_>) -> fmt::Result {
        match self {
            Self::Search { query } => {
                let mut pairs = each("tags", &query.tags);
                pairs.extend(query.category.iter().map(|c| ("category", c.clone())));
                write_with_query(f, "search", &[], &pairs)
            }
        }
    }
}

#[derive(Debug, Clone)]
enum IntVecRoute {
    Items { query: IntVecQuery },
}

impl fmt::Display for IntVecRoute {
    fn fmt(&self, f: &mut fmt::Formatter<'_>) -> fmt::Result {
        match self {
            Self::Items { query } => write_with_query(f, "items", &[], &each("ids", &query.ids)),
        }
    }
}

#[derive(Debug, Clone)]
enum ComplexRoute {
    Search { query: ComplexQuery },
}

impl fmt::Display for ComplexRoute {
    fn fmt(&self, f: &mut fmt::Formatter<'_>) -> fmt::Result {
        match self {
            Self::Search { query } => {
                let mut pairs = each("tags", &query.tags);
                pairs.extend(each("ids", &query.ids));
                pairs.extend(query.limit.iter().map(|l| ("limit", l.to_string())));
                pairs.push(("offset", query.offset.to_string()));
                write_with_query(f, "search", &[], &pairs)
            }
        }
    }
}

#[test]
fn test_vec_query_empty() {
    let route = VecRoute::Search {
        query: VecQuery { tags: vec![] },
    };

    let url = route.to_string();
    assert_eq!(url, "/search", "Empty Vec should produce no query string");
}

#[test]
fn test_vec_query_single_item() {
    let route = VecRoute::Search {
        query: VecQuery {
            tags: vec!["rust".to_string()],
        },
    };

    let url = route.to_string();
    assert_eq!(url, "/search?tags=rust");
}

#[test]
fn test_vec_query_multiple_items() {
    let route = VecRoute::Search {
        query: VecQuery {
            tags: vec!["rust".to_string(), "web".to_string(), "htmx".to_string()],
        },
    };

    let url = route.to_string();
    assert_eq!(url, "/search?tags=rust&tags=web&tags=htmx");
}

#[test]
fn test_vec_query_url_encoding() {
    let route = VecRoute::Search {
        query: VecQuery {
            tags: vec!["hello world".to_string(), "foo&bar".to_string()],
        },
    };

    let url = route.to_string();
    assert!(url.contains("hello+world") || url.contains("hello%20world"));
    assert!(url.contains("foo%26bar"));
}

#[test]
fn test_mixed_query_empty_vec() {
    let route = MixedRoute::Search {
        query: MixedQuery {
            tags: vec![],
            category: "programming".to_string(),
        },
    };

    let url = route.to_string();
    assert_eq!(url, "/search?category=programming");
}

#[test]
fn test_mixed_query_with_vec() {
    let route = MixedRoute::Search {
        query: MixedQuery {
            tags: vec!["rust".to_string(), "web".to_string()],
            category: "programming".to_string(),
        },
    };

    let url = route.to_string();
    assert!(
        url == "/search?tags=rust&tags=web&category=programming"
            || url == "/search?category=programming&tags=rust&tags=web"
    );
}

#[test]
fn test_optional_vec_all_none() {
    let route = OptionalVecRoute::Search {
        query: OptionalVecQuery {
            tags: vec![],
            category: None,
        },
    };

    let url = route.to_string();
    assert_eq!(url, "/search", "No query string when all fields are empty");
}

#[test]
fn test_optional_vec_some_category_empty_vec() {
    let route = OptionalVecRoute::Search {
        query: OptionalVecQuery {
            tags: vec![],
            category: Some("test".to_string()),
        },
    };

    let url = route.to_string();
    assert_eq!(url, "/search?category=test");
}

#[test]
fn test_optional_vec_none_category_with_vec() {
    let route = OptionalVecRoute::Search {
        query: OptionalVecQuery {
            tags: vec!["tag1".to_string(), "tag2".to_string()],
            category: None,
        },
    };

    let url = route.to_string();
    assert_eq!(url, "/search?tags=tag1&tags=tag2");
}

#[test]
fn test_optional_vec_all_present() {
    let route = OptionalVecRoute::Search {
        query: OptionalVecQuery {
            tags: vec!["tag1".to_string()],
            category: Some("test".to_string()),
        },
    };

    let url = route.to_string();
    assert!(url == "/search?tags=tag1&category=test" || url == "/search?category=test&tags=tag1");
}

#[test]
fn test_int_vec_query_empty() {
    let route = IntVecRoute::Items {
        query: IntVecQuery { ids: vec![] },
    };

    let url = route.to_string();
    assert_eq!(url, "/items");
}

#[test]
fn test_int_vec_query_single() {
    let route = IntVecRoute::Items {
        query: IntVecQuery { ids: vec![42] },
    };

    let url = route.to_string();
    assert_eq!(url, "/items?ids=42");
}

#[test]
fn test_int_vec_query_multiple() {
    let route = IntVecRoute::Items {
        query: IntVecQuery {
            ids: vec![1, 2, 3, 10, 100],
        },
    };

    let url = route.to_string();
    assert_eq!(url, "/items?ids=1&ids=2&ids=3&ids=10&ids=100");
}

#[test]
fn test_complex_query_all_empty() {
    let route = ComplexRoute::Search {
        query: ComplexQuery {
            tags: vec![],
            ids: vec![],
            limit: None,
            offset: 0,
        },
    };

    let url = route.to_string();
    assert_eq!(url, "/search?offset=0");
}

#[test]
fn test_complex_query_partial() {
    let route = ComplexRoute::Search {
        query: ComplexQuery {
            tags: vec!["rust".to_string()],
            ids: vec![],
            limit: Some(10),
            offset: 0,
        },
    };

    let url = route.to_string();
    assert!(url.contains("tags=rust"));
    assert!(url.contains("limit=10"));
    assert!(url.contains("offset=0"));
    assert!(!url.contains("ids="));
}

#[test]
fn test_complex_query_all_present() {
    let route = ComplexRoute::Search {
        query: ComplexQuery {
            tags: vec!["rust".to_string(), "web".to_string()],
            ids: vec![1, 2, 3],
            limit: Some(20),
            offset: 5,
        },
    };

    let url = route.to_string();
    assert!(url.contains("tags=rust"));
    assert!(url.contains("tags=web"));
    assert!(url.contains("ids=1"));
    assert!(url.contains("ids=2"));
    assert!(url.contains("ids=3"));
    assert!(url.contains("limit=20"));
    assert!(url.contains("offset=5"));
}

#[test]
fn test_vec_with_empty_strings() {
    let route = VecRoute::Search {
        query: VecQuery {
            tags: vec!["".to_string(), "valid".to_string(), "".to_string()],
        },
    };

    let url = route.to_string();
    assert!(url.contains("tags="));
    assert!(url.contains("tags=valid"));
}

#[test]
fn test_vec_with_special_characters() {
    let route = VecRoute::Search {
        query: VecQuery {
            tags: vec![
                "c++".to_string(),
                "rust&go".to_string(),
                "type=safe".to_string(),
            ],
        },
    };

    let url = route.to_string();
    assert!(url.contains("%") || url.contains("+"));
}

#[test]
fn test_large_vec() {
    let tags: Vec<String> = (0..100).map(|i| format!("tag{}", i)).collect();
    let route = VecRoute::Search {
        query: VecQuery { tags },
    };

    let url = route.to_string();
    assert!(url.contains("tags=tag0"));
    assert!(url.contains("tags=tag99"));
}

#[test]
fn test_vec_zero_values() {
    let route = IntVecRoute::Items {
        query: IntVecQuery { ids: vec![0, 0, 0] },
    };

    let url = route.to_string();
    assert_eq!(url, "/items?ids=0&ids=0&ids=0");
}

#[test]
fn query_string_is_appended_only_when_not_empty() {
    assert_eq!(with_query_string("/a".to_string(), ""), "/a");
    assert_eq!(with_query_string("/a".to_string(), "x=1"), "/a?x=1");
}
