//! The roles of the fields of a route variant: path parameters, the query, the body, a subroute or
//! the catch-all route; how a field's attributes decide its role, and which combinations of
//! roles a variant may have.

use vstd::prelude::*;

verus! {

broadcast use vstd::seq::group_seq_axioms;

/// The kind of a route variant.
#[derive(Debug, Clone, Copy, PartialEq, Eq, Structural)]
pub enum RouteKind {
    /// A route with a method and a URL.
    Simple,
    /// A route whose URL ends with a slash, delegating the rest of the path to a subroute.
    SubRoute,
    /// The route that catches every request no other route matches.
    CatchAll,
}

/// The role of a field in routing.
///
/// Each field in a route variant serves a specific purpose:
/// - Path parameters are extracted from the URL path
/// - Query parameters are extracted from the query string
/// - Body parameters are extracted from the request body
/// - Subroutes delegate to another route type
/// - CatchAll handles any unmatched routes
#[derive(Debug, Clone)]
pub enum FieldRole {
    /// A path parameter extracted from the URL.
    ///
    /// For named fields, the `name` matches the field identifier and the URL parameter name.
    /// For unnamed fields, the `name` is None and the parameter is positional.
    PathParam {
        /// The name of the parameter in the URL (e.g., `user_id` in `/users/{user_id}`).
        name: Option<String>,
    },
    /// A query parameter extracted from the query string (annotated with `#[query]`).
    Query,
    /// A body parameter extracted from the request body (annotated with `#[body]`).
    Body,
    /// A subroute that delegates to another route type (annotated with `#[subroute]`).
    Subroute,
    /// A catch-all field that handles unmatched routes.
    CatchAll,
}

/// An error in the roles of the fields of a variant.
#[derive(Debug, Clone, Copy, PartialEq, Eq, Structural)]
pub enum FieldError {
    /// A field has more than one of the `query`, `body` and `subroute` attributes.
    MultipleRoleAttributes,
    /// A `subroute` field is on a variant whose URL does not end with a slash.
    SubrouteWithoutTrailingSlash,
    /// A second field is a query parameter.
    DuplicateQuery,
    /// A second field is a body parameter.
    DuplicateBody,
    /// A second field is a subroute.
    DuplicateSubroute,
}

/// The role of a field with the given attributes, in a variant of the given kind; a named field
/// is a path parameter of its own name.
pub open spec fn role_for(
    is_query: bool,
    is_body: bool,
    is_subroute: bool,
    param_name: Option<Seq<char>>,
    route_type: RouteKind,
) -> Result<RoleModel, FieldError> {
    if (is_query && is_body) || (is_query && is_subroute) || (is_body && is_subroute) {
        Err(FieldError::MultipleRoleAttributes)
    } else if is_query {
        Ok(RoleModel::Query)
    } else if is_body {
        Ok(RoleModel::Body)
    } else if is_subroute {
        if route_type == RouteKind::SubRoute {
            Ok(RoleModel::Subroute)
        } else {
            Err(FieldError::SubrouteWithoutTrailingSlash)
        }
    } else if route_type == RouteKind::CatchAll {
        Ok(RoleModel::CatchAll)
    } else {
        Ok(RoleModel::PathParam(param_name))
    }
}

/// The model of a field role.
pub ghost enum RoleModel {
    PathParam(Option<Seq<char>>),
    Query,
    Body,
    Subroute,
    CatchAll,
}

impl View for FieldRole {
    type V = RoleModel;

    open spec fn view(&self) -> RoleModel {
        match self {
            FieldRole::PathParam { name } => RoleModel::PathParam(
                match name {
                    Some(n) => Some(n@),
                    None => None,
                },
            ),
            FieldRole::Query => RoleModel::Query,
            FieldRole::Body => RoleModel::Body,
            FieldRole::Subroute => RoleModel::Subroute,
            FieldRole::CatchAll => RoleModel::CatchAll,
        }
    }
}

/// Determines the role of a field from its `query`, `body` and `subroute` attributes.
pub fn determine_role(
    is_query: bool,
    is_body: bool,
    is_subroute: bool,
    param_name: Option<String>,
    route_type: RouteKind,
) -> (res: Result<FieldRole, FieldError>)
    ensures
        match role_for(
            is_query,
            is_body,
            is_subroute,
            match param_name {
                Some(n) => Some(n@),
                None => None,
            },
            route_type,
        ) {
            Ok(r) => res matches Ok(f) && f@ == r,
            Err(e) => res == Err::<FieldRole, FieldError>(e),
        },
{
    let count: u8 = (if is_query { 1u8 } else { 0u8 }) + (if is_body { 1u8 } else { 0u8 }) + (
    if is_subroute { 1u8 } else { 0u8 });
    if count > 1 {
        return Err(FieldError::MultipleRoleAttributes);
    }
    if is_query {
        Ok(FieldRole::Query)
    } else if is_body {
        Ok(FieldRole::Body)
    } else if is_subroute {
        match route_type {
            RouteKind::SubRoute => Ok(FieldRole::Subroute),
            _ => Err(FieldError::SubrouteWithoutTrailingSlash),
        }
    } else {
        match route_type {
            RouteKind::CatchAll => Ok(FieldRole::CatchAll),
            _ => Ok(FieldRole::PathParam { name: param_name }),
        }
    }
}

/// The models of a list of roles.
pub open spec fn roles_view(v: Seq<FieldRole>) -> Seq<RoleModel> {
    v.map_values(|r: FieldRole| r@)
}

/// The error for a second field of a role that a variant may have only once.
pub open spec fn duplicate_error(r: RoleModel) -> Option<FieldError> {
    match r {
        RoleModel::Query => Some(FieldError::DuplicateQuery),
        RoleModel::Body => Some(FieldError::DuplicateBody),
        RoleModel::Subroute => Some(FieldError::DuplicateSubroute),
        _ => None,
    }
}

/// The first field that repeats a role a variant may have only once, with its error.
pub open spec fn first_duplicate(roles: Seq<RoleModel>) -> Option<(int, FieldError)>
    decreases roles.len(),
{
    if roles.len() == 0 {
        None
    } else {
        match first_duplicate(roles.drop_last()) {
            Some(d) => Some(d),
            None => match duplicate_error(roles.last()) {
                Some(e) => if exists|j: int| 0 <= j < roles.len() - 1 && #[trigger] roles[j] == roles.last() {
                    Some((roles.len() - 1, e))
                } else {
                    None
                },
                None => None,
            },
        }
    }
}

fn role_index(r: &FieldRole) -> (res: u8)
    ensures
        res == role_index_spec(r@),
{
    match r {
        FieldRole::Query => 1,
        FieldRole::Body => 2,
        FieldRole::Subroute => 3,
        _ => 0,
    }
}

/// Validates field roles: a variant has at most one query field, one body field and one
/// subroute field. The error carries the index of the first field that breaks this.
pub fn validate_fields(roles: &Vec<FieldRole>) -> (res: Result<(), (usize, FieldError)>)
    ensures
        match first_duplicate(roles_view(roles@)) {
            None => res is Ok,
            Some((i, e)) => res matches Err((j, f)) && j == i && f == e,
        },
{
    let ghost rv = roles_view(roles@);
    let mut seen_query = false;
    let mut seen_body = false;
    let mut seen_subroute = false;
    let mut i: usize = 0;
    assert(rv.take(0) =~= Seq::<RoleModel>::empty());
    while i < roles.len()
        invariant
            i <= roles@.len(),
            rv == roles_view(roles@),
            first_duplicate(rv.take(i as int)) is None,
            seen_query == exists|j: int| 0 <= j < i && #[trigger] rv[j] == RoleModel::Query,
            seen_body == exists|j: int| 0 <= j < i && #[trigger] rv[j] == RoleModel::Body,
            seen_subroute == exists|j: int| 0 <= j < i && #[trigger] rv[j] == RoleModel::Subroute,
        decreases roles@.len() - i,
    {
        let ghost prefix = rv.take(i + 1);
        assert(prefix.drop_last() =~= rv.take(i as int));
        assert(prefix.last() == rv[i as int]);
        assert(rv[i as int] == roles@[i as int]@);
        assert forall|j: int| 0 <= j < i implies prefix[j] == rv[j] by {}
        let k = role_index(&roles[i]);
        if k == 1 {
            if seen_query {
                let ghost j = choose|j: int| 0 <= j < i && #[trigger] rv[j] == RoleModel::Query;
                assert(prefix[j] == prefix.last());
                proof {
                    lemma_first_duplicate_prefix(rv, i as int + 1);
                }
                return Err((i, FieldError::DuplicateQuery));
            }
            seen_query = true;
        } else if k == 2 {
            if seen_body {
                let ghost j = choose|j: int| 0 <= j < i && #[trigger] rv[j] == RoleModel::Body;
                assert(prefix[j] == prefix.last());
                proof {
                    lemma_first_duplicate_prefix(rv, i as int + 1);
                }
                return Err((i, FieldError::DuplicateBody));
            }
            seen_body = true;
        } else if k == 3 {
            if seen_subroute {
                let ghost j = choose|j: int| 0 <= j < i && #[trigger] rv[j] == RoleModel::Subroute;
                assert(prefix[j] == prefix.last());
                proof {
                    lemma_first_duplicate_prefix(rv, i as int + 1);
                }
                return Err((i, FieldError::DuplicateSubroute));
            }
            seen_subroute = true;
        }
        proof {
            if duplicate_error(prefix.last()) is Some {
                assert(!exists|j: int| 0 <= j < prefix.len() - 1 && #[trigger] prefix[j] == prefix.last());
            }
        }
        i += 1;
    }
    assert(rv.take(roles@.len() as int) =~= rv);
    Ok(())
}

proof fn lemma_first_duplicate_prefix(rv: Seq<RoleModel>, k: int)
    requires
        0 <= k <= rv.len(),
        first_duplicate(rv.take(k)) is Some,
    ensures
        first_duplicate(rv) == first_duplicate(rv.take(k)),
    decreases rv.len() - k,
{
    if k < rv.len() {
        assert(rv.take(k + 1).drop_last() =~= rv.take(k));
        lemma_first_duplicate_prefix(rv, k + 1);
    } else {
        assert(rv.take(k) =~= rv);
    }
}

/// The index of the first field whose role has the given index (1 query, 2 body, 3 subroute).
fn find_role(roles: &Vec<FieldRole>, k: u8) -> (res: Option<usize>)
    requires
        1 <= k <= 3,
    ensures
        match res {
            Some(i) => i < roles@.len() && role_index_spec(roles@[i as int]@) == k && forall|j: int|
                0 <= j < i ==> role_index_spec(#[trigger] roles@[j]@) != k,
            None => forall|j: int| 0 <= j < roles@.len() ==> role_index_spec(#[trigger] roles@[j]@) != k,
        },
{
    let mut i: usize = 0;
    while i < roles.len()
        invariant
            i <= roles@.len(),
            forall|j: int| 0 <= j < i ==> role_index_spec(#[trigger] roles@[j]@) != k,
        decreases roles@.len() - i,
    {
        if role_index(&roles[i]) == k {
            return Some(i);
        }
        i += 1;
    }
    None
}

/// The index of a role that a variant may have only once: 1 query, 2 body, 3 subroute, else 0.
pub open spec fn role_index_spec(r: RoleModel) -> u8 {
    match r {
        RoleModel::Query => 1,
        RoleModel::Body => 2,
        RoleModel::Subroute => 3,
        _ => 0,
    }
}

/// Returns the query parameter field, if any: the index of the first query field.
pub fn query_param(roles: &Vec<FieldRole>) -> (res: Option<usize>)
    ensures
        match res {
            Some(i) => i < roles@.len() && roles@[i as int]@ == RoleModel::Query && forall|j: int|
                0 <= j < i ==> roles@[j]@ != RoleModel::Query,
            None => forall|j: int| 0 <= j < roles@.len() ==> roles@[j]@ != RoleModel::Query,
        },
{
    let res = find_role(roles, 1);
    assert forall|j: int| 0 <= j < roles@.len() implies (role_index_spec(roles@[j]@) == 1 <==> roles@[j]@
        == RoleModel::Query) by {}
    res
}

/// Returns the body parameter field, if any: the index of the first body field.
pub fn body_param(roles: &Vec<FieldRole>) -> (res: Option<usize>)
    ensures
        match res {
            Some(i) => i < roles@.len() && roles@[i as int]@ == RoleModel::Body && forall|j: int|
                0 <= j < i ==> roles@[j]@ != RoleModel::Body,
            None => forall|j: int| 0 <= j < roles@.len() ==> roles@[j]@ != RoleModel::Body,
        },
{
    let res = find_role(roles, 2);
    assert forall|j: int| 0 <= j < roles@.len() implies (role_index_spec(roles@[j]@) == 2 <==> roles@[j]@
        == RoleModel::Body) by {}
    res
}

/// Returns the subroute field, if any: the index of the first subroute field.
pub fn subroute_param(roles: &Vec<FieldRole>) -> (res: Option<usize>)
    ensures
        match res {
            Some(i) => i < roles@.len() && roles@[i as int]@ == RoleModel::Subroute && forall|j: int|
                0 <= j < i ==> roles@[j]@ != RoleModel::Subroute,
            None => forall|j: int| 0 <= j < roles@.len() ==> roles@[j]@ != RoleModel::Subroute,
        },
{
    let res = find_role(roles, 3);
    assert forall|j: int| 0 <= j < roles@.len() implies (role_index_spec(roles@[j]@) == 3 <==> roles@[j]@
        == RoleModel::Subroute) by {}
    res
}

impl FieldError {
    /// The message of the error.
    pub fn to_string(&self) -> (res: String)
        ensures
            res@ == match self {
                FieldError::MultipleRoleAttributes =>
                    "field cannot have multiple role attributes (query, body, subroute)"@,
                FieldError::SubrouteWithoutTrailingSlash =>
                    "subroute attribute can only be used on variants with trailing slash in route"@,
                FieldError::DuplicateQuery => "only one field can be a query parameter"@,
                FieldError::DuplicateBody => "only one field can be a body parameter"@,
                FieldError::DuplicateSubroute => "only one field can be a subroute"@,
            },
    {
        match self {
            FieldError::MultipleRoleAttributes => String::from_str(
                "field cannot have multiple role attributes (query, body, subroute)",
            ),
            FieldError::SubrouteWithoutTrailingSlash => String::from_str(
                "subroute attribute can only be used on variants with trailing slash in route",
            ),
            FieldError::DuplicateQuery => String::from_str("only one field can be a query parameter"),
            FieldError::DuplicateBody => String::from_str("only one field can be a body parameter"),
            FieldError::DuplicateSubroute => String::from_str("only one field can be a subroute"),
        }
    }
}

} // verus!
