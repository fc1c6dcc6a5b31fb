//! What the `Route` derive reads from a variant: its route URL and type from its attributes, and
//! the role of each of its fields.

use vstd::prelude::*;
use crate::field_roles::{
    FieldRole, FieldError, RoleModel, RouteKind, role_for, determine_role, validate_fields,
    roles_view, first_duplicate,
};
use crate::route_codegen::{FieldConfig, FieldsConfig, FieldsShape, fields_view};
use crate::route_attributes::{RouteAttribute, RouteType, RouteTypeModel, parse_route_info, route_info_from};
use crate::attributes::AttributeError;
use crate::route_url::RouteUrl;
use crate::text::{decimal, u64_to_decimal, push_str};

verus! {

broadcast use vstd::seq::group_seq_axioms;

/// The attributes of a field of a route variant: its identifier (for a named field) and
/// whether it is marked `query`, `body` or `subroute`.
#[derive(Debug, Clone)]
pub struct FieldAttributes {
    pub ident: Option<String>,
    pub query: bool,
    pub body: bool,
    pub subroute: bool,
}

/// The kind of a route type.
pub open spec fn kind_of(t: RouteTypeModel) -> RouteKind {
    match t {
        RouteTypeModel::Simple(_) => RouteKind::Simple,
        RouteTypeModel::SubRoute => RouteKind::SubRoute,
        RouteTypeModel::CatchAll => RouteKind::CatchAll,
    }
}

/// The identifier of a field: its own for a named field, `arg` and its index for a tuple field.
pub open spec fn field_ident(named: bool, f: FieldAttributes, i: int) -> Seq<char> {
    if named {
        match f.ident {
            Some(n) => n@,
            None => Seq::empty(),
        }
    } else {
        "arg"@ + decimal(i as nat)
    }
}

/// The role of a field: a named field that is a path parameter is one of its own name.
pub open spec fn field_role(named: bool, f: FieldAttributes, i: int, kind: RouteKind) -> Result<
    RoleModel,
    FieldError,
> {
    role_for(
        f.query,
        f.body,
        f.subroute,
        if named {
            Some(field_ident(named, f, i))
        } else {
            None
        },
        kind,
    )
}

/// The identifiers and roles of the fields, or the error of the first field whose role is
/// refused.
pub open spec fn field_models(fs: Seq<FieldAttributes>, named: bool, kind: RouteKind) -> Result<
    Seq<(Seq<char>, RoleModel)>,
    FieldError,
>
    decreases fs.len(),
{
    if fs.len() == 0 {
        Ok(Seq::empty())
    } else {
        match field_models(fs.drop_last(), named, kind) {
            Err(e) => Err(e),
            Ok(ms) => match field_role(named, fs.last(), fs.len() - 1, kind) {
                Err(e) => Err(e),
                Ok(r) => Ok(ms.push((field_ident(named, fs.last(), fs.len() - 1), r))),
            },
        }
    }
}

/// The fields of a variant of the given shape and kind: their identifiers and roles, or the
/// first error; a role that a variant may have once must not come twice.
pub open spec fn fields_outcome(shape: FieldsShape, fs: Seq<FieldAttributes>, kind: RouteKind) -> Result<
    Seq<(Seq<char>, RoleModel)>,
    FieldError,
> {
    if shape == FieldsShape::Unit {
        Ok(Seq::empty())
    } else {
        match field_models(fs, shape == FieldsShape::Named, kind) {
            Err(e) => Err(e),
            Ok(ms) => match first_duplicate(ms.map_values(|m: (Seq<char>, RoleModel)| m.1)) {
                Some((_, e)) => Err(e),
                None => Ok(ms),
            },
        }
    }
}

/// Once a prefix of the fields is refused, so are all of them, with the same error.
proof fn lemma_models_error_persists(fs: Seq<FieldAttributes>, named: bool, kind: RouteKind, n: int)
    requires
        0 <= n <= fs.len(),
        field_models(fs.take(n), named, kind) is Err,
    ensures
        field_models(fs, named, kind) == field_models(fs.take(n), named, kind),
    decreases fs.len() - n,
{
    if n < fs.len() {
        assert(fs.take(n + 1).drop_last() =~= fs.take(n));
        lemma_models_error_persists(fs, named, kind, n + 1);
    } else {
        assert(fs.take(n) =~= fs);
    }
}

/// A copy of a field role.
fn copy_role(r: &FieldRole) -> (res: FieldRole)
    ensures
        res@ == r@,
{
    match r {
        FieldRole::PathParam { name } => FieldRole::PathParam {
            name: match name {
                Some(n) => Some(n.clone()),
                None => None,
            },
        },
        FieldRole::Query => FieldRole::Query,
        FieldRole::Body => FieldRole::Body,
        FieldRole::Subroute => FieldRole::Subroute,
        FieldRole::CatchAll => FieldRole::CatchAll,
    }
}

impl FieldsConfig {
    /// Reads the fields of a variant: each gets its identifier (`arg0`, `arg1`, ... for tuple
    /// fields) and the role its attributes give; then no role that a variant may have once may come
    /// twice. A unit variant has no fields.
    pub fn from_fields(shape: FieldsShape, fields: &Vec<FieldAttributes>, kind: RouteKind) -> (res: Result<
        FieldsConfig,
        FieldError,
    >)
        requires
            shape == FieldsShape::Named ==> forall|i: int|
                0 <= i < fields@.len() ==> (#[trigger] fields@[i]).ident is Some,
            fields@.len() <= u64::MAX,
        ensures
            match fields_outcome(shape, fields@, kind) {
                Ok(ms) => res matches Ok(c) && c.shape() == shape && fields_view(c.field_list()) == ms,
                Err(e) => res == Err::<FieldsConfig, FieldError>(e),
            },
    {
        if let FieldsShape::Unit = shape {
            let c = FieldsConfig::Unit;
            assert(fields_view(c.field_list()) =~= Seq::<(Seq<char>, RoleModel)>::empty());
            return Ok(c);
        }
        let named = match shape {
            FieldsShape::Named => true,
            _ => false,
        };
        let mut out: Vec<FieldConfig> = Vec::new();
        let mut roles: Vec<FieldRole> = Vec::new();
        let mut i: usize = 0;
        assert(fields@.take(0) =~= Seq::<FieldAttributes>::empty());
        assert(fields_view(out@) =~= Seq::<(Seq<char>, RoleModel)>::empty());
        assert(roles_view(roles@) =~= Seq::<RoleModel>::empty());
        while i < fields.len()
            invariant
                i <= fields@.len() <= u64::MAX,
                named == (shape == FieldsShape::Named),
                shape != FieldsShape::Unit,
                named ==> forall|j: int|
                    0 <= j < fields@.len() ==> (#[trigger] fields@[j]).ident is Some,
                field_models(fields@.take(i as int), named, kind) == Ok::<
                    Seq<(Seq<char>, RoleModel)>,
                    FieldError,
                >(fields_view(out@)),
                roles_view(roles@) == fields_view(out@).map_values(|m: (Seq<char>, RoleModel)| m.1),
            decreases fields@.len() - i,
        {
            let ghost prefix = fields@.take(i as int);
            assert(fields@.take(i + 1).drop_last() =~= prefix);
            assert(fields@.take(i + 1).last() == fields@[i as int]);
            let f = &fields[i];
            let ident = if named {
                match &f.ident {
                    Some(n) => n.clone(),
                    None => String::new(),
                }
            } else {
                let mut s = String::from_str("arg");
                let digits = u64_to_decimal(i as u64);
                push_str(&mut s, digits.as_str());
                s
            };
            assert(ident@ == field_ident(named, fields@[i as int], i as int));
            let param = if named {
                Some(ident.clone())
            } else {
                None
            };
            let role = match determine_role(f.query, f.body, f.subroute, param, kind) {
                Ok(r) => r,
                Err(e) => {
                    proof {
                        lemma_models_error_persists(fields@, named, kind, i + 1);
                    }
                    return Err(e);
                },
            };
            let ghost before = out@;
            let ghost before_roles = roles@;
            roles.push(copy_role(&role));
            out.push(FieldConfig { ident, role });
            assert(fields_view(out@) =~= fields_view(before).push(
                (field_ident(named, fields@[i as int], i as int), role@),
            ));
            assert(roles_view(roles@) =~= roles_view(before_roles).push(role@));
            assert(fields_view(out@).map_values(|m: (Seq<char>, RoleModel)| m.1) =~= fields_view(
                before,
            ).map_values(|m: (Seq<char>, RoleModel)| m.1).push(role@));
            i += 1;
        }
        assert(fields@.take(fields@.len() as int) =~= fields@);
        match validate_fields(&roles) {
            Ok(()) => if named {
                Ok(FieldsConfig::Named(out))
            } else {
                Ok(FieldsConfig::Unnamed(out))
            },
            Err((_, e)) => Err(e),
        }
    }
}

/// What the `Route` derive reads from a variant.
#[derive(Debug)]
pub struct VariantConfig {
    /// The variant's name.
    pub ident: String,
    pub route_url: RouteUrl,
    pub route_type: RouteType,
    pub fields: FieldsConfig,
}

/// An error in a variant's attributes or fields.
#[derive(Debug, Clone, PartialEq, Eq)]
pub enum VariantError {
    Attribute(AttributeError),
    Field(FieldError),
}

/// The kind of a route type.
pub fn route_kind(t: &RouteType) -> (res: RouteKind)
    ensures
        res == kind_of(t@),
{
    match t {
        RouteType::Simple { .. } => RouteKind::Simple,
        RouteType::SubRoute => RouteKind::SubRoute,
        RouteType::CatchAll => RouteKind::CatchAll,
    }
}

/// Reads a variant: its route URL and type from its attributes, then its fields, whose roles
/// depend on the route type.
pub fn from_variant(
    ident: &str,
    attrs: &Vec<RouteAttribute>,
    shape: FieldsShape,
    fields: &Vec<FieldAttributes>,
) -> (res: Result<VariantConfig, VariantError>)
    requires
        shape == FieldsShape::Named ==> forall|i: int|
            0 <= i < fields@.len() ==> (#[trigger] fields@[i]).ident is Some,
        fields@.len() <= u64::MAX,
    ensures
        match route_info_from(attrs@, None) {
            Err(e) => res matches Err(VariantError::Attribute(x)) && x@ == e,
            Ok((u, t)) => match fields_outcome(shape, fields@, kind_of(t)) {
                Err(e) => res == Err::<VariantConfig, VariantError>(VariantError::Field(e)),
                Ok(ms) => res matches Ok(c) && c.ident@ == ident@ && c.route_url@ == u && c.route_type@ == t
                    && c.fields.shape() == shape && fields_view(c.fields.field_list()) == ms,
            },
        },
{
    let (route_url, route_type) = match parse_route_info(attrs) {
        Ok(x) => x,
        Err(e) => {
            return Err(VariantError::Attribute(e));
        },
    };
    let kind = route_kind(&route_type);
    match FieldsConfig::from_fields(shape, fields, kind) {
        Ok(fields) => Ok(VariantConfig { ident: String::from_str(ident), route_url, route_type, fields }),
        Err(e) => Err(VariantError::Field(e)),
    }
}

} // verus!
