//! What the `Route` derive decides for each variant: the statements that write its URL, and the
//! pattern that matches it.

use vstd::prelude::*;
use crate::route_url::Seg;
use crate::route_format::{
    FormatStatement, FormatError, Stmt, stmts_view, unparameterized, named_statements,
    unnamed_statements,
};
use crate::field_roles::{FieldRole, RoleModel};
use crate::params::{pairs_view, param_map, is_least_key};
use crate::variant_config::VariantConfig;

verus! {

broadcast use vstd::seq::group_seq_axioms;

/// A field of a route variant: its identifier (`arg0`, `arg1`, ... for unnamed fields) and its
/// role.
#[derive(Debug, Clone)]
pub struct FieldConfig {
    pub ident: String,
    pub role: FieldRole,
}

/// The model of a variant field.
pub open spec fn field_view(f: FieldConfig) -> (Seq<char>, RoleModel) {
    (f.ident@, f.role@)
}

/// The models of the fields of a variant.
pub open spec fn fields_view(v: Seq<FieldConfig>) -> Seq<(Seq<char>, RoleModel)> {
    v.map_values(|f: FieldConfig| field_view(f))
}

impl FieldConfig {
    /// Whether this field is a path parameter.
    pub fn is_path_param(&self) -> (res: bool)
        ensures
            res == (self.role@ is PathParam),
    {
        match self.role {
            FieldRole::PathParam { .. } => true,
            _ => false,
        }
    }

    /// Whether this field is the query.
    pub fn is_query(&self) -> (res: bool)
        ensures
            res == (self.role@ == RoleModel::Query),
    {
        match self.role {
            FieldRole::Query => true,
            _ => false,
        }
    }

    /// Whether this field is the body.
    pub fn is_body(&self) -> (res: bool)
        ensures
            res == (self.role@ == RoleModel::Body),
    {
        match self.role {
            FieldRole::Body => true,
            _ => false,
        }
    }

    /// Whether this field is the subroute.
    pub fn is_subroute(&self) -> (res: bool)
        ensures
            res == (self.role@ == RoleModel::Subroute),
    {
        match self.role {
            FieldRole::Subroute => true,
            _ => false,
        }
    }
}

/// The fields of a variant, as the variant writes them: none, named or in a tuple.
#[derive(Debug, Clone)]
pub enum FieldsConfig {
    /// No fields.
    Unit,
    /// Named fields (a struct-like variant).
    Named(Vec<FieldConfig>),
    /// Unnamed fields (a tuple-like variant).
    Unnamed(Vec<FieldConfig>),
}

impl FieldsConfig {
    /// How the fields are written.
    pub open spec fn shape(&self) -> FieldsShape {
        match self {
            FieldsConfig::Unit => FieldsShape::Unit,
            FieldsConfig::Named(_) => FieldsShape::Named,
            FieldsConfig::Unnamed(_) => FieldsShape::Unnamed,
        }
    }

    /// The fields, in order; none for a unit variant.
    pub open spec fn field_list(&self) -> Seq<FieldConfig> {
        match self {
            FieldsConfig::Unit => Seq::empty(),
            FieldsConfig::Named(v) => v@,
            FieldsConfig::Unnamed(v) => v@,
        }
    }

    /// The fields, in order.
    pub fn iter(&self) -> (res: &[FieldConfig])
        ensures
            res@ == self.field_list(),
    {
        match self {
            FieldsConfig::Unit => &[],
            FieldsConfig::Named(v) => v.as_slice(),
            FieldsConfig::Unnamed(v) => v.as_slice(),
        }
    }

    /// Whether the fields are named.
    pub fn is_named(&self) -> (res: bool)
        ensures
            res == (self.shape() == FieldsShape::Named),
    {
        match self {
            FieldsConfig::Named(_) => true,
            _ => false,
        }
    }
}

/// The identifiers of the path-parameter fields, in order.
pub open spec fn path_param_idents(fields: Seq<(Seq<char>, RoleModel)>) -> Seq<Seq<char>>
    decreases fields.len(),
{
    if fields.len() == 0 {
        Seq::empty()
    } else if fields.last().1 is PathParam {
        path_param_idents(fields.drop_last()).push(fields.last().0)
    } else {
        path_param_idents(fields.drop_last())
    }
}

/// The (parameter name, identifier) pairs of the named path-parameter fields, in order.
pub open spec fn path_param_bindings(fields: Seq<(Seq<char>, RoleModel)>) -> Seq<(Seq<char>, Seq<char>)>
    decreases fields.len(),
{
    if fields.len() == 0 {
        Seq::empty()
    } else {
        match fields.last().1 {
            RoleModel::PathParam(Some(name)) => path_param_bindings(fields.drop_last()).push(
                (name, fields.last().0),
            ),
            _ => path_param_bindings(fields.drop_last()),
        }
    }
}

/// The identifier of the first query field, if any.
pub open spec fn query_ident(fields: Seq<(Seq<char>, RoleModel)>) -> Option<Seq<char>>
    decreases fields.len(),
{
    if fields.len() == 0 {
        None
    } else {
        match query_ident(fields.drop_last()) {
            Some(q) => Some(q),
            None => if fields.last().1 == RoleModel::Query {
                Some(fields.last().0)
            } else {
                None
            },
        }
    }
}

/// The statements with the query statement appended, if the variant has a query field.
pub open spec fn with_query(st: Seq<Stmt>, fields: Seq<(Seq<char>, RoleModel)>) -> Seq<Stmt> {
    match query_ident(fields) {
        Some(q) => st.push(Stmt::Query(q)),
        None => st,
    }
}

/// Whether `res` is the outcome of writing a variant's URL: without path parameters, the URL as
/// it is; a variant with named fields binds its parameters by name; a tuple variant binds them
/// in order. The query, if any, comes last.
pub open spec fn url_format_outcome(
    u: Seq<Seg>,
    named: bool,
    fields: Seq<(Seq<char>, RoleModel)>,
    res: Result<Vec<FormatStatement>, FormatError>,
) -> bool {
    if path_param_idents(fields).len() == 0 {
        match unparameterized(u) {
            Ok(st) => res matches Ok(v) && stmts_view(v@) == with_query(st, fields),
            Err(n) => res matches Err(FormatError::RequiredParameter { name }) && name@ == n,
        }
    } else if named {
        match named_statements(u, param_map(path_param_bindings(fields))) {
            Err(n) => res matches Err(FormatError::MissingNamedParameter { name }) && name@ == n,
            Ok((st, rest)) => if rest.dom().len() == 0 {
                res matches Ok(v) && stmts_view(v@) == with_query(st, fields)
            } else {
                res matches Err(FormatError::UnusedNamedParameter { name }) && is_least_key(
                    rest,
                    name@,
                )
            },
        }
    } else {
        match unnamed_statements(u, path_param_idents(fields)) {
            None => res matches Err(FormatError::MissingArgument),
            Some((st, k)) => if k == path_param_idents(fields).len() {
                res matches Ok(v) && stmts_view(v@) == with_query(st, fields)
            } else {
                res matches Err(FormatError::UnusedArgument)
            },
        }
    }
}

/// Generates the statements that write the URL of a variant, from its route URL, whether its
/// fields are named, and its fields: without path parameters the URL as it is; with named
/// fields the path parameters bound by name; with tuple fields bound in order; then the query,
/// if the variant has a query field.
pub fn generate_url_format(config: &VariantConfig) -> (res: Result<Vec<FormatStatement>, FormatError>)
    ensures
        url_format_outcome(
            config.route_url@,
            config.fields.shape() == FieldsShape::Named,
            fields_view(config.fields.field_list()),
            res,
        ),
{
    let route_url = &config.route_url;
    let named = config.fields.is_named();
    let fields = config.fields.iter();
    let ghost fv = fields_view(fields@);
    let mut idents: Vec<String> = Vec::new();
    let mut bindings: Vec<(String, String)> = Vec::new();
    let mut query: Option<String> = None;
    let mut i: usize = 0;
    assert(fv.take(0) =~= Seq::<(Seq<char>, RoleModel)>::empty());
    assert(idents@.map_values(|a: String| a@) =~= Seq::<Seq<char>>::empty());
    assert(pairs_view(bindings@) =~= Seq::<(Seq<char>, Seq<char>)>::empty());
    while i < fields.len()
        invariant
            i <= fields@.len(),
            fv == fields_view(fields@),
            idents@.map_values(|a: String| a@) == path_param_idents(fv.take(i as int)),
            pairs_view(bindings@) == path_param_bindings(fv.take(i as int)),
            match query {
                Some(q) => query_ident(fv.take(i as int)) == Some(q@),
                None => query_ident(fv.take(i as int)) is None,
            },
        decreases fields@.len() - i,
    {
        let ghost prev = fv.take(i as int);
        assert(fv.take(i + 1).drop_last() =~= prev);
        assert(fv.take(i + 1).last() == field_view(fields@[i as int]));
        let f = &fields[i];
        match &f.role {
            FieldRole::PathParam { name } => {
                let ghost before = idents@;
                idents.push(f.ident.clone());
                assert(idents@.map_values(|a: String| a@) =~= before.map_values(|a: String| a@).push(
                    f.ident@,
                ));
                if let Some(n) = name {
                    let ghost before_b = bindings@;
                    bindings.push((n.clone(), f.ident.clone()));
                    assert(pairs_view(bindings@) =~= pairs_view(before_b).push((n@, f.ident@)));
                }
            },
            FieldRole::Query => {
                if query.is_none() {
                    query = Some(f.ident.clone());
                }
            },
            _ => {},
        }
        i += 1;
    }
    assert(fv.take(fields@.len() as int) =~= fv);
    let statements = if idents.len() == 0 {
        route_url.to_unparameterized_string()
    } else if named {
        route_url.to_named_parameters_format(&bindings)
    } else {
        route_url.to_unnamed_parameters_format(&idents)
    };
    match statements {
        Ok(mut st) => {
            if let Some(q) = query {
                let ghost before = st@;
                st.push(FormatStatement::WriteQuery(q));
                assert(stmts_view(st@) =~= stmts_view(before).push(Stmt::Query(q@)));
            }
            Ok(st)
        },
        Err(e) => Err(e),
    }
}

/// How much of a variant a match pattern names.
#[derive(Debug, Clone, Copy, PartialEq, Eq, Structural)]
pub enum PatternMode {
    /// Full pattern with all field names.
    Simple,
    /// Pattern with `..` wildcard for partial matching.
    WithWildcard,
}

/// The shape of a variant's fields.
#[derive(Debug, Clone, Copy, PartialEq, Eq, Structural)]
pub enum FieldsShape {
    /// No fields.
    Unit,
    /// Named fields.
    Named,
    /// Tuple fields.
    Unnamed,
}

/// A pattern that matches a variant: the variant's name and how its fields are matched.
#[derive(Debug, Clone, PartialEq, Eq)]
pub struct Pattern {
    /// The variant's name.
    pub variant: String,
    /// How the variant's fields are matched.
    pub fields: PatternFields,
}

/// How a pattern matches the fields of a variant.
#[derive(Debug, Clone, PartialEq, Eq)]
pub enum PatternFields {
    /// `Self::Variant`.
    Unit,
    /// `Self::Variant { a, b: _ }`: each field bound by its name, or ignored (a body field).
    Named(Vec<(String, bool)>),
    /// `Self::Variant(a, _)`: each field bound to its identifier, or ignored (`None`).
    Unnamed(Vec<Option<String>>),
    /// `Self::Variant { .. }`.
    NamedWildcard,
    /// `Self::Variant(..)`.
    UnnamedWildcard,
}

/// Generates the pattern that matches a variant: in simple mode every field is bound but body
/// fields, which do not appear in URLs; in wildcard mode the fields are left out.
pub fn generate_pattern(config: &VariantConfig, mode: PatternMode) -> (res: Pattern)
    ensures
        res.variant@ == config.ident@,
        config.fields.shape() == FieldsShape::Unit ==> res.fields == PatternFields::Unit,
        config.fields.shape() == FieldsShape::Named && mode == PatternMode::WithWildcard ==> res.fields == PatternFields::NamedWildcard,
        config.fields.shape() == FieldsShape::Unnamed && mode == PatternMode::WithWildcard ==> res.fields
            == PatternFields::UnnamedWildcard,
        config.fields.shape() == FieldsShape::Named && mode == PatternMode::Simple ==> (res.fields matches PatternFields::Named(b)
            && b@.len() == config.fields.field_list().len() && forall|i: int|
            0 <= i < b@.len() ==> (#[trigger] b@[i]).0@ == config.fields.field_list()[i].ident@ && b@[i].1 == !(
            config.fields.field_list()[i].role@ == RoleModel::Body)),
        config.fields.shape() == FieldsShape::Unnamed && mode == PatternMode::Simple ==> (res.fields matches PatternFields::Unnamed(b)
            && b@.len() == config.fields.field_list().len() && forall|i: int|
            0 <= i < b@.len() ==> match #[trigger] b@[i] {
                Some(id) => id@ == config.fields.field_list()[i].ident@ && config.fields.field_list()[i].role@ != RoleModel::Body,
                None => config.fields.field_list()[i].role@ == RoleModel::Body,
            }),
{
    let fields = config.fields.iter();
    let matched = match &config.fields {
        FieldsConfig::Unit => PatternFields::Unit,
        FieldsConfig::Named(_) => match mode {
            PatternMode::WithWildcard => PatternFields::NamedWildcard,
            PatternMode::Simple => {
                let mut b: Vec<(String, bool)> = Vec::new();
                let mut i: usize = 0;
                while i < fields.len()
                    invariant
                        i <= fields@.len(),
                        b@.len() == i,
                        forall|j: int|
                            0 <= j < i ==> (#[trigger] b@[j]).0@ == fields@[j].ident@ && b@[j].1 == !(
                            fields@[j].role@ == RoleModel::Body),
                    decreases fields@.len() - i,
                {
                    let is_body = match &fields[i].role {
                        FieldRole::Body => true,
                        _ => false,
                    };
                    b.push((fields[i].ident.clone(), !is_body));
                    i += 1;
                }
                PatternFields::Named(b)
            },
        },
        FieldsConfig::Unnamed(_) => match mode {
            PatternMode::WithWildcard => PatternFields::UnnamedWildcard,
            PatternMode::Simple => {
                let mut b: Vec<Option<String>> = Vec::new();
                let mut i: usize = 0;
                while i < fields.len()
                    invariant
                        i <= fields@.len(),
                        b@.len() == i,
                        forall|j: int|
                            0 <= j < i ==> match #[trigger] b@[j] {
                                Some(id) => id@ == fields@[j].ident@ && fields@[j].role@ != RoleModel::Body,
                                None => fields@[j].role@ == RoleModel::Body,
                            },
                    decreases fields@.len() - i,
                {
                    match &fields[i].role {
                        FieldRole::Body => b.push(None),
                        _ => b.push(Some(fields[i].ident.clone())),
                    }
                    i += 1;
                }
                PatternFields::Unnamed(b)
            },
        },
    };
    Pattern { variant: config.ident.clone(), fields: matched }
}

} // verus!
