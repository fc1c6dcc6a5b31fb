//! What the `Route` derive writes for a variant's `Display` arm, and how the handler of a
//! subroute variant reads its path arguments.

use vstd::prelude::*;
use crate::route_url::Seg;
use crate::route_format::{
    FormatStatement, FormatError, Stmt, stmts_view, unparameterized, named_statements,
    unnamed_statements,
};
use crate::field_roles::RoleModel;
use crate::params::param_map;
use crate::route_attributes::{RouteType, RouteTypeModel};
use crate::route_codegen::{
    FieldConfig, FieldsShape, fields_view, field_view, path_param_idents, path_param_bindings,
    query_ident, with_query, url_format_outcome, generate_url_format,
};
use crate::variant_config::VariantConfig;

verus! {

broadcast use vstd::seq::group_seq_axioms;

/// The statements that write a variant's URL without its query, if they can be formed (see
/// [`url_format_outcome`]).
pub open spec fn base_statements(u: Seq<Seg>, named: bool, fields: Seq<(Seq<char>, RoleModel)>) -> Option<
    Seq<Stmt>,
> {
    if path_param_idents(fields).len() == 0 {
        match unparameterized(u) {
            Ok(st) => Some(st),
            Err(_) => None,
        }
    } else if named {
        match named_statements(u, param_map(path_param_bindings(fields))) {
            Err(_) => None,
            Ok((st, rest)) => if rest.dom().len() == 0 {
                Some(st)
            } else {
                None
            },
        }
    } else {
        match unnamed_statements(u, path_param_idents(fields)) {
            None => None,
            Some((st, k)) => if k == path_param_idents(fields).len() {
                Some(st)
            } else {
                None
            },
        }
    }
}

/// The index of the first subroute field, if any.
pub open spec fn first_subroute(fields: Seq<(Seq<char>, RoleModel)>) -> Option<int>
    decreases fields.len(),
{
    if fields.len() == 0 {
        None
    } else {
        match first_subroute(fields.drop_last()) {
            Some(k) => Some(k),
            None => if fields.last().1 == RoleModel::Subroute {
                Some(fields.len() - 1)
            } else {
                None
            },
        }
    }
}

/// What the `Display` arm of a variant does.
#[derive(Debug, Clone, PartialEq, Eq)]
pub enum DisplayMatch {
    /// Runs the statements, which write the whole URL.
    Format(Vec<FormatStatement>),
    /// Runs the statements, which write the URL up to the subroute (without a query), then
    /// writes the subroute field.
    Subroute { statements: Vec<FormatStatement>, subroute: String },
    /// The catch-all field writes the whole URL.
    CatchAll,
}

/// The model of a `Display` arm.
pub ghost enum DisplayModel {
    Format(Seq<Stmt>),
    Subroute(Seq<Stmt>, Seq<char>),
    CatchAll,
}

impl View for DisplayMatch {
    type V = DisplayModel;

    open spec fn view(&self) -> DisplayModel {
        match *self {
            DisplayMatch::Format(v) => DisplayModel::Format(stmts_view(v@)),
            DisplayMatch::Subroute { statements, subroute } => DisplayModel::Subroute(
                stmts_view(statements@),
                subroute@,
            ),
            DisplayMatch::CatchAll => DisplayModel::CatchAll,
        }
    }
}

/// The `Display` arm of a variant, or `None` if its URL statements cannot be formed: a subroute
/// variant with a subroute field writes its URL without the query and then the subroute; a
/// catch-all variant lets its field write the URL; any other writes its URL statements.
pub open spec fn display_match(
    u: Seq<Seg>,
    named: bool,
    fields: Seq<(Seq<char>, RoleModel)>,
    route_type: RouteTypeModel,
) -> Option<DisplayModel> {
    match base_statements(u, named, fields) {
        None => None,
        Some(st) => if route_type is SubRoute && first_subroute(fields) is Some {
            Some(DisplayModel::Subroute(st, fields[first_subroute(fields)->0].0))
        } else if route_type is CatchAll {
            Some(DisplayModel::CatchAll)
        } else {
            Some(DisplayModel::Format(with_query(st, fields)))
        },
    }
}

/// Finds the first subroute field.
fn find_subroute(fields: &[FieldConfig]) -> (res: Option<usize>)
    ensures
        match res {
            Some(k) => k < fields@.len() && first_subroute(fields_view(fields@)) == Some(k as int),
            None => first_subroute(fields_view(fields@)) is None,
        },
{
    let ghost fv = fields_view(fields@);
    let mut i: usize = 0;
    assert(fv.take(0) =~= Seq::<(Seq<char>, RoleModel)>::empty());
    while i < fields.len()
        invariant
            i <= fields@.len(),
            fv == fields_view(fields@),
            first_subroute(fv.take(i as int)) is None,
        decreases fields@.len() - i,
    {
        assert(fv.take(i + 1).drop_last() =~= fv.take(i as int));
        assert(fv.take(i + 1).last() == field_view(fields@[i as int]));
        if fields[i].is_subroute() {
            proof {
                lemma_first_subroute_prefix(fv, i + 1);
            }
            return Some(i);
        }
        i += 1;
    }
    assert(fv.take(fields@.len() as int) =~= fv);
    None
}

/// Once a prefix has a subroute field, the whole sequence has the same first one.
proof fn lemma_first_subroute_prefix(fv: Seq<(Seq<char>, RoleModel)>, n: int)
    requires
        0 <= n <= fv.len(),
        first_subroute(fv.take(n)) is Some,
    ensures
        first_subroute(fv) == first_subroute(fv.take(n)),
    decreases fv.len() - n,
{
    if n < fv.len() {
        assert(fv.take(n + 1).drop_last() =~= fv.take(n));
        lemma_first_subroute_prefix(fv, n + 1);
    } else {
        assert(fv.take(n) =~= fv);
    }
}

/// Whether some field is the query.
fn has_query_field(fields: &[FieldConfig]) -> (res: bool)
    ensures
        res == (query_ident(fields_view(fields@)) is Some),
{
    let ghost fv = fields_view(fields@);
    let mut i: usize = 0;
    assert(fv.take(0) =~= Seq::<(Seq<char>, RoleModel)>::empty());
    while i < fields.len()
        invariant
            i <= fields@.len(),
            fv == fields_view(fields@),
            query_ident(fv.take(i as int)) is None,
        decreases fields@.len() - i,
    {
        assert(fv.take(i + 1).drop_last() =~= fv.take(i as int));
        assert(fv.take(i + 1).last() == field_view(fields@[i as int]));
        if fields[i].is_query() {
            proof {
                lemma_query_prefix(fv, i + 1);
            }
            return true;
        }
        i += 1;
    }
    assert(fv.take(fields@.len() as int) =~= fv);
    false
}

/// Once a prefix has a query field, so does the whole sequence.
proof fn lemma_query_prefix(fv: Seq<(Seq<char>, RoleModel)>, n: int)
    requires
        0 <= n <= fv.len(),
        query_ident(fv.take(n)) is Some,
    ensures
        query_ident(fv) is Some,
    decreases fv.len() - n,
{
    if n < fv.len() {
        assert(fv.take(n + 1).drop_last() =~= fv.take(n));
        lemma_query_prefix(fv, n + 1);
    } else {
        assert(fv.take(n) =~= fv);
    }
}

/// Generates the `Display` arm of a variant: its URL statements are formed first, and their
/// error, if any, is the result; then a subroute variant writes its URL without the query
/// followed by its subroute field, a catch-all variant delegates to its field, and any other
/// variant runs its URL statements.
pub fn generate_display_match(config: &VariantConfig) -> (res: Result<DisplayMatch, FormatError>)
    ensures
        match res {
            Err(e) => url_format_outcome(
                config.route_url@,
                config.fields.shape() == FieldsShape::Named,
                fields_view(config.fields.field_list()),
                Err::<Vec<FormatStatement>, FormatError>(e),
            ) && display_match(
                config.route_url@,
                config.fields.shape() == FieldsShape::Named,
                fields_view(config.fields.field_list()),
                config.route_type@,
            ) is None,
            Ok(d) => display_match(
                config.route_url@,
                config.fields.shape() == FieldsShape::Named,
                fields_view(config.fields.field_list()),
                config.route_type@,
            ) == Some(d@),
        },
{
    let ghost fv = fields_view(config.fields.field_list());
    let format = generate_url_format(config);
    let mut st = match format {
        Err(e) => {
            return Err(e);
        },
        Ok(st) => st,
    };
    let fields = config.fields.iter();
    match config.route_type {
        RouteType::SubRoute => {
            if let Some(k) = find_subroute(fields) {
                let subroute = fields[k].ident.clone();
                assert(fv[k as int] == field_view(fields@[k as int]));
                let ghost base = base_statements(
                    config.route_url@,
                    config.fields.shape() == FieldsShape::Named,
                    fv,
                )->0;
                assert(stmts_view(st@) == with_query(base, fv));
                if has_query_field(fields) {
                    let ghost before = st@;
                    st.pop();
                    assert(stmts_view(st@) =~= stmts_view(before).drop_last());
                    assert(stmts_view(st@) =~= base);
                }
                return Ok(DisplayMatch::Subroute { statements: st, subroute });
            }
            Ok(DisplayMatch::Format(st))
        },
        RouteType::CatchAll => Ok(DisplayMatch::CatchAll),
        RouteType::Simple { .. } => Ok(DisplayMatch::Format(st)),
    }
}

/// Where a path argument of a subroute variant is read from, among the captures of the
/// regular expression that matches the variant's prefix.
#[derive(Debug, Clone, PartialEq, Eq)]
pub enum CaptureRef {
    /// The capture named as the field.
    Named(String),
    /// The capture at this index (the first group is 1).
    Index(usize),
}

/// The model of a capture reference.
pub ghost enum CaptureModel {
    Named(Seq<char>),
    Index(int),
}

/// The model of a (field, capture) pair.
pub open spec fn capture_view(p: (String, CaptureRef)) -> (Seq<char>, CaptureModel) {
    (
        p.0@,
        match p.1 {
            CaptureRef::Named(n) => CaptureModel::Named(n@),
            CaptureRef::Index(i) => CaptureModel::Index(i as int),
        },
    )
}

/// The models of (field, capture) pairs.
pub open spec fn captures_view(v: Seq<(String, CaptureRef)>) -> Seq<(Seq<char>, CaptureModel)> {
    v.map_values(|p: (String, CaptureRef)| capture_view(p))
}

/// The path-parameter fields of a subroute variant with the capture each is decoded from: a
/// named field reads the capture of its own name, the `k`-th path field of a tuple variant
/// reads capture `k` (counting from 1).
pub open spec fn path_captures(fields: Seq<(Seq<char>, RoleModel)>, named: bool) -> Seq<
    (Seq<char>, CaptureModel),
>
    decreases fields.len(),
{
    if fields.len() == 0 {
        Seq::empty()
    } else if fields.last().1 is PathParam {
        path_captures(fields.drop_last(), named).push(
            (
                fields.last().0,
                if named {
                    CaptureModel::Named(fields.last().0)
                } else {
                    CaptureModel::Index(path_param_idents(fields.drop_last()).len() + 1int)
                },
            ),
        )
    } else {
        path_captures(fields.drop_last(), named)
    }
}

/// How the handler of a subroute variant builds the variant from a request whose path matches
/// the variant's prefix.
#[derive(Debug, Clone, PartialEq, Eq)]
pub struct SubrouteHandler {
    /// Each path-parameter field, with the capture its argument is decoded from.
    pub path_args: Vec<(String, CaptureRef)>,
    /// The field that takes the subroute, read from the rest of the path.
    pub subroute: String,
}

/// The path arguments of a variant's fields, with the capture each is decoded from.
fn path_arguments(fields: &[FieldConfig], named: bool) -> (res: Vec<(String, CaptureRef)>)
    ensures
        captures_view(res@) == path_captures(fields_view(fields@), named),
{
    let ghost fv = fields_view(fields@);
    let mut path_args: Vec<(String, CaptureRef)> = Vec::new();
    let mut count: usize = 0;
    let mut i: usize = 0;
    assert(fv.take(0) =~= Seq::<(Seq<char>, RoleModel)>::empty());
    assert(captures_view(path_args@) =~= Seq::<(Seq<char>, CaptureModel)>::empty());
    while i < fields.len()
        invariant
            i <= fields@.len(),
            fv == fields_view(fields@),
            count <= i,
            count == path_param_idents(fv.take(i as int)).len(),
            captures_view(path_args@) == path_captures(fv.take(i as int), named),
        decreases fields@.len() - i,
    {
        assert(fv.take(i + 1).drop_last() =~= fv.take(i as int));
        assert(fv.take(i + 1).last() == field_view(fields@[i as int]));
        if fields[i].is_path_param() {
            let ident = fields[i].ident.clone();
            let capture = if named {
                CaptureRef::Named(fields[i].ident.clone())
            } else {
                CaptureRef::Index(count + 1)
            };
            let ghost before = path_args@;
            let entry = (ident, capture);
            path_args.push(entry);
            assert(captures_view(path_args@) =~= captures_view(before).push(capture_view(entry)));
            count += 1;
        }
        i += 1;
    }
    assert(fv.take(fields@.len() as int) =~= fv);
    path_args
}

/// Generates the handler of a subroute variant, which must have a subroute field: its path
/// arguments are decoded from the captures of the prefix, by name for a named variant and by
/// position for a tuple variant, and the first subroute field reads the rest of the path.
pub fn generate_subroute_handler(config: &VariantConfig) -> (res: SubrouteHandler)
    requires
        first_subroute(fields_view(config.fields.field_list())) is Some,
    ensures
        captures_view(res.path_args@) == path_captures(
            fields_view(config.fields.field_list()),
            config.fields.shape() == FieldsShape::Named,
        ),
        res.subroute@ == fields_view(config.fields.field_list())[first_subroute(
            fields_view(config.fields.field_list()),
        )->0].0,
{
    let named = config.fields.is_named();
    let fields = config.fields.iter();
    let path_args = path_arguments(fields, named);
    let k = match find_subroute(fields) {
        Some(k) => k,
        None => {
            assert(false);
            0
        },
    };
    assert(fields_view(fields@)[k as int] == field_view(fields@[k as int]));
    SubrouteHandler { path_args, subroute: fields[k].ident.clone() }
}

/// The method arm of a variant in the derived `Route::method`.
#[derive(Debug, Clone, PartialEq, Eq)]
pub enum MethodArm {
    /// The variant's own method; the arm's pattern is the variant with a wildcard.
    Fixed(String),
    /// The method of the route in the subroute field, the `position`-th field, bound by its
    /// identifier.
    Subroute { field: String, position: usize },
    /// The method of the route in the catch-all field.
    CatchAll,
}

/// The model of a method arm.
pub ghost enum MethodModel {
    Fixed(Seq<char>),
    Subroute(Seq<char>, int),
    CatchAll,
}

impl View for MethodArm {
    type V = MethodModel;

    open spec fn view(&self) -> MethodModel {
        match *self {
            MethodArm::Fixed(m) => MethodModel::Fixed(m@),
            MethodArm::Subroute { field, position } => MethodModel::Subroute(field@, position as int),
            MethodArm::CatchAll => MethodModel::CatchAll,
        }
    }
}

/// The method arm of a variant: a simple route answers its own method; a subroute variant the
/// method of its first subroute field's route (`GET` if it has none); a catch-all variant the
/// method of its inner route.
pub open spec fn method_arm(route_type: RouteTypeModel, fields: Seq<(Seq<char>, RoleModel)>) -> MethodModel {
    match route_type {
        RouteTypeModel::Simple(m) => MethodModel::Fixed(m),
        RouteTypeModel::SubRoute => match first_subroute(fields) {
            Some(k) => MethodModel::Subroute(fields[k].0, k),
            None => MethodModel::Fixed("GET"@),
        },
        RouteTypeModel::CatchAll => MethodModel::CatchAll,
    }
}

/// Generates the method arm of a variant (see [`method_arm`]).
pub fn generate_method_match(config: &VariantConfig) -> (res: MethodArm)
    ensures
        res@ == method_arm(config.route_type@, fields_view(config.fields.field_list())),
{
    let fields = config.fields.iter();
    assert(fields@ == config.fields.field_list());
    match &config.route_type {
        RouteType::Simple { method } => MethodArm::Fixed(method.clone()),
        RouteType::SubRoute => match find_subroute(fields) {
            Some(k) => {
                assert(fields_view(fields@)[k as int] == field_view(fields@[k as int]));
                MethodArm::Subroute { field: fields[k].ident.clone(), position: k }
            },
            None => {
                proof {
                    reveal_strlit("GET");
                }
                MethodArm::Fixed(String::from_str("GET"))
            },
        },
        RouteType::CatchAll => MethodArm::CatchAll,
    }
}

/// The identifier of the first body field, if any.
pub open spec fn body_ident(fields: Seq<(Seq<char>, RoleModel)>) -> Option<Seq<char>>
    decreases fields.len(),
{
    if fields.len() == 0 {
        None
    } else {
        match body_ident(fields.drop_last()) {
            Some(b) => Some(b),
            None => if fields.last().1 == RoleModel::Body {
                Some(fields.last().0)
            } else {
                None
            },
        }
    }
}

/// How the derived `FromRequest` builds a simple variant from a request that matches its URL.
#[derive(Debug, Clone, PartialEq, Eq)]
pub struct RequestParsing {
    /// Each path-parameter field, with the capture its argument is decoded from.
    pub path_args: Vec<(String, CaptureRef)>,
    /// The field that takes the query string, if any.
    pub query: Option<String>,
    /// The field that takes the form body, if any.
    pub body: Option<String>,
    /// The fields the variant is built from, in order.
    pub fields: Vec<String>,
}

/// The model of an optional text.
pub open spec fn opt_text(o: Option<String>) -> Option<Seq<char>> {
    match o {
        Some(t) => Some(t@),
        None => None,
    }
}

/// Generates how a variant is read from a request: its path arguments from the captures of its
/// URL's regular expression (by name for a named variant, by position for a tuple variant), its
/// first query field from the query string, its first body field from the form body; then the
/// variant is built from all its fields, in order.
pub fn generate_request_parsing(config: &VariantConfig) -> (res: RequestParsing)
    ensures
        captures_view(res.path_args@) == path_captures(
            fields_view(config.fields.field_list()),
            config.fields.shape() == FieldsShape::Named,
        ),
        opt_text(res.query) == query_ident(fields_view(config.fields.field_list())),
        opt_text(res.body) == body_ident(fields_view(config.fields.field_list())),
        res.fields@.map_values(|f: String| f@) == fields_view(config.fields.field_list()).map_values(
            |f: (Seq<char>, RoleModel)| f.0,
        ),
{
    let named = config.fields.is_named();
    let fields = config.fields.iter();
    let ghost fv = fields_view(fields@);
    let path_args = path_arguments(fields, named);
    let mut query: Option<String> = None;
    let mut body: Option<String> = None;
    let mut idents: Vec<String> = Vec::new();
    let mut i: usize = 0;
    assert(fv.take(0) =~= Seq::<(Seq<char>, RoleModel)>::empty());
    assert(idents@.map_values(|f: String| f@) =~= Seq::<Seq<char>>::empty());
    while i < fields.len()
        invariant
            i <= fields@.len(),
            fv == fields_view(fields@),
            opt_text(query) == query_ident(fv.take(i as int)),
            opt_text(body) == body_ident(fv.take(i as int)),
            idents@.map_values(|f: String| f@) == fv.take(i as int).map_values(
                |f: (Seq<char>, RoleModel)| f.0,
            ),
        decreases fields@.len() - i,
    {
        assert(fv.take(i + 1).drop_last() =~= fv.take(i as int));
        assert(fv.take(i + 1).last() == field_view(fields@[i as int]));
        if query.is_none() && fields[i].is_query() {
            query = Some(fields[i].ident.clone());
        }
        if body.is_none() && fields[i].is_body() {
            body = Some(fields[i].ident.clone());
        }
        let ghost before = idents@;
        idents.push(fields[i].ident.clone());
        assert(idents@.map_values(|f: String| f@) =~= before.map_values(|f: String| f@).push(
            fields@[i as int].ident@,
        ));
        assert(fv.take(i + 1).map_values(|f: (Seq<char>, RoleModel)| f.0) =~= fv.take(
            i as int,
        ).map_values(|f: (Seq<char>, RoleModel)| f.0).push(fields@[i as int].ident@));
        i += 1;
    }
    assert(fv.take(fields@.len() as int) =~= fv);
    RequestParsing { path_args, query, body, fields: idents }
}

} // verus!
