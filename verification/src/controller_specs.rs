//! What the controller derives read from their `controller`, `subcontroller` and `component`
//! attributes, once the arguments are parsed: the checks on repeated and missing arguments, and
//! the lifetimes of the controller types.

use vstd::prelude::*;
use crate::lifetimes::{TypeExpr, TypeModel, type_view, copy_type, replace_first_lifetime, name_first_lifetime};
use crate::strings::strings_view;
use crate::text::{push_str, push_char};

verus! {

broadcast use vstd::seq::group_seq_axioms;

/// The lifetime that names the first lifetime of a controller type in the conversion impl.
pub open spec fn spec_lifetime_name() -> Seq<char> {
    "_component_spec_lifetime"@
}

/// An error in the arguments of a controller attribute.
#[derive(Debug, Clone, PartialEq, Eq)]
pub enum SpecError {
    /// `route` is given twice.
    DuplicateRoute,
    /// `path` is given twice.
    DuplicatePath,
    /// `doc` is given twice.
    DuplicateDoc,
    /// `params` is given twice.
    DuplicateParams,
    /// `route` is missing.
    MissingRoute,
    /// `response` is given twice.
    DuplicateResponse,
    /// `args` is given twice.
    DuplicateArgs,
    /// `pre_handler` is given twice.
    DuplicatePreHandler,
    /// `extra_derives` is given twice.
    DuplicateExtraDerives,
    /// A `controller` argument has an unknown key.
    UnknownParameter { key: String },
    /// A `subcontroller` argument has an unknown key.
    UnknownSubcontrollerParameter { key: String },
    /// A `component` argument has an unknown key.
    UnknownComponentParameter { key: String },
    /// A second subcontroller has no `path`: the named route is already the default.
    MultipleDefaultSubcontrollers { existing: String },
    /// A second `controller` attribute.
    DuplicateController,
    /// No `controller` attribute.
    MissingController,
}

/// The model of a spec error.
pub ghost enum SpecErr {
    DuplicateRoute,
    DuplicatePath,
    DuplicateDoc,
    DuplicateParams,
    MissingRoute,
    DuplicateResponse,
    DuplicateArgs,
    DuplicatePreHandler,
    DuplicateExtraDerives,
    UnknownParameter(Seq<char>),
    UnknownSubcontrollerParameter(Seq<char>),
    UnknownComponentParameter(Seq<char>),
    MultipleDefaultSubcontrollers(Seq<char>),
    DuplicateController,
    MissingController,
}

impl View for SpecError {
    type V = SpecErr;

    open spec fn view(&self) -> SpecErr {
        match *self {
            SpecError::DuplicateRoute => SpecErr::DuplicateRoute,
            SpecError::DuplicatePath => SpecErr::DuplicatePath,
            SpecError::DuplicateDoc => SpecErr::DuplicateDoc,
            SpecError::DuplicateParams => SpecErr::DuplicateParams,
            SpecError::MissingRoute => SpecErr::MissingRoute,
            SpecError::DuplicateResponse => SpecErr::DuplicateResponse,
            SpecError::DuplicateArgs => SpecErr::DuplicateArgs,
            SpecError::DuplicatePreHandler => SpecErr::DuplicatePreHandler,
            SpecError::DuplicateExtraDerives => SpecErr::DuplicateExtraDerives,
            SpecError::UnknownParameter { key } => SpecErr::UnknownParameter(key@),
            SpecError::UnknownSubcontrollerParameter { key } =>
                SpecErr::UnknownSubcontrollerParameter(key@),
            SpecError::UnknownComponentParameter { key } => SpecErr::UnknownComponentParameter(
                key@,
            ),
            SpecError::MultipleDefaultSubcontrollers { existing } =>
                SpecErr::MultipleDefaultSubcontrollers(existing@),
            SpecError::DuplicateController => SpecErr::DuplicateController,
            SpecError::MissingController => SpecErr::MissingController,
        }
    }
}

/// The message of a spec error.
pub open spec fn spec_err_message(e: SpecErr) -> Seq<char> {
    match e {
        SpecErr::DuplicateRoute => "only one `route` can be specified"@,
        SpecErr::DuplicatePath => "at most one path` can be specified"@,
        SpecErr::DuplicateDoc => "at most one `doc` can be specified"@,
        SpecErr::DuplicateParams => "only one `params` can be specified"@,
        SpecErr::MissingRoute => "expected a `route` argument"@,
        SpecErr::DuplicateResponse => "duplicate `response` parameter"@,
        SpecErr::DuplicateArgs => "duplicate `args` parameter"@,
        SpecErr::DuplicatePreHandler => "duplicate `pre_handler` parameter"@,
        SpecErr::DuplicateExtraDerives => "duplicate `extra_derives` parameter"@,
        SpecErr::UnknownParameter(key) =>
            "expected `response`, `args`, `pre_handler`, or `extra_derives`, found `"@ + key + "`"@,
        SpecErr::UnknownSubcontrollerParameter(_) =>
            "expected `route`, `path`, `convert_with`, `convert_response`, `doc`, or `params`"@,
        SpecErr::UnknownComponentParameter(_) => "expected `catch_all`, `route`, or `convert_with`"@,
        SpecErr::DuplicateController => "only one `controller` attribute can be specified"@,
        SpecErr::MissingController => "expected `controller` attribute"@,
        SpecErr::MultipleDefaultSubcontrollers(existing) =>
            "only one default subcontroller (without `path`) is allowed; `"@ + existing
            + "` is already defined as the default"@,
    }
}

impl SpecError {
    /// The message of the error.
    pub fn to_string(&self) -> (res: String)
        ensures
            res@ == spec_err_message(self@),
    {
        match self {
            SpecError::DuplicateRoute => String::from_str("only one `route` can be specified"),
            SpecError::DuplicatePath => String::from_str("at most one path` can be specified"),
            SpecError::DuplicateDoc => String::from_str("at most one `doc` can be specified"),
            SpecError::DuplicateParams => String::from_str("only one `params` can be specified"),
            SpecError::MissingRoute => String::from_str("expected a `route` argument"),
            SpecError::DuplicateResponse => String::from_str("duplicate `response` parameter"),
            SpecError::DuplicateArgs => String::from_str("duplicate `args` parameter"),
            SpecError::DuplicatePreHandler => String::from_str("duplicate `pre_handler` parameter"),
            SpecError::DuplicateExtraDerives => String::from_str(
                "duplicate `extra_derives` parameter",
            ),
            SpecError::UnknownParameter { key } => {
                let mut res = String::from_str(
                    "expected `response`, `args`, `pre_handler`, or `extra_derives`, found `",
                );
                push_str(&mut res, key.as_str());
                push_char(&mut res, '`');
                proof {
                    reveal_strlit("`");
                }
                assert(res@ =~= spec_err_message(self@));
                res
            },
            SpecError::UnknownSubcontrollerParameter { .. } => String::from_str(
                "expected `route`, `path`, `convert_with`, `convert_response`, `doc`, or `params`",
            ),
            SpecError::UnknownComponentParameter { .. } => String::from_str(
                "expected `catch_all`, `route`, or `convert_with`",
            ),
            SpecError::DuplicateController => String::from_str(
                "only one `controller` attribute can be specified",
            ),
            SpecError::MissingController => String::from_str("expected `controller` attribute"),
            SpecError::MultipleDefaultSubcontrollers { existing } => {
                let mut res = String::from_str(
                    "only one default subcontroller (without `path`) is allowed; `",
                );
                push_str(&mut res, existing.as_str());
                push_str(&mut res, "` is already defined as the default");
                assert(res@ =~= spec_err_message(self@));
                res
            },
        }
    }
}

/// The model of an optional string.
pub open spec fn opt_view(o: Option<String>) -> Option<Seq<char>> {
    match o {
        Some(s) => Some(s@),
        None => None,
    }
}

/// A path parameter of a subcontroller route: its name and type.
#[derive(Debug)]
pub struct ParamSpec {
    pub name: String,
    pub ty: TypeExpr,
}

/// The model of a parameter.
pub open spec fn param_view(p: ParamSpec) -> (Seq<char>, TypeModel) {
    (p.name@, type_view(p.ty))
}

/// The models of parameters.
pub open spec fn params_view(v: Seq<ParamSpec>) -> Seq<(Seq<char>, TypeModel)> {
    v.map_values(|p: ParamSpec| param_view(p))
}

/// A copy of a list of parameters.
pub(crate) fn copy_params(v: &Vec<ParamSpec>) -> (res: Vec<ParamSpec>)
    ensures
        params_view(res@) == params_view(v@),
{
    let mut out: Vec<ParamSpec> = Vec::new();
    let mut i: usize = 0;
    while i < v.len()
        invariant
            i <= v@.len(),
            params_view(out@) == params_view(v@.take(i as int)),
        decreases v@.len() - i,
    {
        let p = ParamSpec { name: v[i].name.clone(), ty: copy_type(&v[i].ty) };
        let ghost before = out@;
        out.push(p);
        assert(params_view(out@) =~= params_view(before).push(param_view(v@[i as int])));
        assert(params_view(v@.take(i + 1)) =~= params_view(v@.take(i as int)).push(
            param_view(v@[i as int]),
        ));
        i += 1;
    }
    assert(v@.take(v@.len() as int) =~= v@);
    out
}

/// An argument of a `subcontroller` attribute.
#[derive(Debug)]
pub enum SubcontrollerArg {
    /// `route = Variant`.
    Route(String),
    /// `path = "..."`.
    Path(String),
    /// `convert_with = "function"`, by the function's text.
    ConvertWith(String),
    /// `convert_response = "function"`, by the function's text.
    ConvertResponse(String),
    /// `doc = "..."`.
    Doc(String),
    /// `params(name: Type, ...)`.
    Params(Vec<ParamSpec>),
    /// An argument with any other key, which is refused.
    Unknown(String),
}

/// What the arguments of a `subcontroller` attribute have set so far.
pub ghost struct SubFold {
    pub route: Option<Seq<char>>,
    pub path: Option<Seq<char>>,
    pub doc: Option<Seq<char>>,
    pub params: Seq<(Seq<char>, TypeModel)>,
    pub convert_with: Option<Seq<char>>,
    pub convert_response: Option<Seq<char>>,
}

/// Nothing set yet.
pub open spec fn empty_fold() -> SubFold {
    SubFold {
        route: None,
        path: None,
        doc: None,
        params: Seq::empty(),
        convert_with: None,
        convert_response: None,
    }
}

/// One argument of a `subcontroller` attribute: `route`, `path`, `doc` and `params` may be
/// given once (a second `params` only after an empty one); a later conversion function replaces
/// an earlier one.
pub open spec fn sub_step(st: SubFold, a: SubcontrollerArg) -> Result<SubFold, SpecErr> {
    match a {
        SubcontrollerArg::ConvertWith(f) => Ok(SubFold { convert_with: Some(f@), ..st }),
        SubcontrollerArg::ConvertResponse(f) => Ok(SubFold { convert_response: Some(f@), ..st }),
        SubcontrollerArg::Route(r) => if st.route is Some {
            Err(SpecErr::DuplicateRoute)
        } else {
            Ok(SubFold { route: Some(r@), ..st })
        },
        SubcontrollerArg::Path(p) => if st.path is Some {
            Err(SpecErr::DuplicatePath)
        } else {
            Ok(SubFold { path: Some(p@), ..st })
        },
        SubcontrollerArg::Doc(d) => if st.doc is Some {
            Err(SpecErr::DuplicateDoc)
        } else {
            Ok(SubFold { doc: Some(d@), ..st })
        },
        SubcontrollerArg::Params(ps) => if st.params.len() > 0 {
            Err(SpecErr::DuplicateParams)
        } else {
            Ok(SubFold { params: params_view(ps@), ..st })
        },
        SubcontrollerArg::Unknown(k) => Err(SpecErr::UnknownSubcontrollerParameter(k@)),
    }
}

/// The key of the first argument with an unknown key, if any.
pub open spec fn first_unknown_sub(args: Seq<SubcontrollerArg>) -> Option<Seq<char>>
    decreases args.len(),
{
    if args.len() == 0 {
        None
    } else {
        match args[0] {
            SubcontrollerArg::Unknown(k) => Some(k@),
            _ => first_unknown_sub(args.skip(1)),
        }
    }
}

/// Finds the first argument with an unknown key.
fn find_unknown_sub(args: &Vec<SubcontrollerArg>) -> (res: Option<String>)
    ensures
        opt_view(res) == first_unknown_sub(args@),
        res is None ==> forall|j: int| 0 <= j < args@.len() ==> !(#[trigger] args@[j] is Unknown),
{
    let mut i: usize = 0;
    assert(args@.skip(0) =~= args@);
    while i < args.len()
        invariant
            i <= args@.len(),
            first_unknown_sub(args@) == first_unknown_sub(args@.skip(i as int)),
            forall|j: int| 0 <= j < i ==> !(#[trigger] args@[j] is Unknown),
        decreases args@.len() - i,
    {
        assert(args@.skip(i as int).skip(1) =~= args@.skip(i + 1));
        assert(args@.skip(i as int)[0] == args@[i as int]);
        if let SubcontrollerArg::Unknown(k) = &args[i] {
            return Some(k.clone());
        }
        i += 1;
    }
    assert(args@.skip(i as int) =~= Seq::<SubcontrollerArg>::empty());
    None
}

/// The arguments of a `subcontroller` attribute, from the first to the last.
pub open spec fn sub_fold(args: Seq<SubcontrollerArg>, st: SubFold) -> Result<SubFold, SpecErr>
    decreases args.len(),
{
    if args.len() == 0 {
        Ok(st)
    } else {
        match sub_step(st, args[0]) {
            Err(e) => Err(e),
            Ok(s2) => sub_fold(args.skip(1), s2),
        }
    }
}

/// What a `subcontroller` attribute specifies.
#[derive(Debug)]
pub struct SubcontrollerSpec {
    /// The controller type, its first lifetime made `'static`.
    pub controller_type: TypeExpr,
    /// The controller type, its first lifetime named for the conversion impl.
    pub controller_type_with_spec_lifetime: TypeExpr,
    /// Whether the controller type has a lifetime.
    pub has_lifetime: bool,
    /// The route variant of the subcontroller.
    pub route_variant: String,
    /// The path of the subcontroller, if it is not the default one.
    pub path: Option<String>,
    /// The documentation of the route variant.
    pub doc: Option<String>,
    /// The path parameters of the route variant.
    pub params: Vec<ParamSpec>,
    /// The function that makes the subcontroller, if not `into`.
    pub convert_with: Option<String>,
    /// The function that converts the subcontroller's response, if not `into`.
    pub convert_response: Option<String>,
}

/// Whether no `params` argument with an empty list comes after one with parameters.
pub open spec fn params_lists_well_placed(args: Seq<SubcontrollerArg>) -> bool {
    forall|i: int, j: int|
        #![trigger args[i], args[j]]
        0 <= i < j < args.len() && (args[i] matches SubcontrollerArg::Params(p) && p@.len() > 0)
            ==> !(args[j] matches SubcontrollerArg::Params(q) && q@.len() == 0)
}

/// The state of the fold as values.
pub open spec fn fold_of(
    route: Option<String>,
    path: Option<String>,
    doc: Option<String>,
    params: Seq<ParamSpec>,
    convert_with: Option<String>,
    convert_response: Option<String>,
) -> SubFold {
    SubFold {
        route: opt_view(route),
        path: opt_view(path),
        doc: opt_view(doc),
        params: params_view(params),
        convert_with: opt_view(convert_with),
        convert_response: opt_view(convert_response),
    }
}

/// The model of a subcontroller specification.
pub ghost struct SubSpecModel {
    pub controller_type: TypeModel,
    pub controller_type_with_spec_lifetime: TypeModel,
    pub has_lifetime: bool,
    pub route_variant: Seq<char>,
    pub path: Option<Seq<char>>,
    pub doc: Option<Seq<char>>,
    pub params: Seq<(Seq<char>, TypeModel)>,
    pub convert_with: Option<Seq<char>>,
    pub convert_response: Option<Seq<char>>,
}

/// The model of a subcontroller specification.
pub open spec fn sub_spec_view(s: SubcontrollerSpec) -> SubSpecModel {
    SubSpecModel {
        controller_type: type_view(s.controller_type),
        controller_type_with_spec_lifetime: type_view(s.controller_type_with_spec_lifetime),
        has_lifetime: s.has_lifetime,
        route_variant: s.route_variant@,
        path: opt_view(s.path),
        doc: opt_view(s.doc),
        params: params_view(s.params@),
        convert_with: opt_view(s.convert_with),
        convert_response: opt_view(s.convert_response),
    }
}

/// What a `subcontroller` attribute specifies: the arguments, with `route` required, and the
/// controller type with its first lifetime made `'static` and named for the conversion impl.
pub open spec fn subcontroller_spec(ty: TypeModel, args: Seq<SubcontrollerArg>) -> Result<
    SubSpecModel,
    SpecErr,
> {
    match first_unknown_sub(args) {
        Some(k) => Err(SpecErr::UnknownSubcontrollerParameter(k)),
        None => subcontroller_fold_spec(ty, args),
    }
}

/// What a `subcontroller` attribute whose keys are all known specifies.
pub open spec fn subcontroller_fold_spec(ty: TypeModel, args: Seq<SubcontrollerArg>) -> Result<
    SubSpecModel,
    SpecErr,
> {
    match sub_fold(args, empty_fold()) {
        Err(e) => Err(e),
        Ok(st) => match st.route {
            None => Err(SpecErr::MissingRoute),
            Some(r) => Ok(
                SubSpecModel {
                    controller_type: name_first_lifetime(ty, "static"@).0,
                    controller_type_with_spec_lifetime: name_first_lifetime(
                        ty,
                        spec_lifetime_name(),
                    ).0,
                    has_lifetime: name_first_lifetime(ty, spec_lifetime_name()).1,
                    route_variant: r,
                    path: st.path,
                    doc: st.doc,
                    params: st.params,
                    convert_with: st.convert_with,
                    convert_response: st.convert_response,
                },
            ),
        },
    }
}

/// Reads a `subcontroller` attribute from its controller type and its arguments: `route` is
/// required; `route`, `path`, `doc` and `params` may be given once; the last conversion
/// functions count. The controller type's first lifetime is made `'static`, and named for the
/// conversion impl.
pub fn parse_subcontroller(controller_type: &TypeExpr, args: &Vec<SubcontrollerArg>) -> (res: Result<
    SubcontrollerSpec,
    SpecError,
>)
    requires
        params_lists_well_placed(args@),
    ensures
        match res {
            Ok(s) => subcontroller_spec(type_view(*controller_type), args@) == Ok::<
                SubSpecModel,
                SpecErr,
            >(sub_spec_view(s)),
            Err(e) => subcontroller_spec(type_view(*controller_type), args@) == Err::<
                SubSpecModel,
                SpecErr,
            >(e@),
        },
{
    let (with_spec_lifetime, has_lifetime) = replace_first_lifetime(
        controller_type,
        "_component_spec_lifetime",
    );
    let (static_type, _) = replace_first_lifetime(controller_type, "static");
    if let Some(key) = find_unknown_sub(args) {
        return Err(SpecError::UnknownSubcontrollerParameter { key });
    }
    let mut route: Option<String> = None;
    let mut path: Option<String> = None;
    let mut doc: Option<String> = None;
    let mut params: Vec<ParamSpec> = Vec::new();
    let mut convert_with: Option<String> = None;
    let mut convert_response: Option<String> = None;
    let mut i: usize = 0;
    assert(args@.skip(0) =~= args@);
    assert(params_view(params@) =~= Seq::<(Seq<char>, TypeModel)>::empty());
    while i < args.len()
        invariant
            i <= args@.len(),
            forall|j: int| 0 <= j < args@.len() ==> !(#[trigger] args@[j] is Unknown),
            first_unknown_sub(args@) is None,
            sub_fold(args@, empty_fold()) == sub_fold(
                args@.skip(i as int),
                fold_of(route, path, doc, params@, convert_with, convert_response),
            ),
        decreases args@.len() - i,
    {
        assert(args@.skip(i as int).skip(1) =~= args@.skip(i + 1));
        assert(args@.skip(i as int)[0] == args@[i as int]);
        match &args[i] {
            SubcontrollerArg::ConvertWith(f) => {
                convert_with = Some(f.clone());
            },
            SubcontrollerArg::ConvertResponse(f) => {
                convert_response = Some(f.clone());
            },
            SubcontrollerArg::Route(r) => {
                if route.is_some() {
                    return Err(SpecError::DuplicateRoute);
                }
                route = Some(r.clone());
            },
            SubcontrollerArg::Path(p) => {
                if path.is_some() {
                    return Err(SpecError::DuplicatePath);
                }
                path = Some(p.clone());
            },
            SubcontrollerArg::Doc(d) => {
                if doc.is_some() {
                    return Err(SpecError::DuplicateDoc);
                }
                doc = Some(d.clone());
            },
            SubcontrollerArg::Params(ps) => {
                if params.len() > 0 {
                    return Err(SpecError::DuplicateParams);
                }
                params = copy_params(ps);
            },
            SubcontrollerArg::Unknown(k) => {
                assert(args@[i as int] is Unknown);
                return Err(SpecError::UnknownSubcontrollerParameter { key: k.clone() });
            },
        }
        i += 1;
    }
    assert(args@.skip(i as int) =~= Seq::<SubcontrollerArg>::empty());
    let route_variant = match route {
        Some(r) => r,
        None => {
            return Err(SpecError::MissingRoute);
        },
    };
    Ok(
        SubcontrollerSpec {
            controller_type: static_type,
            controller_type_with_spec_lifetime: with_spec_lifetime,
            has_lifetime,
            route_variant,
            path,
            doc,
            params,
            convert_with,
            convert_response,
        },
    )
}

/// An argument of a `component` attribute.
#[derive(Debug)]
pub enum ComponentArg {
    /// `route = Variant`.
    Route(String),
    /// `path = "..."`.
    Path(String),
    /// `convert_with = "function"`, by the function's text.
    ConvertWith(String),
    /// `doc = "..."`.
    Doc(String),
    /// An argument with any other key, which is refused.
    Unknown(String),
}

/// One argument of a `component` attribute: `route`, `path` and `doc` may be given once; a
/// later conversion function replaces an earlier one.
pub open spec fn component_step(st: SubFold, a: ComponentArg) -> Result<SubFold, SpecErr> {
    match a {
        ComponentArg::ConvertWith(f) => Ok(SubFold { convert_with: Some(f@), ..st }),
        ComponentArg::Route(r) => if st.route is Some {
            Err(SpecErr::DuplicateRoute)
        } else {
            Ok(SubFold { route: Some(r@), ..st })
        },
        ComponentArg::Path(p) => if st.path is Some {
            Err(SpecErr::DuplicatePath)
        } else {
            Ok(SubFold { path: Some(p@), ..st })
        },
        ComponentArg::Doc(d) => if st.doc is Some {
            Err(SpecErr::DuplicateDoc)
        } else {
            Ok(SubFold { doc: Some(d@), ..st })
        },
        ComponentArg::Unknown(k) => Err(SpecErr::UnknownComponentParameter(k@)),
    }
}

/// The key of the first argument with an unknown key, if any.
pub open spec fn first_unknown_component(args: Seq<ComponentArg>) -> Option<Seq<char>>
    decreases args.len(),
{
    if args.len() == 0 {
        None
    } else {
        match args[0] {
            ComponentArg::Unknown(k) => Some(k@),
            _ => first_unknown_component(args.skip(1)),
        }
    }
}

/// Finds the first argument with an unknown key.
fn find_unknown_component(args: &Vec<ComponentArg>) -> (res: Option<String>)
    ensures
        opt_view(res) == first_unknown_component(args@),
        res is None ==> forall|j: int| 0 <= j < args@.len() ==> !(#[trigger] args@[j] is Unknown),
{
    let mut i: usize = 0;
    assert(args@.skip(0) =~= args@);
    while i < args.len()
        invariant
            i <= args@.len(),
            first_unknown_component(args@) == first_unknown_component(args@.skip(i as int)),
            forall|j: int| 0 <= j < i ==> !(#[trigger] args@[j] is Unknown),
        decreases args@.len() - i,
    {
        assert(args@.skip(i as int).skip(1) =~= args@.skip(i + 1));
        assert(args@.skip(i as int)[0] == args@[i as int]);
        if let ComponentArg::Unknown(k) = &args[i] {
            return Some(k.clone());
        }
        i += 1;
    }
    assert(args@.skip(i as int) =~= Seq::<ComponentArg>::empty());
    None
}

/// The arguments of a `component` attribute, from the first to the last.
pub open spec fn component_fold(args: Seq<ComponentArg>, st: SubFold) -> Result<SubFold, SpecErr>
    decreases args.len(),
{
    if args.len() == 0 {
        Ok(st)
    } else {
        match component_step(st, args[0]) {
            Err(e) => Err(e),
            Ok(s2) => component_fold(args.skip(1), s2),
        }
    }
}

/// What a `component` attribute specifies.
#[derive(Debug)]
pub struct ComponentSpec {
    /// The controller type, its first lifetime made `'static`.
    pub controller_type: TypeExpr,
    /// The controller type, its first lifetime named for the conversion impl.
    pub controller_type_with_spec_lifetime: TypeExpr,
    /// Whether the controller type has a lifetime.
    pub has_lifetime: bool,
    /// The route variant of the component.
    pub route_variant: String,
    /// The path of the component, if it is not the catch-all one.
    pub path: Option<String>,
    /// The documentation of the route variant.
    pub doc: Option<String>,
    /// The function that makes the component controller, if not `into`.
    pub convert_with: Option<String>,
}

/// Reads a `component` attribute from its controller type and its arguments, as
/// [`parse_subcontroller`] reads a `subcontroller` attribute, without parameters or response
/// conversion.
pub fn parse_component(controller_type: &TypeExpr, args: &Vec<ComponentArg>) -> (res: Result<
    ComponentSpec,
    SpecError,
>)
    ensures
        first_unknown_component(args@) matches Some(k) ==> res matches Err(x) && x@
            == SpecErr::UnknownComponentParameter(k),
        first_unknown_component(args@) is None ==> match component_fold(args@, empty_fold()) {
            Err(e) => res matches Err(x) && x@ == e,
            Ok(st) => match st.route {
                None => res matches Err(x) && x@ == SpecErr::MissingRoute,
                Some(r) => res matches Ok(s) && s.route_variant@ == r && opt_view(s.path) == st.path
                    && opt_view(s.doc) == st.doc && opt_view(s.convert_with) == st.convert_with
                    && type_view(s.controller_type) == name_first_lifetime(
                    type_view(*controller_type),
                    "static"@,
                ).0 && (type_view(s.controller_type_with_spec_lifetime), s.has_lifetime)
                    == name_first_lifetime(type_view(*controller_type), spec_lifetime_name()),
            },
        },
{
    let (with_spec_lifetime, has_lifetime) = replace_first_lifetime(
        controller_type,
        "_component_spec_lifetime",
    );
    let (static_type, _) = replace_first_lifetime(controller_type, "static");
    if let Some(key) = find_unknown_component(args) {
        return Err(SpecError::UnknownComponentParameter { key });
    }
    let mut route: Option<String> = None;
    let mut path: Option<String> = None;
    let mut doc: Option<String> = None;
    let mut convert_with: Option<String> = None;
    let ghost no_params: Seq<ParamSpec> = Seq::empty();
    let mut i: usize = 0;
    assert(args@.skip(0) =~= args@);
    assert(params_view(no_params) =~= Seq::<(Seq<char>, TypeModel)>::empty());
    while i < args.len()
        invariant
            i <= args@.len(),
            no_params == Seq::<ParamSpec>::empty(),
            forall|j: int| 0 <= j < args@.len() ==> !(#[trigger] args@[j] is Unknown),
            first_unknown_component(args@) is None,
            component_fold(args@, empty_fold()) == component_fold(
                args@.skip(i as int),
                fold_of(route, path, doc, no_params, convert_with, None),
            ),
        decreases args@.len() - i,
    {
        assert(args@.skip(i as int).skip(1) =~= args@.skip(i + 1));
        assert(args@.skip(i as int)[0] == args@[i as int]);
        match &args[i] {
            ComponentArg::ConvertWith(f) => {
                convert_with = Some(f.clone());
            },
            ComponentArg::Route(r) => {
                if route.is_some() {
                    return Err(SpecError::DuplicateRoute);
                }
                route = Some(r.clone());
            },
            ComponentArg::Path(p) => {
                if path.is_some() {
                    return Err(SpecError::DuplicatePath);
                }
                path = Some(p.clone());
            },
            ComponentArg::Doc(d) => {
                if doc.is_some() {
                    return Err(SpecError::DuplicateDoc);
                }
                doc = Some(d.clone());
            },
            ComponentArg::Unknown(k) => {
                assert(args@[i as int] is Unknown);
                return Err(SpecError::UnknownComponentParameter { key: k.clone() });
            },
        }
        i += 1;
    }
    assert(args@.skip(i as int) =~= Seq::<ComponentArg>::empty());
    let route_variant = match route {
        Some(r) => r,
        None => {
            return Err(SpecError::MissingRoute);
        },
    };
    Ok(
        ComponentSpec {
            controller_type: static_type,
            controller_type_with_spec_lifetime: with_spec_lifetime,
            has_lifetime,
            route_variant,
            path,
            doc,
            convert_with,
        },
    )
}

/// A named argument of a `controller` attribute.
#[derive(Debug)]
pub enum ControllerArg {
    /// `response = Type`.
    Response(TypeExpr),
    /// `args = Type`.
    Args(TypeExpr),
    /// `pre_handler = "function"`, by the function's text.
    PreHandler(String),
    /// `extra_derives = (Trait, ...)`.
    ExtraDerives(Vec<String>),
    /// An argument with another key, by its key.
    Unknown(String),
}

/// What the named arguments of a `controller` attribute have set so far.
pub ghost struct ControllerFold {
    pub response: Option<TypeModel>,
    pub args: Option<TypeModel>,
    pub pre_handler: Option<Seq<char>>,
    pub extra_derives: Seq<Seq<char>>,
}

/// One named argument of a `controller` attribute: each key may be given once (a second
/// `extra_derives` only after an empty one); an unknown key is refused.
pub open spec fn controller_step(st: ControllerFold, a: ControllerArg) -> Result<ControllerFold, SpecErr> {
    match a {
        ControllerArg::Response(t) => if st.response is Some {
            Err(SpecErr::DuplicateResponse)
        } else {
            Ok(ControllerFold { response: Some(type_view(t)), ..st })
        },
        ControllerArg::Args(t) => if st.args is Some {
            Err(SpecErr::DuplicateArgs)
        } else {
            Ok(ControllerFold { args: Some(type_view(t)), ..st })
        },
        ControllerArg::PreHandler(f) => if st.pre_handler is Some {
            Err(SpecErr::DuplicatePreHandler)
        } else {
            Ok(ControllerFold { pre_handler: Some(f@), ..st })
        },
        ControllerArg::ExtraDerives(ds) => if st.extra_derives.len() > 0 {
            Err(SpecErr::DuplicateExtraDerives)
        } else {
            Ok(ControllerFold { extra_derives: strings_view(ds@), ..st })
        },
        ControllerArg::Unknown(k) => Err(SpecErr::UnknownParameter(k@)),
    }
}

/// The named arguments of a `controller` attribute, from the first to the last.
pub open spec fn controller_fold(args: Seq<ControllerArg>, st: ControllerFold) -> Result<
    ControllerFold,
    SpecErr,
>
    decreases args.len(),
{
    if args.len() == 0 {
        Ok(st)
    } else {
        match controller_step(st, args[0]) {
            Err(e) => Err(e),
            Ok(s2) => controller_fold(args.skip(1), s2),
        }
    }
}

/// What a `controller` attribute specifies.
#[derive(Debug)]
pub struct ControllerSpec {
    /// The route type of the controller.
    pub route_ident: String,
    /// The response type, if not the default one.
    pub response_type: Option<TypeExpr>,
    /// The type of the arguments, if not the default one.
    pub args_type: Option<TypeExpr>,
    /// The function called before each request is handled, if any.
    pub pre_handler: Option<String>,
    /// The traits that the route type derives besides the default ones.
    pub extra_derives: Vec<String>,
}

/// The model of an optional type.
pub open spec fn opt_type_view(o: Option<TypeExpr>) -> Option<TypeModel> {
    match o {
        Some(t) => Some(type_view(t)),
        None => None,
    }
}

/// Reads a `controller` attribute from its route type and its named arguments: `response`,
/// `args`, `pre_handler` and `extra_derives` may each be given once; any other key is refused.
pub fn parse_controller(route_ident: &str, args: &Vec<ControllerArg>) -> (res: Result<
    ControllerSpec,
    SpecError,
>)
    ensures
        match controller_fold(
            args@,
            ControllerFold { response: None, args: None, pre_handler: None, extra_derives: Seq::empty() },
        ) {
            Err(e) => res matches Err(x) && x@ == e,
            Ok(st) => res matches Ok(s) && s.route_ident@ == route_ident@ && opt_type_view(
                s.response_type,
            ) == st.response && opt_type_view(s.args_type) == st.args && opt_view(s.pre_handler)
                == st.pre_handler && strings_view(s.extra_derives@) == st.extra_derives,
        },
{
    let ghost init = ControllerFold {
        response: None,
        args: None,
        pre_handler: None,
        extra_derives: Seq::empty(),
    };
    let mut response_type: Option<TypeExpr> = None;
    let mut args_type: Option<TypeExpr> = None;
    let mut pre_handler: Option<String> = None;
    let mut extra_derives: Vec<String> = Vec::new();
    let mut i: usize = 0;
    assert(args@.skip(0) =~= args@);
    assert(strings_view(extra_derives@) =~= Seq::<Seq<char>>::empty());
    while i < args.len()
        invariant
            i <= args@.len(),
            init == (ControllerFold {
                response: None,
                args: None,
                pre_handler: None,
                extra_derives: Seq::empty(),
            }),
            controller_fold(args@, init) == controller_fold(
                args@.skip(i as int),
                ControllerFold {
                    response: opt_type_view(response_type),
                    args: opt_type_view(args_type),
                    pre_handler: opt_view(pre_handler),
                    extra_derives: strings_view(extra_derives@),
                },
            ),
        decreases args@.len() - i,
    {
        assert(args@.skip(i as int).skip(1) =~= args@.skip(i + 1));
        assert(args@.skip(i as int)[0] == args@[i as int]);
        match &args[i] {
            ControllerArg::Response(t) => {
                if response_type.is_some() {
                    return Err(SpecError::DuplicateResponse);
                }
                response_type = Some(copy_type(t));
            },
            ControllerArg::Args(t) => {
                if args_type.is_some() {
                    return Err(SpecError::DuplicateArgs);
                }
                args_type = Some(copy_type(t));
            },
            ControllerArg::PreHandler(f) => {
                if pre_handler.is_some() {
                    return Err(SpecError::DuplicatePreHandler);
                }
                pre_handler = Some(f.clone());
            },
            ControllerArg::ExtraDerives(ds) => {
                if extra_derives.len() > 0 {
                    return Err(SpecError::DuplicateExtraDerives);
                }
                extra_derives = ds.clone();
            },
            ControllerArg::Unknown(k) => {
                return Err(SpecError::UnknownParameter { key: k.clone() });
            },
        }
        i += 1;
    }
    assert(args@.skip(i as int) =~= Seq::<ControllerArg>::empty());
    Ok(
        ControllerSpec {
            route_ident: String::from_str(route_ident),
            response_type,
            args_type,
            pre_handler,
            extra_derives,
        },
    )
}

/// A `subcontroller` attribute: the controller type and the other arguments.
#[derive(Debug)]
pub struct SubcontrollerAttribute {
    pub controller_type: TypeExpr,
    pub args: Vec<SubcontrollerArg>,
}

/// The subcontrollers that the attributes specify, in order, given the route of the default
/// subcontroller (the one without a path) met so far: at most one may be the default.
pub open spec fn subcontrollers_from(attrs: Seq<SubcontrollerAttribute>, default: Option<Seq<char>>) -> Result<
    Seq<SubSpecModel>,
    SpecErr,
>
    decreases attrs.len(),
{
    if attrs.len() == 0 {
        Ok(Seq::empty())
    } else {
        match subcontroller_spec(type_view(attrs[0].controller_type), attrs[0].args@) {
            Err(e) => Err(e),
            Ok(m) => if m.path is None && default is Some {
                Err(SpecErr::MultipleDefaultSubcontrollers(default->0))
            } else {
                match subcontrollers_from(
                    attrs.skip(1),
                    if m.path is None {
                        Some(m.route_variant)
                    } else {
                        default
                    },
                ) {
                    Err(e) => Err(e),
                    Ok(rest) => Ok(seq![m] + rest),
                }
            },
        }
    }
}

/// The models of subcontroller specifications.
pub open spec fn sub_specs_view(v: Seq<SubcontrollerSpec>) -> Seq<SubSpecModel> {
    v.map_values(|s: SubcontrollerSpec| sub_spec_view(s))
}

/// Reads the `subcontroller` attributes of a controller, in order: each is read as
/// [`parse_subcontroller`] reads it, and only one may be without a path (the default one).
pub fn read_subcontrollers(attrs: &Vec<SubcontrollerAttribute>) -> (res: Result<
    Vec<SubcontrollerSpec>,
    SpecError,
>)
    requires
        forall|i: int| 0 <= i < attrs@.len() ==> params_lists_well_placed(#[trigger] attrs@[i].args@),
    ensures
        match res {
            Ok(v) => subcontrollers_from(attrs@, None) == Ok::<Seq<SubSpecModel>, SpecErr>(
                sub_specs_view(v@),
            ),
            Err(e) => subcontrollers_from(attrs@, None) == Err::<Seq<SubSpecModel>, SpecErr>(e@),
        },
{
    let mut out: Vec<SubcontrollerSpec> = Vec::new();
    let mut default: Option<String> = None;
    let mut i: usize = 0;
    assert(attrs@.skip(0) =~= attrs@);
    while i < attrs.len()
        invariant
            i <= attrs@.len(),
            forall|k: int| 0 <= k < attrs@.len() ==> params_lists_well_placed(#[trigger] attrs@[k].args@),
            subcontrollers_from(attrs@, None) == match subcontrollers_from(
                attrs@.skip(i as int),
                opt_view(default),
            ) {
                Err(e) => Err::<Seq<SubSpecModel>, SpecErr>(e),
                Ok(rest) => Ok(sub_specs_view(out@) + rest),
            },
        decreases attrs@.len() - i,
    {
        assert(attrs@.skip(i as int).skip(1) =~= attrs@.skip(i + 1));
        assert(attrs@.skip(i as int)[0] == attrs@[i as int]);
        let attr = &attrs[i];
        let spec = match parse_subcontroller(&attr.controller_type, &attr.args) {
            Ok(spec) => spec,
            Err(e) => {
                return Err(e);
            },
        };
        if spec.path.is_none() {
            match &default {
                Some(existing) => {
                    return Err(SpecError::MultipleDefaultSubcontrollers { existing: existing.clone() });
                },
                None => {
                    default = Some(spec.route_variant.clone());
                },
            }
        }
        let ghost before = out@;
        let ghost m = sub_spec_view(spec);
        out.push(spec);
        proof {
            assert(sub_specs_view(out@) =~= sub_specs_view(before).push(m));
            let tail = subcontrollers_from(attrs@.skip(i + 1), opt_view(default));
            match tail {
                Ok(rest) => {
                    assert(sub_specs_view(before) + (seq![m] + rest) =~= sub_specs_view(out@) + rest);
                },
                Err(_) => {},
            }
        }
        i += 1;
    }
    assert(attrs@.skip(i as int) =~= Seq::<SubcontrollerAttribute>::empty());
    assert(sub_specs_view(out@) + Seq::<SubSpecModel>::empty() =~= sub_specs_view(out@));
    Ok(out)
}

} // verus!
