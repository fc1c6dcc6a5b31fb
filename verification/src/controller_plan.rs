//! What the controller derives generate once their attributes are read: the route enum (its
//! derives and one variant per subcontroller or component) and the arms of `handle_request`
//! that hand each route to its controller.

use vstd::prelude::*;
use crate::lifetimes::{TypeExpr, TypeModel, type_view, copy_type, remove_lifetimes, erase_lifetimes};
use crate::controller_specs::{
    ControllerSpec, SubcontrollerSpec, ComponentSpec, ParamSpec, SubSpecModel, sub_spec_view,
    sub_specs_view, params_view, opt_view, opt_type_view, copy_params, ControllerArg,
    SubcontrollerAttribute, SpecError, SpecErr, ControllerFold, controller_fold,
    subcontroller_spec, params_lists_well_placed, parse_subcontroller, parse_controller,
};
use crate::strings::strings_view;

verus! {

broadcast use vstd::seq::group_seq_axioms;

/// A variant of the generated route enum.
#[derive(Debug)]
pub struct RouteVariantPlan {
    /// The variant's name.
    pub name: String,
    /// Its documentation, if any.
    pub doc: Option<String>,
    /// `Some(path)`: the variant is `#[route(path)]` and its route field is a `#[subroute]`;
    /// `None`: the variant is `#[catch_all]`.
    pub route_path: Option<String>,
    /// The parameter fields, in order. Without any, the variant is a tuple variant holding the
    /// route; with some, it is a struct variant holding them, then the route as `subroute`.
    pub params: Vec<ParamSpec>,
    /// The controller whose route the variant holds (`<controller_type as Controller>::Route`).
    pub controller_type: TypeExpr,
}

/// An arm of the generated `handle_request`: the route of a variant is handed to its
/// controller.
#[derive(Debug)]
pub struct DispatchArm {
    /// The variant the arm matches.
    pub variant: String,
    /// The parameters that, after the parent's arguments, build the controller's arguments
    /// (`Args::from((args, p1, ...))`); with none, the parent's arguments are passed on.
    pub params: Vec<String>,
    /// The controller the route is handed to, its lifetimes removed.
    pub controller_type: TypeExpr,
    /// The function that converts the controller's response (it gets the parent controller, the
    /// request, and copies of the request parts and arguments made before the call), or `None`
    /// for `into`.
    pub convert_response: Option<String>,
}

/// What the `RoutingController` derive generates.
#[derive(Debug)]
pub struct ControllerPlan {
    /// The route enum's name.
    pub route_ident: String,
    /// The traits the route enum derives, in order.
    pub derives: Vec<String>,
    /// The route enum's variants, one per subcontroller, in order.
    pub variants: Vec<RouteVariantPlan>,
    /// The response type, if not `Result<axum::response::Response, axum::response::Response>`.
    pub response_type: Option<TypeExpr>,
    /// The arguments type, if not `()`.
    pub args_type: Option<TypeExpr>,
    /// The function that `handle_request` calls first, the arguments being mutable: when it
    /// gives a response, that response is the answer and no arm runs.
    pub pre_handler: Option<String>,
    /// The arms of `handle_request`, one per subcontroller, in order.
    pub arms: Vec<DispatchArm>,
}

/// The model of a route variant.
pub ghost struct VariantModel {
    pub name: Seq<char>,
    pub doc: Option<Seq<char>>,
    pub route_path: Option<Seq<char>>,
    pub params: Seq<(Seq<char>, TypeModel)>,
    pub controller_type: TypeModel,
}

/// The model of a dispatch arm.
pub ghost struct ArmModel {
    pub variant: Seq<char>,
    pub params: Seq<Seq<char>>,
    pub controller_type: TypeModel,
    pub convert_response: Option<Seq<char>>,
}

/// The model of a controller plan.
pub ghost struct PlanModel {
    pub route_ident: Seq<char>,
    pub derives: Seq<Seq<char>>,
    pub variants: Seq<VariantModel>,
    pub response_type: Option<TypeModel>,
    pub args_type: Option<TypeModel>,
    pub pre_handler: Option<Seq<char>>,
    pub arms: Seq<ArmModel>,
}

impl View for RouteVariantPlan {
    type V = VariantModel;

    open spec fn view(&self) -> VariantModel {
        VariantModel {
            name: self.name@,
            doc: opt_view(self.doc),
            route_path: opt_view(self.route_path),
            params: params_view(self.params@),
            controller_type: type_view(self.controller_type),
        }
    }
}

impl View for DispatchArm {
    type V = ArmModel;

    open spec fn view(&self) -> ArmModel {
        ArmModel {
            variant: self.variant@,
            params: strings_view(self.params@),
            controller_type: type_view(self.controller_type),
            convert_response: opt_view(self.convert_response),
        }
    }
}

/// The models of route variants.
pub open spec fn variants_view(v: Seq<RouteVariantPlan>) -> Seq<VariantModel> {
    v.map_values(|x: RouteVariantPlan| x@)
}

/// The models of dispatch arms.
pub open spec fn arms_view(v: Seq<DispatchArm>) -> Seq<ArmModel> {
    v.map_values(|x: DispatchArm| x@)
}

impl View for ControllerPlan {
    type V = PlanModel;

    open spec fn view(&self) -> PlanModel {
        PlanModel {
            route_ident: self.route_ident@,
            derives: strings_view(self.derives@),
            variants: variants_view(self.variants@),
            response_type: opt_type_view(self.response_type),
            args_type: opt_type_view(self.args_type),
            pre_handler: opt_view(self.pre_handler),
            arms: arms_view(self.arms@),
        }
    }
}

/// The model of a `controller` attribute's specification.
pub ghost struct ControllerModel {
    pub route_ident: Seq<char>,
    pub response_type: Option<TypeModel>,
    pub args_type: Option<TypeModel>,
    pub pre_handler: Option<Seq<char>>,
    pub extra_derives: Seq<Seq<char>>,
}

/// The model of a `controller` attribute's specification.
pub open spec fn controller_view(s: ControllerSpec) -> ControllerModel {
    ControllerModel {
        route_ident: s.route_ident@,
        response_type: opt_type_view(s.response_type),
        args_type: opt_type_view(s.args_type),
        pre_handler: opt_view(s.pre_handler),
        extra_derives: strings_view(s.extra_derives@),
    }
}

/// The traits every generated route enum derives.
pub open spec fn default_derives() -> Seq<Seq<char>> {
    seq!["Debug"@, "Clone"@, "htmxology::Route"@]
}

/// The route variant of a subcontroller.
pub open spec fn variant_of(m: SubSpecModel) -> VariantModel {
    VariantModel {
        name: m.route_variant,
        doc: m.doc,
        route_path: m.path,
        params: m.params,
        controller_type: m.controller_type,
    }
}

/// The dispatch arm of a subcontroller.
pub open spec fn arm_of(m: SubSpecModel) -> ArmModel {
    ArmModel {
        variant: m.route_variant,
        params: m.params.map_values(|p: (Seq<char>, TypeModel)| p.0),
        controller_type: erase_lifetimes(m.controller_type),
        convert_response: m.convert_response,
    }
}

/// What the `RoutingController` derive generates from its `controller` attribute and its
/// subcontrollers: the route enum derives `Debug`, `Clone` and `htmxology::Route`, then the
/// extra derives in order; each subcontroller gives a variant and an arm, in order.
pub open spec fn controller_plan(c: ControllerModel, subs: Seq<SubSpecModel>) -> PlanModel {
    PlanModel {
        route_ident: c.route_ident,
        derives: default_derives() + c.extra_derives,
        variants: subs.map_values(|m: SubSpecModel| variant_of(m)),
        response_type: c.response_type,
        args_type: c.args_type,
        pre_handler: c.pre_handler,
        arms: subs.map_values(|m: SubSpecModel| arm_of(m)),
    }
}

/// The names of parameters.
fn param_names(ps: &Vec<ParamSpec>) -> (res: Vec<String>)
    ensures
        strings_view(res@) == params_view(ps@).map_values(|p: (Seq<char>, TypeModel)| p.0),
{
    let mut out: Vec<String> = Vec::new();
    let mut i: usize = 0;
    while i < ps.len()
        invariant
            i <= ps@.len(),
            strings_view(out@) == params_view(ps@).take(i as int).map_values(
                |p: (Seq<char>, TypeModel)| p.0,
            ),
        decreases ps@.len() - i,
    {
        let ghost before = out@;
        out.push(ps[i].name.clone());
        assert(strings_view(out@) =~= strings_view(before).push(ps@[i as int].name@));
        assert(params_view(ps@).take(i + 1) =~= params_view(ps@).take(i as int).push(
            params_view(ps@)[i as int],
        ));
        i += 1;
    }
    assert(params_view(ps@).take(ps@.len() as int) =~= params_view(ps@));
    out
}

/// A copy of an optional string.
fn copy_text(o: &Option<String>) -> (res: Option<String>)
    ensures
        opt_view(res) == opt_view(*o),
{
    match o {
        Some(s) => Some(s.clone()),
        None => None,
    }
}

/// A copy of an optional type.
fn copy_opt_type(o: &Option<TypeExpr>) -> (res: Option<TypeExpr>)
    ensures
        opt_type_view(res) == opt_type_view(*o),
{
    match o {
        Some(t) => Some(copy_type(t)),
        None => None,
    }
}

/// Plans what the `RoutingController` derive generates (see [`controller_plan`]).
pub fn plan_routing_controller(spec: &ControllerSpec, subs: &Vec<SubcontrollerSpec>) -> (res:
    ControllerPlan)
    ensures
        res@ == controller_plan(controller_view(*spec), sub_specs_view(subs@)),
{
    let mut derives: Vec<String> = Vec::new();
    derives.push(String::from_str("Debug"));
    derives.push(String::from_str("Clone"));
    derives.push(String::from_str("htmxology::Route"));
    let ghost base = strings_view(derives@);
    proof {
        reveal_strlit("Debug");
        reveal_strlit("Clone");
        reveal_strlit("htmxology::Route");
    }
    assert(base =~= default_derives());
    let mut k: usize = 0;
    assert(spec.extra_derives@.take(0) =~= Seq::<String>::empty());
    while k < spec.extra_derives.len()
        invariant
            k <= spec.extra_derives@.len(),
            strings_view(derives@) == base + strings_view(spec.extra_derives@.take(k as int)),
        decreases spec.extra_derives@.len() - k,
    {
        let ghost before = derives@;
        derives.push(spec.extra_derives[k].clone());
        assert(strings_view(derives@) =~= strings_view(before).push(spec.extra_derives@[k as int]@));
        assert(strings_view(spec.extra_derives@.take(k + 1)) =~= strings_view(
            spec.extra_derives@.take(k as int),
        ).push(spec.extra_derives@[k as int]@));
        k += 1;
    }
    assert(spec.extra_derives@.take(k as int) =~= spec.extra_derives@);
    let ghost sv = sub_specs_view(subs@);
    let mut variants: Vec<RouteVariantPlan> = Vec::new();
    let mut arms: Vec<DispatchArm> = Vec::new();
    let mut i: usize = 0;
    while i < subs.len()
        invariant
            i <= subs@.len(),
            sv == sub_specs_view(subs@),
            variants_view(variants@) == sv.take(i as int).map_values(|m: SubSpecModel| variant_of(m)),
            arms_view(arms@) == sv.take(i as int).map_values(|m: SubSpecModel| arm_of(m)),
        decreases subs@.len() - i,
    {
        let s = &subs[i];
        let ghost m = sub_spec_view(*s);
        assert(sv[i as int] == m);
        let v = RouteVariantPlan {
            name: s.route_variant.clone(),
            doc: copy_text(&s.doc),
            route_path: copy_text(&s.path),
            params: copy_params(&s.params),
            controller_type: copy_type(&s.controller_type),
        };
        let a = DispatchArm {
            variant: s.route_variant.clone(),
            params: param_names(&s.params),
            controller_type: remove_lifetimes(&s.controller_type),
            convert_response: copy_text(&s.convert_response),
        };
        assert(v@ == variant_of(m));
        assert(a@ == arm_of(m));
        let ghost vb = variants@;
        let ghost ab = arms@;
        variants.push(v);
        arms.push(a);
        assert(variants_view(variants@) =~= variants_view(vb).push(variant_of(m)));
        assert(arms_view(arms@) =~= arms_view(ab).push(arm_of(m)));
        assert(sv.take(i + 1) =~= sv.take(i as int).push(m));
        i += 1;
    }
    assert(sv.take(i as int) =~= sv);
    ControllerPlan {
        route_ident: spec.route_ident.clone(),
        derives,
        variants,
        response_type: copy_opt_type(&spec.response_type),
        args_type: copy_opt_type(&spec.args_type),
        pre_handler: copy_text(&spec.pre_handler),
        arms,
    }
}

/// An arm of the `handle_request` that the `ComponentsController` derive generates: the route
/// of a variant is handed to its component, with the request and its parts.
#[derive(Debug)]
pub struct ComponentArm {
    /// The variant the arm matches.
    pub variant: String,
    /// The component the route is handed to, its lifetimes removed.
    pub controller_type: TypeExpr,
}

/// What the `ComponentsController` derive generates.
#[derive(Debug)]
pub struct ComponentsPlan {
    /// The route enum's name.
    pub route_ident: String,
    /// The traits the route enum derives, in order: `Debug`, `Clone`, `htmxology::Route`.
    pub derives: Vec<String>,
    /// The route enum's variants, one per component, in order; none has parameters.
    pub variants: Vec<RouteVariantPlan>,
    /// The arms of `handle_request`, one per component, in order.
    pub arms: Vec<ComponentArm>,
}

/// The route variant of a component.
pub open spec fn component_variant(c: ComponentSpec) -> VariantModel {
    VariantModel {
        name: c.route_variant@,
        doc: opt_view(c.doc),
        route_path: opt_view(c.path),
        params: Seq::empty(),
        controller_type: type_view(c.controller_type),
    }
}

/// The model of a component arm: the variant and the component's type.
pub open spec fn component_arm_view(a: ComponentArm) -> (Seq<char>, TypeModel) {
    (a.variant@, type_view(a.controller_type))
}

/// Plans what the `ComponentsController` derive generates: the route enum derives `Debug`,
/// `Clone` and `htmxology::Route`; each component gives a variant (`#[route(path)]` with a
/// `#[subroute]` field, or `#[catch_all]` without a path) and an arm that hands the route to
/// the component, in order.
pub fn plan_components_controller(route_ident: &str, comps: &Vec<ComponentSpec>) -> (res:
    ComponentsPlan)
    ensures
        res.route_ident@ == route_ident@,
        strings_view(res.derives@) == default_derives(),
        variants_view(res.variants@) == comps@.map_values(|c: ComponentSpec| component_variant(c)),
        res.arms@.map_values(|a: ComponentArm| component_arm_view(a)) == comps@.map_values(
            |c: ComponentSpec| (c.route_variant@, erase_lifetimes(type_view(c.controller_type))),
        ),
{
    let mut derives: Vec<String> = Vec::new();
    derives.push(String::from_str("Debug"));
    derives.push(String::from_str("Clone"));
    derives.push(String::from_str("htmxology::Route"));
    proof {
        reveal_strlit("Debug");
        reveal_strlit("Clone");
        reveal_strlit("htmxology::Route");
    }
    assert(strings_view(derives@) =~= default_derives());
    let mut variants: Vec<RouteVariantPlan> = Vec::new();
    let mut arms: Vec<ComponentArm> = Vec::new();
    let mut i: usize = 0;
    while i < comps.len()
        invariant
            i <= comps@.len(),
            variants_view(variants@) == comps@.take(i as int).map_values(
                |c: ComponentSpec| component_variant(c),
            ),
            arms@.map_values(|a: ComponentArm| component_arm_view(a)) == comps@.take(i as int).map_values(
                |c: ComponentSpec| (c.route_variant@, erase_lifetimes(type_view(c.controller_type))),
            ),
        decreases comps@.len() - i,
    {
        let c = &comps[i];
        let no_params: Vec<ParamSpec> = Vec::new();
        assert(params_view(no_params@) =~= Seq::<(Seq<char>, TypeModel)>::empty());
        let v = RouteVariantPlan {
            name: c.route_variant.clone(),
            doc: copy_text(&c.doc),
            route_path: copy_text(&c.path),
            params: no_params,
            controller_type: copy_type(&c.controller_type),
        };
        let a = ComponentArm {
            variant: c.route_variant.clone(),
            controller_type: remove_lifetimes(&c.controller_type),
        };
        let ghost vb = variants@;
        let ghost ab = arms@;
        variants.push(v);
        arms.push(a);
        assert(variants_view(variants@) =~= variants_view(vb).push(component_variant(*c)));
        assert(arms@.map_values(|a: ComponentArm| component_arm_view(a)) =~= ab.map_values(
            |a: ComponentArm| component_arm_view(a),
        ).push((c.route_variant@, erase_lifetimes(type_view(c.controller_type)))));
        assert(comps@.take(i + 1) =~= comps@.take(i as int).push(*c));
        i += 1;
    }
    assert(comps@.take(i as int) =~= comps@);
    ComponentsPlan { route_ident: String::from_str(route_ident), derives, variants, arms }
}

/// An attribute of a type that derives `RoutingController`.
#[derive(Debug)]
pub enum ControllerAttribute {
    /// `#[controller(Route, ...)]`: the route enum's name and the named arguments.
    Controller { route_ident: String, args: Vec<ControllerArg> },
    /// `#[subcontroller(...)]`.
    Subcontroller(SubcontrollerAttribute),
    /// Any other attribute.
    Other,
}

/// What a `controller` attribute specifies (see [`parse_controller`]).
pub open spec fn controller_model_of(route_ident: Seq<char>, args: Seq<ControllerArg>) -> Result<
    ControllerModel,
    SpecErr,
> {
    match controller_fold(
        args,
        ControllerFold { response: None, args: None, pre_handler: None, extra_derives: Seq::empty() },
    ) {
        Err(e) => Err(e),
        Ok(st) => Ok(
            ControllerModel {
                route_ident,
                response_type: st.response,
                args_type: st.args,
                pre_handler: st.pre_handler,
                extra_derives: st.extra_derives,
            },
        ),
    }
}

/// The attributes read from the first to the last, given the `controller` attribute's
/// specification met so far, the default subcontroller's route and the subcontrollers: exactly
/// one `controller` attribute is expected, and at most one subcontroller without a path.
pub open spec fn derive_fold(
    attrs: Seq<ControllerAttribute>,
    ctrl: Option<ControllerModel>,
    default: Option<Seq<char>>,
    subs: Seq<SubSpecModel>,
) -> Result<(ControllerModel, Seq<SubSpecModel>), SpecErr>
    decreases attrs.len(),
{
    if attrs.len() == 0 {
        match ctrl {
            None => Err(SpecErr::MissingController),
            Some(c) => Ok((c, subs)),
        }
    } else {
        match attrs[0] {
            ControllerAttribute::Subcontroller(a) => match subcontroller_spec(
                type_view(a.controller_type),
                a.args@,
            ) {
                Err(e) => Err(e),
                Ok(m) => if m.path is None && default is Some {
                    Err(SpecErr::MultipleDefaultSubcontrollers(default->0))
                } else {
                    derive_fold(
                        attrs.skip(1),
                        ctrl,
                        if m.path is None {
                            Some(m.route_variant)
                        } else {
                            default
                        },
                        subs.push(m),
                    )
                },
            },
            ControllerAttribute::Controller { route_ident, args } => if ctrl is Some {
                Err(SpecErr::DuplicateController)
            } else {
                match controller_model_of(route_ident@, args@) {
                    Err(e) => Err(e),
                    Ok(c) => derive_fold(attrs.skip(1), Some(c), default, subs),
                }
            },
            ControllerAttribute::Other => derive_fold(attrs.skip(1), ctrl, default, subs),
        }
    }
}

/// What the `RoutingController` derive generates from a type's attributes, or its error: the
/// attributes are read in order, as [`parse_controller`] and [`read_subcontrollers`] read them,
/// and planned as [`plan_routing_controller`] plans them.
pub fn derive_routing_controller(attrs: &Vec<ControllerAttribute>) -> (res: Result<
    ControllerPlan,
    SpecError,
>)
    requires
        forall|i: int|
            0 <= i < attrs@.len() ==> (#[trigger] attrs@[i] matches ControllerAttribute::Subcontroller(a)
                ==> params_lists_well_placed(a.args@)),
    ensures
        match derive_fold(attrs@, None, None, Seq::empty()) {
            Ok((c, subs)) => res matches Ok(p) && p@ == controller_plan(c, subs),
            Err(e) => res matches Err(x) && x@ == e,
        },
{
    let mut ctrl: Option<ControllerSpec> = None;
    let mut default: Option<String> = None;
    let mut subs: Vec<SubcontrollerSpec> = Vec::new();
    let mut i: usize = 0;
    assert(attrs@.skip(0) =~= attrs@);
    assert(sub_specs_view(subs@) =~= Seq::<SubSpecModel>::empty());
    while i < attrs.len()
        invariant
            i <= attrs@.len(),
            forall|k: int|
                0 <= k < attrs@.len() ==> (#[trigger] attrs@[k] matches ControllerAttribute::Subcontroller(a)
                    ==> params_lists_well_placed(a.args@)),
            derive_fold(attrs@, None, None, Seq::empty()) == derive_fold(
                attrs@.skip(i as int),
                match ctrl {
                    Some(c) => Some(controller_view(c)),
                    None => None,
                },
                opt_view(default),
                sub_specs_view(subs@),
            ),
        decreases attrs@.len() - i,
    {
        assert(attrs@.skip(i as int).skip(1) =~= attrs@.skip(i + 1));
        assert(attrs@.skip(i as int)[0] == attrs@[i as int]);
        match &attrs[i] {
            ControllerAttribute::Subcontroller(a) => {
                let spec = match parse_subcontroller(&a.controller_type, &a.args) {
                    Ok(spec) => spec,
                    Err(e) => {
                        return Err(e);
                    },
                };
                if spec.path.is_none() {
                    match &default {
                        Some(existing) => {
                            return Err(
                                SpecError::MultipleDefaultSubcontrollers { existing: existing.clone() },
                            );
                        },
                        None => {
                            default = Some(spec.route_variant.clone());
                        },
                    }
                }
                let ghost before = subs@;
                let ghost m = sub_spec_view(spec);
                subs.push(spec);
                assert(sub_specs_view(subs@) =~= sub_specs_view(before).push(m));
            },
            ControllerAttribute::Controller { route_ident, args } => {
                if ctrl.is_some() {
                    return Err(SpecError::DuplicateController);
                }
                let spec = match parse_controller(route_ident.as_str(), args) {
                    Ok(spec) => spec,
                    Err(e) => {
                        return Err(e);
                    },
                };
                assert(controller_model_of(route_ident@, args@) == Ok::<ControllerModel, SpecErr>(
                    controller_view(spec),
                ));
                ctrl = Some(spec);
            },
            ControllerAttribute::Other => {},
        }
        i += 1;
    }
    assert(attrs@.skip(i as int) =~= Seq::<ControllerAttribute>::empty());
    match ctrl {
        None => Err(SpecError::MissingController),
        Some(c) => Ok(plan_routing_controller(&c, &subs)),
    }
}

} // verus!
