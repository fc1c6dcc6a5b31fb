//! The lifetimes of the controller types named in controller attributes: naming the first one,
//! and erasing them all.

use vstd::prelude::*;
use crate::text::{push_char, push_str};

verus! {

broadcast use vstd::seq::group_seq_axioms;

/// A Rust type, as far as the lifetime rewrites look into it.
#[derive(Debug)]
pub enum TypeExpr {
    /// A reference `&'a T` or `&'a mut T`, its lifetime (if written), whether it is mutable, and
    /// the referenced type.
    Reference { lifetime: Option<String>, mutable: bool, elem: Box<TypeExpr> },
    /// A path such as `a::Foo<'a, T>`, by its segments.
    Path(Vec<PathSegment>),
    /// Any other type, by its text.
    Other(String),
}

/// A segment of a type path: its identifier and its angle-bracketed arguments, if it has some.
#[derive(Debug)]
pub struct PathSegment {
    pub ident: String,
    pub args: Option<Vec<GenericArg>>,
}

/// An angle-bracketed argument of a path segment.
#[derive(Debug)]
pub enum GenericArg {
    /// A lifetime, by its name without the apostrophe.
    Lifetime(String),
    /// A type.
    Type(TypeExpr),
    /// Any other argument (a constant, an associated type binding, ...), by its text.
    Other(String),
}

/// The model of a type.
pub ghost enum TypeModel {
    Reference(Option<Seq<char>>, bool, Box<TypeModel>),
    Path(Seq<SegModel>),
    Other(Seq<char>),
}

/// The model of a path segment.
pub ghost struct SegModel {
    pub ident: Seq<char>,
    pub args: Option<Seq<ArgModel>>,
}

/// The model of a generic argument.
pub ghost enum ArgModel {
    Lifetime(Seq<char>),
    Type(TypeModel),
    Other(Seq<char>),
}

/// The model of a type.
pub open spec fn type_view(t: TypeExpr) -> TypeModel
    decreases t,
{
    match t {
        TypeExpr::Reference { lifetime, mutable, elem } => TypeModel::Reference(
            match lifetime {
                Some(l) => Some(l@),
                None => None,
            },
            mutable,
            Box::new(type_view(*elem)),
        ),
        TypeExpr::Path(v) => TypeModel::Path(segs_view(v@)),
        TypeExpr::Other(x) => TypeModel::Other(x@),
    }
}

/// The models of path segments.
pub open spec fn segs_view(v: Seq<PathSegment>) -> Seq<SegModel>
    decreases v,
{
    if v.len() == 0 {
        Seq::empty()
    } else {
        segs_view(v.drop_last()).push(seg_view(v.last()))
    }
}

/// The model of a path segment.
pub open spec fn seg_view(g: PathSegment) -> SegModel
    decreases g,
{
    SegModel {
        ident: g.ident@,
        args: match g.args {
            Some(a) => Some(args_view(a@)),
            None => None,
        },
    }
}

/// The models of generic arguments.
pub open spec fn args_view(v: Seq<GenericArg>) -> Seq<ArgModel>
    decreases v,
{
    if v.len() == 0 {
        Seq::empty()
    } else {
        args_view(v.drop_last()).push(arg_view(v.last()))
    }
}

/// The model of a generic argument.
pub open spec fn arg_view(a: GenericArg) -> ArgModel
    decreases a,
{
    match a {
        GenericArg::Lifetime(l) => ArgModel::Lifetime(l@),
        GenericArg::Type(t) => ArgModel::Type(type_view(t)),
        GenericArg::Other(x) => ArgModel::Other(x@),
    }
}

/// The segment models of a prefix of segments, pushed one more.
proof fn lemma_segs_view_push(v: Seq<PathSegment>, i: int)
    requires
        0 <= i < v.len(),
    ensures
        segs_view(v.take(i + 1)) == segs_view(v.take(i)).push(seg_view(v[i])),
{
    assert(v.take(i + 1).drop_last() =~= v.take(i));
}

proof fn lemma_args_view_push(v: Seq<GenericArg>, i: int)
    requires
        0 <= i < v.len(),
    ensures
        args_view(v.take(i + 1)) == args_view(v.take(i)).push(arg_view(v[i])),
{
    assert(v.take(i + 1).drop_last() =~= v.take(i));
}

/// A copy of a type.
pub fn copy_type(t: &TypeExpr) -> (res: TypeExpr)
    ensures
        type_view(res) == type_view(*t),
    decreases t,
{
    match t {
        TypeExpr::Reference { lifetime, mutable, elem } => TypeExpr::Reference {
            lifetime: match lifetime {
                Some(l) => Some(l.clone()),
                None => None,
            },
            mutable: *mutable,
            elem: Box::new(copy_type(&**elem)),
        },
        TypeExpr::Path(v) => {
            let mut out: Vec<PathSegment> = Vec::new();
            let mut i: usize = 0;
            assert(v@.take(0) =~= Seq::<PathSegment>::empty());
            while i < v.len()
                invariant
                    i <= v@.len(),
                    *t == TypeExpr::Path(*v),
                    segs_view(out@) == segs_view(v@.take(i as int)),
                decreases v@.len() - i,
            {
                proof {
                    lemma_segs_view_push(v@, i as int);
                    assert(decreases_to!(*t => (*t)->Path_0));
                    assert((*t)->Path_0 == *v);
                    assert(decreases_to!(*v => v@));
                    assert(decreases_to!(v@ => v@[i as int]));
                    assert(decreases_to!(*t => v@[i as int]));
                }
                let g = copy_segment(&v[i]);
                let ghost before = out@;
                out.push(g);
                assert(out@.drop_last() =~= before);
                i += 1;
            }
            assert(v@.take(v@.len() as int) =~= v@);
            TypeExpr::Path(out)
        },
        TypeExpr::Other(x) => TypeExpr::Other(x.clone()),
    }
}

/// A copy of a path segment.
pub fn copy_segment(g: &PathSegment) -> (res: PathSegment)
    ensures
        seg_view(res) == seg_view(*g),
    decreases g,
{
    let args = match &g.args {
        None => None,
        Some(v) => {
            let mut out: Vec<GenericArg> = Vec::new();
            let mut i: usize = 0;
            assert(v@.take(0) =~= Seq::<GenericArg>::empty());
            while i < v.len()
                invariant
                    i <= v@.len(),
                    g.args == Some(*v),
                    args_view(out@) == args_view(v@.take(i as int)),
                decreases v@.len() - i,
            {
                proof {
                    lemma_args_view_push(v@, i as int);
                    assert(decreases_to!(*g => g.args));
                    assert(decreases_to!(g.args => g.args->Some_0));
                    assert(g.args->Some_0 == *v);
                    assert(decreases_to!(*v => v@));
                    assert(decreases_to!(v@ => v@[i as int]));
                    assert(decreases_to!(*g => v@[i as int]));
                }
                let a = copy_arg(&v[i]);
                let ghost before = out@;
                out.push(a);
                assert(out@.drop_last() =~= before);
                i += 1;
            }
            assert(v@.take(v@.len() as int) =~= v@);
            Some(out)
        },
    };
    PathSegment { ident: g.ident.clone(), args }
}

/// A copy of a generic argument.
pub fn copy_arg(a: &GenericArg) -> (res: GenericArg)
    ensures
        arg_view(res) == arg_view(*a),
    decreases a,
{
    match a {
        GenericArg::Lifetime(l) => GenericArg::Lifetime(l.clone()),
        GenericArg::Type(t) => GenericArg::Type(copy_type(t)),
        GenericArg::Other(x) => GenericArg::Other(x.clone()),
    }
}

/// A type with its lifetimes erased: a reference loses its lifetime (the referenced type is
/// left as it is) and every lifetime argument of a path, at any depth of its type arguments,
/// becomes `'_`.
pub open spec fn erase_lifetimes(t: TypeModel) -> TypeModel
    decreases t,
{
    match t {
        TypeModel::Reference(_, m, e) => TypeModel::Reference(None, m, e),
        TypeModel::Path(segs) => TypeModel::Path(erase_in_segs(segs)),
        TypeModel::Other(x) => TypeModel::Other(x),
    }
}

/// Path segments with their lifetimes erased.
pub open spec fn erase_in_segs(s: Seq<SegModel>) -> Seq<SegModel>
    decreases s,
{
    if s.len() == 0 {
        s
    } else {
        erase_in_segs(s.drop_last()).push(erase_in_seg(s.last()))
    }
}

/// A path segment with its lifetimes erased.
pub open spec fn erase_in_seg(g: SegModel) -> SegModel
    decreases g,
{
    SegModel {
        ident: g.ident,
        args: match g.args {
            Some(a) => Some(erase_in_args(a)),
            None => None,
        },
    }
}

/// Generic arguments with their lifetimes erased.
pub open spec fn erase_in_args(s: Seq<ArgModel>) -> Seq<ArgModel>
    decreases s,
{
    if s.len() == 0 {
        s
    } else {
        erase_in_args(s.drop_last()).push(erase_in_arg(s.last()))
    }
}

/// A generic argument with its lifetimes erased.
pub open spec fn erase_in_arg(a: ArgModel) -> ArgModel
    decreases a,
{
    match a {
        ArgModel::Lifetime(_) => ArgModel::Lifetime("_"@),
        ArgModel::Type(t) => ArgModel::Type(erase_lifetimes(t)),
        ArgModel::Other(x) => ArgModel::Other(x),
    }
}

/// Erases the lifetimes of a type (see [`erase_lifetimes`]).
pub fn remove_lifetimes(t: &TypeExpr) -> (res: TypeExpr)
    ensures
        type_view(res) == erase_lifetimes(type_view(*t)),
    decreases t,
{
    match t {
        TypeExpr::Reference { mutable, elem, .. } => TypeExpr::Reference {
            lifetime: None,
            mutable: *mutable,
            elem: Box::new(copy_type(&**elem)),
        },
        TypeExpr::Path(v) => {
            let mut out: Vec<PathSegment> = Vec::new();
            let mut i: usize = 0;
            assert(v@.take(0) =~= Seq::<PathSegment>::empty());
            while i < v.len()
                invariant
                    i <= v@.len(),
                    *t == TypeExpr::Path(*v),
                    segs_view(out@) == erase_in_segs(segs_view(v@.take(i as int))),
                decreases v@.len() - i,
            {
                proof {
                    lemma_segs_view_push(v@, i as int);
                    assert(segs_view(v@.take(i + 1)).drop_last() =~= segs_view(v@.take(i as int)));
                    assert(decreases_to!(*t => (*t)->Path_0));
                    assert(decreases_to!(*v => v@));
                    assert(decreases_to!(v@ => v@[i as int]));
                }
                let g = remove_lifetimes_in_segment(&v[i]);
                let ghost before = out@;
                out.push(g);
                assert(out@.drop_last() =~= before);
                i += 1;
            }
            assert(v@.take(v@.len() as int) =~= v@);
            TypeExpr::Path(out)
        },
        TypeExpr::Other(x) => TypeExpr::Other(x.clone()),
    }
}

/// Erases the lifetimes of a path segment.
fn remove_lifetimes_in_segment(g: &PathSegment) -> (res: PathSegment)
    ensures
        seg_view(res) == erase_in_seg(seg_view(*g)),
    decreases g,
{
    let args = match &g.args {
        None => None,
        Some(v) => {
            let mut out: Vec<GenericArg> = Vec::new();
            let mut i: usize = 0;
            assert(v@.take(0) =~= Seq::<GenericArg>::empty());
            while i < v.len()
                invariant
                    i <= v@.len(),
                    g.args == Some(*v),
                    args_view(out@) == erase_in_args(args_view(v@.take(i as int))),
                decreases v@.len() - i,
            {
                proof {
                    lemma_args_view_push(v@, i as int);
                    assert(args_view(v@.take(i + 1)).drop_last() =~= args_view(v@.take(i as int)));
                    assert(decreases_to!(*g => g.args));
                    assert(decreases_to!(g.args => g.args->Some_0));
                    assert(decreases_to!(*v => v@));
                    assert(decreases_to!(v@ => v@[i as int]));
                }
                let a = match &v[i] {
                    GenericArg::Lifetime(_) => {
                        let u = String::from_str("_");
                        proof {
                            reveal_strlit("_");
                        }
                        GenericArg::Lifetime(u)
                    },
                    GenericArg::Type(inner) => GenericArg::Type(remove_lifetimes(inner)),
                    GenericArg::Other(x) => GenericArg::Other(x.clone()),
                };
                assert(arg_view(a) == erase_in_arg(arg_view(v@[i as int])));
                let ghost before = out@;
                out.push(a);
                assert(out@.drop_last() =~= before);
                i += 1;
            }
            assert(v@.take(v@.len() as int) =~= v@);
            Some(out)
        },
    };
    PathSegment { ident: g.ident.clone(), args }
}

/// A type with its first lifetime named `l`, and whether it had one: a reference takes the
/// lifetime (whether or not it had one; the referenced type is left as it is); in a path, the
/// first lifetime argument, searching the segments and their type arguments in order and depth
/// first, becomes `l`. Other types have none.
pub open spec fn name_first_lifetime(t: TypeModel, l: Seq<char>) -> (TypeModel, bool)
    decreases t,
{
    match t {
        TypeModel::Reference(_, m, e) => (TypeModel::Reference(Some(l), m, e), true),
        TypeModel::Path(segs) => {
            let (s2, f) = name_in_segs(segs, l);
            (TypeModel::Path(s2), f)
        },
        TypeModel::Other(x) => (TypeModel::Other(x), false),
    }
}

/// Path segments with their first lifetime named `l`, and whether they had one.
pub open spec fn name_in_segs(s: Seq<SegModel>, l: Seq<char>) -> (Seq<SegModel>, bool)
    decreases s,
{
    if s.len() == 0 {
        (s, false)
    } else {
        let (p, f) = name_in_segs(s.drop_last(), l);
        if f {
            (p.push(s.last()), true)
        } else {
            let (g, f2) = name_in_seg(s.last(), l);
            (p.push(g), f2)
        }
    }
}

/// A path segment with its first lifetime named `l`, and whether it had one.
pub open spec fn name_in_seg(g: SegModel, l: Seq<char>) -> (SegModel, bool)
    decreases g,
{
    match g.args {
        Some(a) => {
            let (a2, f) = name_in_args(a, l);
            (SegModel { ident: g.ident, args: Some(a2) }, f)
        },
        None => (g, false),
    }
}

/// Generic arguments with their first lifetime named `l`, and whether they had one.
pub open spec fn name_in_args(s: Seq<ArgModel>, l: Seq<char>) -> (Seq<ArgModel>, bool)
    decreases s,
{
    if s.len() == 0 {
        (s, false)
    } else {
        let (p, f) = name_in_args(s.drop_last(), l);
        if f {
            (p.push(s.last()), true)
        } else {
            let (a, f2) = name_in_arg(s.last(), l);
            (p.push(a), f2)
        }
    }
}

/// A generic argument with its first lifetime named `l`, and whether it had one.
pub open spec fn name_in_arg(a: ArgModel, l: Seq<char>) -> (ArgModel, bool)
    decreases a,
{
    match a {
        ArgModel::Lifetime(_) => (ArgModel::Lifetime(l), true),
        ArgModel::Type(t) => {
            let (t2, f) = name_first_lifetime(t, l);
            (ArgModel::Type(t2), f)
        },
        ArgModel::Other(x) => (ArgModel::Other(x), false),
    }
}

/// Names the first lifetime of a type `lifetime` (see [`name_first_lifetime`]), telling whether
/// the type had one.
pub fn replace_first_lifetime(t: &TypeExpr, lifetime: &str) -> (res: (TypeExpr, bool))
    ensures
        (type_view(res.0), res.1) == name_first_lifetime(type_view(*t), lifetime@),
    decreases t,
{
    match t {
        TypeExpr::Reference { mutable, elem, .. } => (
            TypeExpr::Reference {
                lifetime: Some(String::from_str(lifetime)),
                mutable: *mutable,
                elem: Box::new(copy_type(&**elem)),
            },
            true,
        ),
        TypeExpr::Path(v) => {
            let mut out: Vec<PathSegment> = Vec::new();
            let mut found = false;
            let mut i: usize = 0;
            assert(v@.take(0) =~= Seq::<PathSegment>::empty());
            while i < v.len()
                invariant
                    i <= v@.len(),
                    *t == TypeExpr::Path(*v),
                    name_in_segs(segs_view(v@.take(i as int)), lifetime@) == (segs_view(out@), found),
                decreases v@.len() - i,
            {
                proof {
                    lemma_segs_view_push(v@, i as int);
                    assert(segs_view(v@.take(i + 1)).drop_last() =~= segs_view(v@.take(i as int)));
                    assert(decreases_to!(*t => (*t)->Path_0));
                    assert(decreases_to!(*v => v@));
                    assert(decreases_to!(v@ => v@[i as int]));
                }
                let ghost before = out@;
                if found {
                    out.push(copy_segment(&v[i]));
                } else {
                    let (g, f) = name_first_lifetime_in_segment(&v[i], lifetime);
                    out.push(g);
                    found = f;
                }
                assert(out@.drop_last() =~= before);
                i += 1;
            }
            assert(v@.take(v@.len() as int) =~= v@);
            (TypeExpr::Path(out), found)
        },
        TypeExpr::Other(x) => (TypeExpr::Other(x.clone()), false),
    }
}

/// Names the first lifetime of a path segment.
fn name_first_lifetime_in_segment(g: &PathSegment, lifetime: &str) -> (res: (PathSegment, bool))
    ensures
        (seg_view(res.0), res.1) == name_in_seg(seg_view(*g), lifetime@),
    decreases g,
{
    match &g.args {
        None => (copy_segment(g), false),
        Some(v) => {
            let mut out: Vec<GenericArg> = Vec::new();
            let mut found = false;
            let mut i: usize = 0;
            assert(v@.take(0) =~= Seq::<GenericArg>::empty());
            while i < v.len()
                invariant
                    i <= v@.len(),
                    g.args == Some(*v),
                    name_in_args(args_view(v@.take(i as int)), lifetime@) == (args_view(out@), found),
                decreases v@.len() - i,
            {
                proof {
                    lemma_args_view_push(v@, i as int);
                    assert(args_view(v@.take(i + 1)).drop_last() =~= args_view(v@.take(i as int)));
                    assert(decreases_to!(*g => g.args));
                    assert(decreases_to!(g.args => g.args->Some_0));
                    assert(decreases_to!(*v => v@));
                    assert(decreases_to!(v@ => v@[i as int]));
                }
                let ghost before = out@;
                if found {
                    out.push(copy_arg(&v[i]));
                } else {
                    let (a, f) = match &v[i] {
                        GenericArg::Lifetime(_) => (GenericArg::Lifetime(String::from_str(lifetime)), true),
                        GenericArg::Type(inner) => {
                            let (t2, f) = replace_first_lifetime(inner, lifetime);
                            (GenericArg::Type(t2), f)
                        },
                        GenericArg::Other(x) => (GenericArg::Other(x.clone()), false),
                    };
                    assert((arg_view(a), f) == name_in_arg(arg_view(v@[i as int]), lifetime@));
                    out.push(a);
                    found = f;
                }
                assert(out@.drop_last() =~= before);
                i += 1;
            }
            assert(v@.take(v@.len() as int) =~= v@);
            (PathSegment { ident: g.ident.clone(), args: Some(out) }, found)
        },
    }
}

/// A generic parameter as a type declares it, by its name (a lifetime's without the
/// apostrophe); its bounds and default are left out.
#[derive(Debug, Clone, PartialEq, Eq)]
pub enum GenericParam {
    /// A type parameter.
    Type(String),
    /// A lifetime parameter.
    Lifetime(String),
    /// A const parameter.
    Const(String),
}

/// How a generic parameter is written among a type's arguments: `T`, `'a` or `N`.
pub open spec fn generic_param_name(p: GenericParam) -> Seq<char> {
    match p {
        GenericParam::Type(t) => t@,
        GenericParam::Lifetime(l) => seq!['\''] + l@,
        GenericParam::Const(c) => c@,
    }
}

/// The generic parameters of a type as its arguments: each parameter's name, without bounds or
/// defaults, in order (to be written separated by commas).
pub fn extract_generic_param_idents(params: &Vec<GenericParam>) -> (res: Vec<String>)
    ensures
        res@.map_values(|x: String| x@) == params@.map_values(|p: GenericParam| generic_param_name(p)),
{
    let mut out: Vec<String> = Vec::new();
    let mut i: usize = 0;
    while i < params.len()
        invariant
            i <= params@.len(),
            out@.map_values(|x: String| x@) == params@.take(i as int).map_values(
                |p: GenericParam| generic_param_name(p),
            ),
        decreases params@.len() - i,
    {
        let name = match &params[i] {
            GenericParam::Type(t) => t.clone(),
            GenericParam::Lifetime(l) => {
                let mut n = String::new();
                push_char(&mut n, '\'');
                push_str(&mut n, l.as_str());
                n
            },
            GenericParam::Const(c) => c.clone(),
        };
        let ghost before = out@;
        out.push(name);
        assert(out@.map_values(|x: String| x@) =~= before.map_values(|x: String| x@).push(
            generic_param_name(params@[i as int]),
        ));
        assert(params@.take(i + 1) =~= params@.take(i as int).push(params@[i as int]));
        i += 1;
    }
    assert(params@.take(i as int) =~= params@);
    out
}

} // verus!
