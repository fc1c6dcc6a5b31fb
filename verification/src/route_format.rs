//! The statements that write a route URL with concrete path arguments.
//!
//! A `Display` implementation for a route writes its URL segment by segment: a slash, a literal,
//! or the value of a path argument. Path arguments are bound either by name (a variant with named
//! fields) or in order (a tuple variant).

use vstd::prelude::*;
use crate::route_url::{RouteUrl, RouteUrlSegment, Seg};
use crate::params::{
    pairs_view, param_map, is_least_key, unique_names, collect_params, take_param, least_param,
};
use crate::text::push_str;

verus! {

broadcast use vstd::seq::group_seq_axioms;

/// A statement that writes part of a URL.
#[derive(Debug, Clone, PartialEq, Eq)]
pub enum FormatStatement {
    /// Writes a slash.
    WriteSlash,
    /// Writes a literal string.
    WriteStr(String),
    /// Writes the value of the path argument bound to the given identifier.
    WriteArg(String),
    /// Writes `?` and the serialized query held by the given identifier, unless it is empty.
    WriteQuery(String),
}

/// The model of a format statement.
pub ghost enum Stmt {
    Slash,
    Str(Seq<char>),
    Arg(Seq<char>),
    Query(Seq<char>),
}

impl View for FormatStatement {
    type V = Stmt;

    open spec fn view(&self) -> Stmt {
        match self {
            FormatStatement::WriteSlash => Stmt::Slash,
            FormatStatement::WriteStr(s) => Stmt::Str(s@),
            FormatStatement::WriteArg(a) => Stmt::Arg(a@),
            FormatStatement::WriteQuery(q) => Stmt::Query(q@),
        }
    }
}

/// The models of a list of statements.
pub open spec fn stmts_view(v: Seq<FormatStatement>) -> Seq<Stmt> {
    v.map_values(|x: FormatStatement| x@)
}

/// An error raised when the path arguments of a route do not fit its URL.
#[derive(Debug, Clone, PartialEq, Eq)]
pub enum FormatError {
    /// The URL has a path parameter, but the route has no arguments.
    RequiredParameter { name: String },
    /// The URL has a path parameter that no named argument of the route binds.
    MissingNamedParameter { name: String },
    /// A named argument of the route is not a path parameter of the URL.
    UnusedNamedParameter { name: String },
    /// The URL has more path parameters than the route has arguments.
    MissingArgument,
    /// The route has more arguments than the URL has path parameters.
    UnusedArgument,
}

/// The statement for a slash or a literal.
pub open spec fn fixed_stmt(g: Seg) -> Stmt {
    match g {
        Seg::Lit(l) => Stmt::Str(l),
        _ => Stmt::Slash,
    }
}

/// The statements of a URL without parameters, or the name of its first parameter.
pub open spec fn unparameterized(u: Seq<Seg>) -> Result<Seq<Stmt>, Seq<char>>
    decreases u.len(),
{
    if u.len() == 0 {
        Ok(Seq::empty())
    } else {
        match unparameterized(u.drop_last()) {
            Err(n) => Err(n),
            Ok(st) => match u.last() {
                Seg::Param(n) => Err(n),
                g => Ok(st.push(fixed_stmt(g))),
            },
        }
    }
}

/// The statements of a URL whose parameters are bound by name through the map `m`, and the
/// bindings left unused; or the name of the first parameter that `m` does not bind.
pub open spec fn named_statements(u: Seq<Seg>, m: Map<Seq<char>, Seq<char>>) -> Result<
    (Seq<Stmt>, Map<Seq<char>, Seq<char>>),
    Seq<char>,
>
    decreases u.len(),
{
    if u.len() == 0 {
        Ok((Seq::empty(), m))
    } else {
        match named_statements(u.drop_last(), m) {
            Err(n) => Err(n),
            Ok((st, rest)) => match u.last() {
                Seg::Param(n) => if rest.dom().contains(n) {
                    Ok((st.push(Stmt::Arg(rest[n])), rest.remove(n)))
                } else {
                    Err(n)
                },
                g => Ok((st.push(fixed_stmt(g)), rest)),
            },
        }
    }
}

/// The statements of a URL whose parameters are bound in order to `args`, and how many
/// arguments were used; or `None` when there are too few arguments.
pub open spec fn unnamed_statements(u: Seq<Seg>, args: Seq<Seq<char>>) -> Option<(Seq<Stmt>, int)>
    decreases u.len(),
{
    if u.len() == 0 {
        Some((Seq::empty(), 0))
    } else {
        match unnamed_statements(u.drop_last(), args) {
            None => None,
            Some((st, k)) => match u.last() {
                Seg::Param(_) => if k < args.len() {
                    Some((st.push(Stmt::Arg(args[k])), k + 1))
                } else {
                    None
                },
                g => Some((st.push(fixed_stmt(g)), k)),
            },
        }
    }
}

proof fn lemma_stmts_view_push(v: Seq<FormatStatement>, x: FormatStatement)
    ensures
        stmts_view(v.push(x)) == stmts_view(v).push(x@),
{
    assert(stmts_view(v.push(x)) =~= stmts_view(v).push(x@));
}

proof fn lemma_unnamed_used(u: Seq<Seg>, args: Seq<Seq<char>>)
    ensures
        unnamed_statements(u, args) matches Some((_, k)) ==> 0 <= k <= args.len(),
    decreases u.len(),
{
    if u.len() > 0 {
        lemma_unnamed_used(u.drop_last(), args);
    }
}

impl FormatError {
    /// The message of the error.
    pub fn to_string(&self) -> (res: String)
        ensures
            res@ == match self {
                FormatError::RequiredParameter { name } => "the URL contains a required path parameter `"@
                    + name@ + "`, which cannot be formatted without parameters"@,
                FormatError::MissingNamedParameter { name } => "missing named path parameter `"@
                    + name@ + "`"@,
                FormatError::UnusedNamedParameter { name } =>
                    "the URL does not contain all named path parameters (missing: "@ + name@ + ")"@,
                FormatError::MissingArgument =>
                    "the URL contains more path parameters than route has arguments"@,
                FormatError::UnusedArgument => "the URL does not contain all unnamed path parameters"@,
            },
    {
        match self {
            FormatError::RequiredParameter { name } => {
                let mut res = String::from_str("the URL contains a required path parameter `");
                push_str(&mut res, name.as_str());
                push_str(&mut res, "`, which cannot be formatted without parameters");
                res
            },
            FormatError::MissingNamedParameter { name } => {
                let mut res = String::from_str("missing named path parameter `");
                push_str(&mut res, name.as_str());
                push_str(&mut res, "`");
                res
            },
            FormatError::UnusedNamedParameter { name } => {
                let mut res = String::from_str(
                    "the URL does not contain all named path parameters (missing: ",
                );
                push_str(&mut res, name.as_str());
                push_str(&mut res, ")");
                res
            },
            FormatError::MissingArgument => String::from_str(
                "the URL contains more path parameters than route has arguments",
            ),
            FormatError::UnusedArgument => String::from_str(
                "the URL does not contain all unnamed path parameters",
            ),
        }
    }
}

/// The statement that writes a slash or a literal segment.
fn fixed_statement(segment: &RouteUrlSegment) -> (res: FormatStatement)
    requires
        !(segment@ is Param),
    ensures
        res@ == fixed_stmt(segment@),
{
    match segment {
        RouteUrlSegment::Literal(s) => FormatStatement::WriteStr(s.clone()),
        _ => FormatStatement::WriteSlash,
    }
}

impl RouteUrl {
    /// Get the URL as a list of format statements, failing if there are any required path
    /// parameters.
    pub fn to_unparameterized_string(&self) -> (res: Result<Vec<FormatStatement>, FormatError>)
        ensures
            match unparameterized(self@) {
                Ok(st) => res matches Ok(v) && stmts_view(v@) == st,
                Err(n) => res matches Err(FormatError::RequiredParameter { name }) && name@ == n,
            },
    {
        let mut statements: Vec<FormatStatement> = Vec::new();
        let mut i: usize = 0;
        assert(stmts_view(statements@) =~= Seq::<Stmt>::empty());
        assert(self@.take(0) =~= Seq::<Seg>::empty());
        while i < self.0.len()
            invariant
                i <= self.0@.len(),
                unparameterized(self@.take(i as int)) == Ok::<Seq<Stmt>, Seq<char>>(
                    stmts_view(statements@),
                ),
            decreases self.0@.len() - i,
        {
            assert(self@.take(i + 1).drop_last() =~= self@.take(i as int));
            assert(self@.take(i + 1).last() == self.0@[i as int]@);
            match &self.0[i] {
                RouteUrlSegment::Parameter { name } => {
                    proof {
                        lemma_unparameterized_prefix(self@, i as int + 1);
                    }
                    return Err(FormatError::RequiredParameter { name: name.clone() });
                },
                segment => {
                    let st = fixed_statement(segment);
                    let ghost before = statements@;
                    statements.push(st);
                    proof {
                        lemma_stmts_view_push(before, st);
                    }
                },
            }
            i += 1;
        }
        assert(self@.take(self.0@.len() as int) =~= self@);
        Ok(statements)
    }

    /// Get the URL as a list of format statements, with its path parameters bound by name.
    ///
    /// `name_params` pairs each parameter name with the identifier that holds its value; a later
    /// pair overrides an earlier one with the same name. Every path parameter must be bound, and
    /// every binding used; otherwise the first unbound parameter, or the least unused name, is
    /// reported.
    pub fn to_named_parameters_format(&self, name_params: &Vec<(String, String)>) -> (res: Result<
        Vec<FormatStatement>,
        FormatError,
    >)
        ensures
            match named_statements(self@, param_map(pairs_view(name_params@))) {
                Err(n) => res matches Err(FormatError::MissingNamedParameter { name }) && name@ == n,
                Ok((st, rest)) => if rest.dom().len() == 0 {
                    res matches Ok(v) && stmts_view(v@) == st
                } else {
                    res matches Err(FormatError::UnusedNamedParameter { name }) && is_least_key(
                        rest,
                        name@,
                    )
                },
            },
    {
        let mut table = collect_params(name_params);
        let ghost m = param_map(pairs_view(name_params@));
        let mut statements: Vec<FormatStatement> = Vec::new();
        let mut i: usize = 0;
        assert(stmts_view(statements@) =~= Seq::<Stmt>::empty());
        assert(self@.take(0) =~= Seq::<Seg>::empty());
        while i < self.0.len()
            invariant
                i <= self.0@.len(),
                m == param_map(pairs_view(name_params@)),
                unique_names(pairs_view(table@)),
                named_statements(self@.take(i as int), m) == Ok::<
                    (Seq<Stmt>, Map<Seq<char>, Seq<char>>),
                    Seq<char>,
                >((stmts_view(statements@), param_map(pairs_view(table@)))),
            decreases self.0@.len() - i,
        {
            assert(self@.take(i + 1).drop_last() =~= self@.take(i as int));
            assert(self@.take(i + 1).last() == self.0@[i as int]@);
            match &self.0[i] {
                RouteUrlSegment::Parameter { name } => {
                    match take_param(&mut table, name.as_str()) {
                        Some(id) => {
                            let ghost before = statements@;
                            statements.push(FormatStatement::WriteArg(id));
                            proof {
                                lemma_stmts_view_push(before, FormatStatement::WriteArg(id));
                            }
                        },
                        None => {
                            proof {
                                lemma_named_prefix(self@, i as int + 1, m);
                            }
                            return Err(FormatError::MissingNamedParameter { name: name.clone() });
                        },
                    }
                },
                segment => {
                    let st = fixed_statement(segment);
                    let ghost before = statements@;
                    statements.push(st);
                    proof {
                        lemma_stmts_view_push(before, st);
                    }
                },
            }
            i += 1;
        }
        assert(self@.take(self.0@.len() as int) =~= self@);
        proof {
            crate::params::lemma_param_map_unique(pairs_view(table@));
        }
        if table.len() > 0 {
            let k = least_param(&table);
            proof {
                assert(param_map(pairs_view(table@)).dom().contains(pairs_view(table@)[k as int].0));
            }
            let name = table[k].0.clone();
            return Err(FormatError::UnusedNamedParameter { name });
        }
        assert(param_map(pairs_view(table@)).dom() =~= Set::<Seq<char>>::empty());
        Ok(statements)
    }

    /// Get the URL as a list of format statements, with its path parameters bound in order to
    /// the identifiers `unnamed_params`. There must be exactly one identifier per parameter.
    pub fn to_unnamed_parameters_format(&self, unnamed_params: &Vec<String>) -> (res: Result<
        Vec<FormatStatement>,
        FormatError,
    >)
        ensures
            match unnamed_statements(self@, unnamed_params@.map_values(|a: String| a@)) {
                None => res == Err::<Vec<FormatStatement>, FormatError>(FormatError::MissingArgument),
                Some((st, k)) => if k == unnamed_params@.len() {
                    res matches Ok(v) && stmts_view(v@) == st
                } else {
                    res == Err::<Vec<FormatStatement>, FormatError>(FormatError::UnusedArgument)
                },
            },
    {
        let ghost args = unnamed_params@.map_values(|a: String| a@);
        let mut statements: Vec<FormatStatement> = Vec::new();
        let mut used: usize = 0;
        let mut i: usize = 0;
        while i < self.0.len()
            invariant
                i <= self.0@.len(),
                args == unnamed_params@.map_values(|a: String| a@),
                used <= unnamed_params@.len(),
                unnamed_statements(self@.take(i as int), args) == Some(
                    (stmts_view(statements@), used as int),
                ),
            decreases self.0@.len() - i,
        {
            assert(self@.take(i + 1).drop_last() =~= self@.take(i as int));
            assert(self@.take(i + 1).last() == self.0@[i as int]@);
            match &self.0[i] {
                RouteUrlSegment::Parameter { .. } => {
                    if used == unnamed_params.len() {
                        proof {
                            lemma_unnamed_prefix(self@, i as int + 1, args);
                        }
                        return Err(FormatError::MissingArgument);
                    }
                    let id = unnamed_params[used].clone();
                    let ghost before = statements@;
                    statements.push(FormatStatement::WriteArg(id));
                    proof {
                        lemma_stmts_view_push(before, FormatStatement::WriteArg(id));
                    }
                    used += 1;
                },
                segment => {
                    let st = fixed_statement(segment);
                    let ghost before = statements@;
                    statements.push(st);
                    proof {
                        lemma_stmts_view_push(before, st);
                    }
                },
            }
            i += 1;
        }
        assert(self@.take(self.0@.len() as int) =~= self@);
        if used < unnamed_params.len() {
            return Err(FormatError::UnusedArgument);
        }
        Ok(statements)
    }
}

/// Once the statements of a prefix fail, those of the whole URL fail the same way.
proof fn lemma_unparameterized_prefix(u: Seq<Seg>, k: int)
    requires
        0 <= k <= u.len(),
        unparameterized(u.take(k)) is Err,
    ensures
        unparameterized(u) == unparameterized(u.take(k)),
    decreases u.len() - k,
{
    if k < u.len() {
        assert(u.take(k + 1).drop_last() =~= u.take(k));
        lemma_unparameterized_prefix(u, k + 1);
    } else {
        assert(u.take(k) =~= u);
    }
}

proof fn lemma_named_prefix(u: Seq<Seg>, k: int, m: Map<Seq<char>, Seq<char>>)
    requires
        0 <= k <= u.len(),
        named_statements(u.take(k), m) is Err,
    ensures
        named_statements(u, m) == named_statements(u.take(k), m),
    decreases u.len() - k,
{
    if k < u.len() {
        assert(u.take(k + 1).drop_last() =~= u.take(k));
        lemma_named_prefix(u, k + 1, m);
    } else {
        assert(u.take(k) =~= u);
    }
}

proof fn lemma_unnamed_prefix(u: Seq<Seg>, k: int, args: Seq<Seq<char>>)
    requires
        0 <= k <= u.len(),
        unnamed_statements(u.take(k), args) is None,
    ensures
        unnamed_statements(u, args) is None,
    decreases u.len() - k,
{
    if k < u.len() {
        assert(u.take(k + 1).drop_last() =~= u.take(k));
        lemma_unnamed_prefix(u, k + 1, args);
    } else {
        assert(u.take(k) =~= u);
    }
}

} // verus!
