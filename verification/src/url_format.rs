//! What is derived from a URL of the `url` attribute: the path that the Axum router matches, and
//! the expression that writes a concrete URL.

use vstd::prelude::*;
use crate::url::{Url, UrlElement, Elem};
use crate::text::{push_char, push_str, u64_to_decimal, decimal};
use crate::params::{
    pairs_view, param_map, is_least_key, unique_names, collect_params, take_param, least_param,
};

verus! {

broadcast use vstd::seq::group_seq_axioms;

/// An expression that produces a URL string.
#[derive(Debug, Clone, PartialEq, Eq)]
pub enum UrlExpression {
    /// The given string, as an owned `String`.
    Owned(String),
    /// A `format!` invocation with the given format string.
    Format(String),
}

/// An error raised when a URL cannot be turned into a route path or a URL expression.
#[derive(Debug, Clone, PartialEq, Eq)]
pub enum UrlFormatError {
    /// A path parameter does not directly follow a slash, which the Axum router requires.
    ParameterAfterNonSlash,
    /// The URL has a named path parameter, and no values are given.
    NamedParameterWithoutValue { name: String },
    /// The URL has an unnamed path parameter, and no values are given.
    UnnamedParameterWithoutValue,
    /// The URL has a named path parameter that no named argument binds.
    MissingNamedParameter { name: String },
    /// The URL has an unnamed path parameter, and the arguments are bound by name.
    UnnamedParameterInNamedFormat,
    /// A named argument is not a path parameter of the URL, whose format string is `url`.
    UnusedNamedParameter { url: String, name: String },
    /// The URL has more path parameters than the route has arguments.
    MissingArgument,
    /// The route has more arguments than the URL has path parameters.
    UnusedArgument,
}

/// The Axum route path of the elements of a URL, whether the last element was a slash, and how
/// many unnamed parameters were named so far; `None` when a parameter does not follow a slash.
pub open spec fn axum_state(u: Seq<Elem>) -> Option<(Seq<char>, bool, nat)>
    decreases u.len(),
{
    if u.len() == 0 {
        Some((Seq::empty(), false, 0))
    } else {
        match axum_state(u.drop_last()) {
            None => None,
            Some((p, after_slash, k)) => match u.last() {
                Elem::Slash => Some((p.push('/'), true, k)),
                Elem::Lit(l) => Some((p + l, false, k)),
                Elem::Named(n) => if after_slash {
                    Some((p + seq![':'] + n, false, k))
                } else {
                    None
                },
                Elem::Unnamed => if after_slash {
                    Some((p + ":arg"@ + decimal(k), false, k + 1))
                } else {
                    None
                },
            },
        }
    }
}

/// The Axum route path of a URL: named parameters become `:name`, unnamed ones `:arg0`,
/// `:arg1`, and so on.
pub open spec fn axum_path(u: Seq<Elem>) -> Option<Seq<char>> {
    match axum_state(u) {
        Some((p, _, _)) => Some(p),
        None => None,
    }
}

/// The text of a URL without parameters, or the first parameter (`None` when it is unnamed).
pub open spec fn plain_text(u: Seq<Elem>) -> Result<Seq<char>, Option<Seq<char>>>
    decreases u.len(),
{
    if u.len() == 0 {
        Ok(Seq::empty())
    } else {
        match plain_text(u.drop_last()) {
            Err(e) => Err(e),
            Ok(t) => match u.last() {
                Elem::Named(n) => Err(Some(n)),
                Elem::Unnamed => Err(None),
                e => Ok(t + crate::url::elem_text(e)),
            },
        }
    }
}

/// The failure of formatting with named parameters.
pub ghost enum NamedFailure {
    /// The named parameter is not bound.
    Missing(Seq<char>),
    /// The URL has an unnamed parameter.
    Unnamed,
}

/// The format string of a URL whose parameters are bound by name through `m`, with the bindings
/// left unused.
pub open spec fn named_text(u: Seq<Elem>, m: Map<Seq<char>, Seq<char>>) -> Result<
    (Seq<char>, Map<Seq<char>, Seq<char>>),
    NamedFailure,
>
    decreases u.len(),
{
    if u.len() == 0 {
        Ok((Seq::empty(), m))
    } else {
        match named_text(u.drop_last(), m) {
            Err(e) => Err(e),
            Ok((t, rest)) => match u.last() {
                Elem::Named(n) => if rest.dom().contains(n) {
                    Ok((t + seq!['{'] + rest[n] + seq!['}'], rest.remove(n)))
                } else {
                    Err(NamedFailure::Missing(n))
                },
                Elem::Unnamed => Err(NamedFailure::Unnamed),
                e => Ok((t + crate::url::elem_text(e), rest)),
            },
        }
    }
}

/// The format string of a URL whose parameters, named or not, are bound in order to `args`,
/// with the number of arguments used; `None` when there are too few arguments.
pub open spec fn unnamed_text(u: Seq<Elem>, args: Seq<Seq<char>>) -> Option<(Seq<char>, int)>
    decreases u.len(),
{
    if u.len() == 0 {
        Some((Seq::empty(), 0))
    } else {
        match unnamed_text(u.drop_last(), args) {
            None => None,
            Some((t, k)) => match u.last() {
                Elem::Named(_) | Elem::Unnamed => if k < args.len() {
                    Some((t + seq!['{'] + args[k] + seq!['}'], k + 1))
                } else {
                    None
                },
                e => Some((t + crate::url::elem_text(e), k)),
            },
        }
    }
}

impl UrlFormatError {
    /// The message of the error.
    pub fn to_string(&self) -> (res: String)
        ensures
            res@ == match self {
                UrlFormatError::ParameterAfterNonSlash =>
                    "path parameters must be preceded by a slash when using Axum routing"@,
                UrlFormatError::NamedParameterWithoutValue { name } =>
                    "the URL contains named path parameter `"@ + name@
                    + "`, which cannot be formatted without parameters"@,
                UrlFormatError::UnnamedParameterWithoutValue =>
                    "the URL contains unnamed path parameters, which cannot be formatted without parameters"@,
                UrlFormatError::MissingNamedParameter { name } => "missing named path parameter `"@
                    + name@ + "`"@,
                UrlFormatError::UnnamedParameterInNamedFormat =>
                    "the URL contains unnamed path parameters, which cannot be formatted from named path parameters"@,
                UrlFormatError::UnusedNamedParameter { url, name } => "the URL ("@ + url@
                    + ") does not contain all named path parameters (missing: "@ + name@ + ")"@,
                UrlFormatError::MissingArgument =>
                    "the URL contains more path parameters than route has arguments"@,
                UrlFormatError::UnusedArgument =>
                    "the URL does not contain all unnamed path parameters"@,
            },
    {
        match self {
            UrlFormatError::ParameterAfterNonSlash => String::from_str(
                "path parameters must be preceded by a slash when using Axum routing",
            ),
            UrlFormatError::NamedParameterWithoutValue { name } => {
                let mut res = String::from_str("the URL contains named path parameter `");
                push_str(&mut res, name.as_str());
                push_str(&mut res, "`, which cannot be formatted without parameters");
                res
            },
            UrlFormatError::UnnamedParameterWithoutValue => String::from_str(
                "the URL contains unnamed path parameters, which cannot be formatted without parameters",
            ),
            UrlFormatError::MissingNamedParameter { name } => {
                let mut res = String::from_str("missing named path parameter `");
                push_str(&mut res, name.as_str());
                push_str(&mut res, "`");
                res
            },
            UrlFormatError::UnnamedParameterInNamedFormat => String::from_str(
                "the URL contains unnamed path parameters, which cannot be formatted from named path parameters",
            ),
            UrlFormatError::UnusedNamedParameter { url, name } => {
                let mut res = String::from_str("the URL (");
                push_str(&mut res, url.as_str());
                push_str(&mut res, ") does not contain all named path parameters (missing: ");
                push_str(&mut res, name.as_str());
                push_str(&mut res, ")");
                res
            },
            UrlFormatError::MissingArgument => String::from_str(
                "the URL contains more path parameters than route has arguments",
            ),
            UrlFormatError::UnusedArgument => String::from_str(
                "the URL does not contain all unnamed path parameters",
            ),
        }
    }
}

/// Appends the text of a slash or a literal element.
fn push_fixed(res: &mut String, e: &UrlElement)
    requires
        e@ is Slash || e@ is Lit,
    ensures
        final(res)@ == old(res)@ + crate::url::elem_text(e@),
{
    match e {
        UrlElement::Literal(l) => push_str(res, l.as_str()),
        _ => push_char(res, '/'),
    }
}

/// Appends `{id}`.
fn push_placeholder(res: &mut String, id: &str)
    ensures
        final(res)@ == old(res)@ + seq!['{'] + id@ + seq!['}'],
{
    push_char(res, '{');
    push_str(res, id);
    push_char(res, '}');
}

proof fn lemma_axum_prefix(u: Seq<Elem>, k: int)
    requires
        0 <= k <= u.len(),
        axum_state(u.take(k)) is None,
    ensures
        axum_state(u) is None,
    decreases u.len() - k,
{
    if k < u.len() {
        assert(u.take(k + 1).drop_last() =~= u.take(k));
        lemma_axum_prefix(u, k + 1);
    } else {
        assert(u.take(k) =~= u);
    }
}

proof fn lemma_plain_prefix(u: Seq<Elem>, k: int)
    requires
        0 <= k <= u.len(),
        plain_text(u.take(k)) is Err,
    ensures
        plain_text(u) == plain_text(u.take(k)),
    decreases u.len() - k,
{
    if k < u.len() {
        assert(u.take(k + 1).drop_last() =~= u.take(k));
        lemma_plain_prefix(u, k + 1);
    } else {
        assert(u.take(k) =~= u);
    }
}

proof fn lemma_named_text_prefix(u: Seq<Elem>, k: int, m: Map<Seq<char>, Seq<char>>)
    requires
        0 <= k <= u.len(),
        named_text(u.take(k), m) is Err,
    ensures
        named_text(u, m) == named_text(u.take(k), m),
    decreases u.len() - k,
{
    if k < u.len() {
        assert(u.take(k + 1).drop_last() =~= u.take(k));
        lemma_named_text_prefix(u, k + 1, m);
    } else {
        assert(u.take(k) =~= u);
    }
}

proof fn lemma_unnamed_text_prefix(u: Seq<Elem>, k: int, args: Seq<Seq<char>>)
    requires
        0 <= k <= u.len(),
        unnamed_text(u.take(k), args) is None,
    ensures
        unnamed_text(u, args) is None,
    decreases u.len() - k,
{
    if k < u.len() {
        assert(u.take(k + 1).drop_last() =~= u.take(k));
        lemma_unnamed_text_prefix(u, k + 1, args);
    } else {
        assert(u.take(k) =~= u);
    }
}

impl Url {
    /// Get an Axum route path from the URL.
    pub fn to_axum_route_path(&self) -> (res: Result<String, UrlFormatError>)
        ensures
            match axum_path(self@) {
                Some(p) => res matches Ok(s) && s@ == p,
                None => res matches Err(UrlFormatError::ParameterAfterNonSlash),
            },
    {
        let mut path = String::new();
        let mut last_was_slash = false;
        let mut unnamed: u64 = 0;
        let mut i: usize = 0;
        assert(self@.take(0) =~= Seq::<Elem>::empty());
        while i < self.0.len()
            invariant
                i <= self.0@.len(),
                unnamed <= i,
                axum_state(self@.take(i as int)) == Some((path@, last_was_slash, unnamed as nat)),
            decreases self.0@.len() - i,
        {
            assert(self@.take(i + 1).drop_last() =~= self@.take(i as int));
            assert(self@.take(i + 1).last() == self.0@[i as int]@);
            match &self.0[i] {
                UrlElement::Slash => {
                    push_char(&mut path, '/');
                    last_was_slash = true;
                },
                UrlElement::Literal(l) => {
                    push_str(&mut path, l.as_str());
                    last_was_slash = false;
                },
                UrlElement::NamedPathParameter(n) => {
                    if !last_was_slash {
                        proof {
                            lemma_axum_prefix(self@, i + 1);
                        }
                        return Err(UrlFormatError::ParameterAfterNonSlash);
                    }
                    push_char(&mut path, ':');
                    push_str(&mut path, n.as_str());
                    last_was_slash = false;
                },
                UrlElement::UnnamedPathParameter => {
                    if !last_was_slash {
                        proof {
                            lemma_axum_prefix(self@, i + 1);
                        }
                        return Err(UrlFormatError::ParameterAfterNonSlash);
                    }
                    push_str(&mut path, ":arg");
                    let number = u64_to_decimal(unnamed);
                    push_str(&mut path, number.as_str());
                    unnamed += 1;
                    last_was_slash = false;
                },
            }
            i += 1;
        }
        assert(self@.take(self.0@.len() as int) =~= self@);
        Ok(path)
    }

    /// Get the URL as an expression, failing if there are any required path parameters.
    pub fn to_unparametered_string(&self) -> (res: Result<UrlExpression, UrlFormatError>)
        ensures
            match plain_text(self@) {
                Ok(t) => res matches Ok(UrlExpression::Owned(s)) && s@ == t,
                Err(Some(n)) => res matches Err(UrlFormatError::NamedParameterWithoutValue { name })
                    && name@ == n,
                Err(None) => res matches Err(UrlFormatError::UnnamedParameterWithoutValue),
            },
    {
        let mut s = String::new();
        let mut i: usize = 0;
        assert(self@.take(0) =~= Seq::<Elem>::empty());
        while i < self.0.len()
            invariant
                i <= self.0@.len(),
                plain_text(self@.take(i as int)) == Ok::<Seq<char>, Option<Seq<char>>>(s@),
            decreases self.0@.len() - i,
        {
            assert(self@.take(i + 1).drop_last() =~= self@.take(i as int));
            assert(self@.take(i + 1).last() == self.0@[i as int]@);
            match &self.0[i] {
                UrlElement::NamedPathParameter(n) => {
                    proof {
                        lemma_plain_prefix(self@, i + 1);
                    }
                    return Err(UrlFormatError::NamedParameterWithoutValue { name: n.clone() });
                },
                UrlElement::UnnamedPathParameter => {
                    proof {
                        lemma_plain_prefix(self@, i + 1);
                    }
                    return Err(UrlFormatError::UnnamedParameterWithoutValue);
                },
                e => push_fixed(&mut s, e),
            }
            i += 1;
        }
        assert(self@.take(self.0@.len() as int) =~= self@);
        Ok(UrlExpression::Owned(s))
    }

    /// Get the URL as an expression, with its named path parameters bound through `name_params`,
    /// pairs of a parameter name and the identifier that holds its value (a later pair
    /// overriding an earlier one with the same name).
    ///
    /// The expression is a `format!` invocation when parameters are given, and an owned string
    /// otherwise. Every parameter must be bound and every binding used: otherwise the first
    /// unbound parameter, or the least unused name, is reported.
    pub fn to_named_parameters_format(&self, name_params: &Vec<(String, String)>) -> (res: Result<
        UrlExpression,
        UrlFormatError,
    >)
        ensures
            match named_text(self@, param_map(pairs_view(name_params@))) {
                Err(NamedFailure::Missing(n)) => res matches Err(
                    UrlFormatError::MissingNamedParameter { name },
                ) && name@ == n,
                Err(NamedFailure::Unnamed) => res matches Err(
                    UrlFormatError::UnnamedParameterInNamedFormat,
                ),
                Ok((t, rest)) => if rest.dom().len() > 0 {
                    res matches Err(UrlFormatError::UnusedNamedParameter { url, name }) && url@ == t
                        && is_least_key(rest, name@)
                } else if name_params@.len() > 0 {
                    res matches Ok(UrlExpression::Format(s)) && s@ == t
                } else {
                    res matches Ok(UrlExpression::Owned(s)) && s@ == t
                },
            },
    {
        let mut table = collect_params(name_params);
        let has_params = name_params.len() > 0;
        let ghost m = param_map(pairs_view(name_params@));
        let mut s = String::new();
        let mut i: usize = 0;
        assert(self@.take(0) =~= Seq::<Elem>::empty());
        while i < self.0.len()
            invariant
                i <= self.0@.len(),
                m == param_map(pairs_view(name_params@)),
                unique_names(pairs_view(table@)),
                named_text(self@.take(i as int), m) == Ok::<
                    (Seq<char>, Map<Seq<char>, Seq<char>>),
                    NamedFailure,
                >((s@, param_map(pairs_view(table@)))),
            decreases self.0@.len() - i,
        {
            assert(self@.take(i + 1).drop_last() =~= self@.take(i as int));
            assert(self@.take(i + 1).last() == self.0@[i as int]@);
            match &self.0[i] {
                UrlElement::NamedPathParameter(n) => {
                    match take_param(&mut table, n.as_str()) {
                        Some(id) => push_placeholder(&mut s, id.as_str()),
                        None => {
                            proof {
                                lemma_named_text_prefix(self@, i + 1, m);
                            }
                            return Err(UrlFormatError::MissingNamedParameter { name: n.clone() });
                        },
                    }
                },
                UrlElement::UnnamedPathParameter => {
                    proof {
                        lemma_named_text_prefix(self@, i + 1, m);
                    }
                    return Err(UrlFormatError::UnnamedParameterInNamedFormat);
                },
                e => push_fixed(&mut s, e),
            }
            i += 1;
        }
        assert(self@.take(self.0@.len() as int) =~= self@);
        proof {
            crate::params::lemma_param_map_unique(pairs_view(table@));
        }
        if table.len() > 0 {
            let k = least_param(&table);
            let name = table[k].0.clone();
            return Err(UrlFormatError::UnusedNamedParameter { url: s, name });
        }
        assert(param_map(pairs_view(table@)).dom() =~= Set::<Seq<char>>::empty());
        if has_params {
            Ok(UrlExpression::Format(s))
        } else {
            Ok(UrlExpression::Owned(s))
        }
    }

    /// Get the URL as a `format!` expression, with its path parameters, named or not, bound in
    /// order to the identifiers `unnamed_params`. There must be exactly one identifier per
    /// parameter.
    pub fn to_unnamed_parameters_format(&self, unnamed_params: &Vec<String>) -> (res: Result<
        UrlExpression,
        UrlFormatError,
    >)
        ensures
            match unnamed_text(self@, unnamed_params@.map_values(|a: String| a@)) {
                None => res matches Err(UrlFormatError::MissingArgument),
                Some((t, k)) => if k == unnamed_params@.len() {
                    res matches Ok(UrlExpression::Format(s)) && s@ == t
                } else {
                    res matches Err(UrlFormatError::UnusedArgument)
                },
            },
    {
        let ghost args = unnamed_params@.map_values(|a: String| a@);
        let mut s = String::new();
        let mut used: usize = 0;
        let mut i: usize = 0;
        assert(self@.take(0) =~= Seq::<Elem>::empty());
        while i < self.0.len()
            invariant
                i <= self.0@.len(),
                args == unnamed_params@.map_values(|a: String| a@),
                used <= unnamed_params@.len(),
                unnamed_text(self@.take(i as int), args) == Some((s@, used as int)),
            decreases self.0@.len() - i,
        {
            assert(self@.take(i + 1).drop_last() =~= self@.take(i as int));
            assert(self@.take(i + 1).last() == self.0@[i as int]@);
            match &self.0[i] {
                UrlElement::NamedPathParameter(_) | UrlElement::UnnamedPathParameter => {
                    if used == unnamed_params.len() {
                        proof {
                            lemma_unnamed_text_prefix(self@, i + 1, args);
                        }
                        return Err(UrlFormatError::MissingArgument);
                    }
                    push_placeholder(&mut s, unnamed_params[used].as_str());
                    used += 1;
                },
                e => push_fixed(&mut s, e),
            }
            i += 1;
        }
        assert(self@.take(self.0@.len() as int) =~= self@);
        if used < unnamed_params.len() {
            return Err(UrlFormatError::UnusedArgument);
        }
        Ok(UrlExpression::Format(s))
    }
}

} // verus!
