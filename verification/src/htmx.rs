//! HTMX-related types: checked HTML identifiers and names, insert strategies, and the traits of
//! HTML elements that carry an identity or a form name.

use vstd::prelude::*;
use std::borrow::Cow;
use convert_case::{Case, Casing};
use crate::text::{chars_of, push_char, push_str, is_ascii_alnum, ascii_alnum};
use crate::strings::is_white_space;

verus! {

/// Characters allowed after the first character of an HTML identifier or name.
pub open spec fn is_ident_tail_char(c: char) -> bool {
    is_ascii_alnum(c) || c == '-' || c == '_' || c == ':' || c == '.'
}

/// Characters allowed as the first character of an HTML identifier or name.
pub open spec fn is_ident_head_char(c: char) -> bool {
    is_ascii_alnum(c) || c == '_'
}

/// Whether a string is a valid HTML identifier (or form name): non-empty, starting with an ASCII
/// letter, digit or underscore, and continuing with ASCII letters, digits, hyphens, underscores,
/// colons or periods.
pub open spec fn is_valid_identifier(s: Seq<char>) -> bool {
    &&& s.len() > 0
    &&& is_ident_head_char(s[0])
    &&& forall|i: int| 1 <= i < s.len() ==> is_ident_tail_char(#[trigger] s[i])
}

/// The reason an identifier is rejected.
pub enum IdentifierProblem {
    /// The identifier is empty.
    Empty,
    /// The first character is not allowed.
    InvalidFirst(char),
    /// A later character is not allowed.
    Invalid(char),
}

/// The first problem of an identifier, scanning from the left.
pub open spec fn identifier_problem(s: Seq<char>) -> Option<IdentifierProblem> {
    if s.len() == 0 {
        Some(IdentifierProblem::Empty)
    } else if !is_ident_head_char(s[0]) {
        Some(IdentifierProblem::InvalidFirst(s[0]))
    } else if exists|i: int| 1 <= i < s.len() && !is_ident_tail_char(#[trigger] s[i]) {
        let i = choose|i: int|
            1 <= i < s.len() && !is_ident_tail_char(#[trigger] s[i]) && forall|j: int|
                1 <= j < i ==> is_ident_tail_char(#[trigger] s[j]);
        Some(IdentifierProblem::Invalid(s[i]))
    } else {
        None
    }
}

/// Finds the first problem of an identifier.
pub fn find_identifier_problem(s: &str) -> (res: Option<IdentifierProblem>)
    ensures
        res == identifier_problem(s@),
        res is None <==> is_valid_identifier(s@),
{
    let cs = chars_of(s);
    if cs.len() == 0 {
        return Some(IdentifierProblem::Empty);
    }
    let first = cs[0];
    if !(ascii_alnum(first) || first == '_') {
        return Some(IdentifierProblem::InvalidFirst(first));
    }
    let mut i: usize = 1;
    while i < cs.len()
        invariant
            cs@ == s@,
            1 <= i <= cs@.len(),
            is_ident_head_char(cs@[0]),
            forall|j: int| 1 <= j < i ==> is_ident_tail_char(#[trigger] cs@[j]),
        decreases cs@.len() - i,
    {
        let c = cs[i];
        if !(ascii_alnum(c) || c == '-' || c == '_' || c == ':' || c == '.') {
            proof {
                let w = choose|w: int|
                    1 <= w < s@.len() && !is_ident_tail_char(#[trigger] s@[w]) && forall|j: int|
                        1 <= j < w ==> is_ident_tail_char(#[trigger] s@[j]);
                assert(1 <= i < s@.len() && !is_ident_tail_char(s@[i as int]) && forall|j: int|
                    1 <= j < i ==> is_ident_tail_char(#[trigger] s@[j]));
                if w < i {
                    assert(is_ident_tail_char(s@[w]));
                } else if w > i {
                    assert(is_ident_tail_char(s@[i as int]));
                }
            }
            return Some(IdentifierProblem::Invalid(c));
        }
        i += 1;
    }
    None
}

/// The message describing an identifier problem, as `InvalidHtmlId` and `InvalidHtmlName`
/// carry it.
pub open spec fn problem_message(p: IdentifierProblem, id: Seq<char>) -> Seq<char> {
    match p {
        IdentifierProblem::Empty => "empty string"@,
        IdentifierProblem::InvalidFirst(c) => "invalid first character: '"@ + seq![c] + "' in '"@
            + id + "'"@,
        IdentifierProblem::Invalid(c) => "invalid character: '"@ + seq![c] + "' in '"@ + id
            + "'"@,
    }
}

fn problem_text(p: &IdentifierProblem, id: &str) -> (res: String)
    ensures
        res@ == problem_message(*p, id@),
{
    let mut res = String::new();
    match p {
        IdentifierProblem::Empty => {
            push_str(&mut res, "empty string");
        },
        IdentifierProblem::InvalidFirst(c) => {
            push_str(&mut res, "invalid first character: '");
            push_char(&mut res, *c);
            push_str(&mut res, "' in '");
            push_str(&mut res, id);
            push_str(&mut res, "'");
        },
        IdentifierProblem::Invalid(c) => {
            push_str(&mut res, "invalid character: '");
            push_char(&mut res, *c);
            push_str(&mut res, "' in '");
            push_str(&mut res, id);
            push_str(&mut res, "'");
        },
    }
    assert(res@ =~= problem_message(*p, id@));
    res
}

/// A type that represents a valid HTML identifier, as per RFC 1866.
///
/// As the content of `HtmlId` is checked, it is guaranteed to be a valid HTML identifier which
/// requires no escaping when used as the value of an `id` attribute.
pub struct HtmlId(Cow<'static, str>);

/// An error that occurs when trying to create an `HtmlId` from an invalid string.
#[derive(Debug)]
pub struct InvalidHtmlId(pub String);

impl View for HtmlId {
    type V = Seq<char>;

    closed spec fn view(&self) -> Seq<char> {
        self.0@
    }
}

impl Clone for HtmlId {
    fn clone(&self) -> (res: Self)
        ensures
            res@ == self@,
    {
        proof {
            use_type_invariant(self);
        }
        match &self.0 {
            Cow::Borrowed(s) => HtmlId(Cow::Borrowed(s)),
            Cow::Owned(s) => HtmlId(Cow::Owned(s.clone())),
        }
    }
}

impl HtmlId {
    #[verifier::type_invariant]
    spec fn inv(self) -> bool {
        is_valid_identifier(self.0@)
    }

    /// Create a new `HtmlId` from the given static string.
    pub fn from_static(id: &'static str) -> (res: Result<HtmlId, InvalidHtmlId>)
        ensures
            res is Ok <==> is_valid_identifier(id@),
            res matches Ok(h) ==> h@ == id@,
            res matches Err(e) ==> e.0@ == problem_message(identifier_problem(id@)->0, id@),
    {
        match Self::check_valid_html_id(id) {
            Ok(()) => Ok(HtmlId(Cow::Borrowed(id))),
            Err(e) => Err(e),
        }
    }

    /// Create a new `HtmlId` from the given string.
    ///
    /// # Errors
    ///
    /// Returns an `InvalidHtmlId` error if the string is not a valid HTML identifier.
    pub fn new(id: Cow<'static, str>) -> (res: Result<HtmlId, InvalidHtmlId>)
        ensures
            res is Ok <==> is_valid_identifier(id@),
            res matches Ok(h) ==> h@ == id@,
            res matches Err(e) ==> e.0@ == problem_message(identifier_problem(id@)->0, id@),
    {
        let checked = match &id {
            Cow::Borrowed(s) => Self::check_valid_html_id(s),
            Cow::Owned(s) => Self::check_valid_html_id(s.as_str()),
        };
        match checked {
            Ok(()) => Ok(HtmlId(id)),
            Err(e) => Err(e),
        }
    }

    /// Parses an `HtmlId` from a string, copying it.
    pub fn parse(s: &str) -> (res: Result<HtmlId, InvalidHtmlId>)
        ensures
            res is Ok <==> is_valid_identifier(s@),
            res matches Ok(h) ==> h@ == s@,
            res matches Err(e) ==> e.0@ == problem_message(identifier_problem(s@)->0, s@),
    {
        Self::new(Cow::Owned(s.to_owned()))
    }

    /// Check if the given string is a valid HTML identifier.
    ///
    /// # Rules
    ///
    /// - Cannot be empty.
    /// - The first character must be an ASCII letter, an ASCII digit or an underscore (_).
    /// - The remaining characters can be letters, digits (0-9), hyphens (-), underscores (_),
    ///   colons (:), or periods (.).
    pub fn check_valid_html_id(id: &str) -> (res: Result<(), InvalidHtmlId>)
        ensures
            res is Ok <==> is_valid_identifier(id@),
            res matches Err(e) ==> e.0@ == problem_message(identifier_problem(id@)->0, id@),
    {
        match find_identifier_problem(id) {
            None => Ok(()),
            Some(p) => Err(InvalidHtmlId(problem_text(&p, id))),
        }
    }

    /// The identifier, as a string slice.
    pub fn as_str(&self) -> (res: &str)
        ensures
            res@ == self@,
            is_valid_identifier(res@),
    {
        proof {
            use_type_invariant(self);
        }
        match &self.0 {
            Cow::Borrowed(s) => s,
            Cow::Owned(s) => s.as_str(),
        }
    }

    /// The identifier, as it is displayed.
    pub fn to_string(&self) -> (res: String)
        ensures
            res@ == self@,
    {
        self.as_str().to_owned()
    }

}

impl InvalidHtmlId {
    /// The error message, as displayed.
    pub fn to_string(&self) -> (res: String)
        ensures
            res@ == "invalid HTML id: "@ + self.0@,
    {
        let mut res = String::new();
        push_str(&mut res, "invalid HTML id: ");
        push_str(&mut res, self.0.as_str());
        res
    }
}

impl std::str::FromStr for HtmlId {
    type Err = InvalidHtmlId;

    fn from_str(s: &str) -> (res: Result<HtmlId, InvalidHtmlId>)
        ensures
            res is Ok <==> is_valid_identifier(s@),
            res matches Ok(h) ==> h@ == s@,
            res matches Err(e) ==> e.0@ == problem_message(identifier_problem(s@)->0, s@),
    {
        HtmlId::parse(s)
    }
}

/// A type that represents a valid HTML attribute name, as per RFC 1866.
///
/// As the content of `HtmlName` is checked, it is guaranteed to be a valid HTML name which
/// requires no escaping when used as the value of a `name` attribute.
pub struct HtmlName(Cow<'static, str>);

/// An error that occurs when trying to create an `HtmlName` from an invalid string.
#[derive(Debug)]
pub struct InvalidHtmlName(pub String);

impl View for HtmlName {
    type V = Seq<char>;

    closed spec fn view(&self) -> Seq<char> {
        self.0@
    }
}

impl Clone for HtmlName {
    fn clone(&self) -> (res: Self)
        ensures
            res@ == self@,
    {
        proof {
            use_type_invariant(self);
        }
        match &self.0 {
            Cow::Borrowed(s) => HtmlName(Cow::Borrowed(s)),
            Cow::Owned(s) => HtmlName(Cow::Owned(s.clone())),
        }
    }
}

impl HtmlName {
    #[verifier::type_invariant]
    spec fn inv(self) -> bool {
        is_valid_identifier(self.0@)
    }

    /// Create a new `HtmlName` from the given static string.
    pub fn from_static(id: &'static str) -> (res: Result<HtmlName, InvalidHtmlName>)
        ensures
            res is Ok <==> is_valid_identifier(id@),
            res matches Ok(h) ==> h@ == id@,
            res matches Err(e) ==> e.0@ == problem_message(identifier_problem(id@)->0, id@),
    {
        match Self::check_valid_html_name(id) {
            Ok(()) => Ok(HtmlName(Cow::Borrowed(id))),
            Err(e) => Err(e),
        }
    }

    /// Create a new `HtmlName` from the given string.
    ///
    /// # Errors
    ///
    /// Returns an `InvalidHtmlName` error if the string is not a valid HTML name.
    pub fn new(id: Cow<'static, str>) -> (res: Result<HtmlName, InvalidHtmlName>)
        ensures
            res is Ok <==> is_valid_identifier(id@),
            res matches Ok(h) ==> h@ == id@,
            res matches Err(e) ==> e.0@ == problem_message(identifier_problem(id@)->0, id@),
    {
        let checked = match &id {
            Cow::Borrowed(s) => Self::check_valid_html_name(s),
            Cow::Owned(s) => Self::check_valid_html_name(s.as_str()),
        };
        match checked {
            Ok(()) => Ok(HtmlName(id)),
            Err(e) => Err(e),
        }
    }

    /// Parses an `HtmlName` from a string, copying it.
    pub fn parse(s: &str) -> (res: Result<HtmlName, InvalidHtmlName>)
        ensures
            res is Ok <==> is_valid_identifier(s@),
            res matches Ok(h) ==> h@ == s@,
            res matches Err(e) ==> e.0@ == problem_message(identifier_problem(s@)->0, s@),
    {
        Self::new(Cow::Owned(s.to_owned()))
    }

    /// Check if the given string is a valid HTML name, as per RFC 1866.
    ///
    /// The rules are those of HTML identifiers (see [`HtmlId::check_valid_html_id`]).
    pub fn check_valid_html_name(id: &str) -> (res: Result<(), InvalidHtmlName>)
        ensures
            res is Ok <==> is_valid_identifier(id@),
            res matches Err(e) ==> e.0@ == problem_message(identifier_problem(id@)->0, id@),
    {
        match find_identifier_problem(id) {
            None => Ok(()),
            Some(p) => Err(InvalidHtmlName(problem_text(&p, id))),
        }
    }

    /// The name, as a string slice.
    pub fn as_str(&self) -> (res: &str)
        ensures
            res@ == self@,
            is_valid_identifier(res@),
    {
        proof {
            use_type_invariant(self);
        }
        match &self.0 {
            Cow::Borrowed(s) => s,
            Cow::Owned(s) => s.as_str(),
        }
    }

    /// The name, as it is displayed.
    pub fn to_string(&self) -> (res: String)
        ensures
            res@ == self@,
    {
        self.as_str().to_owned()
    }

}

impl InvalidHtmlName {
    /// The error message, as displayed.
    pub fn to_string(&self) -> (res: String)
        ensures
            res@ == "invalid HTML name: "@ + self.0@,
    {
        let mut res = String::new();
        push_str(&mut res, "invalid HTML name: ");
        push_str(&mut res, self.0.as_str());
        res
    }
}

impl std::str::FromStr for HtmlName {
    type Err = InvalidHtmlName;

    fn from_str(s: &str) -> (res: Result<HtmlName, InvalidHtmlName>)
        ensures
            res is Ok <==> is_valid_identifier(s@),
            res matches Ok(h) ==> h@ == s@,
            res matches Err(e) ==> e.0@ == problem_message(identifier_problem(s@)->0, s@),
    {
        HtmlName::parse(s)
    }
}

} // verus!

verus! {

/// The message of a compile-time identifier check, for an identifier of the given kind ("ID"
/// or "name").
pub open spec fn identifier_check_message(p: IdentifierProblem, kind: Seq<char>) -> Seq<char> {
    match p {
        IdentifierProblem::Empty => "HTML "@ + kind + " cannot be empty"@,
        IdentifierProblem::InvalidFirst(c) => "HTML "@ + kind
            + " must start with a letter, digit, or underscore, found '"@ + seq![c] + "'"@,
        IdentifierProblem::Invalid(c) => "HTML "@ + kind + " contains invalid character '"@
            + seq![c]
            + "'. Only letters, digits, hyphens, underscores, colons, and periods are allowed"@,
    }
}

/// Validate an HTML identifier (ID or name) at compile time.
///
/// Returns the error message if the identifier is invalid according to HTML5 rules:
/// - Must not be empty
/// - Must start with a letter, digit, or underscore
/// - May contain letters, digits, hyphens, underscores, colons, and periods
///
/// `kind` is the kind of identifier ("ID" or "name") used in error messages.
pub fn validate_html_identifier(identifier: &str, kind: &str) -> (res: Result<(), String>)
    ensures
        res is Ok <==> is_valid_identifier(identifier@),
        res matches Err(m) ==> m@ == identifier_check_message(
            identifier_problem(identifier@)->0,
            kind@,
        ),
{
    match find_identifier_problem(identifier) {
        None => Ok(()),
        Some(p) => {
            let mut m = String::new();
            push_str(&mut m, "HTML ");
            push_str(&mut m, kind);
            match p {
                IdentifierProblem::Empty => {
                    push_str(&mut m, " cannot be empty");
                },
                IdentifierProblem::InvalidFirst(c) => {
                    push_str(&mut m, " must start with a letter, digit, or underscore, found '");
                    push_char(&mut m, c);
                    push_str(&mut m, "'");
                },
                IdentifierProblem::Invalid(c) => {
                    push_str(&mut m, " contains invalid character '");
                    push_char(&mut m, c);
                    push_str(
                        &mut m,
                        "'. Only letters, digits, hyphens, underscores, colons, and periods are allowed",
                    );
                },
            }
            assert(m@ =~= identifier_check_message(p, kind@));
            Err(m)
        },
    }
}

/// Validate an HTML ID at compile time.
pub fn validate_html_id(id: &str) -> (res: Result<(), String>)
    ensures
        res is Ok <==> is_valid_identifier(id@),
        res matches Err(m) ==> m@ == identifier_check_message(identifier_problem(id@)->0, "ID"@),
{
    validate_html_identifier(id, "ID")
}

/// The `id` attribute declaration for an identifier: `id="<id>"`.
pub fn id_attribute_of(id: &HtmlId) -> (res: String)
    ensures
        res@ == "id=\""@ + id@ + "\""@,
{
    let mut res = String::new();
    push_str(&mut res, "id=\"");
    push_str(&mut res, id.as_str());
    push_str(&mut res, "\"");
    res
}

/// The `name` attribute declaration for a form name: `name="<name>"`.
pub fn name_attribute_of(name: &HtmlName) -> (res: String)
    ensures
        res@ == "name=\""@ + name@ + "\""@,
{
    let mut res = String::new();
    push_str(&mut res, "name=\"");
    push_str(&mut res, name.as_str());
    push_str(&mut res, "\"");
    res
}

/// A trait for HTML elements that have an identity.
///
/// Types that implement this trait MUST render as a HTML fragment with a root element that has
/// an `id` attribute matching the value returned by the `id` method.
pub trait Identity {
    /// The identifier of the HTML element, which `id` returns. An implementation verified with
    /// Verus defines it; one written outside Verus keeps this default, an unspecified value.
    closed spec fn spec_id(&self) -> Seq<char> {
        arbitrary()
    }

    /// Get the unique identifier for the HTML element.
    fn id(&self) -> (res: HtmlId)
        ensures
            res@ == self.spec_id(),
    ;

    /// Get the `id` attribute declaration for the HTML element: `id="<id>"`.
    fn id_attribute(&self) -> (res: String)
        ensures
            res@ == "id=\""@ + self.spec_id() + "\""@,
            is_valid_identifier(self.spec_id()),
    {
        let id = self.id();
        proof {
            use_type_invariant(&id);
        }
        id_attribute_of(&id)
    }
}

/// A trait for HTML fragments that can be used in out-of-band swaps.
pub trait Fragment: Identity {
    /// The insert strategy of the fragment, which `insert_strategy` returns. An implementation
    /// verified with Verus defines it; one written outside Verus keeps this default, an
    /// unspecified value.
    closed spec fn spec_insert_strategy(&self) -> Strategy {
        arbitrary()
    }

    /// Get the HTMX insert strategy for this fragment.
    fn insert_strategy(&self) -> (res: InsertStrategy)
        ensures
            res@ == self.spec_insert_strategy(),
    ;
}

/// A trait for HTML elements that have a form attribute name.
pub trait Named {
    /// The name of the form element, which `name` returns. An implementation verified with
    /// Verus defines it; one written outside Verus keeps this default, an unspecified value.
    closed spec fn spec_name(&self) -> Seq<char> {
        arbitrary()
    }

    /// Get the name of the form element.
    fn name(&self) -> (res: HtmlName)
        ensures
            res@ == self.spec_name(),
    ;

    /// Get the `name` attribute declaration for the form element: `name="<name>"`.
    fn name_attribute(&self) -> (res: String)
        ensures
            res@ == "name=\""@ + self.spec_name() + "\""@,
            is_valid_identifier(self.spec_name()),
    {
        let name = self.name();
        proof {
            use_type_invariant(&name);
        }
        name_attribute_of(&name)
    }
}

/// An HTMX insert strategy.
#[derive(Debug, Clone)]
#[non_exhaustive]
pub enum InsertStrategy {
    /// Replace the target element's inner HTML.
    InnerHtml,
    /// Replace the target element's outer HTML.
    OuterHtml,
    /// Replace the target element's text content without interpreting it as HTML.
    TextContent,
    /// Insert the element before the target element.
    BeforeBegin,
    /// Insert the element after the target element.
    AfterBegin,
    /// Insert the element before the target element's end tag.
    BeforeEnd,
    /// Insert the element after the target element's end tag.
    AfterEnd,
    /// Delete the target element.
    Delete,
    /// Do not insert the element.
    NoSwap,
    /// Custom insert strategy.
    Custom(String),
}

/// The model of an insert strategy.
pub ghost enum Strategy {
    InnerHtml,
    OuterHtml,
    TextContent,
    BeforeBegin,
    AfterBegin,
    BeforeEnd,
    AfterEnd,
    Delete,
    NoSwap,
    Custom(Seq<char>),
}

impl View for InsertStrategy {
    type V = Strategy;

    open spec fn view(&self) -> Strategy {
        match self {
            InsertStrategy::InnerHtml => Strategy::InnerHtml,
            InsertStrategy::OuterHtml => Strategy::OuterHtml,
            InsertStrategy::TextContent => Strategy::TextContent,
            InsertStrategy::BeforeBegin => Strategy::BeforeBegin,
            InsertStrategy::AfterBegin => Strategy::AfterBegin,
            InsertStrategy::BeforeEnd => Strategy::BeforeEnd,
            InsertStrategy::AfterEnd => Strategy::AfterEnd,
            InsertStrategy::Delete => Strategy::Delete,
            InsertStrategy::NoSwap => Strategy::NoSwap,
            InsertStrategy::Custom(s) => Strategy::Custom(s@),
        }
    }
}

/// The HTMX name of an insert strategy, as used in `hx-swap` attributes.
pub open spec fn strategy_name(s: Strategy) -> Seq<char> {
    match s {
        Strategy::InnerHtml => "innerHTML"@,
        Strategy::OuterHtml => "outerHTML"@,
        Strategy::TextContent => "textContent"@,
        Strategy::BeforeBegin => "beforebegin"@,
        Strategy::AfterBegin => "afterbegin"@,
        Strategy::BeforeEnd => "beforeend"@,
        Strategy::AfterEnd => "afterend"@,
        Strategy::Delete => "delete"@,
        Strategy::NoSwap => "none"@,
        Strategy::Custom(c) => c,
    }
}

/// The strategy that an HTMX name denotes; unknown names are custom strategies.
pub open spec fn strategy_from_name(n: Seq<char>) -> Strategy {
    if n == "innerHTML"@ {
        Strategy::InnerHtml
    } else if n == "outerHTML"@ {
        Strategy::OuterHtml
    } else if n == "textContent"@ {
        Strategy::TextContent
    } else if n == "beforebegin"@ {
        Strategy::BeforeBegin
    } else if n == "afterbegin"@ {
        Strategy::AfterBegin
    } else if n == "beforeend"@ {
        Strategy::BeforeEnd
    } else if n == "afterend"@ {
        Strategy::AfterEnd
    } else if n == "delete"@ {
        Strategy::Delete
    } else if n == "none"@ {
        Strategy::NoSwap
    } else {
        Strategy::Custom(n)
    }
}

impl InsertStrategy {
    /// The HTMX name of the strategy, as its `Display` implementation writes it.
    pub fn to_string(&self) -> (res: String)
        ensures
            res@ == strategy_name(self@),
    {
        match self {
            InsertStrategy::InnerHtml => "innerHTML".to_owned(),
            InsertStrategy::OuterHtml => "outerHTML".to_owned(),
            InsertStrategy::TextContent => "textContent".to_owned(),
            InsertStrategy::BeforeBegin => "beforebegin".to_owned(),
            InsertStrategy::AfterBegin => "afterbegin".to_owned(),
            InsertStrategy::BeforeEnd => "beforeend".to_owned(),
            InsertStrategy::AfterEnd => "afterend".to_owned(),
            InsertStrategy::Delete => "delete".to_owned(),
            InsertStrategy::NoSwap => "none".to_owned(),
            InsertStrategy::Custom(c) => c.clone(),
        }
    }

    /// The strategy that a `#[fragment(strategy = "...")]` attribute names, using the exact
    /// HTMX names; any other name is a custom strategy.
    pub fn from_name(name: &str) -> (res: InsertStrategy)
        ensures
            res@ == strategy_from_name(name@),
    {
        if crate::text::str_eq(name, "innerHTML") {
            InsertStrategy::InnerHtml
        } else if crate::text::str_eq(name, "outerHTML") {
            InsertStrategy::OuterHtml
        } else if crate::text::str_eq(name, "textContent") {
            InsertStrategy::TextContent
        } else if crate::text::str_eq(name, "beforebegin") {
            InsertStrategy::BeforeBegin
        } else if crate::text::str_eq(name, "afterbegin") {
            InsertStrategy::AfterBegin
        } else if crate::text::str_eq(name, "beforeend") {
            InsertStrategy::BeforeEnd
        } else if crate::text::str_eq(name, "afterend") {
            InsertStrategy::AfterEnd
        } else if crate::text::str_eq(name, "delete") {
            InsertStrategy::Delete
        } else if crate::text::str_eq(name, "none") {
            InsertStrategy::NoSwap
        } else {
            InsertStrategy::Custom(name.to_owned())
        }
    }

    /// Whether this is the `outerHTML` strategy.
    pub fn is_outer_html(&self) -> (res: bool)
        ensures
            res == (strategy_name(self@) == "outerHTML"@),
    {
        let n = self.to_string();
        crate::text::str_eq(n.as_str(), "outerHTML")
    }
}

/// A valid HTML identifier (an `HtmlId` or an `HtmlName`) needs no escaping as an attribute
/// value: it holds no quote, no `<`, `>` or `&`, and no white space.
pub proof fn law_identifier_needs_no_escaping(s: Seq<char>)
    requires
        is_valid_identifier(s),
    ensures
        forall|i: int|
            0 <= i < s.len() ==> {
                let c = #[trigger] s[i];
                &&& c != '"'
                &&& c != '\''
                &&& c != '<'
                &&& c != '>'
                &&& c != '&'
                &&& !is_white_space(c)
            },
{
    assert forall|i: int| 0 <= i < s.len() implies {
        let c = #[trigger] s[i];
        &&& c != '"'
        &&& c != '\''
        &&& c != '<'
        &&& c != '>'
        &&& c != '&'
        &&& !is_white_space(c)
    } by {
        if i > 0 {
            assert(is_ident_tail_char(s[i]));
        }
    }
}

/// Naming a strategy and reading the name back gives the same name.
pub proof fn law_strategy_name_roundtrip(n: Seq<char>)
    ensures
        strategy_name(strategy_from_name(n)) == n,
{
}

/// Reading back the name of a strategy gives the strategy, unless it is a custom strategy that
/// carries the name of a built-in one.
pub proof fn law_strategy_from_its_name(s: Strategy)
    requires
        !(s is Custom) || strategy_from_name(strategy_name(s)) is Custom,
    ensures
        strategy_from_name(strategy_name(s)) == s,
{
    reveal_strlit("innerHTML");
    reveal_strlit("outerHTML");
    reveal_strlit("textContent");
    reveal_strlit("beforebegin");
    reveal_strlit("afterbegin");
    reveal_strlit("beforeend");
    reveal_strlit("afterend");
    reveal_strlit("delete");
    reveal_strlit("none");
    let names = seq![
        "innerHTML"@,
        "outerHTML"@,
        "textContent"@,
        "beforebegin"@,
        "afterbegin"@,
        "beforeend"@,
        "afterend"@,
        "delete"@,
        "none"@,
    ];
    assert forall|a: int, b: int| 0 <= a < b < 9 implies names[a] != names[b] by {
        if a == 3 && b == 5 {
            assert(names[a][6] != names[b][6]);
        } else if a == 4 && b == 6 {
            assert(names[a][5] != names[b][5]);
        } else if names[a].len() == names[b].len() {
            assert(names[a][0] != names[b][0]);
        }
    }
    assert(names[0] == "innerHTML"@);
    assert(names[1] == "outerHTML"@);
    assert(names[2] == "textContent"@);
    assert(names[3] == "beforebegin"@);
    assert(names[4] == "afterbegin"@);
    assert(names[5] == "beforeend"@);
    assert(names[6] == "afterend"@);
    assert(names[7] == "delete"@);
    assert(names[8] == "none"@);
}

} // verus!

verus! {

/// The snake-case form of an upper-camel-case identifier, as `convert_case` converts it.
pub uninterp spec fn snake_case_of(ident: Seq<char>) -> Seq<char>;

/// Converts an upper-camel-case identifier to snake case.
///
/// Trusted: calls `convert_case`'s `from_case(Case::UpperCamel).to_case(Case::Snake)`; the
/// result, a function of the identifier alone, is named and not described.
#[verifier::external_body]
fn upper_camel_to_snake(ident: &str) -> (res: String)
    ensures
        res@ == snake_case_of(ident@),
{
    ident.from_case(Case::UpperCamel).to_case(Case::Snake)
}

/// The default HTMX target of a fragment type: `#` and the snake-case form of the type's name.
pub fn default_fragment_target(ident: &str) -> (res: String)
    ensures
        res@ == seq!['#'] + snake_case_of(ident@),
{
    let mut res = String::new();
    push_char(&mut res, '#');
    let snake = upper_camel_to_snake(ident);
    push_str(&mut res, snake.as_str());
    res
}

} // verus!

verus! {

/// The grammar of HTML identifiers and form names, character by character: an ASCII letter
/// (upper or lower case), digit or underscore, then ASCII letters, digits, `-`, `_`, `:` or `.`.
pub open spec fn identifier_grammar(s: Seq<char>) -> bool {
    &&& s.len() > 0
    &&& ('A' <= s[0] <= 'Z' || 'a' <= s[0] <= 'z' || '0' <= s[0] <= '9' || s[0] == '_')
    &&& forall|i: int|
        1 <= i < s.len() ==> ('A' <= #[trigger] s[i] <= 'Z' || 'a' <= s[i] <= 'z' || '0' <= s[i]
            <= '9' || s[i] == '-' || s[i] == '_' || s[i] == ':' || s[i] == '.')
}

/// An identifier is accepted (as an `HtmlId` or an `HtmlName`, by `parse`, `new` and
/// `from_static`) exactly when it follows the grammar: upper-case letters may start it as well
/// as lower-case ones; anything else is refused with a problem, and the problem of a text that
/// follows the grammar is none.
pub proof fn law_identifiers_follow_the_grammar(s: Seq<char>)
    ensures
        is_valid_identifier(s) <==> identifier_grammar(s),
        identifier_problem(s) is None <==> identifier_grammar(s),
{
    if identifier_grammar(s) {
        assert forall|i: int| 1 <= i < s.len() implies is_ident_tail_char(#[trigger] s[i]) by {}
    }
    if is_valid_identifier(s) {
        assert forall|i: int| 1 <= i < s.len() implies ('A' <= #[trigger] s[i] <= 'Z' || 'a' <= s[i]
            <= 'z' || '0' <= s[i] <= '9' || s[i] == '-' || s[i] == '_' || s[i] == ':' || s[i]
            == '.') by {
            assert(is_ident_tail_char(s[i]));
        }
    }
    if identifier_problem(s) is None {
        if s.len() > 0 && is_ident_head_char(s[0]) {
            assert forall|i: int| 1 <= i < s.len() implies is_ident_tail_char(#[trigger] s[i]) by {}
        }
    }
}

} // verus!
