//! URLs as written in the `url` attribute of a route: ASCII paths such as
//! `/fruits/{fruit}/colors/{}`, with named `{name}` or unnamed `{}` path arguments.
//!
//! A URL is parsed into elements, from which the library derives its textual form, the path
//! that the Axum router matches, and the format string that writes a concrete URL.

use vstd::prelude::*;
use crate::text::{chars_of, string_from_range, push_char, push_str, u64_to_decimal, decimal};

verus! {

broadcast use vstd::seq::group_seq_axioms;

/// An element of a URL.
#[derive(Debug, Clone)]
pub enum UrlElement {
    /// A slash separator.
    Slash,
    /// A literal string.
    Literal(String),
    /// A named path parameter.
    NamedPathParameter(String),
    /// An unnamed path parameter.
    UnnamedPathParameter,
}

/// The model of a URL element.
pub ghost enum Elem {
    Slash,
    Lit(Seq<char>),
    Named(Seq<char>),
    Unnamed,
}

impl View for UrlElement {
    type V = Elem;

    open spec fn view(&self) -> Elem {
        match self {
            UrlElement::Slash => Elem::Slash,
            UrlElement::Literal(s) => Elem::Lit(s@),
            UrlElement::NamedPathParameter(n) => Elem::Named(n@),
            UrlElement::UnnamedPathParameter => Elem::Unnamed,
        }
    }
}

/// The models of a sequence of elements.
pub open spec fn elems_view(v: Seq<UrlElement>) -> Seq<Elem> {
    v.map_values(|x: UrlElement| x@)
}

/// An URL, as specified in the `url` attribute.
#[derive(Debug, Clone)]
pub struct Url(pub Vec<UrlElement>);

impl View for Url {
    type V = Seq<Elem>;

    open spec fn view(&self) -> Seq<Elem> {
        elems_view(self.0@)
    }
}

/// An error raised while parsing a URL.
#[derive(Debug, Clone, Copy, PartialEq, Eq, Structural)]
pub enum UrlParseError {
    /// The URL holds a character that is not ASCII.
    NotAscii,
    /// The URL does not start with a slash.
    NoLeadingSlash,
    /// A path parameter name holds an invalid character.
    InvalidParameterCharacter { character: char },
    /// A `{` is never closed.
    UnmatchedBrace,
    /// The URL holds a character that is not allowed in it.
    InvalidCharacter { character: char },
}

/// Whether a character may start a path parameter name.
pub open spec fn is_name_start(c: char) -> bool {
    c == '_' || ('a' <= c <= 'z') || ('A' <= c <= 'Z')
}

/// Whether a character is an ASCII decimal digit.
pub open spec fn is_ascii_digit(c: char) -> bool {
    '0' <= c <= '9'
}

/// The characters that may not appear in a URL outside path parameters.
pub open spec fn is_forbidden(c: char) -> bool {
    c == ' ' || c == '\t' || c == '\r' || c == '\n' || c == '}' || c == '<' || c == '>' || c == '^'
}

/// Whether all characters are ASCII.
pub open spec fn all_ascii(s: Seq<char>) -> bool {
    forall|k: int| 0 <= k < s.len() ==> (#[trigger] s[k] as u32) < 128
}

/// The outcome of scanning a path parameter name.
pub ghost enum NameScan {
    /// The name ends at the `}` at the given position.
    Closed(int),
    /// The given character may not appear in the name at that point.
    Invalid(char),
    /// The input ended before a `}`.
    Unclosed,
}

/// Scans a path parameter name that starts at `start`, from position `j`: letters and `_`
/// anywhere, digits anywhere but first.
pub open spec fn scan_name(s: Seq<char>, start: int, j: int) -> NameScan
    decreases s.len() - j,
{
    if j < 0 || j >= s.len() {
        NameScan::Unclosed
    } else if s[j] == '}' {
        NameScan::Closed(j)
    } else if is_name_start(s[j]) || (is_ascii_digit(s[j]) && j > start) {
        scan_name(s, start, j + 1)
    } else {
        NameScan::Invalid(s[j])
    }
}

pub proof fn lemma_scan_name_bounds(s: Seq<char>, start: int, j: int)
    requires
        0 <= start <= j,
    ensures
        scan_name(s, start, j) matches NameScan::Closed(k) ==> j <= k < s.len() && s[k] == '}'
            && forall|m: int|
            j <= m < k ==> is_name_start(#[trigger] s[m]) || (is_ascii_digit(s[m]) && m > start),
    decreases s.len() - j,
{
    if 0 <= j < s.len() && s[j] != '}' && (is_name_start(s[j]) || (is_ascii_digit(s[j]) && j
        > start)) {
        lemma_scan_name_bounds(s, start, j + 1);
    }
}

/// The pending literal `s[last..i]`, if not empty, is appended to the elements.
pub open spec fn flush_lit(s: Seq<char>, acc: Seq<Elem>, last: int, i: int) -> Seq<Elem> {
    if last < i {
        acc.push(Elem::Lit(s.subrange(last, i)))
    } else {
        acc
    }
}

/// The scanner that defines how a URL is parsed: `i` is the current position, `last` the start
/// of the pending literal and `acc` the elements found so far.
pub open spec fn url_scan(s: Seq<char>, i: int, last: int, acc: Seq<Elem>) -> Result<
    Seq<Elem>,
    UrlParseError,
>
    decreases s.len() - i,
{
    if i < 0 || i >= s.len() {
        Ok(flush_lit(s, acc, last, s.len() as int))
    } else {
        let c = s[i];
        if c == '/' {
            url_scan(s, i + 1, i + 1, flush_lit(s, acc, last, i).push(Elem::Slash))
        } else if c == '{' {
            proof {
                lemma_scan_name_bounds(s, i + 1, i + 1);
            }
            match scan_name(s, i + 1, i + 1) {
                NameScan::Closed(end) => url_scan(
                    s,
                    end + 1,
                    end + 1,
                    flush_lit(s, acc, last, i).push(
                        if end == i + 1 {
                            Elem::Unnamed
                        } else {
                            Elem::Named(s.subrange(i + 1, end))
                        },
                    ),
                ),
                NameScan::Invalid(ch) => Err(UrlParseError::InvalidParameterCharacter { character: ch }),
                NameScan::Unclosed => Err(UrlParseError::UnmatchedBrace),
            }
        } else if is_forbidden(c) {
            Err(UrlParseError::InvalidCharacter { character: c })
        } else {
            url_scan(s, i + 1, last, acc)
        }
    }
}

/// The result of parsing the characters of a URL.
pub open spec fn spec_parse_url(s: Seq<char>) -> Result<Seq<Elem>, UrlParseError> {
    if !all_ascii(s) {
        Err(UrlParseError::NotAscii)
    } else if s.len() == 0 || s[0] != '/' {
        Err(UrlParseError::NoLeadingSlash)
    } else {
        url_scan(s, 1, 1, seq![Elem::Slash])
    }
}

/// The textual form of one element.
pub open spec fn elem_text(e: Elem) -> Seq<char> {
    match e {
        Elem::Slash => seq!['/'],
        Elem::Lit(l) => l,
        Elem::Named(n) => seq!['{'] + n + seq!['}'],
        Elem::Unnamed => seq!['{', '}'],
    }
}

/// The textual form of a URL, as written by its `Display` implementation.
pub open spec fn url_display(u: Seq<Elem>) -> Seq<char>
    decreases u.len(),
{
    if u.len() == 0 {
        Seq::empty()
    } else {
        url_display(u.drop_last()) + elem_text(u.last())
    }
}

proof fn lemma_elems_view_push(v: Seq<UrlElement>, x: UrlElement)
    ensures
        elems_view(v.push(x)) == elems_view(v).push(x@),
{
    assert(elems_view(v.push(x)) =~= elems_view(v).push(x@));
}

/// Appends the pending literal `cs[last..i]`, if not empty.
fn flush_literal(elements: &mut Vec<UrlElement>, cs: &[char], last: usize, i: usize)
    requires
        last <= i <= cs@.len(),
    ensures
        elems_view(final(elements)@) == flush_lit(cs@, elems_view(old(elements)@), last as int, i as int),
{
    if last < i {
        let literal = string_from_range(cs, last, i);
        let ghost before = elements@;
        elements.push(UrlElement::Literal(literal));
        proof {
            lemma_elems_view_push(before, UrlElement::Literal(literal));
        }
    }
}

/// The message of a URL error. Characters are shown by their code.
pub open spec fn url_error_message(e: UrlParseError) -> Seq<char> {
    match e {
        UrlParseError::NotAscii => "URL must be ASCII"@,
        UrlParseError::NoLeadingSlash => "URL must start with `/`"@,
        UrlParseError::InvalidParameterCharacter { character } => "invalid character `"@
            + decimal(character as nat) + "` in path parameter name"@,
        UrlParseError::UnmatchedBrace => "unmatched `{`"@,
        UrlParseError::InvalidCharacter { character } => "invalid character `"@ + decimal(
            character as nat,
        ) + "` in URL"@,
    }
}

impl UrlParseError {
    /// The message of the error. Characters are shown by their code.
    pub fn to_string(&self) -> (res: String)
        ensures
            res@ == url_error_message(*self),
    {
        match self {
            UrlParseError::NotAscii => String::from_str("URL must be ASCII"),
            UrlParseError::NoLeadingSlash => String::from_str("URL must start with `/`"),
            UrlParseError::InvalidParameterCharacter { character } => {
                let mut res = String::from_str("invalid character `");
                let code = u64_to_decimal(*character as u64);
                push_str(&mut res, code.as_str());
                push_str(&mut res, "` in path parameter name");
                res
            },
            UrlParseError::UnmatchedBrace => String::from_str("unmatched `{`"),
            UrlParseError::InvalidCharacter { character } => {
                let mut res = String::from_str("invalid character `");
                let code = u64_to_decimal(*character as u64);
                push_str(&mut res, code.as_str());
                push_str(&mut res, "` in URL");
                res
            },
        }
    }
}

impl Url {
    /// Parses an URL from a string.
    ///
    /// The URL must be a valid ASCII string and may contain named `{name}` or unnamed `{}` path
    /// arguments.
    pub fn from_str(s: &str) -> (res: Result<Url, UrlParseError>)
        ensures
            match res {
                Ok(u) => spec_parse_url(s@) == Ok::<Seq<Elem>, UrlParseError>(u@),
                Err(e) => spec_parse_url(s@) == Err::<Seq<Elem>, UrlParseError>(e),
            },
    {
        let cs = chars_of(s);
        let n = cs.len();
        let mut k: usize = 0;
        while k < n
            invariant
                n == cs@.len(),
                cs@ == s@,
                k <= n,
                forall|m: int| 0 <= m < k ==> (#[trigger] cs@[m] as u32) < 128,
            decreases n - k,
        {
            if (cs[k] as u32) >= 128 {
                assert(!((s@[k as int] as u32) < 128));
                return Err(UrlParseError::NotAscii);
            }
            k += 1;
        }
        if n == 0 || cs[0] != '/' {
            return Err(UrlParseError::NoLeadingSlash);
        }
        let mut elements: Vec<UrlElement> = Vec::new();
        elements.push(UrlElement::Slash);
        assert(elems_view(elements@) =~= seq![Elem::Slash]);
        let mut i: usize = 1;
        let mut last: usize = 1;
        while i < n
            invariant
                n == cs@.len(),
                cs@ == s@,
                all_ascii(s@),
                n > 0 && cs@[0] == '/',
                1 <= last <= i <= n,
                spec_parse_url(s@) == url_scan(cs@, i as int, last as int, elems_view(elements@)),
            decreases n - i,
        {
            let c = cs[i];
            if c == '/' {
                flush_literal(&mut elements, cs.as_slice(), last, i);
                let ghost before = elements@;
                elements.push(UrlElement::Slash);
                proof {
                    lemma_elems_view_push(before, UrlElement::Slash);
                }
                i += 1;
                last = i;
            } else if c == '{' {
                let ghost acc0 = elems_view(elements@);
                flush_literal(&mut elements, cs.as_slice(), last, i);
                let start = i + 1;
                let mut end = start;
                while end < n && cs[end] != '}'
                    invariant
                        n == cs@.len(),
                        start == i + 1,
                        i < n,
                        start <= end <= n,
                        cs@ == s@,
                        cs@[i as int] == '{',
                        spec_parse_url(s@) == url_scan(cs@, i as int, last as int, acc0),
                        scan_name(cs@, start as int, start as int) == scan_name(
                            cs@,
                            start as int,
                            end as int,
                        ),
                    decreases n - end,
                {
                    let d = cs[end];
                    if d == '_' || ('a' <= d && d <= 'z') || ('A' <= d && d <= 'Z') || ('0' <= d && d
                        <= '9' && end > start) {
                        end += 1;
                    } else {
                        return Err(UrlParseError::InvalidParameterCharacter { character: d });
                    }
                }
                if end == n {
                    return Err(UrlParseError::UnmatchedBrace);
                }
                let ghost before = elements@;
                if end == start {
                    elements.push(UrlElement::UnnamedPathParameter);
                    proof {
                        lemma_elems_view_push(before, UrlElement::UnnamedPathParameter);
                    }
                } else {
                    let name = string_from_range(cs.as_slice(), start, end);
                    elements.push(UrlElement::NamedPathParameter(name));
                    proof {
                        lemma_elems_view_push(before, UrlElement::NamedPathParameter(name));
                    }
                }
                i = end + 1;
                last = i;
            } else if c == ' ' || c == '\t' || c == '\r' || c == '\n' || c == '}' || c == '<' || c
                == '>' || c == '^' {
                return Err(UrlParseError::InvalidCharacter { character: c });
            } else {
                i += 1;
            }
        }
        flush_literal(&mut elements, cs.as_slice(), last, n);
        Ok(Url(elements))
    }

    /// The elements of this URL.
    pub fn elements(&self) -> (res: &[UrlElement])
        ensures
            res@ == self.0@,
    {
        self.0.as_slice()
    }

    /// The textual form of the URL, as written by its `Display` implementation.
    pub fn to_string(&self) -> (res: String)
        ensures
            res@ == url_display(self@),
    {
        let mut res = String::new();
        let mut i: usize = 0;
        while i < self.0.len()
            invariant
                i <= self.0@.len(),
                res@ == url_display(self@.take(i as int)),
            decreases self.0@.len() - i,
        {
            let ghost before = res@;
            match &self.0[i] {
                UrlElement::Slash => push_char(&mut res, '/'),
                UrlElement::Literal(s) => push_str(&mut res, s.as_str()),
                UrlElement::NamedPathParameter(name) => {
                    push_char(&mut res, '{');
                    push_str(&mut res, name.as_str());
                    push_char(&mut res, '}');
                },
                UrlElement::UnnamedPathParameter => {
                    push_char(&mut res, '{');
                    push_char(&mut res, '}');
                },
            }
            proof {
                assert(self@.take(i + 1).drop_last() =~= self@.take(i as int));
                assert(res@ =~= before + elem_text(self@[i as int]));
            }
            i += 1;
        }
        assert(self@.take(self.0@.len() as int) =~= self@);
        res
    }
}

} // verus!
