//! Route URL templates, such as `/users/{user_id}/posts`.
//!
//! A route URL is parsed into a sequence of segments (separators, literals and named path
//! parameters). From that sequence the library derives the textual form of the URL, the regular
//! expression that matches request paths, and the statements that format a concrete URL.

use vstd::prelude::*;
use vstd::string::StringSliceAdditionalSpecFns;
use vstd::utf8::{encode_utf8, encode_scalar, decode_utf8, is_char_boundary, valid_utf8, is_continuation_byte};
use crate::text::{chars_of, string_from_range, push_char, push_str, is_ascii_alnum};

verus! {

broadcast use vstd::seq::group_seq_axioms;

/// A route URL segment.
///
/// This type represents a segment of a route URL path, which can be either a slash separator, a
/// static segment, or a path parameter.
#[derive(Debug, Clone)]
pub enum RouteUrlSegment {
    /// A slash separator.
    Separator,
    /// A path parameter.
    Parameter {
        /// The name of the parameter and its identifier.
        name: String,
    },
    /// A static segment.
    Literal(String),
}

/// The mathematical model of a route URL segment.
pub ghost enum Seg {
    Sep,
    Param(Seq<char>),
    Lit(Seq<char>),
}

impl View for RouteUrlSegment {
    type V = Seg;

    open spec fn view(&self) -> Seg {
        match self {
            RouteUrlSegment::Separator => Seg::Sep,
            RouteUrlSegment::Parameter { name } => Seg::Param(name@),
            RouteUrlSegment::Literal(s) => Seg::Lit(s@),
        }
    }
}

/// The models of a sequence of segments.
pub open spec fn segs_view(v: Seq<RouteUrlSegment>) -> Seq<Seg> {
    v.map_values(|x: RouteUrlSegment| x@)
}

/// A route URL.
#[derive(Debug, Clone)]
pub struct RouteUrl(pub Vec<RouteUrlSegment>);

impl View for RouteUrl {
    type V = Seq<Seg>;

    open spec fn view(&self) -> Seq<Seg> {
        segs_view(self.0@)
    }
}

/// An error that can occur when parsing a route URL.
#[derive(Debug, Clone, Copy, PartialEq, Eq, Structural)]
pub enum ParseError {
    /// The route URL does not start with a slash.
    NoLeadingSlash,
    /// The path contains an invalid character.
    UnexpectedCharacter {
        /// The position at which the invalid character was found.
        position: usize,
        /// The invalid character.
        character: char,
    },
    /// A path parameter is not allowed here.
    ParameterNotAllowed {
        /// The position at which the path parameter was found.
        position: usize,
    },
    /// A path parameter contains an invalid character.
    InvalidParameterCharacter {
        /// The position at which the path parameter was opened.
        start: usize,
        /// The position at which the invalid character was found.
        position: usize,
        /// The invalid character.
        character: char,
    },
    /// A path parameter is not closed.
    UnclosedParameter {
        /// The position at which the path parameter was opened.
        start: usize,
        /// The end position.
        end: usize,
    },
}

/// Whether a character may appear in a URL path, as per RFC 3986: A–Z, a–z, 0–9, `-`, `.`,
/// `_`, `~`, `!`, `$`, `&`, `'`, `(`, `)`, `*`, `+`, `,`, `;`, `=`, `:`, `@`, as well as `%` and `/`.
pub open spec fn is_url_path_char(c: char) -> bool {
    ('A' <= c <= 'Z') || ('a' <= c <= 'z') || ('0' <= c <= '9') || c == '-' || c == '.' || c == '_'
        || c == '~' || c == '!' || c == '$' || c == '&' || c == '\'' || c == '(' || c == ')'
        || c == '*' || c == '+' || c == ',' || c == ';' || c == '=' || c == ':' || c == '@'
        || c == '%' || c == '/'
}

/// Returns whether a character is a valid URL path character.
pub fn is_valid_url_path_character(c: char) -> (res: bool)
    ensures
        res == is_url_path_char(c),
{
    ('A' <= c && c <= 'Z') || ('a' <= c && c <= 'z') || ('0' <= c && c <= '9') || c == '-'
        || c == '.' || c == '_' || c == '~' || c == '!' || c == '$' || c == '&' || c == '\''
        || c == '(' || c == ')' || c == '*' || c == '+' || c == ',' || c == ';' || c == '='
        || c == ':' || c == '@' || c == '%' || c == '/'
}

/// Whether a character is alphanumeric in the Unicode sense, as `char::is_alphanumeric` says.
pub uninterp spec fn char_alphanumeric(c: char) -> bool;

/// Whether a character is alphanumeric: `char::is_alphanumeric`, whose result is named
/// `char_alphanumeric` (alphabetic or numeric in the Unicode sense). Among ASCII characters,
/// exactly the letters and digits are alphabetic or numeric.
#[verifier::external_body]
fn is_alphanumeric(c: char) -> (res: bool)
    ensures
        res == char_alphanumeric(c),
        (c as u32) < 128 ==> (res <==> is_ascii_alnum(c)),
{
    c.is_alphanumeric()
}

/// Characters allowed in a path parameter name: alphanumerics and `_`; the closing `}` ends the
/// name.
pub open spec fn is_param_char(c: char) -> bool {
    c != '}' && (c == '_' || if (c as u32) < 128 {
        is_ascii_alnum(c)
    } else {
        char_alphanumeric(c)
    })
}

/// Characters allowed in a literal segment.
pub open spec fn is_literal_char(c: char) -> bool {
    is_url_path_char(c) && c != '/'
}

/// The outcome of scanning a path parameter name.
pub ghost enum ParamScan {
    /// The name is closed by a `}` at the given position.
    Closed(int),
    /// An invalid character was found at the given position.
    Invalid(int, char),
    /// The input ended before the name was closed.
    Unclosed,
}

/// Scans a path parameter name starting at position `j`.
pub open spec fn scan_param(s: Seq<char>, j: int) -> ParamScan
    decreases s.len() - j,
{
    if j < 0 || j >= s.len() {
        ParamScan::Unclosed
    } else if s[j] == '}' {
        ParamScan::Closed(j)
    } else if !is_param_char(s[j]) {
        ParamScan::Invalid(j, s[j])
    } else {
        scan_param(s, j + 1)
    }
}

/// The pending literal, if any, is appended to the segments.
pub open spec fn flush(s: Seq<char>, segs: Seq<Seg>, start: Option<int>, i: int) -> Seq<Seg> {
    match start {
        Some(st) => segs.push(Seg::Lit(s.subrange(st, i))),
        None => segs,
    }
}

pub proof fn lemma_scan_param_bounds(s: Seq<char>, j: int)
    ensures
        scan_param(s, j) matches ParamScan::Closed(k) ==> j <= k < s.len() && s[k] == '}'
            && forall|m: int| j <= m < k ==> is_param_char(#[trigger] s[m]),
        scan_param(s, j) matches ParamScan::Invalid(k, c) ==> j <= k < s.len() && s[k] == c
            && !is_param_char(c),
    decreases s.len() - j,
{
    if 0 <= j < s.len() && s[j] != '}' && is_param_char(s[j]) {
        lemma_scan_param_bounds(s, j + 1);
    }
}

/// The scanner that defines how a route URL is parsed: `i` is the current position, `segs` the
/// segments found so far and `start` the start of the pending literal.
pub open spec fn scan(s: Seq<char>, i: int, segs: Seq<Seg>, start: Option<int>) -> Result<
    Seq<Seg>,
    ParseError,
>
    decreases s.len() - i,
{
    if i < 0 || i >= s.len() {
        Ok(flush(s, segs, start, s.len() as int))
    } else {
        let c = s[i];
        if c == '/' {
            scan(s, i + 1, flush(s, segs, start, i).push(Seg::Sep), None)
        } else if c == '{' {
            if start is Some || segs.len() == 0 || segs.last() != Seg::Sep {
                Err(ParseError::ParameterNotAllowed { position: i as usize })
            } else {
                proof {
                    lemma_scan_param_bounds(s, i + 1);
                }
                match scan_param(s, i + 1) {
                    ParamScan::Closed(stop) => scan(
                        s,
                        stop + 1,
                        segs.push(Seg::Param(s.subrange(i + 1, stop))),
                        None,
                    ),
                    ParamScan::Invalid(p, ch) => Err(
                        ParseError::InvalidParameterCharacter {
                            start: (i + 1) as usize,
                            position: p as usize,
                            character: ch,
                        },
                    ),
                    ParamScan::Unclosed => Err(
                        ParseError::UnclosedParameter {
                            start: i as usize,
                            end: (encode_utf8(s).len() - 1) as usize,
                        },
                    ),
                }
            }
        } else if is_url_path_char(c) {
            scan(s, i + 1, segs, if start is None { Some(i) } else { start })
        } else {
            Err(ParseError::UnexpectedCharacter { position: i as usize, character: c })
        }
    }
}

/// The result of parsing the characters of a route URL.
pub open spec fn spec_parse(s: Seq<char>) -> Result<Seq<Seg>, ParseError> {
    if s.len() == 0 || s[0] != '/' {
        Err(ParseError::NoLeadingSlash)
    } else {
        scan(s, 1, seq![Seg::Sep], None)
    }
}

/// The textual form of one segment.
pub open spec fn seg_text(g: Seg) -> Seq<char> {
    match g {
        Seg::Sep => seq!['/'],
        Seg::Lit(l) => l,
        Seg::Param(n) => seq!['{'] + n + seq!['}'],
    }
}

/// The textual form of a route URL, as written by its `Display` implementation.
pub open spec fn display(segs: Seq<Seg>) -> Seq<char>
    decreases segs.len(),
{
    if segs.len() == 0 {
        Seq::empty()
    } else {
        display(segs.drop_last()) + seg_text(segs.last())
    }
}

impl RouteUrlSegment {
    fn is_separator(&self) -> (res: bool)
        ensures
            res == (self@ == Seg::Sep),
    {
        match self {
            RouteUrlSegment::Separator => true,
            _ => false,
        }
    }
}

proof fn lemma_segs_view_push(v: Seq<RouteUrlSegment>, x: RouteUrlSegment)
    ensures
        segs_view(v.push(x)) == segs_view(v).push(x@),
{
    assert(segs_view(v.push(x)) =~= segs_view(v).push(x@));
}

impl RouteUrl {
    /// Parses a route URL.
    pub fn parse(s: &str) -> (res: Result<RouteUrl, ParseError>)
        ensures
            match res {
                Ok(u) => spec_parse(s@) == Ok::<Seq<Seg>, ParseError>(u@),
                Err(e) => spec_parse(s@) == Err::<Seq<Seg>, ParseError>(e),
            },
    {
        let cs = chars_of(s);
        let n = cs.len();
        if n == 0 || cs[0] != '/' {
            return Err(ParseError::NoLeadingSlash);
        }
        let blen = s.as_bytes().len();
        assert(encode_utf8(s@) =~= encode_scalar(s@[0] as u32) + encode_utf8(s@.drop_first()));
        assert(blen >= 1);
        let mut segments: Vec<RouteUrlSegment> = Vec::new();
        segments.push(RouteUrlSegment::Separator);
        assert(segs_view(segments@) =~= seq![Seg::Sep]);
        let mut start: Option<usize> = None;
        let mut i: usize = 1;
        while i < n
            invariant
                n == cs@.len(),
                cs@ == s@,
                blen == encode_utf8(s@).len(),
                blen >= 1,
                1 <= i <= n,
                n > 0 && cs@[0] == '/',
                segments@.len() >= 1,
                start matches Some(st) ==> st < i,
                spec_parse(s@) == scan(
                    cs@,
                    i as int,
                    segs_view(segments@),
                    match start {
                        Some(st) => Some(st as int),
                        None => None,
                    },
                ),
            decreases n - i,
        {
            let ghost gstart: Option<int> = match start {
                Some(st) => Some(st as int),
                None => None,
            };
            let c = cs[i];
            if c == '/' {
                if let Some(st) = start {
                    let lit = string_from_range(cs.as_slice(), st, i);
                    let ghost before = segments@;
                    segments.push(RouteUrlSegment::Literal(lit));
                    proof {
                        lemma_segs_view_push(before, RouteUrlSegment::Literal(lit));
                    }
                }
                let ghost before = segments@;
                segments.push(RouteUrlSegment::Separator);
                proof {
                    lemma_segs_view_push(before, RouteUrlSegment::Separator);
                }
                start = None;
                i += 1;
            } else if c == '{' {
                if start.is_some() {
                    return Err(ParseError::ParameterNotAllowed { position: i });
                }
                let last = segments.len() - 1;
                if !segments[last].is_separator() {
                    return Err(ParseError::ParameterNotAllowed { position: i });
                }
                assert(segs_view(segments@).last() == segments@[last as int]@);
                let pstart = i + 1;
                let mut j = pstart;
                while j < n && cs[j] != '}'
                    invariant
                        n == cs@.len(),
                        pstart <= j <= n,
                        pstart == i + 1,
                        i < n,
                        cs@ == s@,
                        cs@[i as int] == '{',
                        blen == encode_utf8(s@).len(),
                        blen >= 1,
                        segments@.len() >= 1,
                        segs_view(segments@).last() == Seg::Sep,
                        spec_parse(s@) == scan(cs@, i as int, segs_view(segments@), None),
                        scan_param(cs@, pstart as int) == scan_param(cs@, j as int),
                        forall|k: int| pstart <= k < j ==> is_param_char(#[trigger] cs@[k]),
                    decreases n - j,
                {
                    let d = cs[j];
                    if !(is_alphanumeric(d) || d == '_') {
                        assert(scan_param(cs@, j as int) == ParamScan::Invalid(j as int, d));
                        return Err(
                            ParseError::InvalidParameterCharacter {
                                start: pstart,
                                position: j,
                                character: d,
                            },
                        );
                    }
                    j += 1;
                }
                if j == n {
                    assert(scan_param(cs@, j as int) == ParamScan::Unclosed);
                    return Err(ParseError::UnclosedParameter { start: i, end: blen - 1 });
                }
                assert(scan_param(cs@, j as int) == ParamScan::Closed(j as int));
                let name = string_from_range(cs.as_slice(), pstart, j);
                let ghost before = segments@;
                segments.push(RouteUrlSegment::Parameter { name });
                proof {
                    lemma_segs_view_push(before, RouteUrlSegment::Parameter { name });
                }
                i = j + 1;
            } else if is_valid_url_path_character(c) {
                if start.is_none() {
                    start = Some(i);
                }
                i += 1;
            } else {
                return Err(ParseError::UnexpectedCharacter { position: i, character: c });
            }
        }
        if let Some(st) = start {
            let lit = string_from_range(cs.as_slice(), st, n);
            let ghost before = segments@;
            segments.push(RouteUrlSegment::Literal(lit));
            proof {
                lemma_segs_view_push(before, RouteUrlSegment::Literal(lit));
            }
        }
        Ok(RouteUrl(segments))
    }
}

} // verus!

verus! {

/// The regular-expression piece that matches one segment.
pub open spec fn regex_piece(g: Seg) -> Seq<char> {
    match g {
        Seg::Sep => seq!['/'],
        Seg::Lit(l) => l,
        Seg::Param(n) => "(?P<"@ + n + ">[^/]+)"@,
    }
}

/// The regular expression pieces of all segments, concatenated.
pub open spec fn regex_body(segs: Seq<Seg>) -> Seq<char>
    decreases segs.len(),
{
    if segs.len() == 0 {
        Seq::empty()
    } else {
        regex_body(segs.drop_last()) + regex_piece(segs.last())
    }
}

/// The regular expression matching request paths for a route URL; a prefix route also captures
/// the remainder of the path as `subroute`.
pub open spec fn path_regex(segs: Seq<Seg>, is_prefix: bool) -> Seq<char> {
    regex_body(segs) + (if is_prefix { "(?P<subroute>/.*)"@ } else { Seq::empty() }) + "$"@
}

/// The inclusive range of character positions that an error points at.
pub open spec fn error_range(e: ParseError) -> (int, int) {
    match e {
        ParseError::NoLeadingSlash => (0, 0),
        ParseError::UnexpectedCharacter { position, .. } => (position as int, position as int),
        ParseError::ParameterNotAllowed { position } => (position as int, position as int),
        ParseError::InvalidParameterCharacter { start, position, .. } => (
            start as int,
            position as int,
        ),
        ParseError::UnclosedParameter { start, end } => (start as int, end as int),
    }
}

/// The text `s` with the bytes `[a, b]` of its UTF-8 encoding surrounded by carets, read back as
/// characters.
pub open spec fn marked_at_bytes(s: Seq<char>, a: int, b: int) -> Seq<char> {
    let bs = encode_utf8(s);
    decode_utf8(bs.subrange(0, a)) + seq!['^'] + decode_utf8(bs.subrange(a, b + 1)) + seq!['^']
        + decode_utf8(bs.subrange(b + 1, bs.len() as int))
}

/// The message of a route URL error, as its `Display` implementation writes it.
pub open spec fn error_message(e: ParseError) -> Seq<char> {
    match e {
        ParseError::NoLeadingSlash => "the route URL does not start with a slash"@,
        ParseError::UnexpectedCharacter { character, .. } =>
            "the path contains an unexpected character (`"@ + seq![character] + "`)"@,
        ParseError::ParameterNotAllowed { .. } =>
            "a path parameter can only appear directly after a slash separator"@,
        ParseError::InvalidParameterCharacter { character, .. } =>
            "the path parameter contains an invalid character (`"@ + seq![character] + "`)"@,
        ParseError::UnclosedParameter { .. } => "the path parameter is not closed"@,
    }
}

impl ParseError {
    /// The message of the error, as its `Display` implementation writes it.
    pub fn to_string(&self) -> (res: String)
        ensures
            res@ == error_message(*self),
    {
        match self {
            ParseError::NoLeadingSlash => String::from_str("the route URL does not start with a slash"),
            ParseError::UnexpectedCharacter { character, .. } => {
                let mut res = String::from_str("the path contains an unexpected character (`");
                push_char(&mut res, *character);
                push_str(&mut res, "`)");
                res
            },
            ParseError::ParameterNotAllowed { .. } => String::from_str(
                "a path parameter can only appear directly after a slash separator",
            ),
            ParseError::InvalidParameterCharacter { character, .. } => {
                let mut res = String::from_str("the path parameter contains an invalid character (`");
                push_char(&mut res, *character);
                push_str(&mut res, "`)");
                res
            },
            ParseError::UnclosedParameter { .. } => String::from_str("the path parameter is not closed"),
        }
    }

    /// Returns the range of characters that caused the error.
    pub fn range(&self) -> (res: std::ops::RangeInclusive<usize>)
        ensures
            res@.start == error_range(*self).0,
            res@.end == error_range(*self).1,
            res@.exhausted == false,
    {
        let (a, b) = self.bounds();
        std::ops::RangeInclusive::new(a, b)
    }

    fn bounds(&self) -> (res: (usize, usize))
        ensures
            res.0 == error_range(*self).0,
            res.1 == error_range(*self).1,
    {
        match self {
            ParseError::NoLeadingSlash => (0, 0),
            ParseError::UnexpectedCharacter { position, .. } => (*position, *position),
            ParseError::ParameterNotAllowed { position } => (*position, *position),
            ParseError::InvalidParameterCharacter { start, position, .. } => (*start, *position),
            ParseError::UnclosedParameter { start, end } => (*start, *end),
        }
    }

    /// Get a detailed error message with the specific position of the error: the offending
    /// range of `s`, taken as byte offsets, is surrounded with carets.
    ///
    /// The range must lie within `s`, and its start and the byte after its end must be
    /// character boundaries.
    pub fn detail(&self, s: &str) -> (res: String)
        requires
            error_range(*self).0 <= error_range(*self).1 + 1,
            error_range(*self).1 < s.spec_bytes().len() <= usize::MAX,
            is_char_boundary(s.spec_bytes(), error_range(*self).0),
            is_char_boundary(s.spec_bytes(), error_range(*self).1 + 1),
        ensures
            res@ == marked_at_bytes(s@, error_range(*self).0, error_range(*self).1),
    {
        broadcast use vstd::utf8::group_utf8_lib;

        let (a, b) = self.bounds();
        let ghost bs = s.spec_bytes();
        let (p1, rest) = s.split_at(a);
        let ghost rb = rest.spec_bytes();
        let k = b + 1 - a;
        proof {
            assert(valid_utf8(rb));
            if k < rb.len() {
                assert(rb[k as int] == bs[b + 1]);
                assert(!is_continuation_byte(bs[b + 1]));
                assert(is_char_boundary(rb, k as int));
            } else {
                assert(k as int == rb.len());
                assert(is_char_boundary(rb, rb.len() as int));
            }
        }
        let (p2, p3) = rest.split_at(k);
        let mut res = p1.to_owned();
        push_char(&mut res, '^');
        push_str(&mut res, p2);
        push_char(&mut res, '^');
        push_str(&mut res, p3);
        proof {
            assert(rb.subrange(0, k as int) =~= bs.subrange(a as int, b + 1));
            assert(rb.subrange(k as int, rb.len() as int) =~= bs.subrange(b + 1, bs.len() as int));
            assert(decode_utf8(encode_utf8(p1@)) == p1@);
            assert(decode_utf8(encode_utf8(p2@)) == p2@);
            assert(decode_utf8(encode_utf8(p3@)) == p3@);
            assert(res@ =~= p1@ + seq!['^'] + p2@ + seq!['^'] + p3@);
        }
        res
    }
}

impl std::str::FromStr for RouteUrl {
    type Err = ParseError;

    /// Parses a route URL from a string.
    fn from_str(s: &str) -> (res: Result<Self, Self::Err>)
        ensures
            match res {
                Ok(u) => spec_parse(s@) == Ok::<Seq<Seg>, ParseError>(u@),
                Err(e) => spec_parse(s@) == Err::<Seq<Seg>, ParseError>(e),
            },
    {
        RouteUrl::parse(s)
    }
}

impl RouteUrl {
    /// The segments of this route URL.
    pub fn segments(&self) -> (res: &[RouteUrlSegment])
        ensures
            res@ == self.0@,
    {
        self.0.as_slice()
    }

    /// The textual form of the route URL, as written by its `Display` implementation.
    pub fn to_string(&self) -> (res: String)
        ensures
            res@ == display(self@),
    {
        let mut res = String::new();
        let mut i: usize = 0;
        while i < self.0.len()
            invariant
                i <= self.0@.len(),
                res@ == display(self@.take(i as int)),
            decreases self.0@.len() - i,
        {
            let ghost before = res@;
            match &self.0[i] {
                RouteUrlSegment::Separator => push_char(&mut res, '/'),
                RouteUrlSegment::Literal(s) => push_str(&mut res, s.as_str()),
                RouteUrlSegment::Parameter { name } => {
                    push_char(&mut res, '{');
                    push_str(&mut res, name.as_str());
                    push_char(&mut res, '}');
                },
            }
            proof {
                assert(self@.take(i + 1).drop_last() =~= self@.take(i as int));
                assert(res@ =~= before + seg_text(self@[i as int]));
            }
            i += 1;
        }
        assert(self@.take(self.0@.len() as int) =~= self@);
        res
    }

    /// Get a regular expression matching request paths for this route URL.
    ///
    /// Path parameters become named capture groups; a prefix route also captures the rest of the
    /// path, starting with a slash, as `subroute`.
    pub fn to_path_regex(&self, is_prefix: bool) -> (res: String)
        ensures
            res@ == path_regex(self@, is_prefix),
    {
        let mut res = String::new();
        let mut i: usize = 0;
        while i < self.0.len()
            invariant
                i <= self.0@.len(),
                res@ == regex_body(self@.take(i as int)),
            decreases self.0@.len() - i,
        {
            let ghost before = res@;
            match &self.0[i] {
                RouteUrlSegment::Separator => push_char(&mut res, '/'),
                RouteUrlSegment::Literal(s) => push_str(&mut res, s.as_str()),
                RouteUrlSegment::Parameter { name } => {
                    push_str(&mut res, "(?P<");
                    push_str(&mut res, name.as_str());
                    push_str(&mut res, ">[^/]+)");
                },
            }
            proof {
                assert(self@.take(i + 1).drop_last() =~= self@.take(i as int));
                assert(res@ =~= before + regex_piece(self@[i as int]));
            }
            i += 1;
        }
        assert(self@.take(self.0@.len() as int) =~= self@);
        let ghost body = res@;
        if is_prefix {
            push_str(&mut res, "(?P<subroute>/.*)");
        }
        push_str(&mut res, "$");
        assert(res@ =~= path_regex(self@, is_prefix));
        res
    }
}

} // verus!
