//! HTMX responses: a main body, HTTP headers (among them the HTMX response headers) and
//! out-of-band inserts appended to the body.

use vstd::prelude::*;
use crate::htmx::{InsertStrategy, Strategy, Fragment, HtmlId, is_valid_identifier};
use crate::oob::{inject_oob_attribute, oob_markup, fragment_nodes};
use crate::text::{chars_of, push_char, push_str, str_eq};

verus! {

broadcast use vstd::seq::group_seq_axioms;

/// Whether the characters of a text may stand in an HTTP header value: no control character but
/// the tab. Characters beyond ASCII are encoded as bytes of 128 and above, which are allowed.
pub open spec fn valid_header_text(s: Seq<char>) -> bool {
    forall|i: int| 0 <= i < s.len() ==> ((#[trigger] s[i] as u32) >= 32 && s[i] as u32 != 127) || s[i] == '\t'
}

/// Whether a text is a valid HTTP header value.
pub fn is_valid_header_text(s: &str) -> (res: bool)
    ensures
        res == valid_header_text(s@),
{
    let cs = chars_of(s);
    let mut i: usize = 0;
    while i < cs.len()
        invariant
            cs@ == s@,
            i <= cs@.len(),
            forall|j: int| 0 <= j < i ==> ((#[trigger] cs@[j] as u32) >= 32 && cs@[j] as u32 != 127) || cs@[j] == '\t',
        decreases cs@.len() - i,
    {
        let c = cs[i] as u32;
        if !((c >= 32 && c != 127) || cs[i] == '\t') {
            return false;
        }
        i += 1;
    }
    true
}

/// The JSON string literal of a text, as `serde_json` writes it: quotes around the text, with
/// `"` and `\` escaped by a backslash, the control characters backspace, tab, line feed, form
/// feed and carriage return written `\b`, `\t`, `\n`, `\f` and `\r`, and the other control
/// characters below U+0020 written `\u00xx` in lowercase hexadecimal.
pub open spec fn json_quoted(s: Seq<char>) -> Seq<char> {
    seq!['"'] + json_escaped(s) + seq!['"']
}

/// The escaped characters of a JSON string literal.
pub open spec fn json_escaped(s: Seq<char>) -> Seq<char>
    decreases s.len(),
{
    if s.len() == 0 {
        Seq::empty()
    } else {
        json_escaped(s.drop_last()) + json_char(s.last())
    }
}

/// The JSON form of one character inside a string literal.
pub open spec fn json_char(c: char) -> Seq<char> {
    let u = c as u32;
    if c == '"' {
        seq!['\\', '"']
    } else if c == '\\' {
        seq!['\\', '\\']
    } else if u == 8 {
        seq!['\\', 'b']
    } else if u == 9 {
        seq!['\\', 't']
    } else if u == 10 {
        seq!['\\', 'n']
    } else if u == 12 {
        seq!['\\', 'f']
    } else if u == 13 {
        seq!['\\', 'r']
    } else if u < 32 {
        seq!['\\', 'u', '0', '0', crate::caching::hex_char(u as int / 16), crate::caching::hex_char(u as int % 16)]
    } else {
        seq![c]
    }
}

/// The JSON string literal of a text.
///
/// Trusted: calls `serde_json::to_string` on the text, whose serializer writes the escapes
/// that `json_quoted` lists (its `ESCAPE` table); serializing a string cannot fail.
#[verifier::external_body]
fn json_string(s: &str) -> (res: String)
    ensures
        res@ == json_quoted(s@),
{
    match serde_json::to_string(s) {
        Ok(json) => json,
        Err(_) => String::new(),
    }
}

/// The value of the `HX-Location` header: the path alone, or a JSON object with the path and the
/// target of the swap.
pub open spec fn location_value(path: Seq<char>, target: Option<Seq<char>>) -> Seq<char> {
    match target {
        None => path,
        Some(t) => "{\"path\":"@ + json_quoted(path) + ",\"target\":"@ + json_quoted(t) + seq!['}'],
    }
}

/// The `HX-Location` header value for a path and an optional target.
pub fn location_header_value(path: &str, target: Option<&str>) -> (res: String)
    ensures
        res@ == location_value(
            path@,
            match target {
                Some(t) => Some(t@),
                None => None,
            },
        ),
{
    match target {
        None => path.to_owned(),
        Some(t) => {
            let mut res = String::from_str("{\"path\":");
            let p = json_string(path);
            push_str(&mut res, p.as_str());
            push_str(&mut res, ",\"target\":");
            let q = json_string(t);
            push_str(&mut res, q.as_str());
            push_char(&mut res, '}');
            res
        },
    }
}

/// The models of a list of headers, as (name, value) pairs.
pub open spec fn header_pairs_view(v: Seq<(String, String)>) -> Seq<(Seq<char>, Seq<char>)> {
    v.map_values(|e: (String, String)| (e.0@, e.1@))
}

/// Whether a header name occurs among the pairs.
pub open spec fn has_header(h: Seq<(Seq<char>, Seq<char>)>, name: Seq<char>) -> bool {
    exists|i: int| 0 <= i < h.len() && #[trigger] h[i].0 == name
}

/// The index of the last pair with the given name, or -1 if there is none.
pub open spec fn last_index_of(g: Seq<(Seq<char>, Seq<char>)>, name: Seq<char>) -> int
    decreases g.len(),
{
    if g.len() == 0 {
        -1
    } else if g.last().0 == name {
        g.len() - 1
    } else {
        last_index_of(g.drop_last(), name)
    }
}

/// Adds a pair right after the last pair with its name, or at the end if there is none.
pub open spec fn insert_grouped(g: Seq<(Seq<char>, Seq<char>)>, p: (Seq<char>, Seq<char>)) -> Seq<
    (Seq<char>, Seq<char>),
> {
    let j = last_index_of(g, p.0);
    if j < 0 {
        g.push(p)
    } else {
        g.insert(j + 1, p)
    }
}

/// The pairs grouped by name, as a header map holds them: the names in the order they first
/// occur, and under each name all its values in the order they were given.
pub open spec fn grouped(h: Seq<(Seq<char>, Seq<char>)>) -> Seq<(Seq<char>, Seq<char>)>
    decreases h.len(),
{
    if h.len() == 0 {
        Seq::empty()
    } else {
        insert_grouped(grouped(h.drop_last()), h.last())
    }
}

/// The last index of a name lies within the pairs, and holds that name.
pub proof fn lemma_last_index_bounds(g: Seq<(Seq<char>, Seq<char>)>, name: Seq<char>)
    ensures
        -1 <= last_index_of(g, name) < g.len(),
        last_index_of(g, name) >= 0 ==> g[last_index_of(g, name)].0 == name,
    decreases g.len(),
{
    if g.len() > 0 && g.last().0 != name {
        lemma_last_index_bounds(g.drop_last(), name);
    }
}

/// Grouping keeps every pair, and adds none.
pub proof fn lemma_grouped_keeps_pairs(h: Seq<(Seq<char>, Seq<char>)>)
    ensures
        grouped(h).len() == h.len(),
        forall|i: int| 0 <= i < h.len() ==> grouped(h).contains(#[trigger] h[i]),
    decreases h.len(),
{
    if h.len() > 0 {
        let prev = h.drop_last();
        lemma_grouped_keeps_pairs(prev);
        let g = grouped(prev);
        let p = h.last();
        lemma_last_index_bounds(g, p.0);
        let j = last_index_of(g, p.0);
        let r = grouped(h);
        assert forall|i: int| 0 <= i < h.len() implies r.contains(#[trigger] h[i]) by {
            if i == h.len() - 1 {
                if j < 0 {
                    assert(r[g.len() as int] == p);
                } else {
                    assert(r[j + 1] == p);
                }
            } else {
                assert(h[i] == prev[i]);
                assert(g.contains(prev[i]));
                let m = choose|m: int| 0 <= m < g.len() && g[m] == prev[i];
                if j < 0 || m <= j {
                    assert(r[m] == g[m]);
                } else {
                    assert(r[m + 1] == g[m]);
                }
            }
        }
    }
}

/// Finds the index of the last header of the given name.
fn find_last_index(g: &Vec<(String, String)>, name: &str) -> (res: Option<usize>)
    ensures
        match res {
            Some(j) => j < g.len() && last_index_of(header_pairs_view(g@), name@) == j,
            None => last_index_of(header_pairs_view(g@), name@) == -1,
        },
{
    let ghost hv = header_pairs_view(g@);
    let mut found: Option<usize> = None;
    let mut k: usize = 0;
    assert(hv.take(0) =~= Seq::<(Seq<char>, Seq<char>)>::empty());
    while k < g.len()
        invariant
            k <= g@.len(),
            hv == header_pairs_view(g@),
            match found {
                Some(j) => j < k && last_index_of(hv.take(k as int), name@) == j,
                None => last_index_of(hv.take(k as int), name@) == -1,
            },
        decreases g@.len() - k,
    {
        assert(hv.take(k + 1).drop_last() =~= hv.take(k as int));
        assert(hv.take(k + 1).last() == hv[k as int]);
        assert(hv[k as int].0 == g@[k as int].0@);
        if str_eq(g[k].0.as_str(), name) {
            found = Some(k);
        }
        k += 1;
    }
    assert(hv.take(g@.len() as int) =~= hv);
    found
}

/// The model of an out-of-band insert: strategy, target and rendered HTML.
pub type OobModel = (Strategy, Seq<char>, Seq<char>);

/// An HTMX response.
///
/// A `Response` consists of a main insert and an optional list of out-of-band inserts. It may
/// carry an `HX-Retarget` header, which specifies the target for the main insert. Extra headers
/// are kept as (name, value) pairs in the order they were added; names are lowercase, as
/// `http::HeaderName` keeps them.
pub struct Response<T> {
    body: T,
    content_type: String,
    htmx_retarget: Option<String>,
    extra_headers: Vec<(String, String)>,
    oob_elements: Vec<(InsertStrategy, String, String)>,
}

/// The `HX-Push-Url` header.
pub open spec fn hx_push_url() -> Seq<char> {
    "hx-push-url"@
}

/// The `HX-Redirect` header.
pub open spec fn hx_redirect() -> Seq<char> {
    "hx-redirect"@
}

/// The `HX-Location` header.
pub open spec fn hx_location() -> Seq<char> {
    "hx-location"@
}

/// The body of a response: the main body, then each out-of-band insert with its swap
/// instruction injected.
pub open spec fn full_body(main: Seq<char>, oobs: Seq<OobModel>) -> Seq<char>
    decreases oobs.len(),
{
    if oobs.len() == 0 {
        main
    } else {
        full_body(main, oobs.drop_last()) + oob_markup(
            oobs.last().2,
            oobs.last().0,
            oobs.last().1,
            fragment_nodes(oobs.last().2),
        )
    }
}

/// The headers of a response, grouped by name as a header map holds them: the content type, the
/// retarget if any, then every extra header.
pub open spec fn response_header_list(
    content_type: Seq<char>,
    retarget: Option<Seq<char>>,
    extra: Seq<(Seq<char>, Seq<char>)>,
) -> Seq<(Seq<char>, Seq<char>)> {
    grouped(
        seq![("content-type"@, content_type)] + (match retarget {
            Some(r) => seq![("hx-retarget"@, r)],
            None => Seq::empty(),
        }) + extra,
    )
}

/// The models of a list of out-of-band inserts.
pub open spec fn oobs_view(v: Seq<(InsertStrategy, String, String)>) -> Seq<OobModel> {
    v.map_values(|o: (InsertStrategy, String, String)| (o.0@, o.1@, o.2@))
}

impl<T> Response<T> {
    /// The main insert.
    pub closed spec fn spec_body(&self) -> T {
        self.body
    }

    /// The content type.
    pub closed spec fn spec_content_type(&self) -> Seq<char> {
        self.content_type@
    }

    /// The HTMX target of the main insert, if any.
    pub closed spec fn spec_retarget(&self) -> Option<Seq<char>> {
        match self.htmx_retarget {
            Some(r) => Some(r@),
            None => None,
        }
    }

    /// The extra headers, as (name, value) pairs in the order they were added.
    pub closed spec fn spec_headers(&self) -> Seq<(Seq<char>, Seq<char>)> {
        header_pairs_view(self.extra_headers@)
    }

    /// The out-of-band inserts, in the order they were added.
    pub closed spec fn spec_oobs(&self) -> Seq<OobModel> {
        oobs_view(self.oob_elements@)
    }

    /// Create a new HTMX response with the given body.
    pub fn new(body: T) -> (res: Self)
        ensures
            res.spec_body() == body,
            res.spec_content_type() == "text/html"@,
            res.spec_retarget() is None,
            res.spec_headers() == Seq::<(Seq<char>, Seq<char>)>::empty(),
            res.spec_oobs() == Seq::<OobModel>::empty(),
    {
        let res = Response {
            body,
            content_type: String::from_str("text/html"),
            htmx_retarget: None,
            extra_headers: Vec::new(),
            oob_elements: Vec::new(),
        };
        assert(res.spec_headers() =~= Seq::<(Seq<char>, Seq<char>)>::empty());
        assert(res.spec_oobs() =~= Seq::<OobModel>::empty());
        res
    }

    /// Set the content type of the response.
    pub fn with_content_type(self, content_type: String) -> (res: Self)
        ensures
            res.spec_body() == self.spec_body(),
            res.spec_content_type() == content_type@,
            res.spec_retarget() == self.spec_retarget(),
            res.spec_headers() == self.spec_headers(),
            res.spec_oobs() == self.spec_oobs(),
    {
        Response { content_type, ..self }
    }

    /// Forward the optional target from the request to the response.
    pub fn with_forwarded_target(self, target: Option<String>) -> (res: Self)
        ensures
            res.spec_body() == self.spec_body(),
            res.spec_content_type() == self.spec_content_type(),
            res.spec_retarget() == (match target {
                Some(t) => Some(t@),
                None => None,
            }),
            res.spec_headers() == self.spec_headers(),
            res.spec_oobs() == self.spec_oobs(),
    {
        Response { htmx_retarget: target, ..self }
    }

    /// Retarget the response to the given target.
    pub fn with_retarget(self, htmx_retarget: String) -> (res: Self)
        ensures
            res.spec_body() == self.spec_body(),
            res.spec_content_type() == self.spec_content_type(),
            res.spec_retarget() == Some(htmx_retarget@),
            res.spec_headers() == self.spec_headers(),
            res.spec_oobs() == self.spec_oobs(),
    {
        Response { htmx_retarget: Some(htmx_retarget), ..self }
    }

    /// Add an out-of-band insert to the response using the specified insert strategy, with the
    /// HTMX target as a raw selector and the rendered HTML of the element.
    ///
    /// The `hx-swap-oob` attribute is injected into the root element of the HTML when the body
    /// is written; HTML with several root elements is wrapped in a `<template>`.
    pub fn with_raw_oob(self, insert_strategy: InsertStrategy, target: String, html: String) -> (res:
        Self)
        ensures
            res.spec_body() == self.spec_body(),
            res.spec_content_type() == self.spec_content_type(),
            res.spec_retarget() == self.spec_retarget(),
            res.spec_headers() == self.spec_headers(),
            res.spec_oobs() == self.spec_oobs().push((insert_strategy@, target@, html@)),
    {
        let mut res = self;
        let ghost before = res.oob_elements@;
        let entry = (insert_strategy, target, html);
        res.oob_elements.push(entry);
        assert(oobs_view(res.oob_elements@) =~= oobs_view(before).push((entry.0@, entry.1@, entry.2@)));
        res
    }

    /// Add an out-of-band insert that targets the element of the given identifier (`#id`) with
    /// the given insert strategy; `html` is the rendered element.
    pub fn with_oob_of(self, insert_strategy: InsertStrategy, id: &HtmlId, html: String) -> (res:
        Self)
        ensures
            res.spec_body() == self.spec_body(),
            res.spec_content_type() == self.spec_content_type(),
            res.spec_retarget() == self.spec_retarget(),
            res.spec_headers() == self.spec_headers(),
            res.spec_oobs() == self.spec_oobs().push((insert_strategy@, seq!['#'] + id@, html@)),
    {
        let mut target = String::new();
        push_char(&mut target, '#');
        let id_text = id.as_str();
        push_str(&mut target, id_text);
        assert(target@ =~= seq!['#'] + id_text@);
        self.with_raw_oob(insert_strategy, target, html)
    }

    /// Add an out-of-band insert to the response, targeting the fragment's id (`#id`) with the
    /// fragment's insert strategy; `html` is the rendered fragment.
    pub fn with_oob<F: Fragment>(self, oob_element: &F, html: String) -> (res: Self)
        ensures
            res.spec_body() == self.spec_body(),
            res.spec_content_type() == self.spec_content_type(),
            res.spec_retarget() == self.spec_retarget(),
            res.spec_headers() == self.spec_headers(),
            res.spec_oobs() == self.spec_oobs().push(
                (oob_element.spec_insert_strategy(), seq!['#'] + oob_element.spec_id(), html@),
            ),
            is_valid_identifier(oob_element.spec_id()),
    {
        let id = oob_element.id();
        let id_text = id.as_str();
        assert(is_valid_identifier(id_text@) && id_text@ == id@);
        let strategy = oob_element.insert_strategy();
        self.with_oob_of(strategy, &id, html)
    }

    /// Add an extra HTTP header to the response, keeping any value it already has.
    pub fn with_header(self, name: String, value: String) -> (res: Self)
        ensures
            res.spec_body() == self.spec_body(),
            res.spec_content_type() == self.spec_content_type(),
            res.spec_retarget() == self.spec_retarget(),
            res.spec_headers() == self.spec_headers().push((name@, value@)),
            res.spec_oobs() == self.spec_oobs(),
    {
        let mut res = self;
        let ghost before = res.extra_headers@;
        let entry = (name, value);
        res.extra_headers.push(entry);
        assert(header_pairs_view(res.extra_headers@) =~= header_pairs_view(before).push(
            (entry.0@, entry.1@),
        ));
        res
    }

    /// Whether the response has an extra header of the given name.
    pub fn has_header(&self, name: &str) -> (res: bool)
        ensures
            res == has_header(self.spec_headers(), name@),
    {
        let mut i: usize = 0;
        while i < self.extra_headers.len()
            invariant
                i <= self.extra_headers@.len(),
                forall|j: int| 0 <= j < i ==> (#[trigger] self.spec_headers()[j]).0 != name@,
            decreases self.extra_headers@.len() - i,
        {
            assert(self.spec_headers()[i as int].0 == self.extra_headers@[i as int].0@);
            if str_eq(self.extra_headers[i].0.as_str(), name) {
                return true;
            }
            i += 1;
        }
        false
    }

    /// Indicate that the response should not push the URL to the browser history. No
    /// `HX-Push-Url` header may be present yet.
    pub fn without_push_url(self) -> (res: Self)
        requires
            !has_header(self.spec_headers(), hx_push_url()),
        ensures
            res.spec_body() == self.spec_body(),
            res.spec_content_type() == self.spec_content_type(),
            res.spec_retarget() == self.spec_retarget(),
            res.spec_headers() == self.spec_headers().push((hx_push_url(), "false"@)),
            res.spec_oobs() == self.spec_oobs(),
    {
        self.with_header(String::from_str("hx-push-url"), String::from_str("false"))
    }

    /// Indicate that the response should push the URL to the browser history. The URL must be a
    /// valid header value, and no `HX-Push-Url` header may be present yet.
    pub fn with_push_url(self, url: &str) -> (res: Self)
        requires
            valid_header_text(url@),
            !has_header(self.spec_headers(), hx_push_url()),
        ensures
            res.spec_body() == self.spec_body(),
            res.spec_content_type() == self.spec_content_type(),
            res.spec_retarget() == self.spec_retarget(),
            res.spec_headers() == self.spec_headers().push((hx_push_url(), url@)),
            res.spec_oobs() == self.spec_oobs(),
    {
        self.with_header(String::from_str("hx-push-url"), url.to_owned())
    }

    /// Trigger a client-side redirect to a new URL that does a full page reload, through the
    /// `HX-Redirect` header. The URL must be a valid header value, and no `HX-Redirect` header
    /// may be present yet.
    pub fn with_redirect(self, url: &str) -> (res: Self)
        requires
            valid_header_text(url@),
            !has_header(self.spec_headers(), hx_redirect()),
        ensures
            res.spec_body() == self.spec_body(),
            res.spec_content_type() == self.spec_content_type(),
            res.spec_retarget() == self.spec_retarget(),
            res.spec_headers() == self.spec_headers().push((hx_redirect(), url@)),
            res.spec_oobs() == self.spec_oobs(),
    {
        self.with_header(String::from_str("hx-redirect"), url.to_owned())
    }

    /// Trigger a client-side redirect without a full page reload, through the `HX-Location`
    /// header. The path must be a valid header value, and no `HX-Location` header may be present
    /// yet.
    pub fn with_location(self, path: &str) -> (res: Self)
        requires
            valid_header_text(path@),
            !has_header(self.spec_headers(), hx_location()),
        ensures
            res.spec_body() == self.spec_body(),
            res.spec_content_type() == self.spec_content_type(),
            res.spec_retarget() == self.spec_retarget(),
            res.spec_headers() == self.spec_headers().push((hx_location(), path@)),
            res.spec_oobs() == self.spec_oobs(),
    {
        self.with_header(String::from_str("hx-location"), path.to_owned())
    }

    /// Trigger a client-side redirect with a target for the swap: the `HX-Location` header holds
    /// the path alone, or a JSON object with the path and the target. The value must be a valid
    /// header value, and no `HX-Location` header may be present yet.
    pub fn with_location_details(self, path: &str, target: Option<&str>) -> (res: Self)
        requires
            valid_header_text(
                location_value(
                    path@,
                    match target {
                        Some(t) => Some(t@),
                        None => None,
                    },
                ),
            ),
            !has_header(self.spec_headers(), hx_location()),
        ensures
            res.spec_body() == self.spec_body(),
            res.spec_content_type() == self.spec_content_type(),
            res.spec_retarget() == self.spec_retarget(),
            res.spec_headers() == self.spec_headers().push(
                (
                    hx_location(),
                    location_value(
                        path@,
                        match target {
                            Some(t) => Some(t@),
                            None => None,
                        },
                    ),
                ),
            ),
            res.spec_oobs() == self.spec_oobs(),
    {
        let value = location_header_value(path, target);
        self.with_header(String::from_str("hx-location"), value)
    }

    /// The out-of-band inserts: strategy, target and rendered HTML, in the order they were added.
    pub fn oob_elements(&self) -> (res: &[(InsertStrategy, String, String)])
        ensures
            oobs_view(res@) == self.spec_oobs(),
    {
        self.oob_elements.as_slice()
    }

    /// The extra headers, as (name, value) pairs in the order they were added.
    pub fn extra_headers(&self) -> (res: &[(String, String)])
        ensures
            header_pairs_view(res@) == self.spec_headers(),
    {
        self.extra_headers.as_slice()
    }

    /// The HTMX target of the main insert, if any.
    pub fn retarget(&self) -> (res: Option<&String>)
        ensures
            match res {
                Some(r) => self.spec_retarget() == Some(r@),
                None => self.spec_retarget() is None,
            },
    {
        match &self.htmx_retarget {
            Some(r) => Some(r),
            None => None,
        }
    }

    /// The main insert.
    pub fn body(&self) -> (res: &T)
        ensures
            *res == self.spec_body(),
    {
        &self.body
    }

    /// The headers of the response: the content type, the retarget if any, then every extra
    /// header, each value placed after the last one of the same name before it, so that the
    /// values of a name stay together in the order they were added, and the names come in the
    /// order they first occur.
    pub fn response_headers(&self) -> (res: Vec<(String, String)>)
        ensures
            header_pairs_view(res@) == response_header_list(
                self.spec_content_type(),
                self.spec_retarget(),
                self.spec_headers(),
            ),
    {
        let mut all: Vec<(String, String)> = Vec::new();
        all.push((String::from_str("content-type"), self.content_type.clone()));
        if let Some(r) = &self.htmx_retarget {
            all.push((String::from_str("hx-retarget"), r.clone()));
        }
        let ghost base = header_pairs_view(all@);
        let ghost h = self.spec_headers();
        let mut i: usize = 0;
        assert(h.take(0) =~= Seq::<(Seq<char>, Seq<char>)>::empty());
        assert(base + h.take(0) =~= base);
        while i < self.extra_headers.len()
            invariant
                i <= self.extra_headers@.len(),
                h == header_pairs_view(self.extra_headers@),
                header_pairs_view(all@) == base + h.take(i as int),
            decreases self.extra_headers@.len() - i,
        {
            let entry = (self.extra_headers[i].0.clone(), self.extra_headers[i].1.clone());
            let ghost before = all@;
            all.push(entry);
            assert(header_pairs_view(all@) =~= header_pairs_view(before).push((entry.0@, entry.1@)));
            assert(h.take(i + 1) =~= h.take(i as int).push(h[i as int]));
            i += 1;
        }
        assert(h.take(h.len() as int) =~= h);
        proof {
            reveal_strlit("content-type");
            reveal_strlit("hx-retarget");
        }
        let ghost full = header_pairs_view(all@);
        assert(full =~= seq![("content-type"@, self.spec_content_type())] + (match self.spec_retarget() {
            Some(r) => seq![("hx-retarget"@, r)],
            None => Seq::empty(),
        }) + h);
        let mut res: Vec<(String, String)> = Vec::new();
        let mut k: usize = 0;
        assert(full.take(0) =~= Seq::<(Seq<char>, Seq<char>)>::empty());
        assert(header_pairs_view(res@) =~= Seq::<(Seq<char>, Seq<char>)>::empty());
        while k < all.len()
            invariant
                k <= all@.len(),
                full == header_pairs_view(all@),
                header_pairs_view(res@) == grouped(full.take(k as int)),
            decreases all@.len() - k,
        {
            assert(full.take(k + 1).drop_last() =~= full.take(k as int));
            assert(full.take(k + 1).last() == full[k as int]);
            let entry = (all[k].0.clone(), all[k].1.clone());
            let ghost g = header_pairs_view(res@);
            let ghost old_res = res@;
            match find_last_index(&res, all[k].0.as_str()) {
                Some(j) => {
                    res.insert(j + 1, entry);
                    assert(header_pairs_view(res@) =~= g.insert(j + 1, (entry.0@, entry.1@)));
                },
                None => {
                    res.push(entry);
                    assert(header_pairs_view(res@) =~= g.push((entry.0@, entry.1@)));
                },
            }
            k += 1;
        }
        assert(full.take(all@.len() as int) =~= full);
        res
    }

    /// The body of the response: `main`, the rendered main insert, followed by each out-of-band
    /// insert with its swap instruction injected.
    pub fn full_body(&self, main: &str) -> (res: String)
        ensures
            res@ == full_body(main@, self.spec_oobs()),
    {
        let mut res = main.to_owned();
        let mut i: usize = 0;
        assert(self.spec_oobs().take(0) =~= Seq::<OobModel>::empty());
        while i < self.oob_elements.len()
            invariant
                i <= self.oob_elements@.len(),
                res@ == full_body(main@, self.spec_oobs().take(i as int)),
            decreases self.oob_elements@.len() - i,
        {
            let (strategy, target, html) = &self.oob_elements[i];
            let injected = inject_oob_attribute(html.as_str(), strategy, target.as_str());
            push_str(&mut res, injected.as_str());
            assert(self.spec_oobs().take(i + 1).drop_last() =~= self.spec_oobs().take(i as int));
            assert(self.spec_oobs().take(i + 1).last() == (strategy@, target@, html@));
            i += 1;
        }
        assert(self.spec_oobs().take(self.oob_elements@.len() as int) =~= self.spec_oobs());
        res
    }
}

/// The body of the response that an error is turned into: for a server error (a status in the
/// 5xx range) a generic message, so that the error's own text reaches only the logs; otherwise
/// the error's text.
pub open spec fn error_body_text(status: u16, message: Seq<char>) -> Seq<char> {
    if 500 <= status < 600 {
        "internal server error"@
    } else {
        message
    }
}

/// The body of the response that an error is turned into (see [`error_body_text`]).
pub fn error_body(status: u16, message: &str) -> (res: String)
    ensures
        res@ == error_body_text(status, message@),
{
    if 500 <= status && status < 600 {
        String::from_str("internal server error")
    } else {
        String::from_str(message)
    }
}

/// Maps the result of a handler into what it is answered with: a value is kept; an error,
/// given by its text, becomes a response with the given status whose body is the error's text,
/// or, for a server error, a generic message that does not disclose it.
pub fn map_error_into_response<T>(r: Result<T, String>, status: u16) -> (res: Result<T, (u16, String)>)
    ensures
        match r {
            Ok(v) => res == Ok::<T, (u16, String)>(v),
            Err(m) => res matches Err((s, b)) && s == status && b@ == error_body_text(status, m@),
        },
{
    match r {
        Ok(v) => Ok(v),
        Err(m) => Err((status, error_body(status, m.as_str()))),
    }
}

} // verus!
