//! Request headers as plain values, and the HTMX request headers read from them.
//!
//! Headers are (name, value) pairs in the order a `http::HeaderMap` yields them: names are
//! lowercase and values are raw bytes; the values of one name keep the order they were added in.

use vstd::prelude::*;
use crate::text::{str_eq, push_char};

verus! {

broadcast use vstd::seq::group_seq_axioms;

/// The models of a list of headers.
pub open spec fn headers_view(h: Seq<(String, Vec<u8>)>) -> Seq<(Seq<char>, Seq<u8>)> {
    h.map_values(|e: (String, Vec<u8>)| (e.0@, e.1@))
}

/// The first value of a header, as `HeaderMap::get` gives it.
pub open spec fn header_get(h: Seq<(Seq<char>, Seq<u8>)>, name: Seq<char>) -> Option<Seq<u8>>
    decreases h.len(),
{
    if h.len() == 0 {
        None
    } else {
        match header_get(h.drop_last(), name) {
            Some(v) => Some(v),
            None => if h.last().0 == name {
                Some(h.last().1)
            } else {
                None
            },
        }
    }
}

/// All values of a header, in order, as `HeaderMap::get_all` gives them.
pub open spec fn header_get_all(h: Seq<(Seq<char>, Seq<u8>)>, name: Seq<char>) -> Seq<Seq<u8>>
    decreases h.len(),
{
    if h.len() == 0 {
        Seq::empty()
    } else if h.last().0 == name {
        header_get_all(h.drop_last(), name).push(h.last().1)
    } else {
        header_get_all(h.drop_last(), name)
    }
}

/// Whether a header value is text, as `HeaderValue::to_str` accepts it: visible ASCII and tabs.
pub open spec fn is_visible_ascii(b: Seq<u8>) -> bool {
    forall|i: int| 0 <= i < b.len() ==> (32 <= #[trigger] b[i] < 127) || b[i] == 9
}

/// The text of an ASCII header value.
pub open spec fn ascii_text(b: Seq<u8>) -> Seq<char> {
    Seq::new(b.len(), |i: int| b[i] as char)
}

/// The text of a header value, if it is one.
pub open spec fn value_text(b: Seq<u8>) -> Option<Seq<char>> {
    if is_visible_ascii(b) {
        Some(ascii_text(b))
    } else {
        None
    }
}

/// Finds the first value of a header.
pub fn get_header<'a>(headers: &'a Vec<(String, Vec<u8>)>, name: &str) -> (res: Option<&'a Vec<u8>>)
    ensures
        match header_get(headers_view(headers@), name@) {
            Some(v) => res matches Some(r) && r@ == v,
            None => res is None,
        },
{
    let ghost h = headers_view(headers@);
    let mut i: usize = 0;
    assert(h.take(0) =~= Seq::<(Seq<char>, Seq<u8>)>::empty());
    while i < headers.len()
        invariant
            i <= headers@.len(),
            h == headers_view(headers@),
            header_get(h.take(i as int), name@) is None,
        decreases headers@.len() - i,
    {
        assert(h.take(i + 1).drop_last() =~= h.take(i as int));
        assert(h[i as int] == (headers@[i as int].0@, headers@[i as int].1@));
        if str_eq(headers[i].0.as_str(), name) {
            proof {
                lemma_get_prefix(h, i as int + 1, name@);
            }
            return Some(&headers[i].1);
        }
        i += 1;
    }
    assert(h.take(headers@.len() as int) =~= h);
    None
}

proof fn lemma_get_prefix(h: Seq<(Seq<char>, Seq<u8>)>, k: int, name: Seq<char>)
    requires
        0 <= k <= h.len(),
        header_get(h.take(k), name) is Some,
    ensures
        header_get(h, name) == header_get(h.take(k), name),
    decreases h.len() - k,
{
    if k < h.len() {
        assert(h.take(k + 1).drop_last() =~= h.take(k));
        lemma_get_prefix(h, k + 1, name);
    } else {
        assert(h.take(k) =~= h);
    }
}

/// The text of a header value, if it is visible ASCII.
pub fn value_to_str(b: &Vec<u8>) -> (res: Option<String>)
    ensures
        match value_text(b@) {
            Some(t) => res matches Some(s) && s@ == t,
            None => res is None,
        },
{
    let mut s = String::new();
    let mut i: usize = 0;
    while i < b.len()
        invariant
            i <= b@.len(),
            forall|j: int| 0 <= j < i ==> (32 <= #[trigger] b@[j] < 127) || b@[j] == 9,
            s@ == ascii_text(b@.take(i as int)),
        decreases b@.len() - i,
    {
        let c = b[i];
        if !((32 <= c && c < 127) || c == 9) {
            return None;
        }
        push_char(&mut s, c as char);
        assert(s@ =~= ascii_text(b@.take(i + 1)));
        i += 1;
    }
    assert(b@.take(b@.len() as int) =~= b@);
    Some(s)
}

/// The texts of all values of a header that are visible ASCII; the others are skipped.
pub open spec fn header_texts(vals: Seq<Seq<u8>>) -> Seq<Seq<char>>
    decreases vals.len(),
{
    if vals.len() == 0 {
        Seq::empty()
    } else {
        match value_text(vals.last()) {
            Some(t) => header_texts(vals.drop_last()).push(t),
            None => header_texts(vals.drop_last()),
        }
    }
}

/// The texts of all values of a header that are visible ASCII, in order.
pub fn get_header_texts(headers: &Vec<(String, Vec<u8>)>, name: &str) -> (res: Vec<String>)
    ensures
        res@.map_values(|s: String| s@) == header_texts(header_get_all(headers_view(headers@), name@)),
{
    let ghost h = headers_view(headers@);
    let mut res: Vec<String> = Vec::new();
    let mut i: usize = 0;
    assert(h.take(0) =~= Seq::<(Seq<char>, Seq<u8>)>::empty());
    assert(res@.map_values(|s: String| s@) =~= Seq::<Seq<char>>::empty());
    while i < headers.len()
        invariant
            i <= headers@.len(),
            h == headers_view(headers@),
            res@.map_values(|s: String| s@) == header_texts(header_get_all(h.take(i as int), name@)),
        decreases headers@.len() - i,
    {
        assert(h.take(i + 1).drop_last() =~= h.take(i as int));
        assert(h[i as int] == (headers@[i as int].0@, headers@[i as int].1@));
        if str_eq(headers[i].0.as_str(), name) {
            let ghost all = header_get_all(h.take(i as int), name@);
            assert(header_get_all(h.take(i + 1), name@) == all.push(headers@[i as int].1@));
            assert(all.push(headers@[i as int].1@).drop_last() =~= all);
            match value_to_str(&headers[i].1) {
                Some(t) => {
                    let ghost before = res@;
                    res.push(t);
                    assert(res@.map_values(|s: String| s@) =~= before.map_values(|s: String| s@).push(t@));
                },
                None => {},
            }
        }
        i += 1;
    }
    assert(h.take(headers@.len() as int) =~= h);
    res
}

/// An HTMX request, as read from its headers.
#[derive(Debug, Clone)]
pub enum Request {
    /// A classic request, with no HTMX headers.
    Classic,
    /// An HTMX request, with the HTMX headers.
    Htmx {
        /// Whether the request was boosted.
        boosted: bool,
        /// The current URL.
        current_url: String,
        /// The history restore request flag.
        history_restore_request: bool,
        /// The prompt.
        prompt: String,
        /// The target of the request, if one was provided.
        target: Option<Vec<u8>>,
        /// The trigger name, if one was provided.
        trigger_name: Option<Vec<u8>>,
        /// The trigger, if one was provided.
        trigger: Option<Vec<u8>>,
    },
}

/// The text of the first value of a header, or the empty text when it is absent or not text.
pub open spec fn header_text_or_empty(h: Seq<(Seq<char>, Seq<u8>)>, name: Seq<char>) -> Seq<char> {
    match header_get(h, name) {
        Some(b) => match value_text(b) {
            Some(t) => t,
            None => Seq::empty(),
        },
        None => Seq::empty(),
    }
}

/// The model of an optional header value.
pub open spec fn opt_bytes(o: Option<Vec<u8>>) -> Option<Seq<u8>> {
    match o {
        Some(v) => Some(v@),
        None => None,
    }
}

/// Whether a request read from headers `h` is as HTMX describes it: classic without an
/// `HX-Request` header, otherwise with the values of the other HTMX headers.
pub open spec fn request_of(h: Seq<(Seq<char>, Seq<u8>)>, r: Request) -> bool {
    if header_get(h, "hx-request"@) is None {
        r is Classic
    } else {
        match r {
            Request::Classic => false,
            Request::Htmx {
                boosted,
                current_url,
                history_restore_request,
                prompt,
                target,
                trigger_name,
                trigger,
            } => {
                &&& boosted == header_get(h, "hx-boosted"@) is Some
                &&& current_url@ == header_text_or_empty(h, "hx-current-url"@)
                &&& history_restore_request == header_get(h, "hx-history-restore-request"@) is Some
                &&& prompt@ == header_text_or_empty(h, "hx-prompt"@)
                &&& opt_bytes(target) == header_get(h, "hx-target"@)
                &&& opt_bytes(trigger_name) == header_get(h, "hx-trigger-name"@)
                &&& opt_bytes(trigger) == header_get(h, "hx-trigger"@)
            },
        }
    }
}

/// The text of the first value of a header, or the empty string.
fn text_or_empty(headers: &Vec<(String, Vec<u8>)>, name: &str) -> (res: String)
    ensures
        res@ == header_text_or_empty(headers_view(headers@), name@),
{
    match get_header(headers, name) {
        Some(b) => match value_to_str(b) {
            Some(t) => t,
            None => String::new(),
        },
        None => String::new(),
    }
}

/// A copy of the first value of a header.
fn cloned_header(headers: &Vec<(String, Vec<u8>)>, name: &str) -> (res: Option<Vec<u8>>)
    ensures
        opt_bytes(res) == header_get(headers_view(headers@), name@),
{
    match get_header(headers, name) {
        Some(b) => Some(b.clone()),
        None => None,
    }
}

impl Request {
    /// Reads the HTMX request headers.
    pub fn from_headers(headers: &Vec<(String, Vec<u8>)>) -> (res: Request)
        ensures
            request_of(headers_view(headers@), res),
    {
        if get_header(headers, "hx-request").is_some() {
            Request::Htmx {
                boosted: get_header(headers, "hx-boosted").is_some(),
                current_url: text_or_empty(headers, "hx-current-url"),
                history_restore_request: get_header(headers, "hx-history-restore-request").is_some(),
                prompt: text_or_empty(headers, "hx-prompt"),
                target: cloned_header(headers, "hx-target"),
                trigger_name: cloned_header(headers, "hx-trigger-name"),
                trigger: cloned_header(headers, "hx-trigger"),
            }
        } else {
            Request::Classic
        }
    }
}

} // verus!

verus! {

/// A header of the given name is present among the pairs.
pub open spec fn header_present(h: Seq<(Seq<char>, Seq<u8>)>, name: Seq<char>) -> bool {
    exists|i: int| 0 <= i < h.len() && (#[trigger] h[i]).0 == name
}

proof fn lemma_header_get_iff_present(h: Seq<(Seq<char>, Seq<u8>)>, name: Seq<char>)
    ensures
        header_get(h, name) is Some <==> header_present(h, name),
    decreases h.len(),
{
    if h.len() > 0 {
        let p = h.drop_last();
        lemma_header_get_iff_present(p, name);
        if header_present(p, name) {
            let i = choose|i: int| 0 <= i < p.len() && (#[trigger] p[i]).0 == name;
            assert(h[i] == p[i]);
        }
        if header_present(h, name) && !header_present(p, name) {
            let i = choose|i: int| 0 <= i < h.len() && (#[trigger] h[i]).0 == name;
            if i < p.len() {
                assert(p[i] == h[i]);
            }
            assert(h.last().0 == name);
        }
        if h.last().0 == name {
            assert(h[h.len() - 1].0 == name);
        }
    }
}

/// A request is an HTMX one exactly when it has an `HX-Request` header; then it is boosted
/// exactly when it has an `HX-Boosted` header, and a history restore request exactly when it has
/// an `HX-History-Restore-Request` header, each flag on its own header.
pub proof fn law_htmx_flags_follow_their_headers(h: Seq<(Seq<char>, Seq<u8>)>, r: Request)
    requires
        request_of(h, r),
    ensures
        r is Htmx <==> header_present(h, "hx-request"@),
        r matches Request::Htmx { boosted, history_restore_request, .. } ==> (boosted
            <==> header_present(h, "hx-boosted"@)) && (history_restore_request <==> header_present(
            h,
            "hx-history-restore-request"@,
        )),
{
    lemma_header_get_iff_present(h, "hx-request"@);
    lemma_header_get_iff_present(h, "hx-boosted"@);
    lemma_header_get_iff_present(h, "hx-history-restore-request"@);
}

} // verus!
