//! Caching of responses: which requests may be answered from the client's cache, the entity tag
//! of a response body, and the caching headers of a response.

use vstd::prelude::*;
use crate::text::{push_char, push_str, u64_to_decimal, decimal, str_eq};
use crate::headers::{
    Request, headers_view, header_get, header_get_all, value_text, header_texts, get_header,
    value_to_str, get_header_texts,
};
use crate::response::{valid_header_text, is_valid_header_text};
use crate::strings::{
    split_commas, trim, split_and_trim, strictly_sorted, string_set, insert_sorted, strings_view,
    trimmed,
};

verus! {

broadcast use vstd::seq::group_seq_axioms;

/// The default maximum body size (1 MB).
pub const DEFAULT_MAX_BODY_SIZE: usize = 1048576;

/// The default caching duration, in seconds.
pub const DEFAULT_CACHE_DURATION_SECS: u64 = 60;

/// A span of time, in whole seconds and nanoseconds.
#[derive(Debug, Clone, Copy, PartialEq, Eq, Structural)]
pub struct CacheDuration {
    secs: u64,
    nanos: u32,
}

impl CacheDuration {
    /// The whole seconds of the duration.
    pub closed spec fn spec_secs(self) -> u64 {
        self.secs
    }

    /// The nanoseconds beyond the whole seconds.
    pub closed spec fn spec_nanos(self) -> u32 {
        self.nanos
    }

    /// A duration of whole seconds.
    pub fn from_secs(secs: u64) -> (res: Self)
        ensures
            res.spec_secs() == secs,
            res.spec_nanos() == 0,
    {
        CacheDuration { secs, nanos: 0 }
    }

    /// A duration of seconds and nanoseconds, as `std::time::Duration::new` makes it: whole
    /// seconds among the nanoseconds are carried into the seconds, which must not overflow.
    pub fn new(secs: u64, nanos: u32) -> (res: Self)
        requires
            secs + nanos / 1_000_000_000 <= u64::MAX,
        ensures
            res.spec_secs() == secs + nanos / 1_000_000_000,
            res.spec_nanos() == nanos % 1_000_000_000,
    {
        let carry: u64 = (nanos / 1_000_000_000) as u64;
        CacheDuration { secs: secs + carry, nanos: nanos % 1_000_000_000 }
    }

    /// The whole seconds of the duration.
    pub fn as_secs(&self) -> (res: u64)
        ensures
            res == self.spec_secs(),
    {
        self.secs
    }

    /// The nanoseconds beyond the whole seconds.
    pub fn subsec_nanos(&self) -> (res: u32)
        ensures
            res == self.spec_nanos(),
    {
        self.nanos
    }
}

/// A caching strategy.
pub struct Cache<R> {
    max_body_size: usize,
    cache_duration: CacheDuration,
    _route: std::marker::PhantomData<R>,
}

impl<R> Default for Cache<R> {
    fn default() -> (res: Self)
        ensures
            res.spec_max_body_size() == DEFAULT_MAX_BODY_SIZE,
            res.spec_cache_duration().spec_secs() == DEFAULT_CACHE_DURATION_SECS,
            res.spec_cache_duration().spec_nanos() == 0,
    {
        Cache {
            max_body_size: DEFAULT_MAX_BODY_SIZE,
            cache_duration: CacheDuration::from_secs(DEFAULT_CACHE_DURATION_SECS),
            _route: std::marker::PhantomData,
        }
    }
}

/// What a request allows of the cache.
///
/// You should never need to instantiate this type directly nor should you store it across
/// requests.
#[derive(Debug, Clone, PartialEq, Eq, Hash)]
pub enum CacheControl {
    /// The request should be treated only if none of the provided ETags match. The tags are
    /// sorted and distinct.
    IfNoneMatch(Vec<String>),
    /// The response should be treated as fresh.
    NoCache,
}

/// Whether a `Cache-Control` directive asks for a fresh response.
pub open spec fn disables_cache(d: Seq<char>) -> bool {
    d == "no-cache"@ || d == "max-age=0"@
}

/// The trimmed, comma-separated directives of a `Cache-Control` header, absent meaning empty.
pub open spec fn directives(header: Option<Seq<char>>) -> Seq<Seq<char>> {
    let h = match header {
        Some(h) => h,
        None => Seq::empty(),
    };
    trimmed(split_commas(h))
}

/// The trimmed, comma-separated tags of one `If-None-Match` header value.
pub open spec fn tags_of(value: Seq<char>) -> Set<Seq<char>> {
    Set::new(
        |x: Seq<char>|
            exists|j: int| 0 <= j < split_commas(value).len() && trim(split_commas(value)[j]) == x,
    )
}

/// The tags of all `If-None-Match` header values.
pub open spec fn all_tags(values: Seq<Seq<char>>) -> Set<Seq<char>>
    decreases values.len(),
{
    if values.len() == 0 {
        Set::empty()
    } else {
        all_tags(values.drop_last()).union(tags_of(values.last()))
    }
}

/// The cache control owed for a request with the given `Cache-Control` header and
/// `If-None-Match` header values: no caching if a directive is `no-cache` or `max-age=0`,
/// otherwise the set of tags the client holds.
pub open spec fn cache_control_for(header: Option<Seq<char>>, values: Seq<Seq<char>>) -> Option<
    Set<Seq<char>>,
> {
    if exists|k: int| 0 <= k < directives(header).len() && disables_cache(#[trigger] directives(header)[k]) {
        None
    } else {
        Some(all_tags(values))
    }
}

/// Whether a cache control answers a request whose response has the given entity tag with
/// "not modified".
pub open spec fn spec_is_not_modified(cc: CacheControl, etag: Seq<char>) -> bool {
    match cc {
        CacheControl::IfNoneMatch(tags) => string_set(tags@).contains(etag),
        CacheControl::NoCache => false,
    }
}

/// The value of the `Cache-Control` header of a cached response.
pub open spec fn caching_header(secs: u64) -> Seq<char> {
    "private, max-age="@ + decimal(secs as nat) + ", must-revalidate"@
}

impl<R> Cache<R> {
    /// The maximum size of a body that is read to compute its entity tag.
    pub closed spec fn spec_max_body_size(&self) -> usize {
        self.max_body_size
    }

    /// How long a response may be cached.
    pub closed spec fn spec_cache_duration(&self) -> CacheDuration {
        self.cache_duration
    }

    /// Sets the maximum size of a body that is read to compute its entity tag.
    pub fn with_max_body_size(self, max_body_size: usize) -> (res: Self)
        ensures
            res.spec_max_body_size() == max_body_size,
            res.spec_cache_duration() == self.spec_cache_duration(),
    {
        Cache { max_body_size, cache_duration: self.cache_duration, _route: self._route }
    }

    /// Set the cache duration.
    pub fn with_cache_duration(self, cache_duration: CacheDuration) -> (res: Self)
        ensures
            res.spec_cache_duration() == cache_duration,
            res.spec_max_body_size() == self.spec_max_body_size(),
    {
        Cache { max_body_size: self.max_body_size, cache_duration, _route: self._route }
    }

    /// The maximum size of a body that is read to compute its entity tag.
    pub fn max_body_size(&self) -> (res: usize)
        ensures
            res == self.spec_max_body_size(),
    {
        self.max_body_size
    }

    /// How long a response may be cached.
    pub fn cache_duration(&self) -> (res: CacheDuration)
        ensures
            res == self.spec_cache_duration(),
    {
        self.cache_duration
    }

    /// Get the cache control for a request, from its headers: the first `Cache-Control` value,
    /// if it is text, and the `If-None-Match` values that are text.
    ///
    /// The route and the HTMX request do not yet take part in the decision.
    pub fn get_cache_control(&self, route: &R, htmx: &Request, headers: &Vec<(String, Vec<u8>)>) -> (res:
        CacheControl)
        ensures
            match cache_control_for(
                match header_get(headers_view(headers@), "cache-control"@) {
                    Some(b) => value_text(b),
                    None => None,
                },
                header_texts(header_get_all(headers_view(headers@), "if-none-match"@)),
            ) {
                None => res == CacheControl::NoCache,
                Some(tags) => res matches CacheControl::IfNoneMatch(v) && strictly_sorted(v@)
                    && string_set(v@) == tags,
            },
    {
        let _ = route;
        let _ = htmx;
        let cache_control = match get_header(headers, "cache-control") {
            Some(b) => value_to_str(b),
            None => None,
        };
        let if_none_match = get_header_texts(headers, "if-none-match");
        assert(strings_view(if_none_match@) == if_none_match@.map_values(|s: String| s@));
        let text = match &cache_control {
            Some(t) => Some(t.as_str()),
            None => None,
        };
        self.cache_control_of(text, &if_none_match)
    }

    /// Get the cache control for a request, from the text of its `Cache-Control` header (if it
    /// has one that is text) and the texts of its `If-None-Match` headers.
    ///
    /// The request asks for a fresh response when one of the comma-separated directives is
    /// `no-cache` or `max-age=0`; otherwise the comma-separated tags of all `If-None-Match`
    /// values, trimmed, are the tags whose response may be answered with "not modified".
    pub fn cache_control_of(&self, cache_control: Option<&str>, if_none_match: &Vec<String>) -> (res:
        CacheControl)
        ensures
            match cache_control_for(
                match cache_control {
                    Some(h) => Some(h@),
                    None => None,
                },
                strings_view(if_none_match@),
            ) {
                None => res == CacheControl::NoCache,
                Some(tags) => res matches CacheControl::IfNoneMatch(v) && strictly_sorted(v@)
                    && string_set(v@) == tags,
            },
    {
        let ghost header = match cache_control {
            Some(h) => Some(h@),
            None => None,
        };
        let directives_list = match cache_control {
            Some(h) => split_and_trim(h),
            None => split_and_trim(""),
        };
        proof {
            reveal_strlit("");
            assert(strings_view(directives_list@) == directives(header));
        }
        let mut k: usize = 0;
        while k < directives_list.len()
            invariant
                k <= directives_list@.len(),
                header == match cache_control {
                    Some(h) => Some(h@),
                    None => None,
                },
                strings_view(directives_list@) == directives(header),
                forall|j: int| 0 <= j < k ==> !disables_cache(#[trigger] directives(header)[j]),
            decreases directives_list@.len() - k,
        {
            let d = directives_list[k].as_str();
            assert(directives(header)[k as int] == d@);
            if str_eq(d, "no-cache") || str_eq(d, "max-age=0") {
                assert(disables_cache(directives(header)[k as int]));
                assert(directives(header).len() == directives_list@.len());
                assert(cache_control_for(header, strings_view(if_none_match@)) is None);
                return CacheControl::NoCache;
            }
            k += 1;
        }
        let ghost values = strings_view(if_none_match@);
        let mut tags: Vec<String> = Vec::new();
        let mut i: usize = 0;
        assert(values.take(0) =~= Seq::<Seq<char>>::empty());
        assert(string_set(tags@) =~= Set::<Seq<char>>::empty());
        while i < if_none_match.len()
            invariant
                i <= if_none_match@.len(),
                values == strings_view(if_none_match@),
                strictly_sorted(tags@),
                string_set(tags@) == all_tags(values.take(i as int)),
            decreases if_none_match@.len() - i,
        {
            let pieces = split_and_trim(if_none_match[i].as_str());
            let ghost before = string_set(tags@);
            let ghost value = values[i as int];
            assert(value == if_none_match@[i as int]@);
            let mut j: usize = 0;
            assert(before.union(string_set(pieces@.take(0))) =~= before);
            while j < pieces.len()
                invariant
                    j <= pieces@.len(),
                    strictly_sorted(tags@),
                    string_set(tags@) == before.union(string_set(pieces@.take(j as int))),
                decreases pieces@.len() - j,
            {
                let ghost prev = string_set(tags@);
                insert_sorted(&mut tags, pieces[j].clone());
                proof {
                    assert(string_set(pieces@.take(j + 1)) =~= string_set(pieces@.take(j as int)).insert(
                        pieces@[j as int]@,
                    )) by {
                        assert forall|x: Seq<char>| string_set(pieces@.take(j + 1)).contains(x)
                            implies string_set(pieces@.take(j as int)).insert(pieces@[j as int]@).contains(x) by {
                            let a = choose|a: int| 0 <= a < j + 1 && #[trigger] pieces@.take(j + 1)[a]@ == x;
                            if a < j {
                                assert(pieces@.take(j as int)[a] == pieces@.take(j + 1)[a]);
                            }
                        }
                        assert forall|x: Seq<char>| string_set(pieces@.take(j as int)).insert(
                            pieces@[j as int]@,
                        ).contains(x) implies string_set(pieces@.take(j + 1)).contains(x) by {
                            if x == pieces@[j as int]@ {
                                assert(pieces@.take(j + 1)[j as int]@ == x);
                            } else {
                                let a = choose|a: int| 0 <= a < j && #[trigger] pieces@.take(j as int)[a]@ == x;
                                assert(pieces@.take(j + 1)[a] == pieces@.take(j as int)[a]);
                            }
                        }
                    }
                    assert(string_set(tags@) =~= before.union(string_set(pieces@.take(j + 1))));
                }
                j += 1;
            }
            proof {
                assert(pieces@.take(pieces@.len() as int) =~= pieces@);
                lemma_tags_of(pieces@, value);
                assert(values.take(i + 1).drop_last() =~= values.take(i as int));
            }
            i += 1;
        }
        assert(values.take(if_none_match@.len() as int) =~= values);
        CacheControl::IfNoneMatch(tags)
    }

    /// The value of the `Cache-Control` header that makes a response cacheable for the cache
    /// duration: `private, max-age=<seconds>, must-revalidate`.
    pub fn caching_header_value(&self) -> (res: String)
        ensures
            res@ == caching_header(self.spec_cache_duration().spec_secs()),
    {
        let mut res = String::from_str("private, max-age=");
        let secs = u64_to_decimal(self.cache_duration.as_secs());
        push_str(&mut res, secs.as_str());
        push_str(&mut res, ", must-revalidate");
        res
    }

    /// Decides what the caching step does to a response, given the request's cache control,
    /// the response's entity tag (read from its `ETag` header, or computed from its body; `None`
    /// if it could not be read) and whether the response already has a `Cache-Control` header.
    ///
    /// Under `IfNoneMatch`, a response whose tag the client holds is answered "not modified",
    /// a tag that is no valid header value fails, and any other response keeps its tag as its
    /// `ETag`; a missing tag fails. Under `NoCache` the response is kept as it is. The caching
    /// headers are added to a kept response that has none, and to a "not modified" answer.
    pub fn decide_caching(
        &self,
        cache_control: &CacheControl,
        etag: Option<&str>,
        has_cache_control: bool,
    ) -> (res: CachingDecision)
        ensures
            res@ == caching_decision(
                *cache_control,
                match etag {
                    Some(t) => Some(t@),
                    None => None,
                },
                has_cache_control,
                self.spec_cache_duration().spec_secs(),
            ),
    {
        match cache_control {
            CacheControl::NoCache => {
                let value = if has_cache_control {
                    None
                } else {
                    Some(self.caching_header_value())
                };
                CachingDecision { action: CachingAction::Keep { etag: None }, cache_control_value: value }
            },
            CacheControl::IfNoneMatch(_) => match etag {
                None => CachingDecision { action: CachingAction::Fail, cache_control_value: None },
                Some(t) => {
                    if cache_control.is_not_modified(t) {
                        CachingDecision {
                            action: CachingAction::NotModified,
                            cache_control_value: Some(self.caching_header_value()),
                        }
                    } else if !is_valid_header_text(t) {
                        CachingDecision { action: CachingAction::Fail, cache_control_value: None }
                    } else {
                        let value = if has_cache_control {
                            None
                        } else {
                            Some(self.caching_header_value())
                        };
                        CachingDecision {
                            action: CachingAction::Keep { etag: Some(t.to_owned()) },
                            cache_control_value: value,
                        }
                    }
                },
            },
        }
    }
}

/// What the caching step does to a response.
#[derive(Debug, Clone, PartialEq, Eq)]
pub enum CachingAction {
    /// Answer "not modified": an empty response with status 304.
    NotModified,
    /// Keep the response, setting its `ETag` header to the tag, if there is one.
    Keep { etag: Option<String> },
    /// Answer with an internal server error: the entity tag could not be read or set.
    Fail,
}

/// The model of a caching action.
pub ghost enum ActionModel {
    NotModified,
    Keep(Option<Seq<char>>),
    Fail,
}

/// What the caching step does to a response, and the `Cache-Control` value it adds (with
/// `Vary: Hx-Request`), if any.
#[derive(Debug, Clone, PartialEq, Eq)]
pub struct CachingDecision {
    pub action: CachingAction,
    pub cache_control_value: Option<String>,
}

impl View for CachingDecision {
    type V = (ActionModel, Option<Seq<char>>);

    open spec fn view(&self) -> (ActionModel, Option<Seq<char>>) {
        (
            match self.action {
                CachingAction::NotModified => ActionModel::NotModified,
                CachingAction::Keep { etag } => ActionModel::Keep(
                    match etag {
                        Some(e) => Some(e@),
                        None => None,
                    },
                ),
                CachingAction::Fail => ActionModel::Fail,
            },
            match self.cache_control_value {
                Some(v) => Some(v@),
                None => None,
            },
        )
    }
}

/// The caching decision for a response: see [`Cache::decide_caching`].
pub open spec fn caching_decision(
    cc: CacheControl,
    etag: Option<Seq<char>>,
    has_cache_control: bool,
    secs: u64,
) -> (ActionModel, Option<Seq<char>>) {
    let added = if has_cache_control {
        None
    } else {
        Some(caching_header(secs))
    };
    match cc {
        CacheControl::NoCache => (ActionModel::Keep(None), added),
        CacheControl::IfNoneMatch(_) => match etag {
            None => (ActionModel::Fail, None),
            Some(t) => if spec_is_not_modified(cc, t) {
                (ActionModel::NotModified, Some(caching_header(secs)))
            } else if !valid_header_text(t) {
                (ActionModel::Fail, None)
            } else {
                (ActionModel::Keep(Some(t)), added)
            },
        },
    }
}

impl CacheControl {
    /// Whether a response with the given entity tag may be answered with "not modified": the
    /// request holds that tag in its `If-None-Match` headers.
    pub fn is_not_modified(&self, etag: &str) -> (res: bool)
        ensures
            res == spec_is_not_modified(*self, etag@),
    {
        match self {
            CacheControl::IfNoneMatch(tags) => {
                let mut i: usize = 0;
                while i < tags.len()
                    invariant
                        i <= tags@.len(),
                        spec_is_not_modified(*self, etag@) == string_set(tags@).contains(etag@),
                        forall|j: int| 0 <= j < i ==> tags@[j]@ != etag@,
                    decreases tags@.len() - i,
                {
                    if str_eq(tags[i].as_str(), etag) {
                        assert(tags@[i as int]@ == etag@);
                        assert(string_set(tags@).contains(etag@));
                        return true;
                    }
                    i += 1;
                }
                assert(!string_set(tags@).contains(etag@));
                false
            },
            CacheControl::NoCache => false,
        }
    }
}

proof fn lemma_tags_of(pieces: Seq<String>, value: Seq<char>)
    requires
        strings_view(pieces) == trimmed(split_commas(value)),
    ensures
        string_set(pieces) == tags_of(value),
{
    let pv = strings_view(pieces);
    let sv = trimmed(split_commas(value));
    assert(pv.len() == pieces.len());
    assert(sv.len() == split_commas(value).len());
    assert forall|x: Seq<char>| string_set(pieces).contains(x) implies tags_of(value).contains(x) by {
        let a = choose|a: int| 0 <= a < pieces.len() && #[trigger] pieces[a]@ == x;
        assert(pv[a] == pieces[a]@);
        assert(sv[a] == trim(split_commas(value)[a]));
    }
    assert forall|x: Seq<char>| tags_of(value).contains(x) implies string_set(pieces).contains(x) by {
        let a = choose|a: int| 0 <= a < split_commas(value).len() && trim(split_commas(value)[a]) == x;
        assert(sv[a] == trim(split_commas(value)[a]));
        assert(pv[a] == pieces[a]@);
        assert(pieces[a]@ == x);
    }
    assert(string_set(pieces) =~= tags_of(value));
}

/// The BLAKE3 digest of some bytes.
pub uninterp spec fn blake3_digest(input: Seq<u8>) -> Seq<u8>;

/// The BLAKE3 hash of some bytes.
///
/// Trusted: calls `blake3::hash` and takes the 32 bytes of the resulting `Hash`; the contract
/// names the digest and says nothing more of it.
#[verifier::external_body]
fn blake3_hash(input: &[u8]) -> (res: [u8; 32])
    ensures
        res@ == blake3_digest(input@),
{
    *blake3::hash(input).as_bytes()
}

/// The lowercase hexadecimal digit of a number below 16.
pub open spec fn hex_char(n: int) -> char {
    if n < 10 {
        (48 + n) as char
    } else {
        (87 + n) as char
    }
}

/// The lowercase hexadecimal form of some bytes, two digits per byte.
pub open spec fn hex_lower(b: Seq<u8>) -> Seq<char>
    decreases b.len(),
{
    if b.len() == 0 {
        Seq::empty()
    } else {
        hex_lower(b.drop_last()) + seq![hex_char(b.last() as int / 16), hex_char(b.last() as int % 16)]
    }
}

fn nibble_char(n: u8) -> (res: char)
    requires
        n < 16,
    ensures
        res == hex_char(n as int),
{
    if n < 10 {
        (48 + n) as char
    } else {
        (87 + n) as char
    }
}

/// The entity tag of a response body: the lowercase hexadecimal form of its BLAKE3 hash.
pub fn body_etag(body: &[u8]) -> (res: String)
    ensures
        res@ == hex_lower(blake3_digest(body@)),
{
    let digest = blake3_hash(body);
    let mut res = String::new();
    let mut i: usize = 0;
    assert(digest@.take(0) =~= Seq::<u8>::empty());
    while i < 32
        invariant
            i <= 32,
            digest@.len() == 32,
            res@ == hex_lower(digest@.take(i as int)),
        decreases 32 - i,
    {
        let b = digest[i];
        push_char(&mut res, nibble_char(b / 16));
        push_char(&mut res, nibble_char(b % 16));
        assert(digest@.take(i + 1).drop_last() =~= digest@.take(i as int));
        i += 1;
    }
    assert(digest@.take(32) =~= digest@);
    res
}

} // verus!
