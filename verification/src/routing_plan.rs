//! The routing table that the `Route` derive builds from a route enum: in which order requests
//! are matched against the variants, and which variants `FromStr` reads.

use vstd::prelude::*;
use crate::route_url::{RouteUrl, RouteUrlSegment, Seg};
use crate::params::{seq_lt, chars_lt, lemma_seq_lt_transitive, lemma_seq_lt_irreflexive};
use crate::strings::lemma_seq_lt_total;
use crate::text::{chars_of, str_eq};
use crate::variant_config::VariantConfig;
use crate::route_attributes::{RouteType, RouteTypeModel};

verus! {

broadcast use vstd::seq::group_seq_axioms;

/// The rank of a segment in the order of segments: separators, then parameters, then literals.
pub open spec fn seg_rank(g: Seg) -> int {
    match g {
        Seg::Sep => 0,
        Seg::Param(_) => 1,
        Seg::Lit(_) => 2,
    }
}

/// The text by which segments of the same rank are ordered.
pub open spec fn seg_key(g: Seg) -> Seq<char> {
    match g {
        Seg::Sep => Seq::empty(),
        Seg::Param(n) => n,
        Seg::Lit(l) => l,
    }
}

/// The order of segments: by rank, then by text.
pub open spec fn seg_lt(a: Seg, b: Seg) -> bool {
    seg_rank(a) < seg_rank(b) || (seg_rank(a) == seg_rank(b) && seq_lt(seg_key(a), seg_key(b)))
}

/// The order of route URLs: lexicographic on their segments, a URL before its extensions.
pub open spec fn url_lt(a: Seq<Seg>, b: Seq<Seg>) -> bool
    decreases a.len(),
{
    if a.len() == 0 {
        b.len() > 0
    } else if b.len() == 0 {
        false
    } else if a[0] != b[0] {
        seg_lt(a[0], b[0])
    } else {
        url_lt(a.skip(1), b.skip(1))
    }
}

proof fn lemma_seg_order(a: Seg, b: Seg)
    ensures
        !seg_lt(a, a),
        a != b ==> (seg_lt(a, b) || seg_lt(b, a)),
        !(seg_lt(a, b) && seg_lt(b, a)),
{
    lemma_seq_lt_irreflexive(seg_key(a));
    if seg_rank(a) == seg_rank(b) {
        if seq_lt(seg_key(a), seg_key(b)) && seq_lt(seg_key(b), seg_key(a)) {
            lemma_seq_lt_transitive(seg_key(a), seg_key(b), seg_key(a));
        }
        if a != b && !seq_lt(seg_key(a), seg_key(b)) && !seq_lt(seg_key(b), seg_key(a)) {
            lemma_seq_lt_total(seg_key(a), seg_key(b));
        }
    }
}

proof fn lemma_seg_lt_transitive(a: Seg, b: Seg, c: Seg)
    requires
        seg_lt(a, b),
        seg_lt(b, c),
    ensures
        seg_lt(a, c),
{
    if seg_rank(a) == seg_rank(b) && seg_rank(b) == seg_rank(c) {
        lemma_seq_lt_transitive(seg_key(a), seg_key(b), seg_key(c));
    }
}

/// The order of route URLs is a strict total order.
pub proof fn lemma_url_lt_irreflexive(a: Seq<Seg>)
    ensures
        !url_lt(a, a),
    decreases a.len(),
{
    if a.len() > 0 {
        lemma_url_lt_irreflexive(a.skip(1));
    }
}

pub proof fn lemma_url_lt_transitive(a: Seq<Seg>, b: Seq<Seg>, c: Seq<Seg>)
    requires
        url_lt(a, b),
        url_lt(b, c),
    ensures
        url_lt(a, c),
    decreases a.len(),
{
    if a.len() > 0 && b.len() > 0 && c.len() > 0 {
        if a[0] == b[0] && b[0] == c[0] {
            lemma_url_lt_transitive(a.skip(1), b.skip(1), c.skip(1));
        } else if a[0] != b[0] && b[0] != c[0] {
            lemma_seg_lt_transitive(a[0], b[0], c[0]);
            lemma_seg_order(a[0], c[0]);
            if a[0] == c[0] {
                lemma_seg_order(a[0], b[0]);
            }
        }
    }
}

pub proof fn lemma_url_lt_total(a: Seq<Seg>, b: Seq<Seg>)
    requires
        a != b,
    ensures
        url_lt(a, b) || url_lt(b, a),
    decreases a.len(),
{
    if a.len() > 0 && b.len() > 0 {
        if a[0] == b[0] {
            if a.skip(1) == b.skip(1) {
                assert(a =~= seq![a[0]] + a.skip(1));
                assert(b =~= seq![b[0]] + b.skip(1));
            }
            lemma_url_lt_total(a.skip(1), b.skip(1));
        } else {
            lemma_seg_order(a[0], b[0]);
        }
    } else if a.len() == 0 && b.len() == 0 {
        assert(a =~= b);
    }
}

pub proof fn lemma_url_lt_asymmetric(a: Seq<Seg>, b: Seq<Seg>)
    ensures
        !(url_lt(a, b) && url_lt(b, a)),
{
    if url_lt(a, b) && url_lt(b, a) {
        lemma_url_lt_transitive(a, b, a);
        lemma_url_lt_irreflexive(a);
    }
}

/// The rank of a segment.
fn seg_rank_of(g: &RouteUrlSegment) -> (res: u8)
    ensures
        res == seg_rank(g@),
{
    match g {
        RouteUrlSegment::Separator => 0,
        RouteUrlSegment::Parameter { .. } => 1,
        RouteUrlSegment::Literal(_) => 2,
    }
}

/// The text of a segment.
fn seg_key_of(g: &RouteUrlSegment) -> (res: &str)
    ensures
        res@ == seg_key(g@),
{
    match g {
        RouteUrlSegment::Separator => {
            proof {
                reveal_strlit("");
            }
            assert(""@ =~= Seq::<char>::empty());
            ""
        },
        RouteUrlSegment::Parameter { name } => name.as_str(),
        RouteUrlSegment::Literal(l) => l.as_str(),
    }
}

/// Whether two segments are equal.
fn seg_equal(a: &RouteUrlSegment, b: &RouteUrlSegment) -> (res: bool)
    ensures
        res == (a@ == b@),
{
    let ra = seg_rank_of(a);
    let rb = seg_rank_of(b);
    if ra != rb {
        return false;
    }
    let eq = str_eq(seg_key_of(a), seg_key_of(b));
    proof {
        match (a@, b@) {
            (Seg::Sep, Seg::Sep) => {
                reveal_strlit("");
            },
            _ => {},
        }
    }
    eq
}

/// Whether a segment comes before another.
fn seg_less(a: &RouteUrlSegment, b: &RouteUrlSegment) -> (res: bool)
    ensures
        res == seg_lt(a@, b@),
{
    let ra = seg_rank_of(a);
    let rb = seg_rank_of(b);
    if ra != rb {
        return ra < rb;
    }
    let ka = chars_of(seg_key_of(a));
    let kb = chars_of(seg_key_of(b));
    chars_lt(ka.as_slice(), kb.as_slice())
}

/// Whether a route URL comes before another.
pub fn url_less(a: &RouteUrl, b: &RouteUrl) -> (res: bool)
    ensures
        res == url_lt(a@, b@),
{
    let mut k: usize = 0;
    assert(a@.skip(0) =~= a@);
    assert(b@.skip(0) =~= b@);
    while k < a.0.len() && k < b.0.len()
        invariant
            k <= a@.len(),
            k <= b@.len(),
            a@.len() == a.0@.len(),
            b@.len() == b.0@.len(),
            url_lt(a@, b@) == url_lt(a@.skip(k as int), b@.skip(k as int)),
        decreases a@.len() - k,
    {
        assert(a@.skip(k as int)[0] == a@[k as int]);
        assert(b@.skip(k as int)[0] == b@[k as int]);
        assert(a@[k as int] == a.0@[k as int]@);
        assert(b@[k as int] == b.0@[k as int]@);
        if !seg_equal(&a.0[k], &b.0[k]) {
            return seg_less(&a.0[k], &b.0[k]);
        }
        assert(a@.skip(k as int).skip(1) =~= a@.skip(k + 1));
        assert(b@.skip(k as int).skip(1) =~= b@.skip(k + 1));
        k += 1;
    }
    k == a.0.len() && k < b.0.len()
}

/// Whether two route URLs are equal.
pub fn url_equal(a: &RouteUrl, b: &RouteUrl) -> (res: bool)
    ensures
        res == (a@ == b@),
{
    if a.0.len() != b.0.len() {
        return false;
    }
    let mut k: usize = 0;
    while k < a.0.len()
        invariant
            k <= a@.len(),
            a@.len() == a.0@.len(),
            b@.len() == b.0@.len(),
            a@.len() == b@.len(),
            forall|j: int| 0 <= j < k ==> a@[j] == b@[j],
        decreases a@.len() - k,
    {
        assert(a@[k as int] == a.0@[k as int]@);
        assert(b@[k as int] == b.0@[k as int]@);
        if !seg_equal(&a.0[k], &b.0[k]) {
            return false;
        }
        k += 1;
    }
    assert(a@ =~= b@);
    true
}

/// The route URL of a variant.
pub open spec fn url_at(cs: Seq<VariantConfig>, i: int) -> Seq<Seg> {
    cs[i].route_url@
}

/// Whether a variant is a subroute prefix.
pub open spec fn is_sub(cs: Seq<VariantConfig>, i: int) -> bool {
    cs[i].route_type@ is SubRoute
}

/// Whether a variant is a simple route.
pub open spec fn is_simple(cs: Seq<VariantConfig>, i: int) -> bool {
    cs[i].route_type@ is Simple
}

/// Whether the variants listed are sorted by URL, greatest first, with no URL twice.
pub open spec fn desc_by_url(cs: Seq<VariantConfig>, s: Seq<usize>) -> bool {
    &&& forall|k: int| 0 <= k < s.len() ==> #[trigger] s[k] < cs.len()
    &&& forall|k: int, l: int|
        #![trigger s[k], s[l]]
        0 <= k < l < s.len() ==> url_lt(url_at(cs, s[l] as int), url_at(cs, s[k] as int))
}

/// Finds a listed variant with the URL of variant `i`.
fn find_url(configs: &Vec<VariantConfig>, order: &Vec<usize>, i: usize) -> (res: Option<usize>)
    requires
        i < configs@.len(),
        forall|k: int| 0 <= k < order@.len() ==> #[trigger] order@[k] < configs@.len(),
    ensures
        match res {
            Some(k) => k < order@.len() && url_at(configs@, order@[k as int] as int) == url_at(
                configs@,
                i as int,
            ),
            None => forall|k: int|
                0 <= k < order@.len() ==> url_at(configs@, #[trigger] order@[k] as int) != url_at(
                    configs@,
                    i as int,
                ),
        },
{
    let mut k: usize = 0;
    while k < order.len()
        invariant
            i < configs@.len(),
            forall|k: int| 0 <= k < order@.len() ==> #[trigger] order@[k] < configs@.len(),
            k <= order@.len(),
            forall|j: int|
                0 <= j < k ==> url_at(configs@, #[trigger] order@[j] as int) != url_at(
                    configs@,
                    i as int,
                ),
        decreases order@.len() - k,
    {
        if url_equal(&configs[order[k]].route_url, &configs[i].route_url) {
            return Some(k);
        }
        k += 1;
    }
    None
}

/// Inserts variant `i` into a list sorted by URL, greatest first, that holds no variant with
/// its URL.
fn insert_by_url(configs: &Vec<VariantConfig>, order: &mut Vec<usize>, i: usize)
    requires
        i < configs@.len(),
        desc_by_url(configs@, old(order)@),
        forall|k: int|
            0 <= k < old(order)@.len() ==> url_at(configs@, #[trigger] old(order)@[k] as int)
                != url_at(configs@, i as int),
    ensures
        desc_by_url(configs@, final(order)@),
        final(order)@.len() == old(order)@.len() + 1,
        forall|x: usize| #[trigger] final(order)@.contains(x) <==> (old(order)@.contains(x) || x == i),
{
    let ghost before = order@;
    let ghost u = url_at(configs@, i as int);
    let mut p: usize = 0;
    while p < order.len() && url_less(&configs[i].route_url, &configs[order[p]].route_url)
        invariant
            order@ == before,
            u == url_at(configs@, i as int),
            i < configs@.len(),
            desc_by_url(configs@, before),
            p <= before.len(),
            forall|k: int| 0 <= k < p ==> url_lt(u, url_at(configs@, #[trigger] before[k] as int)),
        decreases before.len() - p,
    {
        p += 1;
    }
    proof {
        if p < before.len() {
            let w = url_at(configs@, before[p as int] as int);
            assert(!url_lt(u, w));
            assert(w != u);
            lemma_url_lt_total(w, u);
            assert forall|k: int| p <= k < before.len() implies url_lt(
                url_at(configs@, #[trigger] before[k] as int),
                u,
            ) by {
                if k > p {
                    assert(url_lt(url_at(configs@, before[k] as int), w));
                    lemma_url_lt_transitive(url_at(configs@, before[k] as int), w, u);
                }
            }
        }
    }
    order.insert(p, i);
    proof {
        let after = order@;
        assert(after == before.insert(p as int, i));
        assert forall|k: int| 0 <= k < after.len() implies #[trigger] after[k] < configs@.len() by {
            if k < p {
                assert(after[k] == before[k]);
            } else if k > p {
                assert(after[k] == before[k - 1]);
            }
        }
        assert forall|k: int, l: int|
            #![trigger after[k], after[l]]
            0 <= k < l < after.len() implies url_lt(
                url_at(configs@, after[l] as int),
                url_at(configs@, after[k] as int),
            ) by {
            if l < p {
                assert(after[k] == before[k] && after[l] == before[l]);
            } else if l == p {
                assert(after[k] == before[k]);
            } else if k < p {
                assert(after[k] == before[k] && after[l] == before[l - 1]);
                lemma_url_lt_transitive(
                    url_at(configs@, before[l - 1] as int),
                    u,
                    url_at(configs@, before[k] as int),
                );
            } else if k == p {
                assert(after[l] == before[l - 1]);
            } else {
                assert(after[k] == before[k - 1] && after[l] == before[l - 1]);
            }
        }
        assert forall|x: usize| #[trigger] after.contains(x) <==> (before.contains(x) || x == i) by {
            if after.contains(x) {
                let k = choose|k: int| 0 <= k < after.len() && after[k] == x;
                if k < p {
                    assert(before[k] == x);
                } else if k > p {
                    assert(before[k - 1] == x);
                }
            }
            if before.contains(x) {
                let k = choose|k: int| 0 <= k < before.len() && before[k] == x;
                if k < p {
                    assert(after[k] == x);
                } else {
                    assert(after[k + 1] == x);
                }
            }
            if x == i {
                assert(after[p as int] == x);
            }
        }
    }
}

/// Whether variant `j` is a subroute whose prefix an earlier subroute already has.
pub open spec fn repeats_subroute(cs: Seq<VariantConfig>, j: int) -> bool {
    &&& 0 <= j < cs.len()
    &&& is_sub(cs, j)
    &&& exists|i: int| 0 <= i < j && is_sub(cs, i) && url_at(cs, i) == url_at(cs, j)
}

/// Whether the subroutes are listed in the order they are tried: all of them, the greatest URL
/// first.
pub open spec fn subroute_order(cs: Seq<VariantConfig>, s: Seq<usize>) -> bool {
    &&& desc_by_url(cs, s)
    &&& forall|k: int| 0 <= k < s.len() ==> is_sub(cs, #[trigger] s[k] as int)
    &&& forall|i: int| 0 <= i < cs.len() && is_sub(cs, i) ==> #[trigger] s.contains(i as usize)
}

/// Whether variant `i` is the first simple route with its URL.
pub open spec fn first_with_url(cs: Seq<VariantConfig>, i: int) -> bool {
    &&& 0 <= i < cs.len()
    &&& is_simple(cs, i)
    &&& forall|j: int| 0 <= j < i && is_simple(cs, j) ==> url_at(cs, j) != url_at(cs, i)
}

/// Whether the URLs of the simple routes are listed, each by its first variant, in the order
/// they are tried: the greatest URL first.
pub open spec fn simple_order(cs: Seq<VariantConfig>, h: Seq<usize>) -> bool {
    &&& desc_by_url(cs, h)
    &&& forall|k: int| 0 <= k < h.len() ==> first_with_url(cs, #[trigger] h[k] as int)
    &&& forall|i: int|
        0 <= i < cs.len() && is_simple(cs, i) ==> exists|k: int|
            0 <= k < h.len() && url_at(cs, #[trigger] h[k] as int) == url_at(cs, i)
}

/// The simple routes with URL `u` among the first `n` variants, in order, with their methods.
pub open spec fn routes_in(cs: Seq<VariantConfig>, n: int, u: Seq<Seg>) -> Seq<(Seq<char>, usize)>
    decreases n,
{
    if n <= 0 {
        Seq::empty()
    } else {
        routes_in(cs, n - 1, u) + if is_simple(cs, n - 1) && url_at(cs, n - 1) == u {
            seq![(cs[n - 1].route_type@->Simple_0, (n - 1) as usize)]
        } else {
            Seq::empty()
        }
    }
}

/// The first of the first `n` variants that is a simple route with URL `u` answering `GET`.
pub open spec fn first_get(cs: Seq<VariantConfig>, n: int, u: Seq<Seg>) -> Option<usize>
    decreases n,
{
    if n <= 0 {
        None
    } else {
        match first_get(cs, n - 1, u) {
            Some(i) => Some(i),
            None => if is_simple(cs, n - 1) && url_at(cs, n - 1) == u && cs[n
                - 1].route_type@->Simple_0 == "GET"@ {
                Some((n - 1) as usize)
            } else {
                None
            },
        }
    }
}

/// The simple routes `FromStr` reads, in order: for each URL of `h`, its first `GET` route, if any.
pub open spec fn get_routes_for(cs: Seq<VariantConfig>, h: Seq<usize>) -> Seq<usize>
    decreases h.len(),
{
    if h.len() == 0 {
        Seq::empty()
    } else {
        get_routes_for(cs, h.drop_last()) + match first_get(
            cs,
            cs.len() as int,
            url_at(cs, h.last() as int),
        ) {
            Some(i) => seq![i],
            None => Seq::empty(),
        }
    }
}

/// The last catch-all variant among the first `n`.
pub open spec fn last_catch_all(cs: Seq<VariantConfig>, n: int) -> Option<usize>
    decreases n,
{
    if n <= 0 {
        None
    } else if cs[n - 1].route_type@ is CatchAll {
        Some((n - 1) as usize)
    } else {
        last_catch_all(cs, n - 1)
    }
}

/// A simple route: the method it answers and its variant.
#[derive(Debug, Clone, PartialEq, Eq)]
pub struct MethodRoute {
    pub method: String,
    pub variant: usize,
}

/// The simple routes of one URL: the first variant with the URL, and all of them, in order.
#[derive(Debug, Clone, PartialEq, Eq)]
pub struct UrlRoutes {
    pub first: usize,
    pub routes: Vec<MethodRoute>,
}

/// The routing table of a route enum.
#[derive(Debug, Clone, PartialEq, Eq)]
pub struct RoutingPlan {
    /// The subroute variants, in the order requests are matched against their prefixes.
    pub subroutes: Vec<usize>,
    /// The simple routes by URL, in the order requests are matched against the URLs, after the
    /// subroutes; a request whose method no route of its URL answers is refused.
    pub simple: Vec<UrlRoutes>,
    /// The simple routes `FromStr` reads: the first `GET` route of each URL, in the order of
    /// `simple`.
    pub get_routes: Vec<usize>,
    /// The variant that takes the requests no other route matches, if any.
    pub catch_all: Option<usize>,
}

impl RoutingPlan {
    /// The variants `FromStr` tries, in order: the subroutes, whose prefix it strips before
    /// the subroute's own `FromStr` reads the rest; then the first `GET` route of each URL;
    /// then the catch-all variant, whose own `FromStr` reads the whole URL.
    pub fn from_str_routes(&self) -> (res: Vec<usize>)
        ensures
            res@ == self.subroutes@ + self.get_routes@ + match self.catch_all {
                Some(c) => seq![c],
                None => Seq::<usize>::empty(),
            },
    {
        let mut res: Vec<usize> = Vec::new();
        let mut i: usize = 0;
        while i < self.subroutes.len()
            invariant
                i <= self.subroutes@.len(),
                res@ == self.subroutes@.take(i as int),
            decreases self.subroutes@.len() - i,
        {
            res.push(self.subroutes[i]);
            assert(self.subroutes@.take(i + 1) =~= self.subroutes@.take(i as int).push(self.subroutes@[i as int]));
            i += 1;
        }
        assert(self.subroutes@.take(i as int) =~= self.subroutes@);
        let mut j: usize = 0;
        while j < self.get_routes.len()
            invariant
                j <= self.get_routes@.len(),
                res@ == self.subroutes@ + self.get_routes@.take(j as int),
            decreases self.get_routes@.len() - j,
        {
            res.push(self.get_routes[j]);
            assert(self.get_routes@.take(j + 1) =~= self.get_routes@.take(j as int).push(self.get_routes@[j as int]));
            j += 1;
        }
        assert(self.get_routes@.take(j as int) =~= self.get_routes@);
        if let Some(c) = self.catch_all {
            res.push(c);
        }
        assert(res@ =~= self.subroutes@ + self.get_routes@ + match self.catch_all {
            Some(c) => seq![c],
            None => Seq::<usize>::empty(),
        });
        res
    }
}

/// An error in the routes of a route enum.
#[derive(Debug, Clone, PartialEq, Eq)]
pub enum RoutingError {
    /// The variant is a subroute with the prefix of an earlier one.
    DuplicateSubroutePrefix { variant: usize },
}

impl RoutingError {
    /// The message of the error.
    pub fn to_string(&self) -> (res: String)
        ensures
            res@ == "duplicate subroute prefix"@,
    {
        String::from_str("duplicate subroute prefix")
    }
}

/// The models of method routes.
pub open spec fn method_routes_view(v: Seq<MethodRoute>) -> Seq<(Seq<char>, usize)> {
    v.map_values(|r: MethodRoute| (r.method@, r.variant))
}

/// The first variants of URL route groups.
pub open spec fn firsts(v: Seq<UrlRoutes>) -> Seq<usize> {
    v.map_values(|g: UrlRoutes| g.first)
}

/// The simple routes with the URL of variant `i`, in order, with their methods.
fn routes_with_url(configs: &Vec<VariantConfig>, i: usize) -> (res: Vec<MethodRoute>)
    requires
        i < configs@.len(),
    ensures
        method_routes_view(res@) == routes_in(configs@, configs@.len() as int, url_at(configs@, i as int)),
{
    let ghost u = url_at(configs@, i as int);
    let mut out: Vec<MethodRoute> = Vec::new();
    let mut j: usize = 0;
    assert(method_routes_view(out@) =~= Seq::<(Seq<char>, usize)>::empty());
    while j < configs.len()
        invariant
            i < configs@.len(),
            u == url_at(configs@, i as int),
            j <= configs@.len(),
            method_routes_view(out@) == routes_in(configs@, j as int, u),
        decreases configs@.len() - j,
    {
        let ghost before = out@;
        match &configs[j].route_type {
            RouteType::Simple { method } => {
                if url_equal(&configs[j].route_url, &configs[i].route_url) {
                    out.push(MethodRoute { method: method.clone(), variant: j });
                    assert(method_routes_view(out@) =~= method_routes_view(before) + seq![
                        (method@, j),
                    ]);
                } else {
                    assert(routes_in(configs@, j + 1, u) =~= routes_in(configs@, j as int, u));
                }
            },
            _ => {
                assert(routes_in(configs@, j + 1, u) =~= routes_in(configs@, j as int, u));
            },
        }
        j += 1;
    }
    out
}

/// The first simple route with the URL of variant `i` that answers `GET`.
fn first_get_route(configs: &Vec<VariantConfig>, i: usize) -> (res: Option<usize>)
    requires
        i < configs@.len(),
    ensures
        res == first_get(configs@, configs@.len() as int, url_at(configs@, i as int)),
{
    let ghost u = url_at(configs@, i as int);
    let mut found: Option<usize> = None;
    let mut j: usize = 0;
    while j < configs.len()
        invariant
            i < configs@.len(),
            u == url_at(configs@, i as int),
            j <= configs@.len(),
            found == first_get(configs@, j as int, u),
        decreases configs@.len() - j,
    {
        if found.is_none() {
            match &configs[j].route_type {
                RouteType::Simple { method } => {
                    if url_equal(&configs[j].route_url, &configs[i].route_url) && str_eq(
                        method.as_str(),
                        "GET",
                    ) {
                        found = Some(j);
                    }
                },
                _ => {},
            }
        }
        j += 1;
    }
    found
}

/// Builds the routing table of a route enum from its variants: the subroutes, greatest prefix
/// first, then the simple routes grouped by URL, greatest URL first, each group in variant
/// order; `FromStr` reads, after the subroutes and in the same order of URLs, the first `GET`
/// route of each URL, then the catch-all (see [`RoutingPlan::from_str_routes`]); the
/// last catch-all variant takes the requests no other route matches. Two subroutes may not have
/// the same prefix: the first variant that repeats one is refused.
pub fn plan_routes(configs: &Vec<VariantConfig>) -> (res: Result<RoutingPlan, RoutingError>)
    ensures
        match res {
            Err(RoutingError::DuplicateSubroutePrefix { variant }) => repeats_subroute(
                configs@,
                variant as int,
            ) && forall|j: int| 0 <= j < variant ==> !repeats_subroute(configs@, j),
            Ok(p) => {
                &&& forall|j: int| 0 <= j < configs@.len() ==> !repeats_subroute(configs@, j)
                &&& subroute_order(configs@, p.subroutes@)
                &&& simple_order(configs@, firsts(p.simple@))
                &&& forall|a: int|
                    0 <= a < p.simple@.len() ==> method_routes_view((#[trigger] p.simple@[a]).routes@)
                        == routes_in(
                        configs@,
                        configs@.len() as int,
                        url_at(configs@, p.simple@[a].first as int),
                    )
                &&& p.get_routes@ == get_routes_for(configs@, firsts(p.simple@))
                &&& p.catch_all == last_catch_all(configs@, configs@.len() as int)
            },
        },
{
    let mut subs: Vec<usize> = Vec::new();
    let mut heads: Vec<usize> = Vec::new();
    let mut catch_all: Option<usize> = None;
    let mut i: usize = 0;
    while i < configs.len()
        invariant
            i <= configs@.len(),
            forall|j: int| 0 <= j < i ==> !repeats_subroute(configs@, j),
            desc_by_url(configs@, subs@),
            forall|k: int| 0 <= k < subs@.len() ==> is_sub(configs@, #[trigger] subs@[k] as int) && subs@[k] < i,
            forall|j: int| 0 <= j < i && is_sub(configs@, j) ==> #[trigger] subs@.contains(j as usize),
            desc_by_url(configs@, heads@),
            forall|k: int| 0 <= k < heads@.len() ==> first_with_url(configs@, #[trigger] heads@[k] as int) && heads@[k] < i,
            forall|j: int|
                0 <= j < i && is_simple(configs@, j) ==> exists|k: int|
                    0 <= k < heads@.len() && url_at(configs@, #[trigger] heads@[k] as int) == url_at(configs@, j),
            catch_all == last_catch_all(configs@, i as int),
        decreases configs@.len() - i,
    {
        match &configs[i].route_type {
            RouteType::SubRoute => {
                match find_url(configs, &subs, i) {
                    Some(k) => {
                        assert(repeats_subroute(configs@, i as int)) by {
                            let w = subs@[k as int] as int;
                            assert(is_sub(configs@, w) && w < i);
                        }
                        return Err(RoutingError::DuplicateSubroutePrefix { variant: i });
                    },
                    None => {
                        let ghost before = subs@;
                        assert(!repeats_subroute(configs@, i as int)) by {
                            if repeats_subroute(configs@, i as int) {
                                let j = choose|j: int| 0 <= j < i && is_sub(configs@, j) && url_at(configs@, j) == url_at(configs@, i as int);
                                assert(before.contains(j as usize));
                                let k = choose|k: int| 0 <= k < before.len() && before[k] == j as usize;
                                assert(url_at(configs@, before[k] as int) != url_at(configs@, i as int));
                            }
                        }
                        insert_by_url(configs, &mut subs, i);
                        assert forall|k: int| 0 <= k < subs@.len() implies is_sub(configs@, #[trigger] subs@[k] as int) && subs@[k] < i + 1 by {
                            assert(subs@.contains(subs@[k]));
                            if subs@[k] != i {
                                let m = choose|m: int| 0 <= m < before.len() && before[m] == subs@[k];
                                assert(is_sub(configs@, before[m] as int));
                            }
                        }
                        assert forall|j: int| 0 <= j < i + 1 && is_sub(configs@, j) implies #[trigger] subs@.contains(j as usize) by {
                            if j < i {
                                assert(before.contains(j as usize));
                            }
                        }
                    },
                }
            },
            RouteType::Simple { .. } => {
                match find_url(configs, &heads, i) {
                    Some(k) => {},
                    None => {
                        let ghost before = heads@;
                        assert(first_with_url(configs@, i as int)) by {
                            assert forall|j: int| 0 <= j < i && is_simple(configs@, j) implies url_at(configs@, j) != url_at(configs@, i as int) by {
                                let k = choose|k: int| 0 <= k < before.len() && url_at(configs@, #[trigger] before[k] as int) == url_at(configs@, j);
                                assert(url_at(configs@, before[k] as int) != url_at(configs@, i as int));
                            }
                        }
                        insert_by_url(configs, &mut heads, i);
                        assert forall|k: int| 0 <= k < heads@.len() implies first_with_url(configs@, #[trigger] heads@[k] as int) && heads@[k] < i + 1 by {
                            assert(heads@.contains(heads@[k]));
                            if heads@[k] != i {
                                let m = choose|m: int| 0 <= m < before.len() && before[m] == heads@[k];
                                assert(first_with_url(configs@, before[m] as int));
                            }
                        }
                        assert forall|j: int| 0 <= j < i + 1 && is_simple(configs@, j) implies exists|k: int|
                            0 <= k < heads@.len() && url_at(configs@, #[trigger] heads@[k] as int) == url_at(configs@, j) by {
                            if j < i {
                                let k = choose|k: int| 0 <= k < before.len() && url_at(configs@, #[trigger] before[k] as int) == url_at(configs@, j);
                                assert(heads@.contains(before[k]));
                                let m = choose|m: int| 0 <= m < heads@.len() && heads@[m] == before[k];
                                assert(url_at(configs@, heads@[m] as int) == url_at(configs@, j));
                            } else {
                                assert(heads@.contains(i));
                                let m = choose|m: int| 0 <= m < heads@.len() && heads@[m] == i;
                                assert(url_at(configs@, heads@[m] as int) == url_at(configs@, j));
                            }
                        }
                    },
                }
            },
            RouteType::CatchAll => {
                catch_all = Some(i);
            },
        }
        i += 1;
    }
    let mut simple: Vec<UrlRoutes> = Vec::new();
    let mut get_routes: Vec<usize> = Vec::new();
    let mut a: usize = 0;
    assert(firsts(simple@) =~= heads@.take(0));
    while a < heads.len()
        invariant
            a <= heads@.len(),
            forall|k: int| 0 <= k < heads@.len() ==> #[trigger] heads@[k] < configs@.len(),
            firsts(simple@) == heads@.take(a as int),
            forall|b: int|
                0 <= b < simple@.len() ==> method_routes_view((#[trigger] simple@[b]).routes@)
                    == routes_in(configs@, configs@.len() as int, url_at(configs@, simple@[b].first as int)),
            get_routes@ == get_routes_for(configs@, heads@.take(a as int)),
        decreases heads@.len() - a,
    {
        let h = heads[a];
        let routes = routes_with_url(configs, h);
        let g = first_get_route(configs, h);
        let ghost before = simple@;
        let ghost before_gets = get_routes@;
        simple.push(UrlRoutes { first: h, routes });
        assert(firsts(simple@) =~= heads@.take(a + 1)) by {
            assert(heads@.take(a + 1) =~= heads@.take(a as int).push(h));
        }
        assert(heads@.take(a + 1).drop_last() =~= heads@.take(a as int));
        match g {
            Some(x) => {
                get_routes.push(x);
                assert(get_routes@ =~= before_gets + seq![x]);
            },
            None => {
                assert(before_gets + Seq::<usize>::empty() =~= before_gets);
            },
        }
        a += 1;
    }
    assert(heads@.take(heads@.len() as int) =~= heads@);
    Ok(RoutingPlan { subroutes: subs, simple, get_routes, catch_all })
}

} // verus!
