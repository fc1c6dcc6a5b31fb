use htmxology::caching::{body_etag, Cache, CacheControl, CacheDuration, CachingAction, CachingDecision};
use htmxology::headers::Request;

fn headers(pairs: &[(&str, &[u8])]) -> Vec<(String, Vec<u8>)> {
    pairs.iter().map(|(n, v)| (n.to_string(), v.to_vec())).collect()
}

#[test]
fn cache_defaults_and_builders() {
    let cache: Cache<()> = Cache::default();
    assert_eq!(cache.max_body_size(), 1024 * 1024);
    assert_eq!(cache.cache_duration().as_secs(), 60);
    assert_eq!(cache.cache_duration().subsec_nanos(), 0);
    let cache = cache
        .with_max_body_size(10)
        .with_cache_duration(CacheDuration::new(5, 250));
    assert_eq!(cache.max_body_size(), 10);
    assert_eq!(cache.cache_duration(), CacheDuration::new(5, 250));
    assert_eq!(cache.caching_header_value(), "private, max-age=5, must-revalidate");
    let default_cache: Cache<()> = Cache::default();
    assert_eq!(
        default_cache.caching_header_value(),
        "private, max-age=60, must-revalidate"
    );
}

#[test]
fn cache_control_no_cache_directives() {
    let cache: Cache<()> = Cache::default();
    let h = headers(&[("cache-control", b"public, no-cache")]);
    assert_eq!(cache.get_cache_control(&(), &Request::Classic, &h), CacheControl::NoCache);
    let h = headers(&[("cache-control", b" max-age=0 "), ("if-none-match", b"\"a\"")]);
    assert_eq!(cache.get_cache_control(&(), &Request::Classic, &h), CacheControl::NoCache);
    let h = headers(&[("cache-control", b"max-age=10")]);
    assert_eq!(
        cache.get_cache_control(&(), &Request::Classic, &h),
        CacheControl::IfNoneMatch(vec![])
    );
}

#[test]
fn cache_control_collects_sorted_distinct_tags() {
    let cache: Cache<()> = Cache::default();
    let h = headers(&[
        ("if-none-match", b"b, a"),
        ("accept", b"*/*"),
        ("if-none-match", b" c ,a"),
        ("if-none-match", b"bad\xff"),
    ]);
    assert_eq!(
        cache.get_cache_control(&(), &Request::Classic, &h),
        CacheControl::IfNoneMatch(vec!["a".to_string(), "b".to_string(), "c".to_string()])
    );
    let direct = cache.cache_control_of(None, &vec!["x,y".to_string(), "x".to_string()]);
    assert_eq!(direct, CacheControl::IfNoneMatch(vec!["x".to_string(), "y".to_string()]));
}

#[test]
fn not_modified_when_tag_is_held() {
    let cc = CacheControl::IfNoneMatch(vec!["abc".to_string(), "def".to_string()]);
    assert!(cc.is_not_modified("def"));
    assert!(!cc.is_not_modified("xyz"));
    assert!(!CacheControl::NoCache.is_not_modified("abc"));
}

#[test]
fn etag_is_hex_blake3() {
    let etag = body_etag(b"foo");
    assert_eq!(etag.len(), 64);
    assert!(etag.chars().all(|c| c.is_ascii_hexdigit() && !c.is_ascii_uppercase()));
    assert_eq!(etag, blake3::hash(b"foo").to_hex().to_string());
    assert_ne!(body_etag(b"foo"), body_etag(b"bar"));
    assert_eq!(body_etag(b""), blake3::hash(b"").to_hex().to_string());
}

#[test]
fn returned_body_etag_is_not_modified() {
    let cache: Cache<()> = Cache::default();
    let etag = body_etag(b"<p>hello</p>");
    let sent = format!("other, {etag}");
    let h = headers(&[("cache-control", b"max-age=30"), ("if-none-match", sent.as_bytes())]);
    let cc = cache.get_cache_control(&(), &Request::Classic, &h);
    assert!(cc.is_not_modified(&etag));
    assert!(!cc.is_not_modified(&body_etag(b"<p>changed</p>")));
    let h = headers(&[("cache-control", b"no-cache"), ("if-none-match", etag.as_bytes())]);
    assert!(!cache.get_cache_control(&(), &Request::Classic, &h).is_not_modified(&etag));
}

#[test]
fn caching_decisions() {
    let cache: Cache<()> = Cache::default().with_cache_duration(CacheDuration::from_secs(30));
    let header = Some("private, max-age=30, must-revalidate".to_string());
    let held = CacheControl::IfNoneMatch(vec!["abc".to_string()]);
    // A tag the client holds: "not modified", with the caching headers.
    assert_eq!(
        cache.decide_caching(&held, Some("abc"), true),
        CachingDecision { action: CachingAction::NotModified, cache_control_value: header.clone() }
    );
    // Another tag: kept, tagged, and given the caching headers unless it has some.
    assert_eq!(
        cache.decide_caching(&held, Some("def"), false),
        CachingDecision { action: CachingAction::Keep { etag: Some("def".to_string()) }, cache_control_value: header.clone() }
    );
    assert_eq!(
        cache.decide_caching(&held, Some("def"), true),
        CachingDecision { action: CachingAction::Keep { etag: Some("def".to_string()) }, cache_control_value: None }
    );
    // A tag that could not be read, or that is no header value, fails.
    assert_eq!(
        cache.decide_caching(&held, None, false),
        CachingDecision { action: CachingAction::Fail, cache_control_value: None }
    );
    assert_eq!(
        cache.decide_caching(&held, Some("a\nb"), false),
        CachingDecision { action: CachingAction::Fail, cache_control_value: None }
    );
    // No cache: the response is kept as it is.
    assert_eq!(
        cache.decide_caching(&CacheControl::NoCache, None, false),
        CachingDecision { action: CachingAction::Keep { etag: None }, cache_control_value: header }
    );
    assert_eq!(
        cache.decide_caching(&CacheControl::NoCache, Some("abc"), true),
        CachingDecision { action: CachingAction::Keep { etag: None }, cache_control_value: None }
    );
}

#[test]
fn cache_duration_carries_whole_seconds() {
    let d = CacheDuration::new(5, 2_500_000_000);
    assert_eq!(d.as_secs(), 7);
    assert_eq!(d.subsec_nanos(), 500_000_000);
    let d = CacheDuration::new(1, 999_999_999);
    assert_eq!((d.as_secs(), d.subsec_nanos()), (1, 999_999_999));
}
