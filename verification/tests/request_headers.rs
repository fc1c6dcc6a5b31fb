use htmxology::headers::{get_header, get_header_texts, value_to_str, Request};

fn headers(pairs: &[(&str, &[u8])]) -> Vec<(String, Vec<u8>)> {
    pairs.iter().map(|(n, v)| (n.to_string(), v.to_vec())).collect()
}

#[test]
fn classic_request_without_hx_request() {
    let h = headers(&[("hx-boosted", b"true"), ("accept", b"text/html")]);
    assert!(matches!(Request::from_headers(&h), Request::Classic));
}

#[test]
fn htmx_request_fields() {
    let h = headers(&[
        ("hx-request", b"true"),
        ("hx-current-url", b"http://localhost/page"),
        ("hx-prompt", b"bad\x01"),
        ("hx-target", b"main"),
        ("hx-trigger", b"btn"),
    ]);
    match Request::from_headers(&h) {
        Request::Htmx {
            boosted,
            current_url,
            history_restore_request,
            prompt,
            target,
            trigger_name,
            trigger,
        } => {
            assert!(!boosted);
            assert_eq!(current_url, "http://localhost/page");
            assert!(!history_restore_request);
            assert_eq!(prompt, "");
            assert_eq!(target, Some(b"main".to_vec()));
            assert_eq!(trigger_name, None);
            assert_eq!(trigger, Some(b"btn".to_vec()));
        }
        Request::Classic => panic!("expected an HTMX request"),
    }
}

#[test]
fn header_lookup_and_text() {
    let h = headers(&[("a", b"1"), ("b", b"2"), ("a", b"3")]);
    assert_eq!(get_header(&h, "a"), Some(&b"1".to_vec()));
    assert_eq!(get_header(&h, "c"), None);
    assert_eq!(get_header_texts(&h, "a"), vec!["1".to_string(), "3".to_string()]);
    assert_eq!(value_to_str(&b"tab\there".to_vec()), Some("tab\there".to_string()));
    assert_eq!(value_to_str(&b"caf\xc3\xa9".to_vec()), None);
    assert_eq!(value_to_str(&b"del\x7f".to_vec()), None);
}
