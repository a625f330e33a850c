use rquickjs_utils::fetch::{plan_fetch, response_status, FetchError, FetchOptions, RequestBody};
use rquickjs_utils::headers::{FetchHeaders, HeaderError};

fn st(s: &str) -> String {
    s.to_string()
}

#[test]
fn set_then_get_reads_back_the_value() {
    let mut h = FetchHeaders::new();
    assert!(!h.has(st("content-type")));
    assert_eq!(h.set(st("Content-Type"), st("text/plain")), Ok(()));
    assert_eq!(h.get(st("content-type")), Some(st("text/plain")));
    assert_eq!(h.get(st("CONTENT-TYPE")), Some(st("text/plain")));
    assert!(h.has(st("Content-Type")));
    assert_eq!(h.set(st("content-type"), st("application/json")), Ok(()));
    assert_eq!(h.values(), vec![st("application/json")]);
}

#[test]
fn append_keeps_earlier_values_in_order() {
    let mut h = FetchHeaders::new();
    assert_eq!(h.append(st("Accept"), st("a")), Ok(()));
    assert_eq!(h.append(st("accept"), st("b")), Ok(()));
    assert_eq!(h.get(st("accept")), Some(st("a")));
    assert_eq!(h.values(), vec![st("a"), st("b")]);
    assert_eq!(h.keys(), vec![st("accept")]);
    assert_eq!(h.entries(), vec![(st("accept"), st("a")), (st("accept"), st("b"))]);
}

#[test]
fn delete_removes_every_value() {
    let mut h = FetchHeaders::new();
    h.append(st("X-One"), st("1")).unwrap();
    h.append(st("X-One"), st("2")).unwrap();
    h.set(st("X-Two"), st("2")).unwrap();
    assert_eq!(h.delete(st("x-one")), Ok(()));
    assert!(!h.has(st("x-one")));
    assert_eq!(h.get(st("x-one")), None);
    assert_eq!(h.get(st("x-two")), Some(st("2")));
    assert_eq!(h.keys(), vec![st("x-two")]);
}

#[test]
fn invalid_names_and_values_are_refused() {
    let mut h = FetchHeaders::new();
    assert_eq!(h.set(st("bad name"), st("v")), Err(HeaderError::InvalidName));
    assert_eq!(h.append(st(""), st("v")), Err(HeaderError::InvalidName));
    assert_eq!(h.set(st("ok"), st("line\nbreak")), Err(HeaderError::InvalidValue));
    assert_eq!(h.append(st("ok"), st("del\u{7f}")), Err(HeaderError::InvalidValue));
    assert_eq!(h.delete(st("bad:name")), Err(HeaderError::InvalidName));
    assert!(!h.has(st("ok")));
    assert_eq!(h.get(st("bad name")), None);
    assert!(!h.has(st("bad name")));
    assert!(h.entries().is_empty());
    assert_eq!(HeaderError::InvalidName.message(), "Invalid Header Name");
    assert_eq!(HeaderError::InvalidValue.message(), "Invalid Header Value");
}

#[test]
fn tabs_and_non_ascii_values_are_kept() {
    let mut h = FetchHeaders::new();
    assert_eq!(h.set(st("x-tab"), st("a\tb")), Ok(()));
    assert_eq!(h.get(st("x-tab")), Some(st("a\tb")));
    assert_eq!(h.set(st("x-utf8"), st("héllo")), Ok(()));
    assert_eq!(h.get(st("x-utf8")), Some(st("héllo")));
}

fn options() -> FetchOptions {
    FetchOptions { method: None, headers: vec![], body_text: None, body_buffer: None }
}

#[test]
fn fetch_without_url_is_refused() {
    assert_eq!(plan_fetch(None, options()).unwrap_err(), FetchError::InvalidUrl);
    assert_eq!(FetchError::InvalidUrl.message(), "Invalid URL");
}

#[test]
fn fetch_defaults_to_get_without_body() {
    let req = plan_fetch(Some(st("http://example.com/")), options()).unwrap();
    assert_eq!(req.url, "http://example.com/");
    assert_eq!(req.method, "GET");
    assert!(req.headers.is_empty());
    assert!(req.body.is_none());
}

#[test]
fn fetch_method_must_be_a_token() {
    let mut o = options();
    o.method = Some(st("BAD METHOD"));
    assert_eq!(plan_fetch(Some(st("http://x/")), o).unwrap_err(), FetchError::InvalidMethod);
    let mut o = options();
    o.method = Some(st(""));
    assert_eq!(plan_fetch(Some(st("http://x/")), o).unwrap_err(), FetchError::InvalidMethod);
    let mut o = options();
    o.method = Some(st("PATCH"));
    assert_eq!(plan_fetch(Some(st("http://x/")), o).unwrap().method, "PATCH");
    assert_eq!(FetchError::InvalidMethod.message(), "Invalid Method");
}

#[test]
fn fetch_bodies() {
    let mut o = options();
    o.body_text = Some(st("hello"));
    o.headers = vec![(st("a"), st("1"))];
    let req = plan_fetch(Some(st("http://x/")), o).unwrap();
    assert!(matches!(req.body, Some(RequestBody::Text(ref t)) if t == "hello"));
    assert_eq!(req.headers, vec![(st("a"), st("1"))]);

    let mut o = options();
    o.body_text = Some(st("ignored"));
    o.body_buffer = Some(Some(vec![1, 2, 3]));
    let req = plan_fetch(Some(st("http://x/")), o).unwrap();
    assert!(matches!(req.body, Some(RequestBody::Bytes(ref b)) if b == &vec![1u8, 2, 3]));

    let mut o = options();
    o.body_buffer = Some(None);
    assert_eq!(plan_fetch(Some(st("http://x/")), o).unwrap_err(), FetchError::InvalidBody);
    assert_eq!(FetchError::InvalidBody.message(), "Invalid Body");
}

#[test]
fn response_status_reports_code_and_reason() {
    let r = response_status(200, st("http://x/"));
    assert!(r.ok);
    assert_eq!(r.status, 200);
    assert_eq!(r.status_text, Some(st("OK")));
    assert_eq!(r.url, "http://x/");
    let r = response_status(404, st("u"));
    assert!(!r.ok);
    assert_eq!(r.status_text, Some(st("Not Found")));
    let r = response_status(299, st("u"));
    assert!(r.ok);
    assert_eq!(r.status_text, None);
    assert!(!response_status(300, st("u")).ok);
    assert!(!response_status(199, st("u")).ok);
}

#[test]
fn a_full_header_map_refuses_more_names() {
    let mut h = FetchHeaders::new();
    let mut stored = 0usize;
    let mut refused = None;
    for i in 0..40000 {
        match h.append(format!("x-{i}"), st("v")) {
            Ok(()) => stored += 1,
            Err(e) => {
                refused = Some((i, e));
                break;
            }
        }
    }
    let (i, e) = refused.expect("the map has a maximum size");
    assert_eq!(e, HeaderError::TooManyHeaders);
    assert_eq!(HeaderError::TooManyHeaders.message(), "Too Many Headers");
    assert!(stored > 6553);
    // the refused name was not stored, earlier ones were
    assert!(!h.has(format!("x-{i}")));
    assert!(h.has(st("x-0")));
    assert_eq!(h.set(format!("y-{i}"), st("v")), Err(HeaderError::TooManyHeaders));
    assert_eq!(h.keys().len(), stored);
}
