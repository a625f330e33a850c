use rquickjs_utils::console::{escape_str, log_line, log_v, LogValue, PromiseStatus, MAX_DEPTH};

#[test]
fn escape_leaves_plain_text() {
    assert_eq!(escape_str("hello world"), "hello world");
    assert_eq!(escape_str(""), "");
    assert_eq!(escape_str("héllo ✓"), "héllo ✓");
}

#[test]
fn escape_special_characters() {
    assert_eq!(escape_str("a\"b"), "a\\\"b");
    assert_eq!(escape_str("a\\b"), "a\\\\b");
    assert_eq!(escape_str("l1\nl2\r\t"), "l1\\nl2\\r\\t");
    assert_eq!(escape_str("\u{08}\u{0c}"), "\\b\\f");
    assert_eq!(escape_str("\u{01}\u{1b}\u{1f}"), "\\u0001\\u001b\\u001f");
    assert_eq!(escape_str("\u{7f}"), "\u{7f}");
}

fn s(t: &str) -> LogValue {
    LogValue::Str(Some(t.to_string()))
}

#[test]
fn log_scalars() {
    assert_eq!(log_v(&LogValue::Undefined, false, 0), "undefined");
    assert_eq!(log_v(&LogValue::Null, false, 0), "null");
    assert_eq!(log_v(&LogValue::Bool(Some(true)), false, 0), "true");
    assert_eq!(log_v(&LogValue::Bool(Some(false)), false, 0), "false");
    assert_eq!(log_v(&LogValue::Bool(None), false, 0), "<ERR>");
    assert_eq!(log_v(&LogValue::Int(Some(-42)), false, 0), "-42");
    assert_eq!(log_v(&LogValue::Int(Some(i32::MIN)), false, 0), "-2147483648");
    assert_eq!(log_v(&LogValue::Int(Some(0)), false, 0), "0");
    assert_eq!(log_v(&LogValue::Float(Some("1.5".to_string())), false, 0), "1.5");
    assert_eq!(log_v(&s("a\"b"), false, 0), "a\"b");
    assert_eq!(log_v(&s("a\"b"), true, 0), "\"a\\\"b\"");
    assert_eq!(log_v(&LogValue::Symbol, false, 0), "Symbol()");
    assert_eq!(log_v(&LogValue::Constructor, false, 0), "Constructor()");
    assert_eq!(log_v(&LogValue::Function, false, 0), "Function()");
    assert_eq!(log_v(&LogValue::Promise(Some(PromiseStatus::Pending)), false, 0), "Promise(<pending>)");
    assert_eq!(log_v(&LogValue::Promise(Some(PromiseStatus::Resolved)), false, 0), "Promise(<resolved>)");
    assert_eq!(log_v(&LogValue::Promise(Some(PromiseStatus::Rejected)), false, 0), "Promise(<rejected>)");
    assert_eq!(log_v(&LogValue::Exception(Some("boom".to_string())), false, 0), "Error<boom>");
    assert_eq!(log_v(&LogValue::BigInt(Some("123".to_string())), false, 0), "123");
    assert_eq!(log_v(&LogValue::Other("module".to_string()), false, 0), "module");
}

#[test]
fn log_collections() {
    let arr = LogValue::Array(Some(vec![Some(LogValue::Int(Some(1))), Some(s("x")), None]));
    assert_eq!(log_v(&arr, false, 0), "[1, \"x\", <ERR>]");
    let obj = LogValue::Object(Some(vec![
        Some((s("a"), LogValue::Int(Some(1)))),
        Some((s("b"), LogValue::Array(Some(vec![])))),
        None,
    ]));
    assert_eq!(log_v(&obj, false, 0), "{\"a\": 1, \"b\": [], <ERR>}");
    assert_eq!(log_v(&LogValue::Object(Some(vec![])), false, 0), "{}");
    assert_eq!(log_v(&LogValue::Array(None), false, 0), "<ERR>");
}

#[test]
fn log_depth_limit() {
    assert_eq!(log_v(&LogValue::Null, false, MAX_DEPTH + 1), "<Max-Depth Exceeded>");
    let mut v = LogValue::Int(Some(7));
    for _ in 0..11 {
        v = LogValue::Array(Some(vec![Some(v)]));
    }
    assert_eq!(log_v(&v, false, 0), "[[[[[[[[[[[<Max-Depth Exceeded>]]]]]]]]]]]");
}

#[test]
fn console_line_joins_with_spaces() {
    let args = vec![s("count:"), LogValue::Int(Some(3)), LogValue::Array(Some(vec![Some(s("q"))]))];
    assert_eq!(log_line(&args), "count: 3 [\"q\"]");
    assert_eq!(log_line(&vec![]), "");
}

fn json_decode(t: &str) -> String {
    let cs: Vec<char> = t.chars().collect();
    let mut out = String::new();
    let mut i = 0;
    while i < cs.len() {
        if cs[i] == '\\' && i + 1 < cs.len() {
            match cs[i + 1] {
                '"' => out.push('"'),
                '\\' => out.push('\\'),
                '/' => out.push('/'),
                'n' => out.push('\n'),
                'r' => out.push('\r'),
                't' => out.push('\t'),
                'b' => out.push('\u{08}'),
                'f' => out.push('\u{0c}'),
                'u' => {
                    let hex: String = cs[i + 2..i + 6].iter().collect();
                    out.push(char::from_u32(u32::from_str_radix(&hex, 16).unwrap()).unwrap());
                    i += 6;
                    continue;
                }
                _ => panic!("unknown escape"),
            }
            i += 2;
        } else {
            out.push(cs[i]);
            i += 1;
        }
    }
    out
}

#[test]
fn escaped_text_decodes_back() {
    let samples = ["", "plain", "q\"b\\s", "\u{0}\u{1f}\n\r\t\u{08}\u{0c}", "é✓\u{7f}/", "\\u0041"];
    for s in samples {
        let e = escape_str(s);
        assert_eq!(json_decode(&e), s);
        assert!(e.chars().count() >= s.chars().count());
        assert!(e.chars().all(|c| c as u32 >= 0x20));
    }
}
