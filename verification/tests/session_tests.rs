use rquickjs_utils::handles::{use_once, HandleError, OnceSlot};
use rquickjs_utils::session::{
    call_plan, exception_report, has_work, json_text, script_source, should_await, ScriptSource,
};

#[test]
fn script_sources() {
    assert_eq!(script_source("-"), ScriptSource::Stdin);
    assert_eq!(script_source("@main.js"), ScriptSource::File("main.js".to_string()));
    assert_eq!(script_source("@"), ScriptSource::File(String::new()));
    assert_eq!(script_source("1 + 1"), ScriptSource::Inline("1 + 1".to_string()));
    assert_eq!(script_source("--"), ScriptSource::Inline("--".to_string()));
    assert_eq!(script_source(""), ScriptSource::Inline(String::new()));
}

#[test]
fn work_to_do() {
    assert!(!has_work(0, 0, 0, false));
    assert!(has_work(1, 0, 0, false));
    assert!(has_work(0, 2, 0, false));
    assert!(has_work(0, 0, 1, false));
    assert!(has_work(0, 0, 0, true));
}

#[test]
fn calls_pair_with_arguments() {
    let calls = vec!["f".to_string(), "g".to_string(), "h".to_string()];
    let args = vec!["1".to_string()];
    assert_eq!(
        call_plan(&calls, &args),
        vec![
            ("f".to_string(), "1".to_string()),
            ("g".to_string(), String::new()),
            ("h".to_string(), String::new()),
        ]
    );
    assert!(call_plan(&vec![], &args).is_empty());
}

#[test]
fn awaiting_results() {
    assert!(should_await(Some(true), true));
    assert!(!should_await(Some(true), false));
    assert!(!should_await(Some(false), true));
    assert!(!should_await(None, true));
}

#[test]
fn exception_reports() {
    assert_eq!(
        exception_report("", Some("boom".to_string()), Some("at f".to_string())),
        "boom\nat f"
    );
    assert_eq!(exception_report("JSON Error: ", None, None), "JSON Error: -\n-");
}

#[test]
fn json_texts() {
    assert_eq!(json_text(true, None), Some("null".to_string()));
    assert_eq!(json_text(false, Some("[1]".to_string())), Some("[1]".to_string()));
    assert_eq!(json_text(false, None), None);
}

#[test]
fn one_shot_handles_work_once() {
    let mut slot = OnceSlot::new(5u32);
    assert!(!slot.is_empty());
    assert_eq!(use_once(&mut slot, HandleError::AlreadyResolved), Ok(5));
    assert!(slot.is_empty());
    assert_eq!(use_once(&mut slot, HandleError::AlreadyResolved), Err(HandleError::AlreadyResolved));
    slot.put_back(7);
    assert_eq!(slot.take(), Some(7));
    assert_eq!(slot.take(), None);
}

#[test]
fn handle_messages() {
    assert_eq!(HandleError::AlreadyResolved.message(), "Already Resolved");
    assert_eq!(HandleError::AlreadyCancelled.message(), "Already Cancelled");
    assert_eq!(HandleError::CallbackLocked.message(), "Mutex Locked (CB Exists)");
    assert_eq!(HandleError::CallbackRegistered.message(), "CB Already Registered");
    assert_eq!(HandleError::BodyConsumed.message(), "Body already consumed");
    assert_eq!(HandleError::OneshotClosed.message(), "Oneshot Channel Closed");
    assert_eq!(HandleError::TxChannelClosed.message(), "TX Channel Closed");
    assert_eq!(HandleError::RxChannelClosed.message(), "RX Channel Closed");
}
