use script_bridge::contexts::{busy_message, ended_message, gone_message, missing_context_message};
use script_bridge::run::{ContextRun, RunAction, RunEvent};
use script_bridge::{top_level_error, Admission, JsContexts};

#[test]
fn top_level_return_explains_the_iife_difference() {
    let out = top_level_error("SyntaxError: unexpected token 'return', statement at line 1");
    assert!(out.contains("TOP LEVEL"), "{out}");
    assert!(out.contains("one-shot"), "{out}");
}

#[test]
fn redeclaration_points_at_the_context_that_still_holds_it() {
    let out = top_level_error("SyntaxError: redeclaration of lexical binding `tab`");
    assert!(out.contains("--drop"), "{out}");

    // What the engine says for this case, which on its own names nothing.
    let boa = top_level_error("SyntaxError: invalid scope analysis at line 1, col 1");
    assert!(boa.contains("--drop"), "{boa}");
}

/// An ordinary runtime failure must keep its own message and gain nothing.
#[test]
fn unrelated_errors_are_passed_through_unchanged() {
    let out = top_level_error("TypeError: cu.click is not a function");
    assert_eq!(out, "script error: TypeError: cu.click is not a function");
}

/// A context runs one program at a time; it is busy only while a job is in
/// flight, and it can be dropped even mid-job.
#[test]
fn a_context_is_marked_busy_only_while_a_job_is_in_flight() {
    let mut contexts = JsContexts::default();
    let (jobs, _receiver) = std::sync::mpsc::channel::<String>();
    contexts.insert("re", jobs);
    assert!(!contexts.is_busy("re").unwrap(), "a fresh context is idle");

    contexts.set_busy("re", true);
    assert!(contexts.is_busy("re").unwrap());
    assert!(contexts.drop_context("re"));
    assert!(contexts.names().is_empty());
}

#[test]
fn dropping_an_unknown_context_reports_false_without_creating_one() {
    let mut contexts: JsContexts<u32> = JsContexts::default();
    assert!(!contexts.drop_context("nope"));
    assert!(contexts.names().is_empty());
}

#[test]
fn names_are_listed_in_order_once_each() {
    let mut contexts: JsContexts<u32> = JsContexts::new();
    contexts.insert("tab", 1);
    contexts.insert("alpha", 2);
    contexts.insert("Zed", 3);
    contexts.insert("tab", 4);
    contexts.insert("ä", 5);
    contexts.insert("al", 6);
    assert_eq!(contexts.names(), vec!["Zed", "al", "alpha", "tab", "ä"]);
    assert_eq!(contexts.handle("tab"), Some(&4));
    assert_eq!(contexts.handle("nope"), None);
    let mut sorted = contexts.names();
    sorted.sort();
    assert_eq!(sorted, contexts.names());
}

#[test]
fn inserting_again_replaces_and_idles_the_context() {
    let mut contexts: JsContexts<u32> = JsContexts::new();
    contexts.insert("a", 1);
    contexts.set_busy("a", true);
    contexts.insert("a", 2);
    assert_eq!(contexts.is_busy("a"), Some(false));
    assert_eq!(contexts.handle("a"), Some(&2));
    assert_eq!(contexts.names(), vec!["a"]);
}

#[test]
fn set_busy_on_an_unknown_context_changes_nothing() {
    let mut contexts: JsContexts<u32> = JsContexts::new();
    contexts.set_busy("ghost", true);
    assert!(!contexts.contains("ghost"));
    assert_eq!(contexts.is_busy("ghost"), None);
}

#[test]
fn unknown_context_without_create_is_refused_with_the_known_names() {
    let mut contexts: JsContexts<u32> = JsContexts::new();
    match contexts.admission("x", false) {
        Admission::Refuse(msg) => assert_eq!(
            msg,
            "no script context named `x` (this session has none; create one with `script --keep x`)"
        ),
        _ => panic!("an unknown context must be refused"),
    }
    contexts.insert("b", 1);
    contexts.insert("a", 2);
    match contexts.admission("x", false) {
        Admission::Refuse(msg) => assert_eq!(
            msg,
            "no script context named `x` (this session has: a, b); create one with `script --keep x`"
        ),
        _ => panic!("an unknown context must be refused"),
    }
    assert!(!contexts.contains("x"));
}

#[test]
fn unknown_context_with_create_is_started() {
    let contexts: JsContexts<u32> = JsContexts::new();
    assert!(matches!(contexts.admission("x", true), Admission::Spawn));
    assert!(!contexts.contains("x"));
}

#[test]
fn running_context_refuses_reentry_and_idle_one_runs() {
    let mut contexts: JsContexts<u32> = JsContexts::new();
    contexts.insert("tab", 1);
    assert!(matches!(contexts.admission("tab", false), Admission::Run));
    contexts.set_busy("tab", true);
    match contexts.admission("tab", true) {
        Admission::Refuse(msg) => assert_eq!(msg, busy_message("tab")),
        _ => panic!("a busy context must refuse"),
    }
    assert_eq!(
        busy_message("tab"),
        "script context `tab` is already running a program; a context runs one at a time, so a script cannot re-enter its own context (use a different context name)"
    );
}

#[test]
fn finishing_a_run_idles_the_context() {
    let mut contexts: JsContexts<u32> = JsContexts::new();
    contexts.insert("tab", 1);
    contexts.set_busy("tab", true);
    let r: Result<i32, String> = contexts.finish_run("tab", Some(Ok(42)));
    assert_eq!(r, Ok(42));
    assert_eq!(contexts.is_busy("tab"), Some(false));
    assert!(matches!(contexts.admission("tab", false), Admission::Run));

    contexts.set_busy("tab", true);
    let r: Result<i32, String> = contexts.finish_run("tab", Some(Err("script error: boom".to_string())));
    assert_eq!(r, Err("script error: boom".to_string()));
    assert_eq!(contexts.is_busy("tab"), Some(false));
}

#[test]
fn a_run_without_result_releases_the_context() {
    let mut contexts: JsContexts<u32> = JsContexts::new();
    contexts.insert("tab", 1);
    contexts.set_busy("tab", true);
    let r: Result<i32, String> = contexts.finish_run("tab", None);
    assert_eq!(
        r,
        Err("script context `tab` ended without a result; it has been released".to_string())
    );
    assert!(!contexts.contains("tab"));
    assert!(matches!(contexts.admission("tab", true), Admission::Spawn));
}

#[test]
fn a_gone_context_is_released() {
    let mut contexts: JsContexts<u32> = JsContexts::new();
    contexts.insert("tab", 1);
    let msg = contexts.release_gone("tab");
    assert_eq!(msg, gone_message("tab"));
    assert_eq!(
        msg,
        "script context `tab` is gone (its engine thread ended); it has been released — rerun to start a fresh one"
    );
    assert!(!contexts.contains("tab"));
    assert!(contexts.names().is_empty());
}

#[test]
fn missing_message_joins_names_with_commas() {
    let known = vec!["one".to_string(), "two".to_string(), "three".to_string()];
    assert_eq!(
        missing_context_message("q", &known),
        "no script context named `q` (this session has: one, two, three); create one with `script --keep q`"
    );
}

#[test]
fn a_run_is_busy_only_while_its_job_is_in_flight() {
    let mut contexts: JsContexts<u32> = JsContexts::new();
    let mut run = ContextRun::new("tab", true);
    assert_eq!(run.name(), "tab");
    assert!(matches!(run.step::<u32, i32>(&mut contexts, RunEvent::Start), RunAction::Spawn));
    assert!(matches!(run.step::<u32, i32>(&mut contexts, RunEvent::Spawned(Ok(9))), RunAction::Send));
    assert_eq!(contexts.is_busy("tab"), Some(false));
    assert!(matches!(run.step::<u32, i32>(&mut contexts, RunEvent::Sent(true)), RunAction::Serve));
    assert_eq!(contexts.is_busy("tab"), Some(true));

    // A second run in the same context is refused while the first is in flight.
    let mut again = ContextRun::new("tab", true);
    match again.step::<u32, i32>(&mut contexts, RunEvent::Start) {
        RunAction::Return(Err(msg)) => assert_eq!(msg, busy_message("tab")),
        _ => panic!("re-entry must be refused"),
    }

    match run.step::<u32, i32>(&mut contexts, RunEvent::Finished(Some(Ok(5)))) {
        RunAction::Return(Ok(v)) => assert_eq!(v, 5),
        _ => panic!("the job's result is the answer"),
    }
    assert_eq!(contexts.is_busy("tab"), Some(false));
    assert_eq!(contexts.handle("tab"), Some(&9));
}

#[test]
fn a_failed_job_keeps_the_context() {
    let mut contexts: JsContexts<u32> = JsContexts::new();
    contexts.insert("tab", 1);
    let mut run = ContextRun::new("tab", false);
    assert!(matches!(run.step::<u32, i32>(&mut contexts, RunEvent::Start), RunAction::Send));
    assert!(matches!(run.step::<u32, i32>(&mut contexts, RunEvent::Sent(true)), RunAction::Serve));
    let err = "script error: SyntaxError: redeclaration of `tab`".to_string();
    match run.step::<u32, i32>(&mut contexts, RunEvent::Finished(Some(Err(err.clone())))) {
        RunAction::Return(Err(e)) => assert_eq!(e, err),
        _ => panic!("the job's error is the answer"),
    }
    assert_eq!(contexts.names(), vec!["tab"]);
    assert_eq!(contexts.is_busy("tab"), Some(false));
}

#[test]
fn runs_that_end_early_leave_no_busy_context() {
    let mut contexts: JsContexts<u32> = JsContexts::new();
    let mut missing = ContextRun::new("x", false);
    assert!(matches!(
        missing.step::<u32, i32>(&mut contexts, RunEvent::Start),
        RunAction::Return(Err(_))
    ));
    assert!(!contexts.contains("x"));

    let mut failed_spawn = ContextRun::new("x", true);
    assert!(matches!(failed_spawn.step::<u32, i32>(&mut contexts, RunEvent::Start), RunAction::Spawn));
    match failed_spawn.step::<u32, i32>(&mut contexts, RunEvent::Spawned(Err("no threads".to_string()))) {
        RunAction::Return(Err(e)) => assert_eq!(e, "no threads"),
        _ => panic!("a failed spawn is the answer"),
    }
    assert!(!contexts.contains("x"));

    contexts.insert("dead", 2);
    let mut gone = ContextRun::new("dead", false);
    assert!(matches!(gone.step::<u32, i32>(&mut contexts, RunEvent::Start), RunAction::Send));
    match gone.step::<u32, i32>(&mut contexts, RunEvent::Sent(false)) {
        RunAction::Return(Err(e)) => assert_eq!(e, gone_message("dead")),
        _ => panic!("a dead context is released"),
    }
    assert!(!contexts.contains("dead"));

    contexts.insert("quiet", 3);
    let mut ended = ContextRun::new("quiet", false);
    assert!(matches!(ended.step::<u32, i32>(&mut contexts, RunEvent::Start), RunAction::Send));
    assert!(matches!(ended.step::<u32, i32>(&mut contexts, RunEvent::Sent(true)), RunAction::Serve));
    match ended.step::<u32, i32>(&mut contexts, RunEvent::Finished(None)) {
        RunAction::Return(Err(e)) => assert_eq!(e, ended_message("quiet")),
        _ => panic!("a run without result releases the context"),
    }
    assert!(!contexts.contains("quiet"));
}
