use script_bridge::contexts::{ended_message, thread_start_error};
use script_bridge::messages::{
    bridge_params, bridge_registration_error, completion_json_text, finish_one_shot,
    is_log_request, prelude_error, script_error, wrap_program,
};
use script_bridge::text::{contains_text, join_texts, text_eq, text_lt};
use script_bridge::{alias_action, top_level_error};

#[test]
fn verbs_are_aliased_to_daemon_actions() {
    assert_eq!(alias_action("open"), "navigate");
    assert_eq!(alias_action("goto"), "navigate");
    assert_eq!(alias_action("eval"), "evaluate");
    assert_eq!(alias_action("js"), "evaluate");
    assert_eq!(alias_action("click"), "click");
    assert_eq!(alias_action(""), "");
    assert_eq!(alias_action("Open"), "Open");
}

#[test]
fn aliasing_twice_is_aliasing_once() {
    for verb in ["open", "goto", "eval", "js", "navigate", "evaluate", "fill", "opens"] {
        let once = alias_action(verb);
        assert_eq!(alias_action(&once), once);
    }
}

#[test]
fn top_level_return_gets_the_exact_hint() {
    let out = top_level_error("unexpected token 'return'");
    assert_eq!(
        out,
        "script error: unexpected token 'return'\nHint: a persistent context evaluates at TOP LEVEL so that declarations survive, and top-level `return` is a syntax error there. End with the expression itself (`result` instead of `return result`), or drop `--keep`/`--in` to get the one-shot path's IIFE back."
    );
}

#[test]
fn already_declared_gets_the_redeclaration_hint() {
    let out = top_level_error("SyntaxError: `a` has already been declared");
    assert!(out.starts_with("script error: SyntaxError: `a` has already been declared\nHint: "));
    assert!(out.ends_with("start over with `script --drop <name>`."));
}

#[test]
fn every_top_level_error_keeps_the_message_first() {
    for m in ["", "x", "unexpected token 'return'", "redeclaration", "boom"] {
        let out = top_level_error(m);
        assert!(out.starts_with(&format!("script error: {m}")));
    }
}

#[test]
fn return_hint_wins_over_redeclaration_hint() {
    let out = top_level_error("unexpected token 'return' after redeclaration");
    assert!(out.contains("TOP LEVEL"));
    assert!(!out.contains("--drop <name>"));
}

#[test]
fn one_shot_program_is_wrapped_in_an_iife() {
    assert_eq!(
        wrap_program("return 1"),
        "JSON.stringify((() => {\nreturn 1\n})() ?? null)"
    );
}

#[test]
fn completion_text_defaults_to_null() {
    assert_eq!(completion_json_text(None), "null");
    assert_eq!(completion_json_text(Some("[1]".to_string())), "[1]");
}

#[test]
fn empty_bridge_params_become_an_empty_object() {
    assert_eq!(bridge_params(String::new()), "{}");
    assert_eq!(bridge_params("{\"a\":1}".to_string()), "{\"a\":1}");
}

#[test]
fn only_the_log_action_is_kept_local() {
    assert!(is_log_request("__log"));
    assert!(!is_log_request("log"));
    assert!(!is_log_request("__log "));
}

#[test]
fn engine_task_failure_is_reported() {
    let ok: Result<Result<u8, String>, String> = Ok(Ok(3));
    assert_eq!(finish_one_shot(ok), Ok(3));
    let inner: Result<Result<u8, String>, String> = Ok(Err("script error: x".to_string()));
    assert_eq!(finish_one_shot(inner), Err("script error: x".to_string()));
    let task: Result<Result<u8, String>, String> = Err("task panicked".to_string());
    assert_eq!(
        finish_one_shot(task),
        Err("script engine thread failed: task panicked".to_string())
    );
}

#[test]
fn error_prefixes_are_exact() {
    assert_eq!(script_error("E"), "script error: E");
    assert_eq!(bridge_registration_error("E"), "failed to register cu bridge: E");
    assert_eq!(prelude_error("E"), "cu prelude error: E");
    assert_eq!(thread_start_error("E"), "failed to start script context thread: E");
    assert_eq!(ended_message("c"), "script context `c` ended without a result; it has been released");
}

#[test]
fn text_helpers_follow_std() {
    assert!(contains_text("abcabd", "abd"));
    assert!(!contains_text("abcab", "abd"));
    assert!(contains_text("x", ""));
    assert!(!contains_text("", "x"));
    assert!(contains_text("黑风雷", "风"));
    assert!(text_eq("héllo", "héllo"));
    assert!(!text_eq("a", "ab"));
    for (a, b) in [("a", "b"), ("ab", "a"), ("", "a"), ("Z", "a"), ("é", "z"), ("same", "same")] {
        assert_eq!(text_lt(a, b), a < b, "{a} {b}");
    }
    let parts = vec!["a".to_string(), "b".to_string()];
    assert_eq!(join_texts(&parts, ", "), "a, b");
    assert_eq!(join_texts(&Vec::new(), ", "), "");
}
