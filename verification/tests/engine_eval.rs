use boa_engine::{Context, JsResult, JsValue, NativeFunction};
use script_bridge::bridge::{bridge_command, command_action, log_entry, parse_json_or_null, reply_text};
use script_bridge::engine::{
    eval_one_shot, eval_top_level, one_shot_outcome, read_back_program, BRIDGE_ARITY, BRIDGE_GLOBAL,
    COMPLETION_GLOBAL, prepare_context, setup_failure, setup_outcome,
    top_level_outcome,
};

fn echo(_this: &JsValue, args: &[JsValue], _ctx: &mut Context) -> JsResult<JsValue> {
    Ok(args.get(1).cloned().unwrap_or_else(|| JsValue::from(boa_engine::JsString::from("{}"))))
}

fn json(text: &str) -> serde_json::Value {
    serde_json::from_str(text).unwrap()
}

#[test]
fn one_shot_returns_the_completion_value() {
    let mut ctx = Context::default();
    let v = eval_one_shot(&mut ctx, "return 1 + 1").unwrap();
    assert_eq!(v, json("2"));
    let v = eval_one_shot(&mut ctx, "const x = {a: [1, 'b']}; return x").unwrap();
    assert_eq!(v, json(r#"{"a": [1, "b"]}"#));
    let v = eval_one_shot(&mut ctx, "let y = 3;").unwrap();
    assert_eq!(v, serde_json::Value::Null);
}

#[test]
fn one_shot_failure_is_a_script_error() {
    let mut ctx = Context::default();
    let e = eval_one_shot(&mut ctx, "throw new Error('boom')").unwrap_err();
    assert!(e.starts_with("script error: "), "{e}");
    assert!(e.contains("boom"), "{e}");
}

#[test]
fn top_level_declarations_survive_between_calls() {
    let mut ctx = Context::default();
    assert_eq!(eval_top_level(&mut ctx, "const tab = 41; tab").unwrap(), json("41"));
    assert_eq!(eval_top_level(&mut ctx, "tab + 1").unwrap(), json("42"));
}

#[test]
fn top_level_return_is_explained() {
    let mut ctx = Context::default();
    let e = eval_top_level(&mut ctx, "return 1").unwrap_err();
    assert!(e.starts_with("script error: "), "{e}");
    assert!(e.contains("TOP LEVEL"), "{e}");
}

#[test]
fn prepared_context_has_the_cu_helpers() {
    let mut ctx = Context::default();
    prepare_context(&mut ctx, NativeFunction::from_fn_ptr(echo)).unwrap();
    let v = eval_one_shot(&mut ctx, "return typeof cu.click").unwrap();
    assert_eq!(v, json("\"function\""));
}

#[test]
fn bridged_calls_become_daemon_commands() {
    assert_eq!(bridge_command("open", String::new()), json(r#"{"action":"navigate","id":"js"}"#));
    assert_eq!(
        bridge_command("fill", r##"{"selector":"#q","value":"x"}"##.to_string()),
        json(r##"{"selector":"#q","value":"x","action":"fill","id":"js"}"##)
    );
    assert_eq!(bridge_command("eval", "not json".to_string()), json(r#"{"action":"evaluate","id":"js"}"#));
    assert_eq!(bridge_command("click", "[1]".to_string()), json("[1]"));
    assert_eq!(command_action(&json(r#"{"action":"__log","msg":"hi"}"#)), "__log");
    assert_eq!(command_action(&json(r#"{"action":3}"#)), "");
    assert_eq!(command_action(&json("[]")), "");
    assert_eq!(reply_text(&json(r#"{"success":true,"data":null}"#)), r#"{"data":null,"success":true}"#);
    assert_eq!(parse_json_or_null("{"), serde_json::Value::Null);
    assert_eq!(parse_json_or_null("{}"), json("{}"));
    assert_eq!(parse_json_or_null(r#"{"a":"b"}"#), json(r#"{"a":"b"}"#));
    assert_eq!(command_action(&bridge_command("goto", "{}".to_string())), "navigate");
    assert_eq!(command_action(&bridge_command("x", r#"{"action":"y"}"#.to_string())), "x");
}

#[test]
fn bridge_command_keeps_every_parameter() {
    let cmd = bridge_command(
        "scroll",
        r#"{"direction":"down","amount":300,"opts":{"x":[1]},"id":7,"action":"old"}"#.to_string(),
    );
    assert_eq!(
        cmd,
        json(r#"{"direction":"down","amount":300,"opts":{"x":[1]},"id":"js","action":"scroll"}"#)
    );
    assert_eq!(bridge_command("back", "{}".to_string()), json(r#"{"action":"back","id":"js"}"#));
    assert_eq!(bridge_command("js", "\"str\"".to_string()), json("\"str\""));
}

#[test]
fn reply_text_reads_back_as_the_reply() {
    for text in [r#"{"success":true,"data":{"a":"b\n\"c","n":[1,2.5]}}"#, "2", "null", r#""x""#, "[]"] {
        let reply = json(text);
        let out = reply_text(&reply);
        assert_eq!(json(&out), reply, "{out}");
    }
}

#[test]
fn setup_outcome_reports_the_step_that_failed() {
    assert_eq!(setup_outcome(Ok(()), Some(Ok(()))), Ok(()));
    assert_eq!(
        setup_outcome(Err("E".to_string()), None),
        Err("failed to register cu bridge: E".to_string())
    );
    assert_eq!(
        setup_outcome(Ok(()), Some(Err("P".to_string()))),
        Err("cu prelude error: P".to_string())
    );
    assert_eq!(setup_failure(&Err("S".to_string())), Some("S".to_string()));
    assert_eq!(setup_failure(&Ok(())), None);
}

#[test]
fn one_shot_outcome_parses_the_completion() {
    assert_eq!(one_shot_outcome(Ok(Some("[1,2]".to_string()))), Ok(json("[1,2]")));
    assert_eq!(one_shot_outcome(Ok(None)), Ok(serde_json::Value::Null));
    assert_eq!(one_shot_outcome(Ok(Some("nonsense".to_string()))), Ok(serde_json::Value::Null));
    assert_eq!(one_shot_outcome(Err("X".to_string())), Err("script error: X".to_string()));
}

#[test]
fn only_the_program_failure_gets_the_top_level_hint() {
    let ret = "SyntaxError: unexpected token 'return'".to_string();
    let first = top_level_outcome(Err(ret.clone()), None, None).unwrap_err();
    assert!(first.contains("TOP LEVEL"), "{first}");
    let stash = top_level_outcome(Ok(()), Some(Err(ret.clone())), None).unwrap_err();
    assert_eq!(stash, format!("script error: {ret}"));
    let read = top_level_outcome(Ok(()), Some(Ok(())), Some(Err(ret.clone()))).unwrap_err();
    assert_eq!(read, format!("script error: {ret}"));
    let ok = top_level_outcome(Ok(()), Some(Ok(())), Some(Ok(Some("{\"a\":1}".to_string()))));
    assert_eq!(ok, Ok(json("{\"a\":1}")));
    let redeclared = top_level_outcome(Err("SyntaxError: redeclaration of `a`".to_string()), None, None);
    assert!(redeclared.unwrap_err().contains("--drop"));
}

#[test]
fn read_back_program_names_the_global() {
    assert_eq!(
        read_back_program(COMPLETION_GLOBAL),
        "JSON.stringify(globalThis.__cu_last ?? null)"
    );
    assert_eq!(BRIDGE_GLOBAL, "__cu");
    assert_eq!(BRIDGE_ARITY, 2);
}

#[test]
fn reply_text_is_what_serde_writes() {
    for text in [r#"{"b":1,"a":"x"}"#, "[1,\"b\"]", "2", "null"] {
        let v = json(text);
        assert_eq!(reply_text(&v), serde_json::to_string(&v).unwrap());
    }
}

#[test]
fn log_lines_are_the_msg_entry() {
    assert_eq!(log_entry(&json(r#"{"action":"__log","msg":"hi"}"#)), json("\"hi\""));
    assert_eq!(log_entry(&json(r#"{"action":"__log","msg":{"a":[1]}}"#)), json(r#"{"a":[1]}"#));
    assert_eq!(log_entry(&json(r#"{"action":"__log"}"#)), serde_json::Value::Null);
    assert_eq!(log_entry(&json("[1]")), serde_json::Value::Null);
}
