//! Evaluation of programs on the JavaScript engine: preparing a context with
//! the `cu.*` bridge, running a one-shot program, and running a program at
//! the top level of a persistent context.

use vstd::prelude::*;
use boa_engine::{Context, JsError, JsString, JsValue, NativeFunction, Source};
use serde_json::Value;
use crate::bridge::{parse_json_or_null, reads_as};
use crate::messages::{
    bridge_registration_error, bridge_registration_text, completion_json_text, prelude_error,
    prelude_error_text, script_error, script_error_text, top_level_error, top_level_error_text,
    wrap_program,
};

verus! {

#[verifier::external_type_specification]
#[verifier::external_body]
pub struct ExContext(boa_engine::Context);

#[verifier::external_type_specification]
#[verifier::external_body]
pub struct ExJsValue(boa_engine::JsValue);

#[verifier::external_type_specification]
#[verifier::external_body]
pub struct ExJsError(boa_engine::JsError);

#[verifier::external_type_specification]
#[verifier::external_body]
pub struct ExJsString(boa_engine::JsString);

#[verifier::external_type_specification]
#[verifier::external_body]
pub struct ExNativeFunction(boa_engine::NativeFunction);

/// The `cu.*` helper surface, written in JavaScript over the single `__cu`
/// bridge function. Each helper throws on a failed operation so scripts fail
/// fast; `cu.eval` returns the raw page value.
pub const CU_PRELUDE: &'static str = r#"
globalThis.cu = {
  _call(action, params) {
    const r = JSON.parse(__cu(action, JSON.stringify(params || {})));
    if (!r || r.success !== true) {
      throw new Error((r && r.error) || ('cu.' + action + ' failed'));
    }
    return r.data;
  },
  snapshot(opts) { return this._call('snapshot', opts || { interactive: true }); },
  eval(js) { return this._call('evaluate', { script: js }).result; },
  js(js) { return this.eval(js); },
  open(url) { return this._call('navigate', { url: url }); },
  navigate(url) { return this.open(url); },
  goto(url) { return this.open(url); },
  click(selector) { return this._call('click', { selector: selector }); },
  dblclick(selector) { return this._call('dblclick', { selector: selector }); },
  // `fill` takes `value`, not `text` — sending `text` made every `cu.fill`
  // fail with "Missing 'value' parameter". Found by driving a real login form.
  fill(selector, value) { return this._call('fill', { selector: selector, value: value }); },
  type(selector, text) { return this._call('type', { selector: selector, text: text }); },
  press(key) { return this._call('press', { key: key }); },
  hover(selector) { return this._call('hover', { selector: selector }); },
  select(selector, value) { return this._call('select', { selector: selector, value: value }); },
  check(selector) { return this._call('check', { selector: selector }); },
  uncheck(selector) { return this._call('uncheck', { selector: selector }); },
  scroll(dir, px) { return this._call('scroll', { direction: dir, amount: px }); },
  back() { return this._call('back', {}); },
  forward() { return this._call('forward', {}); },
  reload() { return this._call('reload', {}); },
  wait(ms) { return this._call('wait', { timeout: ms }); },
  visible(selector) {
    const r = JSON.parse(__cu('isvisible', JSON.stringify({ selector: selector })));
    return !!(r && r.success && r.data && (r.data.visible === true || r.data === true));
  },
  waitFor(selector, timeoutMs) {
    const deadline = (timeoutMs || 10000);
    let waited = 0;
    while (waited < deadline) {
      if (this.visible(selector)) return true;
      this.wait(250);
      waited += 250;
    }
    throw new Error('waitFor timed out: ' + selector);
  },
  extract(schema) { return this._call('extract', { schema: schema }); },
  screenshot(path) { return this._call('screenshot', path ? { path: path } : {}); },
  text(selector) { return this._call('gettext', { selector: selector }); },
  log(msg) { __cu('__log', JSON.stringify({ msg: (typeof msg === 'string' ? msg : JSON.stringify(msg)) })); },
};
"#;

/// The global name under which the bridge function is installed.
pub const BRIDGE_GLOBAL: &'static str = "__cu";

/// How many arguments the bridge function takes: the action and the
/// parameter text.
pub const BRIDGE_ARITY: usize = 2;

/// The global through which a top-level completion value is read back.
pub const COMPLETION_GLOBAL: &'static str = "__cu_last";

/// The program that reads back the value held in the global `key` as JSON
/// text (`null` when it is `undefined` or `null`).
pub open spec fn read_back_text(key: Seq<char>) -> Seq<char> {
    "JSON.stringify(globalThis."@ + key + " ?? null)"@
}

/// Writes the program that reads back the value held in the global `key`.
pub fn read_back_program(key: &str) -> (r: String)
    ensures
        r@ == read_back_text(key@),
{
    let mut out = String::from_str("JSON.stringify(globalThis.");
    out.append(key);
    out.append(" ?? null)");
    out
}

/// Calls `boa_engine::Context::eval` on `text`. The outcome depends on all the
/// engine has evaluated before, so nothing is stated of it.
#[verifier::external_body]
fn eval_text(ctx: &mut Context, text: &str) -> Result<JsValue, JsError> {
    ctx.eval(Source::from_bytes(text.as_bytes()))
}

/// Calls the `Display` of `boa_engine::JsError`. Nothing is stated of the text.
#[verifier::external_body]
fn js_error_text(error: &JsError) -> String {
    error.to_string()
}

/// Calls `boa_engine::JsValue::as_string`. Nothing is stated of the outcome.
#[verifier::external_body]
fn js_value_as_string(value: &JsValue) -> Option<&JsString> {
    value.as_string()
}

/// Calls `boa_engine::JsString::to_std_string_escaped`. Nothing is stated of
/// the text.
#[verifier::external_body]
fn js_string_to_std(text: &JsString) -> String {
    text.to_std_string_escaped()
}

/// The text of a completion value when the engine gave a string.
fn js_string_text(value: &JsValue) -> Option<String> {
    match js_value_as_string(value) {
        Some(s) => Some(js_string_to_std(s)),
        None => None,
    }
}

/// Calls `boa_engine::Context::register_global_callable` with `name` as the
/// function's global name. Nothing is stated of the outcome.
#[verifier::external_body]
fn register_callable(
    ctx: &mut Context,
    name: &str,
    length: usize,
    function: NativeFunction,
) -> Result<(), JsError> {
    ctx.register_global_callable(JsString::from(name), length, function)
}

/// Calls `boa_engine::object::JsObject::set` on the global object of `ctx`
/// (fetched with `Context::global_object`; the object type cannot be declared
/// apart, its default parameter being a trait object), with `key` as the
/// property name. Nothing is stated of the outcome.
#[verifier::external_body]
fn set_global(ctx: &mut Context, key: &str, value: JsValue, throw: bool) -> Result<bool, JsError> {
    let global = ctx.global_object();
    global.set(JsString::from(key), value, throw, ctx)
}

/// The text a completion gives: the engine's string, `null` when it gave none.
pub open spec fn completion_text_of(text: Option<String>) -> Seq<char> {
    match text {
        Some(t) => t@,
        None => "null"@,
    }
}

/// Decides how preparing a context ends from the outcomes of its two steps,
/// each given as the engine's error text: registering the bridge, and then,
/// when that worked, evaluating the prelude.
pub fn setup_outcome(register: Result<(), String>, prelude: Option<Result<(), String>>) -> (r: Result<
    (),
    String,
>)
    requires
        register is Ok ==> prelude is Some,
    ensures
        register matches Err(d) ==> (r matches Err(e) && e@ == bridge_registration_text(d@)),
        register is Ok ==> (prelude matches Some(Err(d)) ==> (r matches Err(e) && e@
            == prelude_error_text(d@))),
        register is Ok ==> (prelude matches Some(Ok(_)) ==> r is Ok),
{
    match register {
        Err(d) => Err(bridge_registration_error(d.as_str())),
        Ok(()) => match prelude {
            Some(Err(d)) => Err(prelude_error(d.as_str())),
            _ => Ok(()),
        },
    }
}

/// Decides how a one-shot run ends from the outcome of evaluating the wrapped
/// program: the engine's error text, or the completion's string if it was one.
pub fn one_shot_outcome(run: Result<Option<String>, String>) -> (r: Result<Value, String>)
    ensures
        run matches Err(d) ==> (r matches Err(e) && e@ == script_error_text(d@)),
        run matches Ok(t) ==> (r matches Ok(v) && reads_as(completion_text_of(t), v)),
{
    match run {
        Err(d) => Err(script_error(d.as_str())),
        Ok(t) => {
            let text = completion_json_text(t);
            Ok(parse_json_or_null(text.as_str()))
        },
    }
}

/// Decides how a top-level run ends from the outcomes of its three steps,
/// each given as the engine's error text: evaluating the program; when that
/// worked, keeping its completion value in a global; and when that worked,
/// reading the value back as JSON text. Only a failure of the program itself
/// is explained by [`top_level_error`].
pub fn top_level_outcome(
    run: Result<(), String>,
    stash: Option<Result<(), String>>,
    read: Option<Result<Option<String>, String>>,
) -> (r: Result<Value, String>)
    requires
        run is Ok ==> stash is Some,
        run is Ok && stash == Some(Ok::<(), String>(())) ==> read is Some,
    ensures
        run matches Err(d) ==> (r matches Err(e) && e@ == top_level_error_text(d@)),
        run is Ok ==> (stash matches Some(Err(d)) ==> (r matches Err(e) && e@ == script_error_text(
            d@,
        ))),
        run is Ok && stash == Some(Ok::<(), String>(())) ==> (read matches Some(Err(d)) ==> (r matches Err(
            e,
        ) && e@ == script_error_text(d@))),
        run is Ok && stash == Some(Ok::<(), String>(())) ==> (read matches Some(Ok(t)) ==> (r matches Ok(
            v,
        ) && reads_as(completion_text_of(t), v))),
{
    match run {
        Err(d) => Err(top_level_error(d.as_str())),
        Ok(()) => match stash {
            Some(Err(d)) => Err(script_error(d.as_str())),
            _ => match read {
                Some(Err(d)) => Err(script_error(d.as_str())),
                Some(Ok(t)) => {
                    let text = completion_json_text(t);
                    Ok(parse_json_or_null(text.as_str()))
                },
                None => Ok(parse_json_or_null("null")),
            },
        },
    }
}

/// What each job on a context thread is answered without being run when the
/// context could not be prepared: the preparation's own failure, every time.
pub fn setup_failure(setup: &Result<(), String>) -> (r: Option<String>)
    ensures
        setup matches Err(e) ==> (r matches Some(m) && m@ == e@),
        setup is Ok ==> r is None,
{
    match setup {
        Err(e) => Some(e.clone()),
        Ok(()) => None,
    }
}

/// Installs the bridge function `bridge` as the global [`BRIDGE_GLOBAL`]
/// (taking [`BRIDGE_ARITY`] arguments) and evaluates [`CU_PRELUDE`] over it;
/// the outcome is decided by [`setup_outcome`].
pub fn prepare_context(ctx: &mut Context, bridge: NativeFunction) -> (r: Result<(), String>)
    ensures
        r matches Err(e) ==> exists|detail: Seq<char>|
            e@ == bridge_registration_text(detail) || e@ == prelude_error_text(detail),
{
    let register = match register_callable(ctx, BRIDGE_GLOBAL, BRIDGE_ARITY, bridge) {
        Err(e) => Err(js_error_text(&e)),
        Ok(()) => Ok(()),
    };
    if let Err(d) = &register {
        let r = setup_outcome(Err(d.clone()), None);
        assert(r matches Err(e) && e@ == bridge_registration_text(d@));
        return r;
    }
    let prelude = match eval_text(ctx, CU_PRELUDE) {
        Err(e) => Err(js_error_text(&e)),
        Ok(_) => Ok(()),
    };
    let ghost g = prelude;
    let r = setup_outcome(Ok(()), Some(prelude));
    proof {
        if let Err(d) = g {
            assert(r matches Err(e) && e@ == prelude_error_text(d@));
        }
    }
    r
}

/// Runs a one-shot program: the program is wrapped in an arrow function that
/// is called at once, so that a top-level `return` works, and its completion
/// value comes back as JSON (`null` when there is none); the outcome is
/// decided by [`one_shot_outcome`].
pub fn eval_one_shot(ctx: &mut Context, source: &str) -> (r: Result<Value, String>)
    ensures
        r matches Err(e) ==> exists|detail: Seq<char>| e@ == script_error_text(detail),
        r matches Ok(v) ==> exists|text: Seq<char>| reads_as(text, v),
{
    let wrapped = wrap_program(source);
    let run = match eval_text(ctx, wrapped.as_str()) {
        Err(e) => Err(js_error_text(&e)),
        Ok(completion) => Ok(js_string_text(&completion)),
    };
    let ghost g = run;
    let r = one_shot_outcome(run);
    proof {
        match g {
            Err(d) => {
                assert(r matches Err(e) && e@ == script_error_text(d@));
            },
            Ok(t) => {
                assert(r matches Ok(v) && reads_as(completion_text_of(t), v));
            },
        }
    }
    r
}

/// Runs `source` at the top level of a persistent context, so that its
/// declarations stay for the next call, and gives its completion value as
/// JSON. The value is handed back through the global [`COMPLETION_GLOBAL`]
/// and read by [`read_back_program`]. The outcome
/// is decided by [`top_level_outcome`]: a failure of the program itself is
/// explained by [`top_level_error`].
pub fn eval_top_level(ctx: &mut Context, source: &str) -> (r: Result<Value, String>)
    ensures
        r matches Err(e) ==> exists|detail: Seq<char>|
            e@ == top_level_error_text(detail) || e@ == script_error_text(detail),
        r matches Ok(v) ==> exists|text: Seq<char>| reads_as(text, v),
{
    let completion = match eval_text(ctx, source) {
        Err(e) => {
            let d = js_error_text(&e);
            let r = top_level_outcome(Err(d.clone()), None, None);
            assert(r matches Err(e) && e@ == top_level_error_text(d@));
            return r;
        },
        Ok(v) => v,
    };
    let stash = match set_global(ctx, COMPLETION_GLOBAL, completion, false) {
        Err(e) => Err(js_error_text(&e)),
        Ok(_) => Ok(()),
    };
    if let Err(d) = &stash {
        let r = top_level_outcome(Ok(()), Some(Err(d.clone())), None);
        assert(r matches Err(e) && e@ == script_error_text(d@));
        return r;
    }
    let program = read_back_program(COMPLETION_GLOBAL);
    let read = match eval_text(ctx, program.as_str()) {
        Err(e) => Err(js_error_text(&e)),
        Ok(v) => Ok(js_string_text(&v)),
    };
    let ghost g = read;
    let r = top_level_outcome(Ok(()), Some(Ok(())), Some(read));
    proof {
        match g {
            Err(d) => {
                assert(r matches Err(e) && e@ == script_error_text(d@));
            },
            Ok(t) => {
                assert(r matches Ok(v) && reads_as(completion_text_of(t), v));
            },
        }
    }
    r
}

} // verus!
