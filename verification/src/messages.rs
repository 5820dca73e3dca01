//! The texts and small decisions of the scripting bridge: command verbs,
//! error messages and the wrapping of a one-shot program.

use vstd::prelude::*;
use crate::text::{contains_seq, contains_text, text_eq};

verus! {

/// The hint given when a persistent context meets a top-level `return`.
pub const RETURN_HINT: &'static str = "a persistent context evaluates at TOP LEVEL so that declarations survive, and top-level `return` is a syntax error there. End with the expression itself (`result` instead of `return result`), or drop `--keep`/`--in` to get the one-shot path's IIFE back.";

/// The hint given when a persistent context meets a re-declared binding.
pub const REDECLARATION_HINT: &'static str = "this context still holds the declaration from an earlier call — that is what `--keep` is for. Reassign instead of re-declaring, or start over with `script --drop <name>`.";

/// The verb a bridged `cu.*` call names, mapped to the daemon's action name.
pub open spec fn alias_of(verb: Seq<char>) -> Seq<char> {
    if verb == "open"@ || verb == "goto"@ {
        "navigate"@
    } else if verb == "eval"@ || verb == "js"@ {
        "evaluate"@
    } else {
        verb
    }
}

/// Maps the verbs `open`/`goto` to `navigate` and `eval`/`js` to `evaluate`;
/// every other verb is passed on unchanged.
pub fn alias_action(verb: &str) -> (r: String)
    ensures
        r@ == alias_of(verb@),
{
    if text_eq(verb, "open") || text_eq(verb, "goto") {
        String::from_str("navigate")
    } else if text_eq(verb, "eval") || text_eq(verb, "js") {
        String::from_str("evaluate")
    } else {
        String::from_str(verb)
    }
}

/// `script error: ` followed by `detail`.
pub open spec fn script_error_text(detail: Seq<char>) -> Seq<char> {
    "script error: "@ + detail
}

/// Prefixes an engine error with `script error: `.
pub fn script_error(detail: &str) -> (r: String)
    ensures
        r@ == script_error_text(detail@),
{
    let mut out = String::from_str("script error: ");
    out.append(detail);
    out
}

/// The message names a top-level `return`.
pub open spec fn names_top_level_return(message: Seq<char>) -> bool {
    contains_seq(message, "unexpected token 'return'"@)
}

/// The message names a binding that was declared before.
pub open spec fn names_redeclaration(message: Seq<char>) -> bool {
    ||| contains_seq(message, "redeclaration"@)
    ||| contains_seq(message, "already been declared"@)
    ||| contains_seq(message, "invalid scope analysis"@)
}

/// The hint that belongs to a top-level evaluation failure, if any.
pub open spec fn hint_for(message: Seq<char>) -> Option<Seq<char>> {
    if names_top_level_return(message) {
        Some(RETURN_HINT@)
    } else if names_redeclaration(message) {
        Some(REDECLARATION_HINT@)
    } else {
        None
    }
}

/// What a persistent context reports for a failed top-level evaluation.
pub open spec fn top_level_error_text(message: Seq<char>) -> Seq<char> {
    match hint_for(message) {
        Some(hint) => script_error_text(message) + "\nHint: "@ + hint,
        None => script_error_text(message),
    }
}

/// Turns a top-level evaluation failure into a message the caller can act on:
/// the engine's message after `script error: `, and, for a top-level `return`
/// or a re-declared binding, a hint on a line of its own.
pub fn top_level_error(message: &str) -> (r: String)
    ensures
        r@ == top_level_error_text(message@),
{
    let hint: Option<&str> = if contains_text(message, "unexpected token 'return'") {
        Some(RETURN_HINT)
    } else if contains_text(message, "redeclaration") || contains_text(
        message,
        "already been declared",
    ) || contains_text(message, "invalid scope analysis") {
        Some(REDECLARATION_HINT)
    } else {
        None
    };
    let mut out = script_error(message);
    match hint {
        Some(h) => {
            out.append("\nHint: ");
            out.append(h);
        },
        None => {},
    }
    out
}

/// A one-shot program wrapped in an arrow function that is called at once, so
/// that a top-level `return` gives the completion value, which is then
/// serialised to JSON text (`null` when it is `undefined` or `null`).
pub open spec fn wrapped_program_text(source: Seq<char>) -> Seq<char> {
    "JSON.stringify((() => {\n"@ + source + "\n})() ?? null)"@
}

/// Wraps a one-shot program as [`wrapped_program_text`] describes.
pub fn wrap_program(source: &str) -> (r: String)
    ensures
        r@ == wrapped_program_text(source@),
{
    let mut out = String::from_str("JSON.stringify((() => {\n");
    out.append(source);
    out.append("\n})() ?? null)");
    out
}

/// The JSON text of a completion value: the value itself when the engine
/// gave a string, `null` otherwise.
pub fn completion_json_text(text: Option<String>) -> (r: String)
    ensures
        r@ == (match text {
            Some(t) => t@,
            None => "null"@,
        }),
{
    match text {
        Some(t) => t,
        None => String::from_str("null"),
    }
}

/// The parameter text a bridged call hands on: `{}` when the script gave none.
pub fn bridge_params(params: String) -> (r: String)
    ensures
        r@ == (if params@.len() == 0 {
            "{}"@
        } else {
            params@
        }),
{
    if params.as_str().is_empty() {
        String::from_str("{}")
    } else {
        params
    }
}

/// Whether a bridged request is a `cu.log` line, which the bridge keeps
/// itself instead of sending it to the browser.
pub fn is_log_request(action: &str) -> (r: bool)
    ensures
        r == (action@ == "__log"@),
{
    text_eq(action, "__log")
}

/// `script engine thread failed: ` followed by `detail`.
pub open spec fn engine_failure_text(detail: Seq<char>) -> Seq<char> {
    "script engine thread failed: "@ + detail
}

/// The answer of a one-shot run from what its engine task reported: the
/// task's own result, or, when the task itself failed, a message saying so.
pub fn finish_one_shot<V>(engine: Result<Result<V, String>, String>) -> (r: Result<V, String>)
    ensures
        engine matches Ok(res) ==> r == res,
        engine matches Err(detail) ==> (r matches Err(e) && e@ == engine_failure_text(detail@)),
{
    match engine {
        Ok(res) => res,
        Err(detail) => {
            let mut out = String::from_str("script engine thread failed: ");
            out.append(detail.as_str());
            Err(out)
        },
    }
}

/// `failed to register cu bridge: ` followed by `detail`.
pub open spec fn bridge_registration_text(detail: Seq<char>) -> Seq<char> {
    "failed to register cu bridge: "@ + detail
}

/// `cu prelude error: ` followed by `detail`.
pub open spec fn prelude_error_text(detail: Seq<char>) -> Seq<char> {
    "cu prelude error: "@ + detail
}

/// The message for a bridge function the engine would not register.
pub fn bridge_registration_error(detail: &str) -> (r: String)
    ensures
        r@ == bridge_registration_text(detail@),
{
    let mut out = String::from_str("failed to register cu bridge: ");
    out.append(detail);
    out
}

/// The message for a helper prelude the engine would not evaluate.
pub fn prelude_error(detail: &str) -> (r: String)
    ensures
        r@ == prelude_error_text(detail@),
{
    let mut out = String::from_str("cu prelude error: ");
    out.append(detail);
    out
}

/// Aliasing a verb twice gives what aliasing it once gives: the daemon's
/// action names are left as they are.
pub proof fn lemma_alias_idempotent(verb: Seq<char>)
    ensures
        alias_of(alias_of(verb)) == alias_of(verb),
{
    reveal_strlit("open");
    reveal_strlit("goto");
    reveal_strlit("eval");
    reveal_strlit("js");
    reveal_strlit("navigate");
    reveal_strlit("evaluate");
}

/// Only the four aliased verbs are renamed: `open` and `goto` become
/// `navigate`, `eval` and `js` become `evaluate`, and every other verb is
/// passed on unchanged.
pub proof fn lemma_alias_renames_only_four_verbs(verb: Seq<char>)
    ensures
        verb == "open"@ || verb == "goto"@ ==> alias_of(verb) == "navigate"@,
        verb == "eval"@ || verb == "js"@ ==> alias_of(verb) == "evaluate"@,
        verb != "open"@ && verb != "goto"@ && verb != "eval"@ && verb != "js"@ ==> alias_of(verb)
            == verb,
{
    reveal_strlit("open");
    reveal_strlit("goto");
    reveal_strlit("eval");
    reveal_strlit("js");
    assert("eval"@[0] == 'e' && "open"@[0] == 'o' && "goto"@[0] == 'g');
    assert("js"@.len() == 2 && "open"@.len() == 4 && "goto"@.len() == 4);
    assert("eval"@ != "open"@ && "eval"@ != "goto"@);
    assert("js"@ != "open"@ && "js"@ != "goto"@);
}

/// The wrapped one-shot program puts the user's program on lines of its own:
/// a newline comes right before it and right after it, so that a trailing
/// line comment in the program cannot swallow the closing of the wrapper.
pub proof fn lemma_wrapped_program_on_own_lines(source: Seq<char>)
    ensures
        ({
            let w = wrapped_program_text(source);
            let start = "JSON.stringify((() => {\n"@.len() as int;
            &&& w[start - 1] == '\n'
            &&& w.subrange(start, start + source.len()) == source
            &&& w[start + source.len()] == '\n'
        }),
{
    reveal_strlit("JSON.stringify((() => {\n");
    reveal_strlit("\n})() ?? null)");
    let w = wrapped_program_text(source);
    let start = "JSON.stringify((() => {\n"@.len() as int;
    assert(w.subrange(start, start + source.len()) =~= source);
}

/// A top-level failure keeps the engine's message whole, right after
/// `script error: `; a hint, if any, only follows it.
pub proof fn lemma_top_level_error_keeps_message(message: Seq<char>)
    ensures
        top_level_error_text(message).take(script_error_text(message).len() as int)
            == script_error_text(message),
{
    let base = script_error_text(message);
    match hint_for(message) {
        Some(hint) => {
            assert((base + "\nHint: "@ + hint).take(base.len() as int) =~= base);
        },
        None => {
            assert(base.take(base.len() as int) =~= base);
        },
    }
}

/// A failure gains a hint exactly when it names a top-level `return` or a
/// re-declared binding; any other failure is passed on as it is, after
/// `script error: `.
pub proof fn lemma_hint_only_for_known_failures(message: Seq<char>)
    ensures
        (top_level_error_text(message) == script_error_text(message)) <==> !(names_top_level_return(
            message,
        ) || names_redeclaration(message)),
{
    reveal_strlit("\nHint: ");
    let base = script_error_text(message);
    match hint_for(message) {
        Some(hint) => {
            assert((base + "\nHint: "@ + hint).len() > base.len());
        },
        None => {},
    }
}

/// The wrapped one-shot program holds the user's program verbatim.
pub proof fn lemma_wrapped_program_holds_source(source: Seq<char>)
    ensures
        contains_seq(wrapped_program_text(source), source),
{
    let prefix = "JSON.stringify((() => {\n"@;
    let w = wrapped_program_text(source);
    assert(w.subrange(prefix.len() as int, (prefix.len() + source.len()) as int) =~= source);
    assert(crate::text::occurs_at(w, source, prefix.len() as int));
}

} // verus!
