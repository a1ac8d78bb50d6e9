//! The decisions a session worker makes for each command: what to ask of its
//! execution context, and how the context's answer becomes the command's
//! result and the response sent back.
use vstd::prelude::*;
use vstd::string::StringExecFns;

use crate::command::{JSCommand, Ops};
use crate::pending::{JSResult, ResultModel};
use crate::wire::{JsResponse, ResponseModel};

verus! {

/// What the worker asks of its execution context for one command.
pub enum Step {
    /// Compile and run the text as a program, and serialise its value.
    RunScript(String),
    /// Look up the global of this name, call it with these string values,
    /// and serialise what it returns.
    Invoke(String, Vec<String>),
    /// Nothing to run: answer with this result at once.
    Reply(JSResult),
}

/// What the execution context reported for a step.
pub enum EngineOutcome {
    /// The JSON text of the value; `undefined` when there was no value.
    Value(String),
    /// A compile or runtime error, or a value that could not be serialised.
    Failed(String),
    /// No global of the requested name exists.
    Missing,
    /// The global of the requested name is not a function.
    NotCallable,
    /// The step ran past the command's timeout and was stopped.
    TimedOut,
}

/// Whether `r` is the answer to an `EXIT` command.
pub open spec fn is_exit_reply(r: JSResult) -> bool {
    r matches JSResult::Error(m) && m@ == "exiting"@
}

/// Whether `step` is what the worker asks of its context for `cmd`:
/// `EVAL` runs the payload as a script; `CALL` and `REWRITE` both invoke the
/// payload as a global function name with the arguments; `EXIT` runs nothing
/// and answers with an error.
pub open spec fn is_step_of(step: Step, cmd: JSCommand) -> bool {
    match cmd.operation {
        Ops::EVAL => step matches Step::RunScript(s) && s == cmd.payload,
        Ops::CALL => step matches Step::Invoke(f, a) && f == cmd.payload && a == cmd.args,
        Ops::REWRITE => step matches Step::Invoke(f, a) && f == cmd.payload && a == cmd.args,
        Ops::EXIT => step matches Step::Reply(r) && is_exit_reply(r),
    }
}

/// The error for a global `name` that does not exist.
pub open spec fn missing_text(name: Seq<char>) -> Seq<char> {
    name + " is not defined"@
}

/// The error for a global `name` that is not a function.
pub open spec fn not_callable_text(name: Seq<char>) -> Seq<char> {
    name + " is not a function"@
}

/// The error for a step stopped at its timeout.
pub open spec fn timeout_text() -> Seq<char> {
    "timed out"@
}

/// The result of a command of kind `op` on `name` (the payload) whose step
/// ended in `outcome`. A script's missing value reads as `null`; every
/// failure is an error result that carries its message.
pub open spec fn result_of(op: Ops, name: Seq<char>, outcome: EngineOutcome) -> ResultModel {
    match outcome {
        EngineOutcome::Value(t) => if op == Ops::EVAL && t@ == "undefined"@ {
            ResultModel::Json("null"@)
        } else {
            ResultModel::Json(t@)
        },
        EngineOutcome::Failed(m) => ResultModel::Error(m@),
        EngineOutcome::Missing => ResultModel::Error(missing_text(name)),
        EngineOutcome::NotCallable => ResultModel::Error(not_callable_text(name)),
        EngineOutcome::TimedOut => ResultModel::Error(timeout_text()),
    }
}

/// The response for a finished result: status 0 with the JSON text, or
/// status 1 with the error message.
pub open spec fn response_model(r: ResultModel) -> ResponseModel {
    match r {
        ResultModel::Json(t) => ResponseModel { status: 0, result: t },
        ResultModel::Error(m) => ResponseModel { status: 1, result: m },
        ResultModel::Waiting => ResponseModel { status: 1, result: seq![] },
    }
}

/// Whether a step that has run `elapsed_ms` milliseconds is past the
/// command's `timeout_ms`; a timeout that is not positive sets no limit.
pub fn past_deadline(elapsed_ms: u64, timeout_ms: i32) -> (r: bool)
    ensures
        r == (timeout_ms > 0 && elapsed_ms > timeout_ms),
{
    timeout_ms > 0 && elapsed_ms > timeout_ms as u64
}

/// Decides what to ask of the execution context for `cmd`.
pub fn plan(cmd: JSCommand) -> (r: Step)
    ensures
        is_step_of(r, cmd),
{
    match cmd.operation {
        Ops::EVAL => Step::RunScript(cmd.payload),
        Ops::CALL => Step::Invoke(cmd.payload, cmd.args),
        Ops::REWRITE => Step::Invoke(cmd.payload, cmd.args),
        Ops::EXIT => Step::Reply(JSResult::Error("exiting".to_owned())),
    }
}

/// Turns the context's report on a step into the command's result.
pub fn finish(op: Ops, name: &String, outcome: EngineOutcome) -> (r: JSResult)
    ensures
        r@ == result_of(op, name@, outcome),
{
    match outcome {
        EngineOutcome::Value(t) => {
            let undefined = "undefined".to_owned();
            if op == Ops::EVAL && t == undefined {
                JSResult::Json("null".to_owned())
            } else {
                JSResult::Json(t)
            }
        },
        EngineOutcome::Failed(m) => JSResult::Error(m),
        EngineOutcome::Missing => {
            let mut m = name.clone();
            m.append(" is not defined");
            JSResult::Error(m)
        },
        EngineOutcome::NotCallable => {
            let mut m = name.clone();
            m.append(" is not a function");
            JSResult::Error(m)
        },
        EngineOutcome::TimedOut => JSResult::Error("timed out".to_owned()),
    }
}

/// Settles a step that ran `elapsed_ms` milliseconds: the command's result,
/// and whether the session may go on. A step past its deadline ends in the
/// timeout error whatever it reported, and ends the session, since its
/// context may have been stopped midway; otherwise the result is the one
/// `finish` gives, and the session goes on.
pub fn settle(op: Ops, name: &String, outcome: EngineOutcome, elapsed_ms: u64, timeout_ms: i32) -> (r: (
    JSResult,
    bool,
))
    ensures
        (timeout_ms > 0 && elapsed_ms > timeout_ms) ==> r.0@ == ResultModel::Error(timeout_text())
            && !r.1,
        !(timeout_ms > 0 && elapsed_ms > timeout_ms) ==> r.0@ == result_of(op, name@, outcome)
            && r.1,
{
    if past_deadline(elapsed_ms, timeout_ms) {
        (finish(op, name, EngineOutcome::TimedOut), false)
    } else {
        (finish(op, name, outcome), true)
    }
}

/// The response that carries a finished command's result: status 0 with the
/// JSON text, or status 1 with the error message.
pub fn response_of(result: JSResult) -> (r: JsResponse)
    requires
        result.is_terminal(),
    ensures
        r@ == response_model(result@),
{
    match result {
        JSResult::Json(t) => JsResponse { status: 0, result: t },
        JSResult::Error(m) => JsResponse { status: 1, result: m },
        JSResult::Waiting => JsResponse { status: 1, result: String::new() },
    }
}

/// An evaluation whose script has no value reads as `null`, every time.
pub proof fn lemma_eval_without_value_is_null(name: Seq<char>, t: String)
    requires
        t@ == "undefined"@,
    ensures
        result_of(Ops::EVAL, name, EngineOutcome::Value(t)) == ResultModel::Json("null"@),
        response_model(result_of(Ops::EVAL, name, EngineOutcome::Value(t)))
            == (ResponseModel { status: 0, result: "null"@ }),
{
}

/// An evaluation whose script has a value answers with that value's JSON
/// text, unchanged.
pub proof fn lemma_eval_value_is_its_json(name: Seq<char>, t: String)
    requires
        t@ != "undefined"@,
    ensures
        result_of(Ops::EVAL, name, EngineOutcome::Value(t)) == ResultModel::Json(t@),
        response_model(result_of(Ops::EVAL, name, EngineOutcome::Value(t)))
            == (ResponseModel { status: 0, result: t@ }),
{
}

/// A call or rewrite of a global that does not exist is an error result
/// naming the global, answered with status 1, whatever the session holds.
pub proof fn lemma_missing_global_is_error(cmd: JSCommand, step: Step)
    requires
        cmd.operation == Ops::CALL || cmd.operation == Ops::REWRITE,
        is_step_of(step, cmd),
    ensures
        step matches Step::Invoke(f, a) && f == cmd.payload,
        result_of(cmd.operation, cmd.payload@, EngineOutcome::Missing) == ResultModel::Error(
            missing_text(cmd.payload@),
        ),
        response_model(result_of(cmd.operation, cmd.payload@, EngineOutcome::Missing)).status == 1,
{
}

/// Every failure of a step is answered with status 1 and its message, never
/// with status 0.
pub proof fn lemma_failure_is_status_one(op: Ops, name: Seq<char>, m: String)
    ensures
        response_model(result_of(op, name, EngineOutcome::Failed(m)))
            == (ResponseModel { status: 1, result: m@ }),
{
}

} // verus!
