//! Commands handed to a session worker, and how a request becomes one.
use vstd::prelude::*;

use crate::wire::JsRequest;

verus! {

/// The kind of work a command asks for.
#[derive(Clone, Copy, Debug, PartialEq, Eq, Structural)]
pub enum Ops {
    REWRITE,
    EVAL,
    CALL,
    EXIT,
}

/// Action code 0 rewrites, 1 evaluates, 2 calls; every other code exits.
pub open spec fn op_of_action(action: i32) -> Ops {
    if action == 0 {
        Ops::REWRITE
    } else if action == 1 {
        Ops::EVAL
    } else if action == 2 {
        Ops::CALL
    } else {
        Ops::EXIT
    }
}

/// The operation that a wire action code asks for.
pub fn op_from_action(action: i32) -> (r: Ops)
    ensures
        r == op_of_action(action),
{
    match action {
        0 => Ops::REWRITE,
        1 => Ops::EVAL,
        2 => Ops::CALL,
        _ => Ops::EXIT,
    }
}

/// One unit of work: a script to evaluate, or a global function name and
/// its arguments, each argument handed over as a string value.
#[derive(Clone, Debug)]
pub struct JSCommand {
    pub operation: Ops,
    pub payload: String,
    pub args: Vec<String>,
}

impl JSCommand {
    /// The command that a request asks for.
    pub open spec fn of_request(req: JsRequest) -> JSCommand {
        JSCommand { operation: op_of_action(req.action), payload: req.script, args: req.args }
    }

    /// Builds the command that a request asks for.
    pub fn from_request(req: JsRequest) -> (r: JSCommand)
        ensures
            r == JSCommand::of_request(req),
    {
        JSCommand { operation: op_from_action(req.action), payload: req.script, args: req.args }
    }
}

impl From<JsRequest> for JSCommand {
    fn from(req: JsRequest) -> (r: JSCommand)
        ensures
            r == JSCommand::of_request(req),
    {
        JSCommand::from_request(req)
    }
}

impl vstd::std_specs::convert::FromSpecImpl<JsRequest> for JSCommand {
    open spec fn obeys_from_spec() -> bool {
        true
    }

    open spec fn from_spec(req: JsRequest) -> JSCommand {
        JSCommand::of_request(req)
    }
}

} // verus!
