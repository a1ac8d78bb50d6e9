//! The one-shot result slot shared by the caller that submits a command and
//! the worker that runs it.
use vstd::prelude::*;

use crate::command::JSCommand;

verus! {

/// Where a command stands: not yet run, or finished with a JSON text or an
/// error message.
#[derive(Debug)]
pub enum JSResult {
    Waiting,
    Json(String),
    Error(String),
}

/// The value of a result: strings read as their characters.
pub enum ResultModel {
    Waiting,
    Json(Seq<char>),
    Error(Seq<char>),
}

impl View for JSResult {
    type V = ResultModel;

    open spec fn view(&self) -> ResultModel {
        match self {
            JSResult::Waiting => ResultModel::Waiting,
            JSResult::Json(s) => ResultModel::Json(s@),
            JSResult::Error(s) => ResultModel::Error(s@),
        }
    }
}

impl JSResult {
    /// A result is terminal once the command has finished.
    pub open spec fn is_terminal(&self) -> bool {
        !(self is Waiting)
    }

    /// A copy of the result.
    pub fn duplicate(&self) -> (r: JSResult)
        ensures
            r == *self,
    {
        match self {
            JSResult::Waiting => JSResult::Waiting,
            JSResult::Json(s) => JSResult::Json(s.clone()),
            JSResult::Error(s) => JSResult::Error(s.clone()),
        }
    }
}

/// The contents of a pending execution: its command, its result, and the
/// continuation of the caller waiting for it, if one registered.
pub struct JSFutureState<W> {
    pub cmd: JSCommand,
    pub result: JSResult,
    pub waker: Option<W>,
}

/// A pending execution. Its result goes from `Waiting` to a terminal value
/// at most once, and stays there; the registered continuation is handed out
/// exactly at that transition.
pub struct JSFuture<W> {
    state: JSFutureState<W>,
}

impl<W> JSFuture<W> {
    /// The contents of this pending execution.
    pub closed spec fn state(&self) -> &JSFutureState<W> {
        &self.state
    }

    /// A fresh pending execution of `cmd`: waiting, with no continuation.
    pub fn new(cmd: JSCommand) -> (r: JSFuture<W>)
        ensures
            r.state().cmd == cmd,
            r.state().result is Waiting,
            r.state().waker is None,
    {
        JSFuture { state: JSFutureState { cmd, result: JSResult::Waiting, waker: None } }
    }

    /// The command to run.
    pub fn command(&self) -> (r: &JSCommand)
        ensures
            *r == self.state().cmd,
    {
        &self.state.cmd
    }

    /// Whether the command has finished.
    pub fn is_ready(&self) -> (r: bool)
        ensures
            r == self.state().result.is_terminal(),
    {
        !matches!(self.state.result, JSResult::Waiting)
    }

    /// Asks for the outcome. A finished execution returns its result and is
    /// left as it was, however often it is asked; an unfinished one keeps
    /// `waker` as the continuation to wake, in place of any earlier one.
    pub fn poll(&mut self, waker: W) -> (r: Option<JSResult>)
        ensures
            old(self).state().result.is_terminal() ==> r == Some(old(self).state().result)
                && *final(self) == *old(self),
            !old(self).state().result.is_terminal() ==> r is None
                && final(self).state().cmd == old(self).state().cmd
                && final(self).state().result is Waiting
                && final(self).state().waker == Some(waker),
    {
        if matches!(self.state.result, JSResult::Waiting) {
            self.state.waker = Some(waker);
            None
        } else {
            Some(self.state.result.duplicate())
        }
    }

    /// Records the outcome of the command. On a waiting execution the result
    /// becomes `result` and the registered continuation, if any, is handed
    /// back to be woken; it is then no longer held. On a finished one nothing
    /// changes and nothing is handed back.
    pub fn complete(&mut self, result: JSResult) -> (r: Option<W>)
        requires
            result.is_terminal(),
        ensures
            !old(self).state().result.is_terminal() ==> r == old(self).state().waker
                && final(self).state().cmd == old(self).state().cmd
                && final(self).state().result == result
                && final(self).state().waker is None,
            old(self).state().result.is_terminal() ==> r is None && *final(self) == *old(self),
    {
        if matches!(self.state.result, JSResult::Waiting) {
            self.state.result = result;
            self.state.waker.take()
        } else {
            None
        }
    }
}

} // verus!
