use vstd::prelude::*;

use crate::runtime::{next_message_spec, reply_spec, Addr, AskId, Envelope, Runtime, RuntimeView};

verus! {

/// What `MyActor` accepts.
#[derive(Debug, Clone, Copy, PartialEq, Eq, Structural)]
pub enum Messages {
    Ping,
    Pong,
}

/// What `MyActor` answers.
#[derive(Debug, Clone, Copy, PartialEq, Eq, Structural)]
pub enum Responses {
    GotPing,
    GotPong,
}

/// The answer to each message: each request gets the reply naming it.
pub open spec fn response_of(m: Messages) -> Responses {
    match m {
        Messages::Ping => Responses::GotPing,
        Messages::Pong => Responses::GotPong,
    }
}

/// The effect of handing a response back to the asker: with a result slot,
/// the slot is fulfilled as `reply` does it; without one, nothing happens.
pub open spec fn deliver_response_spec<M>(
    v: RuntimeView<M, Responses>,
    tx: Option<AskId>,
    r: Responses,
) -> RuntimeView<M, Responses> {
    match tx {
        Some(k) => reply_spec(v, k, r).0,
        None => v,
    }
}

/// One dispatch step of a `MyActor`: the next message, if any, is handled
/// and its response goes to the message's result slot.
pub open spec fn serve_next_spec(v: RuntimeView<Messages, Responses>, a: Addr) -> RuntimeView<Messages, Responses> {
    let (v1, e) = next_message_spec(v, a);
    match e {
        Some(env) => deliver_response_spec(v1, env.reply_to, response_of(env.msg)),
        None => v1,
    }
}

impl Responses {
    /// Hands this response back through the ask's result slot, if the message
    /// came with one. A slot that is no longer pending keeps its state.
    pub fn handle<M>(self, rt: &mut Runtime<M, Responses>, tx: Option<AskId>)
        ensures
            final(rt)@ == deliver_response_spec(old(rt)@, tx, self),
    {
        if let Some(k) = tx {
            let _ = rt.reply(k, self);
        }
    }
}

/// An actor without state that answers `Ping` and `Pong`.
#[derive(Debug, Clone, Copy, PartialEq, Eq, Structural)]
pub struct MyActor;

impl MyActor {
    /// On-start hook: the actor may now receive dispatched mail.
    pub fn started<M, R>(&mut self, rt: &mut Runtime<M, R>, a: Addr) -> (r: bool)
        ensures
            (final(rt)@, r) == crate::runtime::mark_running_spec(old(rt)@, a),
    {
        rt.mark_running(a)
    }

    /// On-stop hook: a stopping actor whose mail is drained is stopped, and
    /// the asks it did not answer are cancelled.
    pub fn stopped<M, R>(&mut self, rt: &mut Runtime<M, R>, a: Addr) -> (r: bool)
        ensures
            (final(rt)@, r) == crate::runtime::finish_stop_spec(old(rt)@, a),
    {
        rt.finish_stop(a)
    }

    pub fn handle(&mut self, msg: Messages) -> (r: Responses)
        ensures
            r == response_of(msg),
    {
        match msg {
            Messages::Ping => Responses::GotPing,
            Messages::Pong => Responses::GotPong,
        }
    }

    /// Dispatches the next message of this actor's mailbox, if one is there,
    /// and answers it. Returns whether a message was handled.
    pub fn serve_next(&mut self, rt: &mut Runtime<Messages, Responses>, a: Addr) -> (r: bool)
        ensures
            final(rt)@ == serve_next_spec(old(rt)@, a),
            r == next_message_spec(old(rt)@, a).1 is Some,
    {
        match rt.next_message(a) {
            Some(env) => {
                let Envelope { msg, reply_to } = env;
                let resp = self.handle(msg);
                resp.handle(rt, reply_to);
                true
            },
            None => false,
        }
    }
}

} // verus!
