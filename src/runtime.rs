use std::collections::VecDeque;
use vstd::prelude::*;

use crate::error::{DeliveryError, MailboxError, SlotError};

verus! {

/// Handle of one actor in a `Runtime`: a plain index, freely copied.
#[derive(Debug, Clone, Copy, PartialEq, Eq, Structural)]
pub struct Addr {
    pub id: usize,
}

/// Handle of one ask's result slot.
#[derive(Debug, Clone, Copy, PartialEq, Eq, Structural)]
pub struct AskId {
    pub id: usize,
}

/// Where an actor is in its life.
#[derive(Debug, Clone, Copy, PartialEq, Eq, Structural)]
pub enum Lifecycle {
    /// Created; its on-start hook has not run, so no mail is dispatched yet.
    Starting,
    /// Accepting and dispatching mail.
    Running,
    /// A stop was requested: no new mail, the pending mail is drained.
    Stopping,
    /// Terminal: the on-stop hook ran, the address is dead.
    Stopped,
}

/// One mailbox entry: the message, and the result slot of the ask that
/// sent it, if it was sent by an ask.
pub struct Envelope<M> {
    pub msg: M,
    pub reply_to: Option<AskId>,
}

/// State of one ask's result slot.
pub enum SlotState<R> {
    /// Waiting for the handler's reply.
    Pending,
    /// The handler replied; the caller has not read the reply yet.
    Ready(R),
    /// The target stopped before replying; the caller has not seen it yet.
    Cancelled,
    /// The caller has read the outcome.
    Taken,
}

/// An ask's result slot, with the actor that owes the reply.
pub struct AskRecord<R> {
    pub target: usize,
    pub state: SlotState<R>,
}

/// The mathematical state of a runtime: each actor's lifecycle and pending
/// mail, by address, and each ask's slot, by ask id.
#[verifier::ext_equal]
pub struct RuntimeView<M, R> {
    pub actors: Seq<Lifecycle>,
    pub mail: Seq<Seq<Envelope<M>>>,
    pub slots: Seq<AskRecord<R>>,
}

impl<M, R> RuntimeView<M, R> {
    pub open spec fn valid(self, a: Addr) -> bool {
        a.id < self.actors.len()
    }

    /// The actor accepts new mail.
    pub open spec fn alive(self, a: Addr) -> bool {
        self.valid(a) && (self.actors[a.id as int] == Lifecycle::Starting
            || self.actors[a.id as int] == Lifecycle::Running)
    }

    /// The actor's mail is being dispatched.
    pub open spec fn dispatching(self, a: Addr) -> bool {
        self.valid(a) && (self.actors[a.id as int] == Lifecycle::Running
            || self.actors[a.id as int] == Lifecycle::Stopping)
    }

    pub open spec fn pending(self, a: Addr) -> Seq<Envelope<M>> {
        self.mail[a.id as int]
    }

    pub open spec fn with_mail(self, a: Addr, q: Seq<Envelope<M>>) -> Self {
        RuntimeView { mail: self.mail.update(a.id as int, q), ..self }
    }

    pub open spec fn with_actor(self, a: Addr, l: Lifecycle) -> Self {
        RuntimeView { actors: self.actors.update(a.id as int, l), ..self }
    }

    pub open spec fn with_slot(self, k: AskId, s: SlotState<R>) -> Self {
        RuntimeView {
            slots: self.slots.update(k.id as int, AskRecord { target: self.slots[k.id as int].target, state: s }),
            ..self
        }
    }

    /// Every actor has a mailbox.
    pub open spec fn wf(self) -> bool {
        self.actors.len() == self.mail.len()
    }
}

/// A runtime with no actors and no asks.
pub open spec fn empty_spec<M, R>() -> RuntimeView<M, R> {
    RuntimeView { actors: Seq::empty(), mail: Seq::empty(), slots: Seq::empty() }
}

/// `start`: a new actor, `Starting`, with an empty mailbox, at the next address.
pub open spec fn start_spec<M, R>(v: RuntimeView<M, R>) -> (RuntimeView<M, R>, Addr) {
    (
        RuntimeView {
            actors: v.actors.push(Lifecycle::Starting),
            mail: v.mail.push(Seq::empty()),
            ..v
        },
        Addr { id: v.actors.len() as usize },
    )
}

/// `send`: fire-and-forget; appends to the back of a live actor's mailbox,
/// fails with `MailboxClosed` otherwise and changes nothing.
pub open spec fn send_spec<M, R>(v: RuntimeView<M, R>, a: Addr, m: M) -> (RuntimeView<M, R>, Result<(), MailboxError>) {
    if v.alive(a) {
        (v.with_mail(a, v.pending(a).push(Envelope { msg: m, reply_to: None })), Ok(()))
    } else {
        (v, Err(MailboxError::MailboxClosed))
    }
}


/// `mark_running`: the on-start hook ran; a `Starting` actor becomes
/// `Running`. Any other state is left alone and `false` is returned.
pub open spec fn mark_running_spec<M, R>(v: RuntimeView<M, R>, a: Addr) -> (RuntimeView<M, R>, bool) {
    if v.valid(a) && v.actors[a.id as int] == Lifecycle::Starting {
        (v.with_actor(a, Lifecycle::Running), true)
    } else {
        (v, false)
    }
}

/// `ask`: allocates a fresh `Pending` slot owed by the target, at the next
/// ask id, and appends the message with that slot to the target's mailbox.
/// A dead target gives `MailboxClosed` and changes nothing.
pub open spec fn ask_spec<M, R>(v: RuntimeView<M, R>, a: Addr, m: M) -> (RuntimeView<M, R>, Result<AskId, MailboxError>) {
    if v.alive(a) {
        let k = AskId { id: v.slots.len() as usize };
        (
            RuntimeView {
                slots: v.slots.push(AskRecord { target: a.id, state: SlotState::Pending }),
                ..v.with_mail(a, v.pending(a).push(Envelope { msg: m, reply_to: Some(k) }))
            },
            Ok(k),
        )
    } else {
        (v, Err(MailboxError::MailboxClosed))
    }
}

/// `next_message`: hands the front of a dispatching actor's mailbox to its
/// handler and removes it. Nothing comes out of an empty mailbox or of an
/// actor that is not dispatching.
pub open spec fn next_message_spec<M, R>(v: RuntimeView<M, R>, a: Addr) -> (RuntimeView<M, R>, Option<Envelope<M>>) {
    if v.dispatching(a) && v.pending(a).len() > 0 {
        (v.with_mail(a, v.pending(a).drop_first()), Some(v.pending(a).first()))
    } else {
        (v, None)
    }
}

/// `reply`: fulfils a `Pending` slot with the handler's value. A slot that
/// was already fulfilled, cancelled or read is left as it is.
pub open spec fn reply_spec<M, R>(v: RuntimeView<M, R>, k: AskId, r: R) -> (RuntimeView<M, R>, Result<(), SlotError>) {
    if k.id >= v.slots.len() {
        (v, Err(SlotError::UnknownAsk))
    } else if v.slots[k.id as int].state is Pending {
        (v.with_slot(k, SlotState::Ready(r)), Ok(()))
    } else {
        (v, Err(SlotError::AlreadyResolved))
    }
}

/// `poll`: the caller's side of an ask. A reply comes out as `Ok`, a
/// cancellation as `Err(Cancelled)`, once; the slot is then `Taken`.
/// A pending, taken or unknown slot gives `None`.
pub open spec fn poll_spec<M, R>(v: RuntimeView<M, R>, k: AskId) -> (RuntimeView<M, R>, Option<Result<R, DeliveryError>>) {
    if k.id >= v.slots.len() {
        (v, None)
    } else {
        match v.slots[k.id as int].state {
            SlotState::Ready(r) => (v.with_slot(k, SlotState::Taken), Some(Ok(r))),
            SlotState::Cancelled => (v.with_slot(k, SlotState::Taken), Some(Err(DeliveryError::Cancelled))),
            _ => (v, None),
        }
    }
}

/// `stop`: a `Starting` or `Running` actor becomes `Stopping`; its mailbox
/// closes and the mail in it is still drained. Returns whether it changed.
pub open spec fn stop_spec<M, R>(v: RuntimeView<M, R>, a: Addr) -> (RuntimeView<M, R>, bool) {
    if v.alive(a) {
        (v.with_actor(a, Lifecycle::Stopping), true)
    } else {
        (v, false)
    }
}

/// A slot after its target `a` stopped: still pending means cancelled.
pub open spec fn cancel_for<R>(s: AskRecord<R>, a: Addr) -> AskRecord<R> {
    if s.target == a.id && s.state is Pending {
        AskRecord { target: s.target, state: SlotState::Cancelled }
    } else {
        s
    }
}

/// `finish_stop`: a `Stopping` actor whose mailbox is drained becomes
/// `Stopped`, and every ask it still owes a reply is cancelled. Otherwise
/// nothing changes and `false` is returned.
pub open spec fn finish_stop_spec<M, R>(v: RuntimeView<M, R>, a: Addr) -> (RuntimeView<M, R>, bool) {
    if v.valid(a) && v.actors[a.id as int] == Lifecycle::Stopping && v.pending(a).len() == 0 {
        (
            RuntimeView {
                slots: v.slots.map_values(|s: AskRecord<R>| cancel_for(s, a)),
                ..v.with_actor(a, Lifecycle::Stopped)
            },
            true,
        )
    } else {
        (v, false)
    }
}


/// `fail`: a handler of the actor failed. The failure is fatal to that actor
/// alone: its pending mail is discarded, it is `Stopped` at once, and every
/// ask it still owes is cancelled. An unknown or already stopped actor is
/// left alone and `false` is returned.
pub open spec fn fail_spec<M, R>(v: RuntimeView<M, R>, a: Addr) -> (RuntimeView<M, R>, bool) {
    if v.valid(a) && v.actors[a.id as int] != Lifecycle::Stopped {
        (
            RuntimeView {
                slots: v.slots.map_values(|s: AskRecord<R>| cancel_for(s, a)),
                ..v.with_actor(a, Lifecycle::Stopped).with_mail(a, Seq::empty())
            },
            true,
        )
    } else {
        (v, false)
    }
}

/// The lifecycle after a process-wide stop request.
pub open spec fn stop_requested(l: Lifecycle) -> Lifecycle {
    if l == Lifecycle::Starting || l == Lifecycle::Running {
        Lifecycle::Stopping
    } else {
        l
    }
}

/// `shutdown`: every live actor is asked to stop, as `stop` does one.
pub open spec fn shutdown_spec<M, R>(v: RuntimeView<M, R>) -> RuntimeView<M, R> {
    RuntimeView { actors: v.actors.map_values(|l: Lifecycle| stop_requested(l)), ..v }
}

/// No mailbox holds mail.
pub open spec fn quiescent<M, R>(v: RuntimeView<M, R>) -> bool {
    forall|i: int| 0 <= i < v.mail.len() ==> #[trigger] v.mail[i].len() == 0
}

} // verus!

verus! {

struct ActorCell<M> {
    state: Lifecycle,
    mail: VecDeque<Envelope<M>>,
}

/// Single-threaded actor runtime. It owns every actor's mailbox and every
/// ask's result slot; the driver dispatches each delivered message to the
/// actor's handler, one message at a time per actor.
pub struct Runtime<M, R> {
    actors: Vec<ActorCell<M>>,
    slots: Vec<AskRecord<R>>,
}

impl<M, R> View for Runtime<M, R> {
    type V = RuntimeView<M, R>;

    closed spec fn view(&self) -> RuntimeView<M, R> {
        RuntimeView {
            actors: self.actors@.map_values(|c: ActorCell<M>| c.state),
            mail: self.actors@.map_values(|c: ActorCell<M>| c.mail@),
            slots: self.slots@,
        }
    }
}

impl<M, R> Runtime<M, R> {
    pub fn new() -> (r: Self)
        ensures
            r@ == empty_spec::<M, R>(),
    {
        let r = Runtime { actors: Vec::new(), slots: Vec::new() };
        assert(r@ =~= empty_spec::<M, R>());
        r
    }

    pub proof fn lemma_wf(&self)
        ensures
            self@.wf(),
    {
    }

    pub fn start(&mut self) -> (a: Addr)
        requires
            old(self)@.actors.len() < usize::MAX,
        ensures
            (final(self)@, a) == start_spec(old(self)@),
    {
        let a = Addr { id: self.actors.len() };
        self.actors.push(ActorCell { state: Lifecycle::Starting, mail: VecDeque::new() });
        assert(self@ =~= start_spec(old(self)@).0);
        a
    }

    fn is_alive(&self, a: Addr) -> (r: bool)
        ensures
            r == self@.alive(a),
    {
        a.id < self.actors.len() && (self.actors[a.id].state == Lifecycle::Starting
            || self.actors[a.id].state == Lifecycle::Running)
    }

    pub fn lifecycle(&self, a: Addr) -> (r: Option<Lifecycle>)
        ensures
            r == (if self@.valid(a) { Some(self@.actors[a.id as int]) } else { None::<Lifecycle> }),
    {
        if a.id < self.actors.len() {
            Some(self.actors[a.id].state)
        } else {
            None
        }
    }

    /// Number of messages waiting in the actor's mailbox (0 for an unknown address).
    pub fn pending_len(&self, a: Addr) -> (r: usize)
        ensures
            r == (if self@.valid(a) { self@.pending(a).len() } else { 0 }),
    {
        if a.id < self.actors.len() {
            self.actors[a.id].mail.len()
        } else {
            0
        }
    }

    pub fn mark_running(&mut self, a: Addr) -> (r: bool)
        ensures
            (final(self)@, r) == mark_running_spec(old(self)@, a),
    {
        if a.id < self.actors.len() && self.actors[a.id].state == Lifecycle::Starting {
            self.actors[a.id].state = Lifecycle::Running;
            assert(self@ =~= mark_running_spec(old(self)@, a).0);
            true
        } else {
            false
        }
    }

    pub fn ask(&mut self, a: Addr, msg: M) -> (r: Result<AskId, MailboxError>)
        requires
            old(self)@.slots.len() < usize::MAX,
        ensures
            (final(self)@, r) == ask_spec(old(self)@, a, msg),
    {
        if !self.is_alive(a) {
            return Err(MailboxError::MailboxClosed);
        }
        let k = AskId { id: self.slots.len() };
        self.slots.push(AskRecord { target: a.id, state: SlotState::Pending });
        self.actors[a.id].mail.push_back(Envelope { msg, reply_to: Some(k) });
        assert(self@ =~= ask_spec(old(self)@, a, msg).0);
        Ok(k)
    }

    pub fn next_message(&mut self, a: Addr) -> (r: Option<Envelope<M>>)
        ensures
            (final(self)@, r) == next_message_spec(old(self)@, a),
    {
        if a.id >= self.actors.len() {
            return None;
        }
        let st = self.actors[a.id].state;
        if st != Lifecycle::Running && st != Lifecycle::Stopping {
            return None;
        }
        let r = self.actors[a.id].mail.pop_front();
        assert(self@ =~= next_message_spec(old(self)@, a).0);
        r
    }

    pub fn reply(&mut self, k: AskId, value: R) -> (r: Result<(), SlotError>)
        ensures
            (final(self)@, r) == reply_spec(old(self)@, k, value),
    {
        if k.id >= self.slots.len() {
            return Err(SlotError::UnknownAsk);
        }
        match self.slots[k.id].state {
            SlotState::Pending => {},
            _ => {
                return Err(SlotError::AlreadyResolved);
            },
        }
        self.slots[k.id].state = SlotState::Ready(value);
        assert(self@ =~= reply_spec(old(self)@, k, value).0);
        Ok(())
    }

    pub fn poll(&mut self, k: AskId) -> (r: Option<Result<R, DeliveryError>>)
        ensures
            (final(self)@, r) == poll_spec(old(self)@, k),
    {
        if k.id >= self.slots.len() {
            return None;
        }
        match self.slots[k.id].state {
            SlotState::Ready(_) | SlotState::Cancelled => {},
            _ => {
                return None;
            },
        }
        let rec = self.slots.remove(k.id);
        self.slots.insert(k.id, AskRecord { target: rec.target, state: SlotState::Taken });
        assert(self@ =~= poll_spec(old(self)@, k).0);
        match rec.state {
            SlotState::Ready(r) => Some(Ok(r)),
            _ => Some(Err(DeliveryError::Cancelled)),
        }
    }

    pub fn stop(&mut self, a: Addr) -> (r: bool)
        ensures
            (final(self)@, r) == stop_spec(old(self)@, a),
    {
        if !self.is_alive(a) {
            return false;
        }
        self.actors[a.id].state = Lifecycle::Stopping;
        assert(self@ =~= stop_spec(old(self)@, a).0);
        true
    }

    pub fn finish_stop(&mut self, a: Addr) -> (r: bool)
        ensures
            (final(self)@, r) == finish_stop_spec(old(self)@, a),
    {
        if a.id >= self.actors.len() || self.actors[a.id].state != Lifecycle::Stopping
            || self.actors[a.id].mail.len() != 0 {
            return false;
        }
        self.actors[a.id].state = Lifecycle::Stopped;
        self.cancel_owed(a);
        assert(self@ =~= finish_stop_spec(old(self)@, a).0);
        true
    }

    /// Cancels every pending ask owed by `a`.
    fn cancel_owed(&mut self, a: Addr)
        ensures
            final(self).actors@ == old(self).actors@,
            final(self)@.slots == old(self)@.slots.map_values(|s: AskRecord<R>| cancel_for(s, a)),
    {
        let n = self.slots.len();
        let mut i: usize = 0;
        while i < n
            invariant
                n == self.slots@.len(),
                n == old(self)@.slots.len(),
                i <= n,
                self.actors@ == old(self).actors@,
                forall|j: int| 0 <= j < i ==> self.slots@[j] == cancel_for(old(self)@.slots[j], a),
                forall|j: int| i <= j < n ==> self.slots@[j] == old(self)@.slots[j],
            decreases n - i,
        {
            if self.slots[i].target == a.id {
                if let SlotState::Pending = self.slots[i].state {
                    self.slots[i].state = SlotState::Cancelled;
                }
            }
            i += 1;
        }
        assert(self@.slots =~= old(self)@.slots.map_values(|s: AskRecord<R>| cancel_for(s, a)));
    }

    pub fn fail(&mut self, a: Addr) -> (r: bool)
        ensures
            (final(self)@, r) == fail_spec(old(self)@, a),
    {
        if a.id >= self.actors.len() || self.actors[a.id].state == Lifecycle::Stopped {
            return false;
        }
        self.actors[a.id].state = Lifecycle::Stopped;
        self.actors[a.id].mail.clear();
        self.cancel_owed(a);
        assert(self@ =~= fail_spec(old(self)@, a).0);
        true
    }

    pub fn shutdown(&mut self)
        ensures
            final(self)@ == shutdown_spec(old(self)@),
    {
        let n = self.actors.len();
        let mut i: usize = 0;
        while i < n
            invariant
                n == self.actors@.len(),
                n == old(self).actors@.len(),
                i <= n,
                self.slots@ == old(self).slots@,
                forall|j: int| 0 <= j < i ==> #[trigger] self.actors@[j] == (ActorCell {
                    state: stop_requested(old(self).actors@[j].state),
                    ..old(self).actors@[j]
                }),
                forall|j: int| i <= j < n ==> #[trigger] self.actors@[j] == old(self).actors@[j],
            decreases n - i,
        {
            let st = self.actors[i].state;
            if st == Lifecycle::Starting || st == Lifecycle::Running {
                self.actors[i].state = Lifecycle::Stopping;
            }
            i += 1;
        }
        assert(self@ =~= shutdown_spec(old(self)@));
    }

    /// Whether no actor has mail waiting.
    pub fn is_quiescent(&self) -> (r: bool)
        ensures
            r == quiescent(self@),
    {
        let n = self.actors.len();
        let mut i: usize = 0;
        while i < n
            invariant
                n == self.actors@.len(),
                i <= n,
                forall|j: int| 0 <= j < i ==> #[trigger] self@.mail[j].len() == 0,
            decreases n - i,
        {
            if self.actors[i].mail.len() != 0 {
                assert(self@.mail[i as int].len() != 0);
                return false;
            }
            i += 1;
        }
        true
    }

    pub fn send(&mut self, a: Addr, msg: M) -> (r: Result<(), MailboxError>)
        ensures
            (final(self)@, r) == send_spec(old(self)@, a, msg),
    {
        if !self.is_alive(a) {
            return Err(MailboxError::MailboxClosed);
        }
        self.actors[a.id].mail.push_back(Envelope { msg, reply_to: None });
        assert(self@ =~= send_spec(old(self)@, a, msg).0);
        Ok(())
    }
}

} // verus!
