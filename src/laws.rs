use vstd::prelude::*;

use crate::error::{DeliveryError, MailboxError, SlotError};
use crate::notifier::{alive_count, publish_spec, Recipient, ShipCallbackEvent};
use crate::responder::{response_of, serve_next_spec, Messages, Responses};
use crate::runtime::{
    ask_spec, finish_stop_spec, next_message_spec, poll_spec, reply_spec, send_spec, stop_spec,
    Addr, AskId, Envelope, Lifecycle, RuntimeView, SlotState,
};

verus! {

/// The state after `send(a, m)` for each `m` of `msgs`, in order.
pub open spec fn send_all<M, R>(v: RuntimeView<M, R>, a: Addr, msgs: Seq<M>) -> RuntimeView<M, R>
    decreases msgs.len(),
{
    if msgs.len() == 0 {
        v
    } else {
        send_spec(send_all(v, a, msgs.drop_last()), a, msgs.last()).0
    }
}

/// The mailbox entries that fire-and-forget sends of `msgs` make.
pub open spec fn plain<M>(msgs: Seq<M>) -> Seq<Envelope<M>> {
    msgs.map_values(|m: M| Envelope { msg: m, reply_to: None })
}

/// `next_message(a)` called `n` times: the final state and what the handler
/// was given, in order.
pub open spec fn receive_n<M, R>(v: RuntimeView<M, R>, a: Addr, n: nat) -> (RuntimeView<M, R>, Seq<Envelope<M>>)
    decreases n,
{
    if n == 0 {
        (v, Seq::empty())
    } else {
        let (v1, e) = next_message_spec(v, a);
        match e {
            Some(env) => {
                let (v2, rest) = receive_n(v1, a, (n - 1) as nat);
                (v2, seq![env] + rest)
            },
            None => (v1, Seq::empty()),
        }
    }
}

/// How many entries of `subs` name the actor `b`.
pub open spec fn occurrences(subs: Seq<Recipient>, b: Addr) -> nat
    decreases subs.len(),
{
    if subs.len() == 0 {
        0
    } else {
        occurrences(subs.drop_last(), b) + if subs.last().addr == b { 1nat } else { 0nat }
    }
}

/// `n` fan-out copies of the event for order `order_id`.
pub open spec fn copies(n: nat, order_id: usize) -> Seq<Envelope<ShipCallbackEvent>> {
    Seq::new(n, |i: int| Envelope { msg: ShipCallbackEvent(order_id), reply_to: None })
}

/// Sends to a live actor only append to its mailbox.
pub proof fn lemma_send_all<M, R>(v: RuntimeView<M, R>, a: Addr, msgs: Seq<M>)
    requires
        v.wf(),
        v.alive(a),
    ensures
        send_all(v, a, msgs) == v.with_mail(a, v.pending(a) + plain(msgs)),
    decreases msgs.len(),
{
    if msgs.len() == 0 {
        assert(v.pending(a) + plain(msgs) =~= v.pending(a));
        assert(v.with_mail(a, v.pending(a)) =~= v);
    } else {
        let dl = msgs.drop_last();
        lemma_send_all(v, a, dl);
        let w = send_all(v, a, dl);
        assert(w.alive(a));
        assert(w.pending(a) == v.pending(a) + plain(dl));
        assert((v.pending(a) + plain(dl)).push(Envelope { msg: msgs.last(), reply_to: None })
            =~= v.pending(a) + plain(msgs));
        assert(send_all(v, a, msgs) =~= v.with_mail(a, v.pending(a) + plain(msgs)));
    }
}

/// Dispatching `n` messages hands out the first `n` of the mailbox, in order,
/// and leaves the rest.
pub proof fn lemma_receive_n<M, R>(v: RuntimeView<M, R>, a: Addr, n: nat)
    requires
        v.wf(),
        v.dispatching(a),
        n <= v.pending(a).len(),
    ensures
        receive_n(v, a, n).0 == v.with_mail(a, v.pending(a).skip(n as int)),
        receive_n(v, a, n).1 == v.pending(a).take(n as int),
    decreases n,
{
    let p = v.pending(a);
    if n == 0 {
        assert(p.skip(0) =~= p);
        assert(v.with_mail(a, p) =~= v);
        assert(p.take(0) =~= Seq::<Envelope<M>>::empty());
    } else {
        let v1 = v.with_mail(a, p.drop_first());
        assert(next_message_spec(v, a) == (v1, Some(p.first())));
        lemma_receive_n(v1, a, (n - 1) as nat);
        assert(v1.pending(a) == p.drop_first());
        assert(p.drop_first().skip(n - 1) =~= p.skip(n as int));
        assert(v1.with_mail(a, p.skip(n as int)) =~= v.with_mail(a, p.skip(n as int)));
        assert(seq![p.first()] + p.drop_first().take(n - 1) =~= p.take(n as int));
    }
}

/// Mailboxes are FIFO: whatever a running actor's mailbox held, followed by
/// any sequence of sends to it, is handed to its handler in exactly that
/// order, and the mailbox is then empty.
pub proof fn lemma_fifo<M, R>(v: RuntimeView<M, R>, a: Addr, msgs: Seq<M>)
    requires
        v.wf(),
        v.valid(a),
        v.actors[a.id as int] == Lifecycle::Running,
    ensures
        ({
            let (w, got) = receive_n(send_all(v, a, msgs), a, v.pending(a).len() + msgs.len());
            &&& got == v.pending(a) + plain(msgs)
            &&& got.map_values(|e: Envelope<M>| e.msg)
                == v.pending(a).map_values(|e: Envelope<M>| e.msg) + msgs
            &&& w.pending(a).len() == 0
        }),
{
    lemma_send_all(v, a, msgs);
    let s = send_all(v, a, msgs);
    let q = v.pending(a) + plain(msgs);
    assert(s.pending(a) == q);
    lemma_receive_n(s, a, q.len());
    assert(q.take(q.len() as int) =~= q);
    assert(q.map_values(|e: Envelope<M>| e.msg) =~= v.pending(a).map_values(|e: Envelope<M>| e.msg) + msgs);
}

/// An ask to a live actor succeeds and opens a fresh pending slot owed by
/// that actor, whose id travels with the message.
pub proof fn lemma_ask_opens_slot<M, R>(v: RuntimeView<M, R>, a: Addr, m: M)
    requires
        v.wf(),
        v.alive(a),
        v.slots.len() < usize::MAX,
    ensures
        ({
            let (w, res) = ask_spec(v, a, m);
            let k = AskId { id: v.slots.len() as usize };
            &&& res == Ok::<AskId, MailboxError>(k)
            &&& w.slots[k.id as int].state is Pending
            &&& w.slots[k.id as int].target == a.id
            &&& w.pending(a).last() == Envelope { msg: m, reply_to: Some(k) }
        }),
{
}

/// A pending ask that is answered once resolves to exactly that answer, once:
/// a second answer is refused, and a second poll finds nothing.
pub proof fn lemma_reply_once<M, R>(v: RuntimeView<M, R>, k: AskId, r: R, r2: R)
    requires
        k.id < v.slots.len(),
        v.slots[k.id as int].state is Pending,
    ensures
        ({
            let (w, res) = reply_spec(v, k, r);
            let (w2, got) = poll_spec(w, k);
            &&& res == Ok::<(), SlotError>(())
            &&& reply_spec(w, k, r2) == (w, Err::<(), SlotError>(SlotError::AlreadyResolved))
            &&& got == Some(Ok::<R, DeliveryError>(r))
            &&& poll_spec(w2, k).1 == None::<Result<R, DeliveryError>>
        }),
{
}

/// An ask whose target is stopped before it answers resolves to
/// `Cancelled`, once: after the stop, the drain of the remaining mail without
/// replies, and the on-stop step, the caller's poll gives the cancellation.
pub proof fn lemma_stop_cancels_ask<M, R>(v: RuntimeView<M, R>, a: Addr, m: M)
    requires
        v.wf(),
        v.alive(a),
        v.slots.len() < usize::MAX,
    ensures
        ({
            let k = AskId { id: v.slots.len() as usize };
            let v1 = ask_spec(v, a, m).0;
            let v2 = stop_spec(v1, a).0;
            let v3 = receive_n(v2, a, v2.pending(a).len()).0;
            let (v4, done) = finish_stop_spec(v3, a);
            let (v5, got) = poll_spec(v4, k);
            &&& done
            &&& got == Some(Err::<R, DeliveryError>(DeliveryError::Cancelled))
            &&& poll_spec(v5, k).1 == None::<Result<R, DeliveryError>>
        }),
{
    let k = AskId { id: v.slots.len() as usize };
    let v1 = ask_spec(v, a, m).0;
    let v2 = stop_spec(v1, a).0;
    lemma_receive_n(v2, a, v2.pending(a).len());
    let v3 = receive_n(v2, a, v2.pending(a).len()).0;
    assert(v2.pending(a).skip(v2.pending(a).len() as int) =~= Seq::<Envelope<M>>::empty());
    assert(v3.pending(a).len() == 0);
    assert(v3.slots[k.id as int] == v1.slots[k.id as int]);
    let v4 = finish_stop_spec(v3, a).0;
    assert(v4.slots[k.id as int].state is Cancelled);
}

/// After a stop, the address is closed: `send` and `ask` fail with
/// `MailboxClosed` and change nothing, both while the actor drains its mail
/// and once it has stopped.
pub proof fn lemma_closed_after_stop<M, R>(v: RuntimeView<M, R>, a: Addr, m: M)
    requires
        v.valid(a),
    ensures
        ({
            let v1 = stop_spec(v, a).0;
            let v2 = finish_stop_spec(v1, a).0;
            &&& send_spec(v1, a, m) == (v1, Err::<(), MailboxError>(MailboxError::MailboxClosed))
            &&& ask_spec(v1, a, m) == (v1, Err::<AskId, MailboxError>(MailboxError::MailboxClosed))
            &&& send_spec(v2, a, m) == (v2, Err::<(), MailboxError>(MailboxError::MailboxClosed))
            &&& ask_spec(v2, a, m) == (v2, Err::<AskId, MailboxError>(MailboxError::MailboxClosed))
        }),
{
}

/// Publishing sends each live actor one copy of the event per time it
/// appears among the subscribers, appended after its earlier mail; dead ones
/// get nothing, and no slot or lifecycle changes. The number of copies sent
/// is the number of live subscribers, repeats counted, so `N` live
/// subscribers get `N` copies in all.
pub proof fn lemma_publish<R>(v: RuntimeView<ShipCallbackEvent, R>, subs: Seq<Recipient>, order_id: usize)
    requires
        v.wf(),
    ensures
        publish_spec(v, subs, order_id).actors == v.actors,
        publish_spec(v, subs, order_id).slots == v.slots,
        publish_spec(v, subs, order_id).wf(),
        forall|b: Addr| #[trigger] v.valid(b) ==> publish_spec(v, subs, order_id).pending(b)
            == v.pending(b) + copies(if v.alive(b) { occurrences(subs, b) } else { 0 }, order_id),
        (forall|i: int| 0 <= i < subs.len() ==> v.alive(#[trigger] subs[i].addr))
            ==> alive_count(v, subs) == subs.len(),
    decreases subs.len(),
{
    if subs.len() == 0 {
        assert forall|b: Addr| #[trigger] v.valid(b) implies publish_spec(v, subs, order_id).pending(b)
            == v.pending(b) + copies(if v.alive(b) { occurrences(subs, b) } else { 0 }, order_id) by {
            assert(v.pending(b) + copies(0, order_id) =~= v.pending(b));
        }
    } else {
        let dl = subs.drop_last();
        let s = subs.last().addr;
        lemma_publish(v, dl, order_id);
        let w = publish_spec(v, dl, order_id);
        assert forall|b: Addr| #[trigger] v.valid(b) implies publish_spec(v, subs, order_id).pending(b)
            == v.pending(b) + copies(if v.alive(b) { occurrences(subs, b) } else { 0 }, order_id) by {
            assert(w.pending(b) == v.pending(b) + copies(if v.alive(b) { occurrences(dl, b) } else { 0 }, order_id));
            if v.alive(b) && s == b {
                assert((v.pending(b) + copies(occurrences(dl, b), order_id)).push(
                    Envelope { msg: ShipCallbackEvent(order_id), reply_to: None })
                    =~= v.pending(b) + copies(occurrences(subs, b), order_id));
            }
        }
        if forall|i: int| 0 <= i < subs.len() ==> v.alive(#[trigger] subs[i].addr) {
            assert forall|i: int| 0 <= i < dl.len() implies v.alive(#[trigger] dl[i].addr) by {
                assert(dl[i] == subs[i]);
            }
            assert(v.alive(subs[subs.len() - 1].addr));
        }
    }
}

/// No deduplication: a live recipient subscribed twice receives exactly two
/// copies of each published event.
pub proof fn lemma_double_subscription<R>(
    v: RuntimeView<ShipCallbackEvent, R>,
    subs: Seq<Recipient>,
    r: Recipient,
    order_id: usize,
)
    requires
        v.wf(),
        v.alive(r.addr),
        occurrences(subs, r.addr) == 2,
    ensures
        publish_spec(v, subs, order_id).pending(r.addr) == v.pending(r.addr)
            + seq![
            Envelope { msg: ShipCallbackEvent(order_id), reply_to: None },
            Envelope { msg: ShipCallbackEvent(order_id), reply_to: None },
        ],
{
    lemma_publish(v, subs, order_id);
    assert(v.valid(r.addr));
    assert(copies(2, order_id) =~= seq![
        Envelope { msg: ShipCallbackEvent(order_id), reply_to: None },
        Envelope { msg: ShipCallbackEvent(order_id), reply_to: None },
    ]);
}

/// Replies match their requests: two asks to a running `MyActor` with an
/// empty mailbox, both served, each resolve to the response to their own
/// message, whichever of the two the caller polls first.
pub proof fn lemma_replies_match_requests(v: RuntimeView<Messages, Responses>, a: Addr, m1: Messages, m2: Messages)
    requires
        v.wf(),
        v.valid(a),
        v.actors[a.id as int] == Lifecycle::Running,
        v.pending(a).len() == 0,
        v.slots.len() + 2 < usize::MAX,
    ensures
        ({
            let (v1, r1) = ask_spec(v, a, m1);
            let (v2, r2) = ask_spec(v1, a, m2);
            let w = serve_next_spec(serve_next_spec(v2, a), a);
            let k1 = AskId { id: v.slots.len() as usize };
            let k2 = AskId { id: (v.slots.len() + 1) as usize };
            &&& r1 == Ok::<AskId, MailboxError>(k1)
            &&& r2 == Ok::<AskId, MailboxError>(k2)
            &&& w.pending(a).len() == 0
            &&& poll_spec(w, k1).1 == Some(Ok::<Responses, DeliveryError>(response_of(m1)))
            &&& poll_spec(w, k2).1 == Some(Ok::<Responses, DeliveryError>(response_of(m2)))
            &&& poll_spec(poll_spec(w, k2).0, k1).1 == Some(Ok::<Responses, DeliveryError>(response_of(m1)))
            &&& poll_spec(poll_spec(w, k1).0, k2).1 == Some(Ok::<Responses, DeliveryError>(response_of(m2)))
        }),
{
    let k1 = AskId { id: v.slots.len() as usize };
    let k2 = AskId { id: (v.slots.len() + 1) as usize };
    let v1 = ask_spec(v, a, m1).0;
    let v2 = ask_spec(v1, a, m2).0;
    assert(v2.pending(a) =~= seq![
        Envelope { msg: m1, reply_to: Some(k1) },
        Envelope { msg: m2, reply_to: Some(k2) },
    ]);
    let u = serve_next_spec(v2, a);
    assert(u.pending(a) =~= seq![Envelope { msg: m2, reply_to: Some(k2) }]);
    assert(u.slots[k1.id as int].state == SlotState::Ready(response_of(m1)));
    assert(u.slots[k2.id as int].state is Pending);
    let w = serve_next_spec(u, a);
    assert(w.pending(a) =~= Seq::<Envelope<Messages>>::empty());
    assert(w.slots[k1.id as int].state == SlotState::Ready(response_of(m1)));
    assert(w.slots[k2.id as int].state == SlotState::Ready(response_of(m2)));
}

} // verus!
