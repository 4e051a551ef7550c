use vstd::prelude::*;

use crate::runtime::{send_spec, Addr, Runtime, RuntimeView};

verus! {

/// The fan-out message each subscriber receives: the shipped order's id.
#[derive(Debug, Clone, Copy, PartialEq, Eq, Structural)]
pub struct ShipCallbackEvent(pub usize);

/// The event that triggers a fan-out: an order was shipped.
#[derive(Debug, Clone, Copy, PartialEq, Eq, Structural)]
pub struct Ship(pub usize);

/// An address narrowed to `ShipCallbackEvent`: a subscriber's actor in a
/// runtime whose mail is `ShipCallbackEvent`.
#[derive(Debug, Clone, Copy, PartialEq, Eq, Structural)]
pub struct Recipient {
    pub addr: Addr,
}

/// A request to add `source` to the notifier's subscribers.
pub struct Subscribe {
    pub source: Recipient,
    pub name: String,
}

/// The state after one `ShipCallbackEvent(order_id)` was sent to each of
/// `subs`, in order. Dead subscribers are skipped.
pub open spec fn publish_spec<R>(
    v: RuntimeView<ShipCallbackEvent, R>,
    subs: Seq<Recipient>,
    order_id: usize,
) -> RuntimeView<ShipCallbackEvent, R>
    decreases subs.len(),
{
    if subs.len() == 0 {
        v
    } else {
        send_spec(publish_spec(v, subs.drop_last(), order_id), subs.last().addr, ShipCallbackEvent(order_id)).0
    }
}

/// How many of `subs` are alive in `v`, counting repeats.
pub open spec fn alive_count<M, R>(v: RuntimeView<M, R>, subs: Seq<Recipient>) -> nat
    decreases subs.len(),
{
    if subs.len() == 0 {
        0
    } else {
        alive_count(v, subs.drop_last()) + if v.alive(subs.last().addr) { 1nat } else { 0nat }
    }
}

/// Sending leaves every actor's lifecycle as it was.
pub proof fn lemma_publish_keeps_actors<R>(v: RuntimeView<ShipCallbackEvent, R>, subs: Seq<Recipient>, order_id: usize)
    ensures
        publish_spec(v, subs, order_id).actors == v.actors,
        publish_spec(v, subs, order_id).slots == v.slots,
    decreases subs.len(),
{
    if subs.len() > 0 {
        lemma_publish_keeps_actors(v, subs.drop_last(), order_id);
    }
}

/// Holds the subscribers of ship notifications, in subscription order,
/// repeats included.
pub struct OrderNotifier {
    recorded_subscribers: Vec<Recipient>,
}

impl View for OrderNotifier {
    type V = Seq<Recipient>;

    closed spec fn view(&self) -> Seq<Recipient> {
        self.recorded_subscribers@
    }
}

impl OrderNotifier {
    pub fn new() -> (r: Self)
        ensures
            r@ == Seq::<Recipient>::empty(),
    {
        OrderNotifier { recorded_subscribers: Vec::new() }
    }

    pub fn subscribers(&self) -> (r: &Vec<Recipient>)
        ensures
            r@ == self@,
    {
        &self.recorded_subscribers
    }

    /// Appends the recipient to the subscribers; no deduplication.
    pub fn handle_subscribe(&mut self, msg: Subscribe)
        ensures
            final(self)@ == old(self)@.push(msg.source),
    {
        self.recorded_subscribers.push(msg.source);
    }

    /// Sends `ShipCallbackEvent(order_id)` to each subscriber, in
    /// subscription order, fire-and-forget. A dead subscriber is skipped and
    /// does not stop the others. Returns how many copies were enqueued.
    pub fn notify<R>(&self, rt: &mut Runtime<ShipCallbackEvent, R>, order_id: usize) -> (n: usize)
        ensures
            final(rt)@ == publish_spec(old(rt)@, self@, order_id),
            n == alive_count(old(rt)@, self@),
    {
        let subs = &self.recorded_subscribers;
        let mut n: usize = 0;
        let mut i: usize = 0;
        while i < subs.len()
            invariant
                i <= subs@.len(),
                n <= i,
                rt@ == publish_spec(old(rt)@, subs@.take(i as int), order_id),
                n == alive_count(old(rt)@, subs@.take(i as int)),
            decreases subs@.len() - i,
        {
            proof {
                lemma_publish_keeps_actors(old(rt)@, subs@.take(i as int), order_id);
                assert(subs@.take(i as int + 1).drop_last() =~= subs@.take(i as int));
            }
            if rt.send(subs[i].addr, ShipCallbackEvent(order_id)).is_ok() {
                n += 1;
            }
            i += 1;
        }
        assert(subs@.take(i as int) =~= subs@);
        n
    }

    /// Reacts to a shipped order by notifying every subscriber.
    pub fn handle_ship<R>(&self, rt: &mut Runtime<ShipCallbackEvent, R>, msg: Ship) -> (n: usize)
        ensures
            final(rt)@ == publish_spec(old(rt)@, self@, msg.0),
            n == alive_count(old(rt)@, self@),
    {
        self.notify(rt, msg.0)
    }
}

} // verus!
