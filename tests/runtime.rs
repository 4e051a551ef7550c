use actor_core::error::{DeliveryError, MailboxError, SlotError};
use actor_core::runtime::{Addr, AskId, Lifecycle, Runtime};

fn running(rt: &mut Runtime<u32, u32>) -> Addr {
    let a = rt.start();
    assert!(rt.mark_running(a));
    a
}

fn next_msg(rt: &mut Runtime<u32, u32>, a: Addr) -> Option<(u32, Option<AskId>)> {
    rt.next_message(a).map(|e| (e.msg, e.reply_to))
}

#[test]
fn start_gives_fresh_addresses_in_starting_state() {
    let mut rt: Runtime<u32, u32> = Runtime::new();
    let a = rt.start();
    let b = rt.start();
    assert_eq!(a, Addr { id: 0 });
    assert_eq!(b, Addr { id: 1 });
    assert_eq!(rt.lifecycle(a), Some(Lifecycle::Starting));
    assert_eq!(rt.lifecycle(Addr { id: 7 }), None);
    assert!(rt.mark_running(a));
    assert_eq!(rt.lifecycle(a), Some(Lifecycle::Running));
    assert!(!rt.mark_running(a));
}

#[test]
fn mail_waits_until_the_start_hook_ran() {
    let mut rt: Runtime<u32, u32> = Runtime::new();
    let a = rt.start();
    assert_eq!(rt.send(a, 5), Ok(()));
    assert_eq!(rt.pending_len(a), 1);
    assert!(next_msg(&mut rt, a).is_none());
    rt.mark_running(a);
    assert_eq!(next_msg(&mut rt, a), Some((5, None)));
}

#[test]
fn sends_are_delivered_in_fifo_order() {
    let mut rt: Runtime<u32, u32> = Runtime::new();
    let a = running(&mut rt);
    for m in [3u32, 1, 4, 1, 5, 9, 2, 6] {
        assert_eq!(rt.send(a, m), Ok(()));
    }
    let mut got = Vec::new();
    while let Some((m, tx)) = next_msg(&mut rt, a) {
        assert!(tx.is_none());
        got.push(m);
    }
    assert_eq!(got, vec![3, 1, 4, 1, 5, 9, 2, 6]);
    assert_eq!(rt.pending_len(a), 0);
}

#[test]
fn mailboxes_of_different_actors_are_separate() {
    let mut rt: Runtime<u32, u32> = Runtime::new();
    let a = running(&mut rt);
    let b = running(&mut rt);
    rt.send(a, 1).unwrap();
    rt.send(b, 2).unwrap();
    rt.send(a, 3).unwrap();
    assert_eq!(next_msg(&mut rt, b), Some((2, None)));
    assert_eq!(next_msg(&mut rt, b), None);
    assert_eq!(next_msg(&mut rt, a), Some((1, None)));
    assert_eq!(next_msg(&mut rt, a), Some((3, None)));
}

#[test]
fn send_to_unknown_address_is_closed() {
    let mut rt: Runtime<u32, u32> = Runtime::new();
    assert_eq!(rt.send(Addr { id: 0 }, 1), Err(MailboxError::MailboxClosed));
    assert_eq!(rt.ask(Addr { id: 3 }, 1), Err(MailboxError::MailboxClosed));
}

#[test]
fn ask_resolves_once_to_the_reply() {
    let mut rt: Runtime<u32, u32> = Runtime::new();
    let a = running(&mut rt);
    let k = rt.ask(a, 10).unwrap();
    assert_eq!(k, AskId { id: 0 });
    assert_eq!(rt.poll(k), None);
    let (m, tx) = next_msg(&mut rt, a).unwrap();
    assert_eq!(m, 10);
    assert_eq!(tx, Some(k));
    assert_eq!(rt.reply(k, m * 2), Ok(()));
    assert_eq!(rt.reply(k, 99), Err(SlotError::AlreadyResolved));
    assert_eq!(rt.poll(k), Some(Ok(20)));
    assert_eq!(rt.poll(k), None);
    assert_eq!(rt.reply(k, 1), Err(SlotError::AlreadyResolved));
}

#[test]
fn reply_to_unknown_ask_is_refused() {
    let mut rt: Runtime<u32, u32> = Runtime::new();
    assert_eq!(rt.reply(AskId { id: 0 }, 1), Err(SlotError::UnknownAsk));
    assert_eq!(rt.poll(AskId { id: 0 }), None);
}

#[test]
fn replies_follow_their_own_asks() {
    let mut rt: Runtime<u32, u32> = Runtime::new();
    let a = running(&mut rt);
    let k1 = rt.ask(a, 1).unwrap();
    let k2 = rt.ask(a, 2).unwrap();
    while let Some((m, tx)) = next_msg(&mut rt, a) {
        rt.reply(tx.unwrap(), m + 100).unwrap();
    }
    assert_eq!(rt.poll(k2), Some(Ok(102)));
    assert_eq!(rt.poll(k1), Some(Ok(101)));
}

#[test]
fn stopped_actor_refuses_mail() {
    let mut rt: Runtime<u32, u32> = Runtime::new();
    let a = running(&mut rt);
    assert!(rt.stop(a));
    assert_eq!(rt.lifecycle(a), Some(Lifecycle::Stopping));
    assert_eq!(rt.send(a, 1), Err(MailboxError::MailboxClosed));
    assert_eq!(rt.ask(a, 1), Err(MailboxError::MailboxClosed));
    assert!(!rt.stop(a));
    assert!(rt.finish_stop(a));
    assert_eq!(rt.lifecycle(a), Some(Lifecycle::Stopped));
    assert_eq!(rt.send(a, 1), Err(MailboxError::MailboxClosed));
    assert_eq!(rt.ask(a, 1), Err(MailboxError::MailboxClosed));
    assert!(!rt.mark_running(a));
}

#[test]
fn stop_drains_then_cancels_unanswered_asks() {
    let mut rt: Runtime<u32, u32> = Runtime::new();
    let a = running(&mut rt);
    let answered = rt.ask(a, 1).unwrap();
    let dropped = rt.ask(a, 2).unwrap();
    rt.send(a, 3).unwrap();
    rt.stop(a);
    assert!(!rt.finish_stop(a));
    assert_eq!(next_msg(&mut rt, a), Some((1, Some(answered))));
    rt.reply(answered, 11).unwrap();
    assert_eq!(next_msg(&mut rt, a), Some((2, Some(dropped))));
    assert_eq!(next_msg(&mut rt, a), Some((3, None)));
    assert_eq!(rt.poll(dropped), None);
    assert!(rt.finish_stop(a));
    assert_eq!(rt.poll(answered), Some(Ok(11)));
    assert_eq!(rt.poll(dropped), Some(Err(DeliveryError::Cancelled)));
    assert_eq!(rt.poll(dropped), None);
    assert_eq!(rt.reply(dropped, 5), Err(SlotError::AlreadyResolved));
}

#[test]
fn stop_cancels_only_the_stopped_actors_asks() {
    let mut rt: Runtime<u32, u32> = Runtime::new();
    let a = running(&mut rt);
    let b = running(&mut rt);
    let ka = rt.ask(a, 1).unwrap();
    let kb = rt.ask(b, 2).unwrap();
    rt.stop(a);
    next_msg(&mut rt, a);
    rt.finish_stop(a);
    assert_eq!(rt.poll(ka), Some(Err(DeliveryError::Cancelled)));
    assert_eq!(rt.poll(kb), None);
    assert_eq!(rt.send(b, 3), Ok(()));
}

#[test]
fn failed_actor_drops_mail_and_cancels_asks() {
    let mut rt: Runtime<u32, u32> = Runtime::new();
    let a = running(&mut rt);
    let k = rt.ask(a, 1).unwrap();
    rt.send(a, 2).unwrap();
    assert!(rt.fail(a));
    assert_eq!(rt.lifecycle(a), Some(Lifecycle::Stopped));
    assert_eq!(rt.pending_len(a), 0);
    assert_eq!(rt.poll(k), Some(Err(DeliveryError::Cancelled)));
    assert_eq!(rt.send(a, 3), Err(MailboxError::MailboxClosed));
    assert!(!rt.fail(a));
}

#[test]
fn shutdown_stops_every_live_actor() {
    let mut rt: Runtime<u32, u32> = Runtime::new();
    let a = running(&mut rt);
    let b = rt.start();
    let c = running(&mut rt);
    rt.stop(c);
    rt.finish_stop(c);
    rt.send(a, 1).unwrap();
    assert!(!rt.is_quiescent());
    rt.shutdown();
    assert_eq!(rt.lifecycle(a), Some(Lifecycle::Stopping));
    assert_eq!(rt.lifecycle(b), Some(Lifecycle::Stopping));
    assert_eq!(rt.lifecycle(c), Some(Lifecycle::Stopped));
    assert_eq!(rt.send(b, 1), Err(MailboxError::MailboxClosed));
    assert_eq!(next_msg(&mut rt, a), Some((1, None)));
    assert!(rt.is_quiescent());
}
