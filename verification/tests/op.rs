use futures_lite::future::block_on;
use rillet_core::op::{Conclusion, Op, OpState, OpTable, Start};
use rillet_core::ops_cell::{ExpireStep, OpsCell};
use rillet_core::time::{earlier, Clock, Instant};

#[derive(Clone, Debug, PartialEq)]
enum Reason {
    Declined,
    TimedOut,
}

const ZERO: Instant = Instant { nanos: 0 };

fn now() -> Instant {
    Clock::new().now()
}

fn secs_later(at: Instant, secs: u64) -> Instant {
    Instant { nanos: at.nanos + secs * 1_000_000_000 }
}

#[test]
fn new_op_is_pending() {
    let mut ops = OpTable::<Reason>::new();
    let (op, _resolver) = Op::__rillet_pair(&mut ops, now(), None);
    assert!(op.state(&ops).is_pending());
}

#[test]
fn succeed_concludes_the_operation() {
    let mut ops = OpTable::<Reason>::new();
    let (op, resolver) = Op::__rillet_pair(&mut ops, now(), None);
    resolver.succeed(&mut ops, now());
    assert!(matches!(*op.state(&ops), OpState::Done { .. }));
}

#[test]
fn fail_records_the_reason() {
    let mut ops = OpTable::new();
    let (op, resolver) = Op::__rillet_pair(&mut ops, now(), None);
    resolver.fail(&mut ops, Reason::Declined, now());
    assert_eq!(op.state(&ops).failure(), Some(&Reason::Declined));
}

#[test]
fn dropped_resolver_concludes_as_lost() {
    let mut ops = OpTable::<Reason>::new();
    let (op, resolver) = Op::__rillet_pair(&mut ops, now(), None);
    resolver.lose(&mut ops, now());
    assert!(matches!(*op.state(&ops), OpState::Lost { .. }));
}

#[test]
fn resolution_is_visible_before_the_wake() {
    let mut ops = OpTable::<Reason>::new();
    let (op, resolver) = Op::__rillet_pair(&mut ops, now(), None);
    let listener = op.listen().into_inner();
    resolver.succeed(&mut ops, now());
    block_on(listener);
    assert!(op.state(&ops).is_terminal());
    assert!(op.feed().latest().is_terminal());
}

#[test]
fn cell_concludes_by_key_at_the_flush() {
    let mut ops = OpTable::new();
    let mut cell = OpsCell::<u32, Reason>::new();
    let (op, resolver) = cell.start(&mut ops, None);
    cell.insert(&mut ops, "send", 1u32, resolver, || Reason::TimedOut);

    cell.succeed("send", &1);
    assert!(op.state(&ops).is_pending());
    cell.flush_conclusions(&mut ops);
    assert!(matches!(*op.state(&ops), OpState::Done { .. }));

    // A late outcome finds nothing to conclude.
    cell.fail("send", &1, Reason::Declined);
    cell.flush_conclusions(&mut ops);
    assert!(matches!(*op.state(&ops), OpState::Done { .. }));
}

#[test]
fn an_op_carries_its_deadline_from_creation() {
    let deadline = secs_later(now(), 60);
    let mut ops = OpTable::<Reason>::new();
    let (op, resolver) = Op::__rillet_pair(&mut ops, now(), Some(deadline));
    assert!(
        matches!(*op.state(&ops), OpState::Pending { deadline: Some(at), .. } if at == deadline)
    );
    assert_eq!(resolver.deadline(&ops), Some(deadline));
}

#[test]
fn insert_displaces_a_parked_operation() {
    let mut ops = OpTable::new();
    let mut cell = OpsCell::<u32, Reason>::new();
    let (first, resolver) = cell.start(&mut ops, None);
    cell.insert(&mut ops, "send", 1u32, resolver, || Reason::TimedOut);
    let (second, resolver) = cell.start(&mut ops, None);
    cell.insert(&mut ops, "send", 1u32, resolver, || Reason::TimedOut);

    assert!(matches!(*first.state(&ops), OpState::Lost { .. }));
    assert!(second.state(&ops).is_pending());
}

#[test]
fn each_operation_times_out_with_its_own_reason() {
    let mut ops = OpTable::new();
    let mut cell = OpsCell::new();
    let now = now();
    let (first, resolver) = cell.start(&mut ops, Some(now));
    cell.insert(&mut ops, "send", 1u32, resolver, || Reason::Declined);
    let (second, resolver) = cell.start(&mut ops, Some(now));
    cell.insert(&mut ops, "send", 2u32, resolver, || Reason::TimedOut);

    cell.expire(&mut ops, now);
    assert_eq!(first.state(&ops).failure(), Some(&Reason::Declined));
    assert_eq!(second.state(&ops).failure(), Some(&Reason::TimedOut));
}

#[test]
fn timeout_reason_is_unevaluated_without_a_deadline() {
    let mut ops = OpTable::new();
    let mut cell = OpsCell::<u32, Reason>::new();
    let (op, resolver) = cell.start(&mut ops, None);
    cell.insert(&mut ops, "send", 1u32, resolver, || unreachable!());
    assert!(op.state(&ops).is_pending());
}

#[test]
fn close_concludes_parked_operations_as_lost() {
    let mut ops = OpTable::new();
    let mut cell = OpsCell::<u32, Reason>::new();
    let (op, resolver) = cell.start(&mut ops, None);
    cell.insert(&mut ops, "send", 1u32, resolver, || Reason::TimedOut);
    cell.close(&mut ops);
    assert!(matches!(*op.state(&ops), OpState::Lost { .. }));
}

#[test]
fn insert_into_a_closed_cell_concludes_as_lost() {
    let mut ops = OpTable::new();
    let mut cell = OpsCell::<u32, Reason>::new();
    cell.close(&mut ops);
    let (op, resolver) = cell.start(&mut ops, None);
    cell.insert(&mut ops, "send", 1u32, resolver, || Reason::TimedOut);
    assert!(matches!(*op.state(&ops), OpState::Lost { .. }));
}

#[test]
fn expire_fails_only_operations_past_their_deadline() {
    let mut ops = OpTable::new();
    let mut cell = OpsCell::<u32, Reason>::new();
    let now = now();
    let (due, resolver) = cell.start(&mut ops, Some(now));
    cell.insert(&mut ops, "send", 1u32, resolver, || Reason::TimedOut);
    let (later, resolver) = cell.start(&mut ops, Some(secs_later(now, 60)));
    cell.insert(&mut ops, "send", 2u32, resolver, || Reason::TimedOut);
    let (forever, resolver) = cell.start(&mut ops, None);
    cell.insert(&mut ops, "send", 3u32, resolver, || Reason::TimedOut);

    cell.expire(&mut ops, now);
    assert_eq!(due.state(&ops).failure(), Some(&Reason::TimedOut));
    assert!(later.state(&ops).is_pending());
    assert!(forever.state(&ops).is_pending());
    assert_eq!(cell.next_deadline(), Some(secs_later(now, 60)));
}

#[test]
fn a_state_is_pending_or_terminal() {
    let pending = OpState::<Reason>::Pending { since: ZERO, deadline: None };
    assert!(pending.is_pending() && !pending.is_terminal());
    assert_eq!(pending.failure(), None);
    let done = OpState::<Reason>::Done { at: ZERO };
    assert!(done.is_terminal());
    assert_eq!(done.failure(), None);
    let lost = OpState::<Reason>::Lost { at: ZERO };
    assert!(lost.is_terminal());
    let failed = OpState::Failed { reason: Reason::Declined, at: ZERO };
    assert_eq!(failed.failure(), Some(&Reason::Declined));
}

#[test]
fn outcomes_appear_once_concluded() {
    let mut ops = OpTable::<Reason>::new();
    let (op, resolver) = Op::__rillet_pair(&mut ops, ZERO, None);
    let follower = op.share();
    assert!(op.outcome(&ops).is_none());
    resolver.succeed(&mut ops, Instant { nanos: 9 });
    assert_eq!(*follower.outcome(&ops).unwrap(), OpState::Done { at: Instant { nanos: 9 } });
}

#[test]
fn operations_of_one_table_are_told_apart() {
    let mut ops = OpTable::<Reason>::new();
    let (first, _keep) = Op::__rillet_pair(&mut ops, ZERO, None);
    let (second, resolver) = Op::__rillet_pair(&mut ops, ZERO, None);
    resolver.fail(&mut ops, Reason::Declined, ZERO);
    assert!(first.state(&ops).is_pending());
    assert!(second.state(&ops).is_terminal());
}

#[test]
fn conclusions_of_every_kind_are_applied_in_order() {
    let mut ops = OpTable::<Reason>::new();
    let (a, ra) = Op::__rillet_pair(&mut ops, ZERO, None);
    let (b, rb) = Op::__rillet_pair(&mut ops, ZERO, None);
    let (c, rc) = Op::__rillet_pair(&mut ops, ZERO, None);
    ops.conclude_all(
        &Clock::new(),
        vec![
            Conclusion::Succeed { resolver: ra },
            Conclusion::Fail { resolver: rb, reason: Reason::Declined },
            Conclusion::Lose { resolver: rc },
        ],
    );
    assert!(matches!(*a.state(&ops), OpState::Done { .. }));
    assert_eq!(b.state(&ops).failure(), Some(&Reason::Declined));
    assert!(matches!(*c.state(&ops), OpState::Lost { .. }));
}

#[test]
fn released_operations_are_forgotten_once_concluded() {
    let mut ops = OpTable::new();
    let mut cell = OpsCell::<u32, Reason>::new();
    let (op, resolver) = cell.start(&mut ops, None);
    ops.release(op.share());
    assert!(op.state(&ops).is_pending());
    cell.queue_conclusion(Conclusion::Succeed { resolver });
    cell.flush_conclusions(&mut ops);
    ops.release(op.share());
    // The feed still holds what the table has forgotten.
    assert!(op.feed().latest().is_terminal());
}

#[test]
fn op_methods_have_keys_of_their_own() {
    let mut ops = OpTable::new();
    let mut cell = OpsCell::<u32, Reason>::new();
    let (sent, resolver) = cell.start(&mut ops, None);
    cell.insert(&mut ops, "send", 1u32, resolver, || Reason::TimedOut);
    let (fetched, resolver) = cell.start(&mut ops, None);
    cell.insert(&mut ops, "fetch", 1u32, resolver, || Reason::TimedOut);

    cell.fail("fetch", &1, Reason::Declined);
    cell.succeed("other", &1);
    cell.flush_conclusions(&mut ops);
    assert!(sent.state(&ops).is_pending());
    assert_eq!(fetched.state(&ops).failure(), Some(&Reason::Declined));
}

#[test]
fn the_earliest_deadline_of_all_op_methods_is_next() {
    let mut ops = OpTable::new();
    let mut cell = OpsCell::<u32, Reason>::new();
    assert_eq!(cell.next_deadline(), None);
    for (op, key, nanos) in [("send", 1u32, 30), ("send", 2, 20), ("fetch", 1, 25)] {
        let (_op, resolver) = cell.start(&mut ops, Some(Instant { nanos }));
        cell.insert(&mut ops, op, key, resolver, || Reason::TimedOut);
    }
    assert_eq!(cell.next_deadline(), Some(Instant { nanos: 20 }));
    cell.expire(&mut ops, Instant { nanos: 20 });
    assert_eq!(cell.next_deadline(), Some(Instant { nanos: 25 }));
}

#[test]
fn the_earlier_instant_counts() {
    let (one, two) = (Some(Instant { nanos: 1 }), Some(Instant { nanos: 2 }));
    assert_eq!(earlier(one, two), one);
    assert_eq!(earlier(two, one), one);
    assert_eq!(earlier(None, two), two);
    assert_eq!(earlier(one, None), one);
    assert_eq!(earlier(None, None), None);
}

#[test]
fn the_expiry_loop_waits_expires_and_stops() {
    let mut ops = OpTable::new();
    let mut cell = OpsCell::<u32, Reason>::new();
    let due = Instant { nanos: 5 };
    let (op, resolver) = cell.start(&mut ops, Some(due));
    let listener = cell.listen().into_inner();
    cell.insert(&mut ops, "send", 1u32, resolver, || Reason::TimedOut);
    // Parking an operation with a deadline wakes the loop.
    block_on(listener);

    assert!(matches!(cell.expire_wait(false), ExpireStep::Wait { until: Some(at) } if at == due));
    assert!(!cell.expire_woken(&mut ops, true, due));
    assert!(op.state(&ops).is_pending());
    assert!(cell.expire_woken(&mut ops, false, due));
    assert_eq!(op.state(&ops).failure(), Some(&Reason::TimedOut));
    assert!(matches!(cell.expire_wait(false), ExpireStep::Wait { until: None }));
    assert!(matches!(cell.expire_wait(true), ExpireStep::Stop));
}

#[test]
fn a_start_carries_its_key_and_deadline() {
    let (key, deadline) = Start::<u32, Reason>::new(7).__rillet_parts();
    assert_eq!((key, deadline), (7, None));
    let at = Instant { nanos: 60 };
    let (key, deadline) = Start::<u32, Reason>::new(7).deadline(at).__rillet_parts();
    assert_eq!((key, deadline), (7, Some(at)));
}

#[derive(Clone, Debug, PartialEq)]
enum Failure {
    Refused,
    TimedOut,
}

#[test]
fn deferred_op_concludes_when_the_outcome_arrives() {
    let mut ops = OpTable::new();
    let mut cell = OpsCell::<u32, Failure>::new();
    let far = secs_later(now(), 60);
    let (delivered, resolver) = cell.start(&mut ops, Some(far));
    cell.insert(&mut ops, "send", 1u32, resolver, || Failure::TimedOut);
    let (refused, resolver) = cell.start(&mut ops, Some(far));
    cell.insert(&mut ops, "send", 2u32, resolver, || Failure::TimedOut);

    cell.succeed("send", &1);
    cell.fail("send", &2, Failure::Refused);
    cell.flush_conclusions(&mut ops);

    assert!(matches!(*delivered.state(&ops), OpState::Done { .. }));
    assert_eq!(refused.state(&ops).failure(), Some(&Failure::Refused));
}

#[test]
fn late_receipt_after_expiry_is_a_no_op() {
    let mut ops = OpTable::new();
    let mut cell = OpsCell::<u32, Failure>::new();
    let deadline = now();
    let (op, resolver) = cell.start(&mut ops, Some(deadline));
    cell.insert(&mut ops, "send", 1u32, resolver, || Failure::TimedOut);
    cell.expire(&mut ops, deadline);

    cell.succeed("send", &1);
    cell.flush_conclusions(&mut ops);
    assert_eq!(op.state(&ops).failure(), Some(&Failure::TimedOut));
}

#[derive(Clone, Debug, PartialEq)]
enum Rejected {
    Odd,
}

/// What the handler of an immediate op returns.
fn submit(item: u32) -> Result<(), Rejected> {
    if item % 2 == 0 {
        Ok(())
    } else {
        Err(Rejected::Odd)
    }
}

/// Runs an immediate op to its conclusion.
fn run_immediate(item: u32) -> OpState<Rejected> {
    let mut ops = OpTable::new();
    let mut cell = OpsCell::<u32, Rejected>::new();
    let (op, resolver) = cell.start(&mut ops, None);
    cell.queue_conclusion(match submit(item) {
        Ok(()) => Conclusion::Succeed { resolver },
        Err(reason) => Conclusion::Fail { resolver, reason },
    });
    assert!(op.state(&ops).is_pending());
    cell.flush_conclusions(&mut ops);
    (*op.state(&ops)).clone()
}

#[test]
fn immediate_op_succeeds() {
    assert!(matches!(run_immediate(2), OpState::Done { .. }));
}

#[test]
fn immediate_op_fails_with_the_returned_reason() {
    assert_eq!(run_immediate(3).failure(), Some(&Rejected::Odd));
}

#[test]
fn deferred_op_carries_its_deadline() {
    let mut ops = OpTable::new();
    let mut cell = OpsCell::<u32, Failure>::new();
    let deadline = secs_later(now(), 60);
    let (key, at) = Start::<u32, Failure>::new(1).deadline(deadline).__rillet_parts();
    let (op, resolver) = cell.start(&mut ops, at);
    cell.insert(&mut ops, "send", key, resolver, || Failure::TimedOut);
    assert!(
        matches!(*op.state(&ops), OpState::Pending { deadline: Some(at), .. } if at == deadline)
    );
}

#[test]
fn deferred_op_times_out() {
    let mut ops = OpTable::new();
    let mut cell = OpsCell::<u32, Failure>::new();
    let deadline = now();
    let (op, resolver) = cell.start(&mut ops, Some(deadline));
    cell.insert(&mut ops, "send", 1u32, resolver, || Failure::TimedOut);
    cell.expire(&mut ops, deadline);
    assert_eq!(op.state(&ops).failure(), Some(&Failure::TimedOut));
}

#[test]
fn op_sent_to_a_cancelled_service_is_lost() {
    let mut ops = OpTable::new();
    let mut cell = OpsCell::<u32, Rejected>::new();
    let (op, resolver) = cell.start(&mut ops, None);
    // The command is dropped on the way, and its resolver with it.
    cell.queue_conclusion(Conclusion::Lose { resolver });
    cell.flush_conclusions(&mut ops);
    assert!(matches!(*op.state(&ops), OpState::Lost { .. }));
}

#[test]
fn cells_share_a_table_without_disturbing_each_other() {
    let mut ops = OpTable::new();
    let mut sends = OpsCell::<u32, Reason>::new();
    let mut fetches = OpsCell::<u64, Reason>::new();
    let (sent, resolver) = Op::__rillet_pair(&mut ops, now(), None);
    sends.insert(&mut ops, "send", 1, resolver, || Reason::TimedOut);
    let (fetched, resolver) = Op::__rillet_pair(&mut ops, now(), None);
    fetches.insert(&mut ops, "fetch", 1, resolver, || Reason::TimedOut);

    fetches.close(&mut ops);
    assert!(matches!(*fetched.state(&ops), OpState::Lost { .. }));
    assert!(sent.state(&ops).is_pending());
    sends.succeed("send", &1);
    sends.flush_conclusions(&mut ops);
    assert!(matches!(*sent.state(&ops), OpState::Done { .. }));
}

#[test]
fn queued_conclusions_are_applied_once_in_order() {
    let mut ops = OpTable::new();
    let mut cell = OpsCell::<u32, Reason>::new();
    let mut started = Vec::new();
    for key in 0..3u32 {
        let (op, resolver) = cell.start(&mut ops, None);
        cell.insert(&mut ops, "send", key, resolver, || Reason::TimedOut);
        started.push(op);
    }
    for key in [2u32, 0, 1] {
        cell.succeed("send", &key);
    }
    cell.flush_conclusions(&mut ops);
    let at = |op: &Op<Reason>| match *op.state(&ops) {
        OpState::Done { at } => at,
        _ => unreachable!(),
    };
    assert!(at(&started[2]) <= at(&started[0]) && at(&started[0]) <= at(&started[1]));
    let before: Vec<_> = started.iter().map(|op| op.state(&ops)).collect();
    cell.flush_conclusions(&mut ops);
    let after: Vec<_> = started.iter().map(|op| op.state(&ops)).collect();
    assert_eq!(before, after);
}
