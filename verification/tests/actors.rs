use ypf_ruta::actors::account::AccountActor;
use ypf_ruta::actors::card::CardActor;
use ypf_ruta::actors::account::AccountOutput;
use ypf_ruta::actors::card::CardOutput;
use ypf_ruta::actors::messages::{
    AccountChargeReply, AccountMsg, ActorEvent, CardMsg, RouterCmd, RouterInternalMsg,
};
use ypf_ruta::actors::actor_router::ActorRouter;
use ypf_ruta::database::{Database, DatabaseCmd};
use ypf_ruta::errors::{LimitCheckError, LimitUpdateError, VerifyError};
use ypf_ruta::operation::{ChargeResult, LimitResult, Operation, OperationResult};

/// Amounts are kept in hundredths: 50.0 is 5000.
fn make_test_account(limit: Option<i64>, consumed: i64) -> AccountActor {
    AccountActor { account_id: 1, account_limit: limit, account_consumed: consumed, pending_query: None }
}

fn make_test_card() -> CardActor {
    CardActor::new(10, 1)
}

#[test]
fn default_account_has_no_limit_and_zero_consumption() {
    let acc = AccountActor::new(42);

    assert_eq!(acc.account_id, 42);
    assert!(acc.account_limit.is_none());
    assert_eq!(acc.account_consumed, 0);

    assert!(acc.check_account_limit(1000).is_ok());
    assert!(acc.check_account_limit(1_000_000).is_ok());
}

#[test]
fn limited_account_blocks_above_limit() {
    let acc = make_test_account(Some(5000), 2000);

    assert!(acc.check_account_limit(3000).is_ok());

    let err = acc.check_account_limit(3100).unwrap_err();
    assert!(matches!(err, LimitCheckError::AccountLimitExceeded));
}

#[test]
fn none_limit_allows_any_amount() {
    let acc = make_test_account(None, 10000);

    assert!(acc.check_account_limit(100).is_ok());
    assert!(acc.check_account_limit(1_000_000).is_ok());
}

#[test]
fn can_raise_limit_respects_current_consumption() {
    let already_consumed = 3000;

    let res_ok = AccountActor::can_raise_limit(Some(5000), already_consumed);
    assert!(res_ok.is_ok());

    let err = AccountActor::can_raise_limit(Some(1000), already_consumed).unwrap_err();
    assert!(matches!(err, LimitUpdateError::BelowCurrentUsage));

    let res_none = AccountActor::can_raise_limit(None, already_consumed);
    assert!(res_none.is_ok());
}

#[test]
fn account_consumed_field_accumulates() {
    let mut acc = make_test_account(None, 0);
    assert_eq!(acc.account_consumed, 0);

    acc.account_consumed += 1000;
    assert_eq!(acc.account_consumed, 1000);

    acc.account_consumed += 550;
    assert_eq!(acc.account_consumed, 1550);
}

#[test]
fn default_card_has_no_limit_and_allows_large_charges() {
    let card = make_test_card();

    assert!(card.check_charge_limit(1000).is_ok());
    assert!(card.check_charge_limit(100_000_000).is_ok());
}

#[test]
fn cannot_set_limit_below_current_consumption() {
    let mut card = make_test_card();

    card.consumed = 3000;

    let res_bad = card.can_set_new_limit(Some(1000));
    assert!(matches!(res_bad, Err(LimitUpdateError::BelowCurrentUsage)));

    let res_ok = card.can_set_new_limit(Some(5000));
    assert!(res_ok.is_ok());

    let res_none = card.can_set_new_limit(None);
    assert!(res_none.is_ok());
}

#[test]
fn consumed_field_reflects_updates() {
    let mut card = make_test_card();

    assert_eq!(card.consumed, 0);

    card.consumed = 1500;
    assert_eq!(card.consumed, 1500);

    card.consumed = 4250;
    assert_eq!(card.consumed, 4250);
}

fn charge(account_id: u64, card_id: u64, amount: i64, offline: bool) -> Operation {
    Operation::Charge { account_id, card_id, amount, from_offline_station: offline }
}

fn charge_result(ev: &ActorEvent) -> ChargeResult {
    match ev {
        ActorEvent::OperationResult { result: OperationResult::Charge(c), .. } => *c,
        other => panic!("unexpected event {:?}", other),
    }
}

#[test]
fn charge_within_limits_is_accepted_and_counted() {
    let mut router = ActorRouter::new();
    let ev = router.handle(RouterCmd::Execute { op_id: 1, operation: charge(1, 10, 5000, false) });
    assert_eq!(charge_result(&ev), ChargeResult::Accepted);
    let ev = router.handle(RouterCmd::Execute {
        op_id: 2,
        operation: Operation::AccountQuery { account_id: 1 },
    });
    match ev {
        ActorEvent::OperationResult { result: OperationResult::AccountQuery(q), .. } => {
            assert_eq!(q.total_spent, 5000);
            assert_eq!(q.per_card_spent, vec![(10, 5000)]);
        }
        other => panic!("unexpected event {:?}", other),
    }
}

#[test]
fn card_limit_is_checked_before_account_limit() {
    let mut router = ActorRouter::new();
    router.handle(RouterCmd::Execute {
        op_id: 1,
        operation: Operation::LimitAccount { account_id: 1, new_limit: Some(1000) },
    });
    router.handle(RouterCmd::Execute {
        op_id: 2,
        operation: Operation::LimitCard { account_id: 1, card_id: 10, new_limit: Some(500) },
    });
    let ev = router.handle(RouterCmd::Execute { op_id: 3, operation: charge(1, 10, 2000, false) });
    assert_eq!(
        charge_result(&ev),
        ChargeResult::Failed(VerifyError::ChargeLimit(LimitCheckError::CardLimitExceeded))
    );
}

#[test]
fn account_limit_refuses_a_charge_that_fits_the_card() {
    let mut router = ActorRouter::new();
    router.handle(RouterCmd::Execute {
        op_id: 1,
        operation: Operation::LimitAccount { account_id: 1, new_limit: Some(8000) },
    });
    let ev = router.handle(RouterCmd::Execute { op_id: 2, operation: charge(1, 10, 8001, false) });
    assert_eq!(
        charge_result(&ev),
        ChargeResult::Failed(VerifyError::ChargeLimit(LimitCheckError::AccountLimitExceeded))
    );
}

#[test]
fn offline_charge_skips_the_limits() {
    let mut router = ActorRouter::new();
    router.handle(RouterCmd::Execute {
        op_id: 1,
        operation: Operation::LimitAccount { account_id: 1, new_limit: Some(100) },
    });
    let ev = router.handle(RouterCmd::Execute { op_id: 2, operation: charge(1, 10, 9999, true) });
    assert_eq!(charge_result(&ev), ChargeResult::Accepted);
}

#[test]
fn lowering_a_limit_below_consumption_fails() {
    let mut router = ActorRouter::new();
    router.handle(RouterCmd::Execute { op_id: 1, operation: charge(1, 10, 3000, false) });
    let ev = router.handle(RouterCmd::Execute {
        op_id: 2,
        operation: Operation::LimitAccount { account_id: 1, new_limit: Some(1000) },
    });
    match ev {
        ActorEvent::OperationResult { result: OperationResult::LimitAccount(r), success, .. } => {
            assert_eq!(r, LimitResult::Failed(VerifyError::LimitUpdate(LimitUpdateError::BelowCurrentUsage)));
            assert!(!success);
        }
        other => panic!("unexpected event {:?}", other),
    }
}

#[test]
fn bill_reports_then_clears_the_account() {
    let mut router = ActorRouter::new();
    router.handle(RouterCmd::Execute { op_id: 1, operation: charge(1, 10, 3000, false) });
    router.handle(RouterCmd::Execute { op_id: 2, operation: charge(1, 20, 2000, false) });
    let ev = router.handle(RouterCmd::Execute {
        op_id: 3,
        operation: Operation::Bill { account_id: 1, period: Some("2024-05".to_string()) },
    });
    match ev {
        ActorEvent::OperationResult { result: OperationResult::AccountQuery(q), .. } => {
            assert_eq!(q.total_spent, 5000);
        }
        other => panic!("unexpected event {:?}", other),
    }
    let ev = router.handle(RouterCmd::Execute {
        op_id: 4,
        operation: Operation::AccountQuery { account_id: 1 },
    });
    match ev {
        ActorEvent::OperationResult { result: OperationResult::AccountQuery(q), .. } => {
            assert_eq!(q.total_spent, 0);
            assert_eq!(q.per_card_spent, vec![(10, 0), (20, 0)]);
        }
        other => panic!("unexpected event {:?}", other),
    }
}

#[test]
fn snapshot_restores_into_another_database() {
    let mut a = Database::start();
    a.send(DatabaseCmd::Execute { op_id: 1, operation: charge(1, 10, 700, false) });
    a.send(DatabaseCmd::Execute {
        op_id: 2,
        operation: Operation::LimitCard { account_id: 1, card_id: 10, new_limit: Some(900) },
    });
    a.recv();
    a.recv();
    a.send(DatabaseCmd::Execute {
        op_id: 0,
        operation: Operation::GetDatabase { addr: ypf_ruta::address::NodeAddr::v4(127, 0, 0, 1, 1) },
    });
    let snapshot = match a.recv() {
        Some(ActorEvent::OperationResult { result: OperationResult::DatabaseSnapshot(s), .. }) => s,
        other => panic!("unexpected event {:?}", other),
    };
    assert_eq!(snapshot.accounts.len(), 1);
    assert_eq!(snapshot.cards.len(), 1);
    let mut b = Database::start();
    b.send(DatabaseCmd::Execute { op_id: 0, operation: Operation::ReplaceDatabase { snapshot } });
    b.recv();
    b.send(DatabaseCmd::Execute { op_id: 5, operation: charge(1, 10, 300, false) });
    match b.recv() {
        Some(ev) => assert_eq!(
            charge_result(&ev),
            ChargeResult::Failed(VerifyError::ChargeLimit(LimitCheckError::CardLimitExceeded))
        ),
        None => panic!("no event"),
    }
}

#[test]
fn router_log_counts_actors() {
    let mut router = ActorRouter::new();
    router.handle(RouterCmd::Execute { op_id: 1, operation: charge(1, 10, 1, false) });
    router.handle(RouterCmd::Execute { op_id: 2, operation: charge(1, 11, 1, false) });
    match router.handle(RouterCmd::GetLog) {
        ActorEvent::Log { accounts, cards } => {
            assert_eq!(accounts, 1);
            assert_eq!(cards, 2);
        }
        other => panic!("unexpected event {:?}", other),
    }
}

#[test]
fn checked_charges_never_pass_a_limit() {
    let mut router = ActorRouter::new();
    router.handle(RouterCmd::Execute {
        op_id: 1,
        operation: Operation::LimitCard { account_id: 1, card_id: 10, new_limit: Some(1000) },
    });
    let first = router.handle(RouterCmd::Execute { op_id: 2, operation: charge(1, 10, 600, false) });
    assert_eq!(charge_result(&first), ChargeResult::Accepted);
    let second = router.handle(RouterCmd::Execute { op_id: 3, operation: charge(1, 10, 600, false) });
    assert_eq!(
        charge_result(&second),
        ChargeResult::Failed(VerifyError::ChargeLimit(LimitCheckError::CardLimitExceeded))
    );
    let third = router.handle(RouterCmd::Execute { op_id: 4, operation: charge(1, 10, 400, false) });
    assert_eq!(charge_result(&third), ChargeResult::Accepted);
    match router.handle(RouterCmd::Execute { op_id: 5, operation: Operation::AccountQuery { account_id: 1 } }) {
        ActorEvent::OperationResult { result: OperationResult::AccountQuery(q), .. } => {
            assert_eq!(q.per_card_spent, vec![(10, 1000)]);
        }
        other => panic!("unexpected event {:?}", other),
    }
}

#[test]
fn account_query_is_answered_after_the_last_report() {
    let mut acc = make_test_account(None, 900);
    assert!(acc.handle(AccountMsg::StartAccountQuery { op_id: 4, num_cards: 3 }).is_empty());
    assert!(acc.handle(AccountMsg::CardQueryReply { op_id: 4, card_id: 10, consumed: 100 }).is_empty());
    assert!(acc.handle(AccountMsg::CardQueryReply { op_id: 4, card_id: 11, consumed: 300 }).is_empty());
    let outs = acc.handle(AccountMsg::CardQueryReply { op_id: 4, card_id: 12, consumed: 500 });
    match &outs[..] {
        [AccountOutput::ToRouter(RouterInternalMsg::AccountQueryCompleted { op_id, account_id, total_spent, per_card_spent })] => {
            assert_eq!((*op_id, *account_id, *total_spent), (4, 1, 900));
            assert_eq!(per_card_spent, &vec![(10, 100), (11, 300), (12, 500)]);
        }
        other => panic!("unexpected outputs {:?}", other),
    }
    assert!(acc.pending_query.is_none());
    assert_eq!(acc.account_consumed, 900);
}

#[test]
fn account_bill_clears_the_consumption_after_the_last_report() {
    let mut acc = make_test_account(Some(5000), 400);
    assert!(acc.handle(AccountMsg::StartAccountBill { op_id: 8, num_cards: 2 }).is_empty());
    assert!(acc.handle(AccountMsg::CardQueryReply { op_id: 8, card_id: 10, consumed: 150 }).is_empty());
    assert_eq!(acc.account_consumed, 400);
    let outs = acc.handle(AccountMsg::CardQueryReply { op_id: 8, card_id: 11, consumed: 250 });
    assert_eq!(outs.len(), 1);
    assert!(matches!(
        &outs[0],
        AccountOutput::ToRouter(RouterInternalMsg::AccountQueryCompleted { op_id: 8, total_spent: 400, .. })
    ));
    assert_eq!(acc.account_consumed, 0);
    assert_eq!(acc.account_limit, Some(5000));
}

fn completed_ids(outs: &[CardOutput]) -> Vec<u32> {
    outs.iter()
        .filter_map(|o| match o {
            CardOutput::ToRouter(RouterInternalMsg::OperationCompleted { op_id, .. }) => Some(*op_id),
            _ => None,
        })
        .collect()
}

#[test]
fn card_completes_its_tasks_in_arrival_order() {
    let mut card = make_test_card();
    let mut done = Vec::new();
    let charge = |op_id: u32| CardMsg::ExecuteCharge {
        op_id,
        account_id: 1,
        card_id: 10,
        amount: 100,
        from_offline_station: false,
    };
    // the first charge waits for the account; the others queue behind it
    let outs = card.handle(charge(1));
    assert!(matches!(&outs[..], [CardOutput::ToAccount(AccountMsg::ApplyChargeFromCard { op_id: 1, .. })]));
    done.extend(completed_ids(&card.handle(CardMsg::ExecuteLimitChange { op_id: 2, new_limit: Some(50) })));
    done.extend(completed_ids(&card.handle(charge(3))));
    assert!(done.is_empty());
    assert_eq!(card.queue.len(), 2);
    // the account accepts charge 1: the limit change is refused (below usage), charge 3 starts
    let outs = card.handle_account_reply(AccountChargeReply { op_id: 1, success: true, error: None });
    done.extend(completed_ids(&outs));
    assert!(matches!(outs.last(), Some(CardOutput::ToAccount(AccountMsg::ApplyChargeFromCard { op_id: 3, .. }))));
    let outs = card.handle_account_reply(AccountChargeReply { op_id: 3, success: true, error: None });
    done.extend(completed_ids(&outs));
    assert_eq!(done, vec![1, 2, 3]);
    assert!(card.current_task.is_none() && card.queue.is_empty());
    assert_eq!(card.consumed, 200);
}
