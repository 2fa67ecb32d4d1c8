use kosher_chain::xrpl_witness::{
    is_confirmed, parse_deposit_transaction, split_confirmed, DepositInfo, PaymentFields,
    PendingDeposit,
};

fn deposit(seen_in_ledger: u32) -> PendingDeposit {
    PendingDeposit {
        info: DepositInfo {
            from: "rSender".to_string(),
            amount: "25".to_string(),
            l2_destination: 7,
        },
        seen_in_ledger,
    }
}

#[test]
fn a_deposit_is_confirmed_once_the_threshold_of_ledgers_has_closed() {
    assert!(!is_confirmed(100, 105, 10));
    assert!(!is_confirmed(100, 109, 10));
    assert!(is_confirmed(100, 110, 10));
    assert!(is_confirmed(100, 200, 10));
    assert!(is_confirmed(100, 100, 0));
}

#[test]
fn a_deposit_reported_from_a_future_ledger_is_never_confirmed() {
    assert!(!is_confirmed(200, 100, 10));
    assert!(!is_confirmed(101, 100, 0));
}

#[test]
fn splitting_the_queue_keeps_order_on_both_sides() {
    let queue = vec![deposit(100), deposit(150), deposit(90), deposit(151)];
    let (pending, ready) = split_confirmed(queue, 160, 10);
    let ready_seen: Vec<u32> = ready.iter().map(|d| d.seen_in_ledger).collect();
    let pending_seen: Vec<u32> = pending.iter().map(|d| d.seen_in_ledger).collect();
    assert_eq!(ready_seen, vec![100, 150, 90]);
    assert_eq!(pending_seen, vec![151]);
}

#[test]
fn splitting_an_empty_queue_yields_two_empty_queues() {
    let (pending, ready) = split_confirmed(Vec::new(), 160, 10);
    assert!(pending.is_empty());
    assert!(ready.is_empty());
}

#[test]
fn a_payment_to_the_door_with_tag_sender_and_xrp_amount_is_a_deposit() {
    let door = "rDoorAccount".to_string();
    let payment = PaymentFields {
        destination: door.clone(),
        destination_tag: Some(42),
        account: Some("rAlice".to_string()),
        xrp_amount: Some("1000".to_string()),
    };
    let info = parse_deposit_transaction(&payment, &door).unwrap();
    assert_eq!(info.from, "rAlice");
    assert_eq!(info.amount, "1000");
    assert_eq!(info.l2_destination, 42);
}

#[test]
fn payments_missing_any_required_part_are_not_deposits() {
    let door = "rDoorAccount".to_string();
    let full = PaymentFields {
        destination: door.clone(),
        destination_tag: Some(42),
        account: Some("rAlice".to_string()),
        xrp_amount: Some("1000".to_string()),
    };

    let elsewhere = PaymentFields {
        destination: "rSomeoneElse".to_string(),
        ..clone_fields(&full)
    };
    assert!(parse_deposit_transaction(&elsewhere, &door).is_none());

    let untagged = PaymentFields {
        destination_tag: None,
        ..clone_fields(&full)
    };
    assert!(parse_deposit_transaction(&untagged, &door).is_none());

    let senderless = PaymentFields {
        account: None,
        ..clone_fields(&full)
    };
    assert!(parse_deposit_transaction(&senderless, &door).is_none());

    let non_native = PaymentFields {
        xrp_amount: None,
        ..clone_fields(&full)
    };
    assert!(parse_deposit_transaction(&non_native, &door).is_none());
}

fn clone_fields(p: &PaymentFields) -> PaymentFields {
    PaymentFields {
        destination: p.destination.clone(),
        destination_tag: p.destination_tag,
        account: p.account.clone(),
        xrp_amount: p.xrp_amount.clone(),
    }
}
