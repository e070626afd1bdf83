use escrow_marketplace::{
    DAY_NS, EscrowId, EscrowStatus, MarketError, MarketplaceContract, Transfer,
};

const ONE_NEAR: u128 = 1_000_000_000_000_000_000_000_000;

fn list(
    c: &mut MarketplaceContract,
    seller: u64,
    now: u64,
    category: &str,
    validated: bool,
    proof_hash: &str,
    price: u128,
) -> u64 {
    c.list_dataset(
        seller,
        now,
        "Test Dataset".to_string(),
        "Description".to_string(),
        category.to_string(),
        "QmTest123".to_string(),
        validated,
        proof_hash.to_string(),
        price,
        "MIT".to_string(),
    )
}

#[test]
fn test_list_dataset() {
    let mut contract = MarketplaceContract::new(0);
    let id = list(&mut contract, 0, 0, "Computer Vision", false, "0x000", ONE_NEAR);

    assert_eq!(id, 0);
    let dataset = contract.get_dataset(0).unwrap();
    assert_eq!(dataset.title, "Test Dataset");
}

#[test]
fn test_purchase_creates_escrow() {
    let seller: u64 = 0;
    let buyer: u64 = 1;
    let price: u128 = ONE_NEAR;

    let mut contract = MarketplaceContract::new(2);
    list(&mut contract, seller, 0, "AI", true, "0xzk", price);

    let (escrow_id, _refund) = contract.purchase_dataset(buyer, price, 0, 0).unwrap();

    assert!(contract.verify_purchase(buyer, 0));

    let escrow = contract.get_escrow(escrow_id).unwrap();
    assert!(escrow.status == EscrowStatus::Pending);
    assert_eq!(escrow.buyer, buyer);
    assert_eq!(escrow.seller, seller);
}

#[test]
fn fee_split_is_exact_at_two_percent() {
    let mut c = MarketplaceContract::new(9);
    list(&mut c, 1, 0, "AI", true, "0xzk", 1_000_000);
    let (eid, refund) = c.purchase_dataset(2, 1_000_000, 0, 0).unwrap();
    assert_eq!(refund, None);

    let e = c.get_escrow(eid).unwrap();
    assert_eq!(e.fee, 20_000);
    assert_eq!(e.amount, 980_000);

    let t = c.confirm_and_release(2, eid).unwrap();
    assert_eq!(t, Transfer { to: 1, amount: 980_000 });
}

#[test]
fn overpayment_is_refunded_at_creation() {
    let mut c = MarketplaceContract::new(9);
    list(&mut c, 1, 0, "AI", true, "0xzk", 1_000_000);
    let (eid, refund) = c.purchase_dataset(2, 1_100_000, 0, 0).unwrap();
    assert_eq!(refund, Some(Transfer { to: 2, amount: 100_000 }));

    let e = c.get_escrow(eid).unwrap();
    assert_eq!(e.amount + e.fee, 1_000_000);
}

#[test]
fn auto_release_honors_the_seven_day_period() {
    let t0: u64 = 5 * DAY_NS;
    let mut c = MarketplaceContract::new(9);
    list(&mut c, 1, t0, "AI", true, "0xzk", 1_000_000);
    let (eid, _) = c.purchase_dataset(2, 1_000_000, t0, 0).unwrap();

    let e = c.get_escrow(eid).unwrap();
    assert_eq!(e.release_at, t0 + 7 * DAY_NS);

    assert_eq!(c.auto_release(t0 + 6 * DAY_NS, eid), Err(MarketError::TooEarly));
    let t = c.auto_release(t0 + 7 * DAY_NS, eid).unwrap();
    assert_eq!(t, Transfer { to: 1, amount: 980_000 });
}

#[test]
fn auto_release_needs_no_particular_caller() {
    // The operation takes no caller identity at all: after the period,
    // it succeeds on a Pending escrow no matter who submits it.
    let mut c = MarketplaceContract::new(9);
    list(&mut c, 1, 0, "AI", true, "0xzk", 1_000_000);
    let (eid, _) = c.purchase_dataset(2, 1_000_000, 0, 0).unwrap();
    assert!(c.auto_release(30 * DAY_NS, eid).is_ok());
}

#[test]
fn dispute_resolution_for_seller_matches_confirmation() {
    let mut a = MarketplaceContract::new(9);
    list(&mut a, 1, 0, "AI", true, "0xzk", 1_000_000);
    let (eid_a, _) = a.purchase_dataset(2, 1_000_000, 0, 0).unwrap();
    let t_a = a.confirm_and_release(2, eid_a).unwrap();

    let mut b = MarketplaceContract::new(9);
    list(&mut b, 1, 0, "AI", true, "0xzk", 1_000_000);
    let (eid_b, _) = b.purchase_dataset(2, 1_000_000, 0, 0).unwrap();
    b.raise_dispute(2, eid_b, "not as described".to_string()).unwrap();
    let t_b = b.resolve_dispute(9, eid_b, false).unwrap();

    assert_eq!(t_a, t_b);
    assert_eq!(
        a.get_dataset(0).unwrap().downloads,
        b.get_dataset(0).unwrap().downloads
    );
    assert!(a.get_escrow_status(eid_a) == Some(EscrowStatus::Released));
    assert!(b.get_escrow_status(eid_b) == Some(EscrowStatus::Released));
    assert!(a.verify_purchase(2, 0) && b.verify_purchase(2, 0));
}

#[test]
fn refund_returns_full_payment_and_frees_the_key() {
    let mut c = MarketplaceContract::new(9);
    list(&mut c, 1, 0, "AI", true, "0xzk", 1_000_000);
    let (eid, _) = c.purchase_dataset(2, 1_000_000, 0, 0).unwrap();
    c.raise_dispute(2, eid, "never delivered".to_string()).unwrap();

    let t = c.resolve_dispute(9, eid, true).unwrap();
    assert_eq!(t, Transfer { to: 2, amount: 1_000_000 });

    assert!(!c.verify_purchase(2, 0));
    assert!(c.get_escrow_status(eid) == Some(EscrowStatus::Refunded));
    // A reason is recorded only while the escrow is disputed.
    assert_eq!(c.get_escrow(eid).unwrap().dispute_reason, None);

    // The buyer may purchase the same listing again.
    let again = c.purchase_dataset(2, 1_000_000, DAY_NS, 0);
    assert!(again.is_ok());
}

#[test]
fn terminal_escrows_accept_no_further_operation() {
    let mut c = MarketplaceContract::new(9);
    list(&mut c, 1, 0, "AI", true, "0xzk", 1_000_000);
    let (eid, _) = c.purchase_dataset(2, 1_000_000, 0, 0).unwrap();
    c.confirm_and_release(2, eid).unwrap();

    assert_eq!(c.confirm_and_release(2, eid), Err(MarketError::InvalidState));
    assert_eq!(c.auto_release(30 * DAY_NS, eid), Err(MarketError::InvalidState));
    assert_eq!(
        c.raise_dispute(2, eid, "late".to_string()),
        Err(MarketError::InvalidState)
    );
    assert_eq!(c.resolve_dispute(9, eid, true), Err(MarketError::InvalidState));

    let e = c.get_escrow(eid).unwrap();
    assert!(e.status == EscrowStatus::Released);
    assert_eq!(e.amount, 980_000);
    assert_eq!(e.fee, 20_000);
}

#[test]
fn dispute_requires_pending_and_the_buyer() {
    let mut c = MarketplaceContract::new(9);
    list(&mut c, 1, 0, "AI", true, "0xzk", 1_000_000);
    let (eid, _) = c.purchase_dataset(2, 1_000_000, 0, 0).unwrap();

    assert_eq!(
        c.raise_dispute(3, eid, "not mine".to_string()),
        Err(MarketError::Unauthorized)
    );
    assert_eq!(c.resolve_dispute(9, eid, true), Err(MarketError::InvalidState));

    c.raise_dispute(2, eid, "broken".to_string()).unwrap();
    assert!(c.get_escrow_status(eid) == Some(EscrowStatus::Disputed));
    assert_eq!(
        c.get_escrow(eid).unwrap().dispute_reason,
        Some("broken".to_string())
    );

    // Disputed halts the clock: no auto release, no second dispute.
    assert_eq!(c.auto_release(30 * DAY_NS, eid), Err(MarketError::InvalidState));
    assert_eq!(
        c.raise_dispute(2, eid, "again".to_string()),
        Err(MarketError::InvalidState)
    );

    assert_eq!(c.resolve_dispute(2, eid, true), Err(MarketError::Unauthorized));
    assert!(c.resolve_dispute(9, eid, true).is_ok());
}

#[test]
fn purchase_guards_report_each_error() {
    let mut c = MarketplaceContract::new(9);
    list(&mut c, 1, 0, "AI", true, "0xzk", 1_000_000);

    assert_eq!(
        c.purchase_dataset(2, 1_000_000, 0, 7).map(|r| r.0),
        Err(MarketError::NotFound)
    );
    assert_eq!(
        c.purchase_dataset(2, 999_999, 0, 0).map(|r| r.0),
        Err(MarketError::InsufficientPayment)
    );
    assert_eq!(
        c.purchase_dataset(1, 1_000_000, 0, 0).map(|r| r.0),
        Err(MarketError::SelfPurchaseForbidden)
    );
    c.purchase_dataset(2, 1_000_000, 0, 0).unwrap();
    assert_eq!(
        c.purchase_dataset(2, 1_000_000, DAY_NS, 0).map(|r| r.0),
        Err(MarketError::AlreadyPurchased)
    );
}

#[test]
fn missing_escrows_report_not_found() {
    let mut c = MarketplaceContract::new(9);
    let ghost_id = EscrowId { dataset_id: 0, buyer: 2, created_at: 0 };
    assert_eq!(c.confirm_and_release(2, ghost_id), Err(MarketError::NotFound));
    assert_eq!(c.auto_release(0, ghost_id), Err(MarketError::NotFound));
    assert_eq!(
        c.raise_dispute(2, ghost_id, "?".to_string()),
        Err(MarketError::NotFound)
    );
    assert_eq!(c.resolve_dispute(9, ghost_id, true), Err(MarketError::NotFound));
    assert!(c.get_escrow(ghost_id).is_none());
    assert!(c.get_escrow_status(ghost_id).is_none());
}

#[test]
fn only_the_buyer_confirms() {
    let mut c = MarketplaceContract::new(9);
    list(&mut c, 1, 0, "AI", true, "0xzk", 1_000_000);
    let (eid, _) = c.purchase_dataset(2, 1_000_000, 0, 0).unwrap();
    assert_eq!(c.confirm_and_release(1, eid), Err(MarketError::Unauthorized));
    assert_eq!(c.confirm_and_release(9, eid), Err(MarketError::Unauthorized));
    assert!(c.confirm_and_release(2, eid).is_ok());
}

#[test]
fn parameters_are_bounded_and_admin_only() {
    let mut c = MarketplaceContract::new(9);
    assert_eq!(c.set_marketplace_fee(1, 5), Err(MarketError::Unauthorized));
    assert_eq!(c.set_marketplace_fee(9, 11), Err(MarketError::InvalidParameter));
    assert_eq!(c.set_marketplace_fee(9, 10), Ok(()));
    assert_eq!(c.get_marketplace_fee(), 10);

    assert_eq!(c.set_escrow_period(1, 10), Err(MarketError::Unauthorized));
    assert_eq!(c.set_escrow_period(9, 0), Err(MarketError::InvalidParameter));
    assert_eq!(c.set_escrow_period(9, 31), Err(MarketError::InvalidParameter));
    assert_eq!(c.set_escrow_period(9, 10), Ok(()));
    assert_eq!(c.get_escrow_period_days(), 10);
}

#[test]
fn parameter_changes_do_not_touch_existing_escrows() {
    let mut c = MarketplaceContract::new(9);
    list(&mut c, 1, 0, "AI", true, "0xzk", 1_000_000);
    let (eid, _) = c.purchase_dataset(2, 1_000_000, 0, 0).unwrap();

    c.set_marketplace_fee(9, 10).unwrap();
    c.set_escrow_period(9, 30).unwrap();

    let e = c.get_escrow(eid).unwrap();
    assert_eq!(e.fee, 20_000);
    assert_eq!(e.release_at, 7 * DAY_NS);

    // A fresh escrow uses the new rate and the new period.
    list(&mut c, 1, 0, "AI", true, "0xzk", 1_000_000);
    let (eid2, _) = c.purchase_dataset(2, 1_000_000, DAY_NS, 1).unwrap();
    let e2 = c.get_escrow(eid2).unwrap();
    assert_eq!(e2.fee, 100_000);
    assert_eq!(e2.release_at, DAY_NS + 30 * DAY_NS);
}

#[test]
fn fees_accrue_on_release_and_only_the_admin_withdraws() {
    let mut c = MarketplaceContract::new(9);
    list(&mut c, 1, 0, "AI", true, "0xzk", 1_000_000);
    let (eid, _) = c.purchase_dataset(2, 1_000_000, 0, 0).unwrap();

    // Nothing has accrued yet.
    assert_eq!(c.withdraw_fees(9, 1), Err(MarketError::InvalidParameter));

    c.confirm_and_release(2, eid).unwrap();
    assert_eq!(c.withdraw_fees(1, 20_000), Err(MarketError::Unauthorized));
    assert_eq!(c.withdraw_fees(9, 20_001), Err(MarketError::InvalidParameter));
    assert_eq!(c.withdraw_fees(9, 20_000), Ok(Transfer { to: 9, amount: 20_000 }));
    assert_eq!(c.withdraw_fees(9, 1), Err(MarketError::InvalidParameter));
}

#[test]
fn refund_waives_the_fee_entirely() {
    // A released escrow accrues its fee; a refunded one does not.
    let mut c = MarketplaceContract::new(9);
    list(&mut c, 1, 0, "AI", true, "0xzk", 1_000_000);
    let (eid, _) = c.purchase_dataset(2, 1_000_000, 0, 0).unwrap();
    c.raise_dispute(2, eid, "faulty".to_string()).unwrap();
    c.resolve_dispute(9, eid, true).unwrap();
    assert_eq!(c.withdraw_fees(9, 1), Err(MarketError::InvalidParameter));
}

#[test]
fn catalog_queries_return_the_requested_window() {
    let mut c = MarketplaceContract::new(9);
    for k in 0..5u64 {
        list(&mut c, 1, k, "AI", true, "0xzk", 1_000 + k as u128);
    }
    assert!(c.get_dataset(5).is_none());
    assert_eq!(c.get_dataset(3).unwrap().price, 1_003);

    let window = c.get_datasets(1, 2);
    assert_eq!(window.len(), 2);
    assert_eq!(window[0].id, 1);
    assert_eq!(window[1].id, 2);

    let tail = c.get_datasets(3, 10);
    assert_eq!(tail.len(), 2);
    assert_eq!(tail[1].id, 4);

    assert_eq!(c.get_datasets(9, 3).len(), 0);
}

#[test]
fn download_counter_tracks_each_settlement() {
    let mut c = MarketplaceContract::new(9);
    list(&mut c, 1, 0, "AI", true, "0xzk", 1_000_000);
    assert_eq!(c.get_dataset(0).unwrap().downloads, 0);

    let (e1, _) = c.purchase_dataset(2, 1_000_000, 0, 0).unwrap();
    c.confirm_and_release(2, e1).unwrap();
    assert_eq!(c.get_dataset(0).unwrap().downloads, 1);

    let (e2, _) = c.purchase_dataset(3, 1_000_000, 0, 0).unwrap();
    c.auto_release(7 * DAY_NS, e2).unwrap();
    assert_eq!(c.get_dataset(0).unwrap().downloads, 2);
}

#[test]
fn fee_computation_matches_the_floor_formula() {
    assert_eq!(escrow_marketplace::compute_fee(1_000_000, 2), 20_000);
    assert_eq!(escrow_marketplace::compute_fee(999, 2), 19);
    assert_eq!(escrow_marketplace::compute_fee(49, 2), 0);
    assert_eq!(escrow_marketplace::compute_fee(50, 2), 1);
    assert_eq!(escrow_marketplace::compute_fee(0, 10), 0);
    assert_eq!(escrow_marketplace::compute_fee(u128::MAX, 0), 0);
    assert_eq!(escrow_marketplace::compute_fee(u128::MAX, 10), u128::MAX / 10);
}
