//! The marketplace's global laws, stated over the same spec-level
//! vocabulary that every operation's contract uses, and proved once
//! for all states and inputs.

use vstd::prelude::*;

use crate::market::{
    lemma_fee_of_bounds, refund_effect, release_effect, MarketplaceContract,
};
use crate::model::{
    backs, escrows_step_ok, fee_of, has_purchase, is_terminal, purchase_keyed, AccountId, Escrow,
    EscrowStatus, Transfer,
};

verus! {

/// At most one live purchase exists per `(buyer, dataset_id)` key: in
/// a well-formed marketplace, two ledger indices carrying the same
/// key are the same index.
pub proof fn lemma_purchase_key_unique(
    c: MarketplaceContract,
    buyer: AccountId,
    dataset_id: u64,
    i: int,
    j: int,
)
    requires
        c.wf(),
        0 <= i < c.purchases@.len(),
        0 <= j < c.purchases@.len(),
        purchase_keyed(c.purchases@[i], buyer, dataset_id),
        purchase_keyed(c.purchases@[j], buyer, dataset_id),
    ensures
        i == j,
{
    if i < j {
        assert(!purchase_keyed(
            c.purchases@[i],
            c.purchases@[j].buyer,
            c.purchases@[j].dataset_id,
        ));
    }
    if j < i {
        assert(!purchase_keyed(
            c.purchases@[j],
            c.purchases@[i].buyer,
            c.purchases@[i].dataset_id,
        ));
    }
}

/// Terminality is absolute. Every mutating operation promises
/// `escrows_step_ok` between the old and the new escrow tables, so a
/// record that has reached `Released` or `Refunded` never changes
/// again — not its status, its split, its parties, nor its schedule.
pub proof fn lemma_terminal_escrow_frozen(pre: Seq<Escrow>, post: Seq<Escrow>, i: int)
    requires
        escrows_step_ok(pre, post),
        0 <= i < pre.len(),
        is_terminal(pre[i].status),
    ensures
        post[i] == pre[i],
{
}

/// `Disputed` is reachable only from `Pending`: under
/// `escrows_step_ok`, a record that turns `Disputed` held `Pending`
/// before.
pub proof fn lemma_disputed_only_from_pending(pre: Seq<Escrow>, post: Seq<Escrow>, i: int)
    requires
        escrows_step_ok(pre, post),
        0 <= i < pre.len(),
        post[i].status == EscrowStatus::Disputed,
        pre[i].status != EscrowStatus::Disputed,
    ensures
        pre[i].status == EscrowStatus::Pending,
{
}

/// Every valid creation splits the payment exactly: the escrow's
/// `amount + fee` equals the listing price that the purchase records
/// as `price_paid`, and the fee is `floor(price * percent / 100)` at
/// the rate in effect at creation time.
pub proof fn lemma_creation_split_exact(
    c: MarketplaceContract,
    buyer: AccountId,
    now: u64,
    dataset_id: u64,
)
    requires
        c.wf(),
        dataset_id < c.next_dataset_id,
    ensures
        c.new_escrow(buyer, now, dataset_id).amount + c.new_escrow(buyer, now, dataset_id).fee
            == c.datasets@[dataset_id as int].price,
        c.new_escrow(buyer, now, dataset_id).fee == fee_of(
            c.datasets@[dataset_id as int].price,
            c.marketplace_fee_percent,
        ),
        c.new_purchase(buyer, now, dataset_id).price_paid
            == c.datasets@[dataset_id as int].price,
{
    lemma_fee_of_bounds(c.datasets@[dataset_id as int].price, c.marketplace_fee_percent);
}

/// A refund makes the buyer whole: the refund transfer carries
/// exactly the `price_paid` of the purchase that backed the escrow,
/// and afterwards no purchase record occupies the key, so the same
/// buyer may purchase the same listing afresh.
pub proof fn lemma_refund_restores_price_paid(
    pre: MarketplaceContract,
    post: MarketplaceContract,
    i: int,
    t: Transfer,
)
    requires
        pre.wf(),
        0 <= i < pre.escrows@.len(),
        refund_effect(pre, post, i, t),
    ensures
        exists|j: int|
            0 <= j < pre.purchases@.len() && purchase_keyed(
                #[trigger] pre.purchases@[j],
                pre.escrows@[i].buyer,
                pre.escrows@[i].dataset_id,
            ) && pre.purchases@[j].price_paid == t.amount,
        !has_purchase(post.purchases@, pre.escrows@[i].buyer, pre.escrows@[i].dataset_id),
{
    assert(pre.escrow_ok(pre.escrows@[i]));
    let j = choose|j: int|
        0 <= j < pre.purchases@.len() && backs(#[trigger] pre.purchases@[j], pre.escrows@[i])
            && post.purchases@ == pre.purchases@.remove(j);
    assert(pre.purchases@[j].price_paid == t.amount);
    assert(purchase_keyed(
        pre.purchases@[j],
        pre.escrows@[i].buyer,
        pre.escrows@[i].dataset_id,
    ) && pre.purchases@[j].price_paid == t.amount);
}

/// A dispute resolved in the seller's favor behaves exactly as a
/// buyer confirmation: both operations promise `release_effect`, and
/// that effect is deterministic — from one state, settling one escrow
/// yields the same transfer, the same tables, and the same counters,
/// whichever operation performed it.
pub proof fn lemma_resolution_matches_confirmation(
    pre: MarketplaceContract,
    post1: MarketplaceContract,
    post2: MarketplaceContract,
    i: int,
    t1: Transfer,
    t2: Transfer,
)
    requires
        0 <= i < pre.escrows@.len(),
        release_effect(pre, post1, i, t1),
        release_effect(pre, post2, i, t2),
    ensures
        t1 == t2,
        post1.escrows@ == post2.escrows@,
        post1.purchases@ == post2.purchases@,
        post1.datasets@ == post2.datasets@,
        post1.accrued_fees == post2.accrued_fees,
{
}

} // verus!
