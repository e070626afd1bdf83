//! Data model of the marketplace: listings, purchases, escrows, and
//! the spec-level vocabulary that the contracts of the lifecycle
//! operations are written in.

use vstd::prelude::*;

verus! {

/// An authenticated caller, supplied by the host as an opaque identifier.
pub type AccountId = u64;

/// A value amount in the smallest currency unit.
pub type Balance = u128;

/// One day in nanoseconds, the system's time unit.
pub const DAY_NS: u64 = 24 * 60 * 60 * 1_000_000_000;

/// Lifecycle states of an escrow. `Released` and `Refunded` are
/// terminal; `Disputed` can only be exited by the administrator.
#[derive(Debug, PartialEq, Eq, Structural, Clone, Copy)]
pub enum EscrowStatus {
    /// Funds held in custody.
    Pending,
    /// Funds released to the seller.
    Released,
    /// Funds returned to the buyer.
    Refunded,
    /// Under dispute resolution.
    Disputed,
}

/// Why an operation was rejected. Every rejection leaves the state
/// exactly as it was.
#[derive(Debug, PartialEq, Eq, Structural, Clone, Copy)]
pub enum MarketError {
    /// The named listing or escrow does not exist.
    NotFound,
    /// The caller lacks the required role or identity.
    Unauthorized,
    /// The operation is not valid for the escrow's current status.
    InvalidState,
    /// Automatic release attempted before `release_at`.
    TooEarly,
    /// The attached value does not cover the listing price.
    InsufficientPayment,
    /// A seller may not buy their own listing.
    SelfPurchaseForbidden,
    /// A live purchase already exists for this buyer and listing.
    AlreadyPurchased,
    /// An administrator setting is out of its allowed bounds.
    InvalidParameter,
}

/// The unique key of an escrow, derived from the listing, the buyer
/// and the creation timestamp. A structured key rather than a
/// formatted string, so equality cannot be confused by separators.
#[derive(Debug, PartialEq, Eq, Structural, Clone, Copy)]
pub struct EscrowId {
    pub dataset_id: u64,
    pub buyer: AccountId,
    pub created_at: u64,
}

/// A value transfer owed to an account as the effect of an operation.
/// The library never moves value itself: each settlement or refund is
/// handed back as one of these for the host to execute.
#[derive(Debug, PartialEq, Eq, Structural, Clone, Copy)]
pub struct Transfer {
    pub to: AccountId,
    pub amount: Balance,
}

/// A priced listing in the catalog.
pub struct Dataset {
    pub id: u64,
    pub owner: AccountId,
    pub title: String,
    pub description: String,
    pub category: String,
    pub filecoin_cid: String,
    pub bio_validated: bool,
    pub zk_proof_hash: String,
    pub price: Balance,
    pub license: String,
    pub created_at: u64,
    pub downloads: u32,
}

/// A buyer's claim on a listing; at most one live record per
/// `(buyer, dataset_id)` pair.
#[derive(Debug, PartialEq, Eq, Structural, Clone, Copy)]
pub struct Purchase {
    pub dataset_id: u64,
    pub buyer: AccountId,
    pub price_paid: Balance,
    pub timestamp: u64,
    pub escrow_released: bool,
}

/// The custody record: the buyer's payment split into the seller's
/// share and the marketplace fee, plus the lifecycle status.
pub struct Escrow {
    pub escrow_id: EscrowId,
    pub dataset_id: u64,
    pub buyer: AccountId,
    pub seller: AccountId,
    pub amount: Balance,
    pub fee: Balance,
    pub status: EscrowStatus,
    pub created_at: u64,
    pub release_at: u64,
    pub dispute_reason: Option<String>,
}

/// The marketplace fee for a price at a given percentage:
/// `floor(price * percent / 100)`.
pub open spec fn fee_of(price: Balance, percent: u8) -> int {
    (price * percent) / 100
}

/// An escrow still awaiting its terminal transition.
pub open spec fn is_live(status: EscrowStatus) -> bool {
    status == EscrowStatus::Pending || status == EscrowStatus::Disputed
}

/// A status that no operation may leave.
pub open spec fn is_terminal(status: EscrowStatus) -> bool {
    status == EscrowStatus::Released || status == EscrowStatus::Refunded
}

/// The transitions of the lifecycle state machine: forward only,
/// `Disputed` entered only from `Pending`, terminal states left never.
pub open spec fn status_step_allowed(pre: EscrowStatus, post: EscrowStatus) -> bool {
    ||| pre == post
    ||| (pre == EscrowStatus::Pending && !(post == EscrowStatus::Pending))
    ||| (pre == EscrowStatus::Disputed && is_terminal(post))
}

/// How one operation may change the escrow table: existing records
/// keep their identity, parties, split and schedule; their status
/// moves only along `status_step_allowed`; terminal records do not
/// change at all. New records may only be appended.
pub open spec fn escrows_step_ok(pre: Seq<Escrow>, post: Seq<Escrow>) -> bool {
    &&& post.len() >= pre.len()
    &&& forall|i: int|
        0 <= i < pre.len() ==> status_step_allowed(pre[i].status, #[trigger] post[i].status)
    &&& forall|i: int|
        0 <= i < pre.len() && is_terminal(pre[i].status) ==> post[i] == #[trigger] pre[i]
    &&& forall|i: int|
        0 <= i < pre.len() ==> {
            &&& (#[trigger] post[i]).escrow_id == pre[i].escrow_id
            &&& post[i].dataset_id == pre[i].dataset_id
            &&& post[i].buyer == pre[i].buyer
            &&& post[i].seller == pre[i].seller
            &&& post[i].amount == pre[i].amount
            &&& post[i].fee == pre[i].fee
            &&& post[i].created_at == pre[i].created_at
            &&& post[i].release_at == pre[i].release_at
        }
}

/// Whether some escrow in the table carries this key.
pub open spec fn has_escrow(escrows: Seq<Escrow>, id: EscrowId) -> bool {
    exists|i: int| 0 <= i < escrows.len() && (#[trigger] escrows[i]).escrow_id == id
}

/// The index of the escrow carrying this key (unique under `wf`).
pub open spec fn escrow_index(escrows: Seq<Escrow>, id: EscrowId) -> int {
    choose|i: int| 0 <= i < escrows.len() && (#[trigger] escrows[i]).escrow_id == id
}

/// Whether this purchase is keyed by this buyer and listing.
pub open spec fn purchase_keyed(p: Purchase, buyer: AccountId, dataset_id: u64) -> bool {
    p.buyer == buyer && p.dataset_id == dataset_id
}

/// Whether some purchase in the ledger is keyed by this buyer and listing.
pub open spec fn has_purchase(purchases: Seq<Purchase>, buyer: AccountId, dataset_id: u64) -> bool {
    exists|i: int| 0 <= i < purchases.len() && purchase_keyed(#[trigger] purchases[i], buyer, dataset_id)
}

/// The index of the purchase keyed by this buyer and listing
/// (unique under `wf`).
pub open spec fn purchase_index(purchases: Seq<Purchase>, buyer: AccountId, dataset_id: u64) -> int {
    choose|i: int| 0 <= i < purchases.len() && purchase_keyed(#[trigger] purchases[i], buyer, dataset_id)
}

/// Whether this purchase record backs this escrow: same key, exactly
/// the escrow's custody total paid, and not yet released.
pub open spec fn backs(p: Purchase, e: Escrow) -> bool {
    &&& purchase_keyed(p, e.buyer, e.dataset_id)
    &&& p.price_paid == e.amount + e.fee
    &&& !p.escrow_released
}

/// The escrow as it stands after a release: status `Released`, no
/// dispute reason, everything else untouched.
pub open spec fn released_escrow(e: Escrow) -> Escrow {
    (Escrow { status: EscrowStatus::Released, dispute_reason: None, ..e })
}

/// The escrow as it stands after the buyer raises a dispute: status
/// `Disputed` with the reason recorded, everything else untouched.
pub open spec fn disputed_escrow(e: Escrow, reason: String) -> Escrow {
    (Escrow { status: EscrowStatus::Disputed, dispute_reason: Some(reason), ..e })
}

/// The escrow as it stands after a refund: status `Refunded`, no
/// dispute reason, everything else untouched.
pub open spec fn refunded_escrow(e: Escrow) -> Escrow {
    (Escrow { status: EscrowStatus::Refunded, dispute_reason: None, ..e })
}

/// The purchase ledger after the record for this buyer and listing is
/// marked as released; records under any other key are untouched.
pub open spec fn mark_released(
    purchases: Seq<Purchase>,
    buyer: AccountId,
    dataset_id: u64,
) -> Seq<Purchase> {
    purchases.map(
        |i: int, p: Purchase|
            if purchase_keyed(p, buyer, dataset_id) {
                (Purchase { escrow_released: true, ..p })
            } else {
                p
            },
    )
}

/// The download count after one more settlement, saturating at the
/// counter's maximum.
pub open spec fn bumped_downloads(d: u32) -> u32 {
    if d == u32::MAX {
        d
    } else {
        (d + 1) as u32
    }
}

/// The catalog after the usage counter of this listing is incremented;
/// all other listings are untouched.
pub open spec fn bump_downloads(datasets: Seq<Dataset>, dataset_id: u64) -> Seq<Dataset> {
    datasets.map(
        |i: int, d: Dataset|
            if d.id == dataset_id {
                (Dataset { downloads: bumped_downloads(d.downloads), ..d })
            } else {
                d
            },
    )
}

/// The slice of the catalog a range query returns: up to `limit`
/// listings starting at `from_index`, clipped to the catalog's end.
pub open spec fn listing_window(s: Seq<Dataset>, from: int, limit: int) -> Seq<Dataset> {
    if from >= s.len() {
        Seq::empty()
    } else if from + limit >= s.len() {
        s.subrange(from, s.len() as int)
    } else {
        s.subrange(from, from + limit)
    }
}

/// Addition on the accrued-fee balance, saturating at the largest
/// representable value.
pub open spec fn sat_add(a: Balance, b: Balance) -> Balance {
    if a + b > Balance::MAX {
        Balance::MAX
    } else {
        (a + b) as Balance
    }
}

} // verus!
