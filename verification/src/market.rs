//! The escrow lifecycle manager: one structure holding the catalog,
//! the purchase ledger, the escrow table and the marketplace
//! parameters, with every operation specified as an all-or-nothing
//! transition.

use vstd::arithmetic::div_mod::{
    lemma_div_is_ordered, lemma_div_multiples_vanish, lemma_fundamental_div_mod,
    lemma_hoist_over_denominator, lemma_mod_bound,
};
use vstd::prelude::*;

use crate::model::{
    backs, bump_downloads, bumped_downloads, disputed_escrow, escrow_index, escrows_step_ok,
    fee_of, has_escrow, has_purchase, is_live, is_terminal, listing_window, mark_released,
    purchase_keyed, refunded_escrow, released_escrow, sat_add,
    AccountId, Balance, Dataset, Escrow, EscrowId, EscrowStatus, MarketError, Purchase, Transfer,
    DAY_NS,
};

verus! {

/// The whole marketplace state. Every mutating operation either
/// performs its full effect or returns an error and leaves the state
/// untouched; scheduled value transfers are returned as [`Transfer`]
/// values for the host to execute.
pub struct MarketplaceContract {
    /// The administrator: the only account allowed to resolve
    /// disputes, change parameters and withdraw accrued fees.
    pub owner: AccountId,
    /// The catalog: listing `id` equals its index here.
    pub datasets: Vec<Dataset>,
    /// The purchase ledger, at most one live record per
    /// `(buyer, dataset_id)` pair.
    pub purchases: Vec<Purchase>,
    /// The custody records, keyed uniquely by `EscrowId`.
    pub escrows: Vec<Escrow>,
    /// The id the next listing will get.
    pub next_dataset_id: u64,
    /// Fee percentage frozen into each escrow at creation; in `[0, 10]`.
    pub marketplace_fee_percent: u8,
    /// Escrow lock period in nanoseconds; in `[1 day, 30 days]`.
    pub escrow_period_ns: u64,
    /// Fees retained from released escrows, withdrawable by the
    /// administrator; kept apart from principal so refunds and fees
    /// never commingle.
    pub accrued_fees: Balance,
}

impl MarketplaceContract {
    /// Listings are stored at the index equal to their id, and the
    /// next id is the table's length.
    pub open spec fn datasets_ok(&self) -> bool {
        &&& self.next_dataset_id == self.datasets@.len()
        &&& forall|i: int| 0 <= i < self.datasets@.len() ==> (#[trigger] self.datasets@[i]).id == i
    }

    /// At most one purchase per `(buyer, dataset_id)` key.
    pub open spec fn purchase_keys_unique(&self) -> bool {
        forall|i: int, j: int|
            0 <= i < j < self.purchases@.len() ==> !purchase_keyed(
                #[trigger] self.purchases@[i],
                (#[trigger] self.purchases@[j]).buyer,
                self.purchases@[j].dataset_id,
            )
    }

    /// What every single escrow record satisfies: its key restates the
    /// record, a dispute reason is recorded exactly while disputed,
    /// the schedule is ordered, the listing exists, and the custody
    /// total `amount + fee` is representable.
    pub open spec fn escrow_ok(&self, e: Escrow) -> bool {
        &&& e.escrow_id == (EscrowId {
            dataset_id: e.dataset_id,
            buyer: e.buyer,
            created_at: e.created_at,
        })
        &&& (e.status == EscrowStatus::Disputed <==> e.dispute_reason is Some)
        &&& e.created_at <= e.release_at
        &&& e.dataset_id < self.next_dataset_id
        &&& e.amount + e.fee <= Balance::MAX
    }

    /// Escrow keys are unique, and at most one escrow per
    /// `(buyer, dataset_id)` pair is still live.
    pub open spec fn escrows_ok(&self) -> bool {
        &&& forall|i: int|
            0 <= i < self.escrows@.len() ==> self.escrow_ok(#[trigger] self.escrows@[i])
        &&& forall|i: int, j: int|
            0 <= i < j < self.escrows@.len() ==> (#[trigger] self.escrows@[i]).escrow_id != (
            #[trigger] self.escrows@[j]).escrow_id
        &&& forall|i: int, j: int|
            0 <= i < j < self.escrows@.len() && is_live((#[trigger] self.escrows@[i]).status)
                && is_live((#[trigger] self.escrows@[j]).status) ==> !(self.escrows@[i].buyer
                == self.escrows@[j].buyer && self.escrows@[i].dataset_id
                == self.escrows@[j].dataset_id)
    }

    /// Every live escrow is backed by an unreleased purchase whose
    /// `price_paid` is exactly the escrow's `amount + fee`.
    pub open spec fn live_escrow_backed(&self) -> bool {
        forall|i: int|
            0 <= i < self.escrows@.len() && is_live((#[trigger] self.escrows@[i]).status)
                ==> exists|j: int|
                0 <= j < self.purchases@.len() && backs(
                    #[trigger] self.purchases@[j],
                    self.escrows@[i],
                )
    }

    /// The administrator-set parameters stay in their bounds.
    pub open spec fn params_ok(&self) -> bool {
        &&& self.marketplace_fee_percent <= 10
        &&& DAY_NS <= self.escrow_period_ns <= 30 * DAY_NS
    }

    /// Well-formedness: established by `new`, preserved by every
    /// operation.
    pub open spec fn wf(&self) -> bool {
        &&& self.datasets_ok()
        &&& self.purchase_keys_unique()
        &&& self.escrows_ok()
        &&& self.live_escrow_backed()
        &&& self.params_ok()
    }

    /// Creates an empty marketplace administered by `owner`, with a
    /// 2% fee and a 7-day escrow period.
    pub fn new(owner: AccountId) -> (c: MarketplaceContract)
        ensures
            c.wf(),
            c.owner == owner,
            c.datasets@.len() == 0,
            c.purchases@.len() == 0,
            c.escrows@.len() == 0,
            c.next_dataset_id == 0,
            c.marketplace_fee_percent == 2,
            c.escrow_period_ns == 7 * DAY_NS,
            c.accrued_fees == 0,
    {
        MarketplaceContract {
            owner,
            datasets: Vec::new(),
            purchases: Vec::new(),
            escrows: Vec::new(),
            next_dataset_id: 0,
            marketplace_fee_percent: 2,
            escrow_period_ns: 7 * DAY_NS,
            accrued_fees: 0,
        }
    }

    /// Adds a listing owned by `caller` and returns its id.
    pub fn list_dataset(
        &mut self,
        caller: AccountId,
        now: u64,
        title: String,
        description: String,
        category: String,
        filecoin_cid: String,
        bio_validated: bool,
        zk_proof_hash: String,
        price: Balance,
        license: String,
    ) -> (id: u64)
        requires
            old(self).wf(),
            old(self).next_dataset_id < u64::MAX,
        ensures
            final(self).wf(),
            id == old(self).next_dataset_id,
            final(self).datasets@ == old(self).datasets@.push(
                (Dataset {
                    id,
                    owner: caller,
                    title,
                    description,
                    category,
                    filecoin_cid,
                    bio_validated,
                    zk_proof_hash,
                    price,
                    license,
                    created_at: now,
                    downloads: 0,
                }),
            ),
            final(self).next_dataset_id == old(self).next_dataset_id + 1,
            final(self).purchases@ == old(self).purchases@,
            final(self).escrows@ == old(self).escrows@,
            final(self).owner == old(self).owner,
            final(self).marketplace_fee_percent == old(self).marketplace_fee_percent,
            final(self).escrow_period_ns == old(self).escrow_period_ns,
            final(self).accrued_fees == old(self).accrued_fees,
    {
        let id = self.next_dataset_id;
        let dataset = Dataset {
            id,
            owner: caller,
            title,
            description,
            category,
            filecoin_cid,
            bio_validated,
            zk_proof_hash,
            price,
            license,
            created_at: now,
            downloads: 0,
        };
        self.datasets.push(dataset);
        self.next_dataset_id = self.next_dataset_id + 1;
        proof {
            assert forall|i: int| 0 <= i < self.datasets@.len() implies (#[trigger] self.datasets@[
            i]).id == i by {
                if i < old(self).datasets@.len() {
                    assert(self.datasets@[i] == old(self).datasets@[i]);
                }
            }
            assert forall|i: int| 0 <= i < self.escrows@.len() implies self.escrow_ok(
                #[trigger] self.escrows@[i],
            ) by {
                assert(old(self).escrow_ok(old(self).escrows@[i]));
            }
            assert(self.live_escrow_backed()) by {
                assert forall|i: int|
                    0 <= i < self.escrows@.len() && is_live(
                        (#[trigger] self.escrows@[i]).status,
                    ) implies exists|j: int|
                    0 <= j < self.purchases@.len() && backs(
                        #[trigger] self.purchases@[j],
                        self.escrows@[i],
                    ) by {
                    assert(is_live(old(self).escrows@[i].status));
                    let j = choose|j: int|
                        0 <= j < old(self).purchases@.len() && backs(
                            #[trigger] old(self).purchases@[j],
                            old(self).escrows@[i],
                        );
                    assert(self.purchases@[j] == old(self).purchases@[j]);
                }
            }
        }
        id
    }

    /// When a purchase request is accepted: the listing exists, the
    /// attached value covers the price, the buyer is not the seller,
    /// no live purchase occupies the key, and the escrow key derived
    /// from listing, buyer and timestamp is still free.
    pub open spec fn purchase_allowed(
        &self,
        buyer: AccountId,
        attached: Balance,
        now: u64,
        dataset_id: u64,
    ) -> bool {
        &&& dataset_id < self.next_dataset_id
        &&& attached >= self.datasets@[dataset_id as int].price
        &&& self.datasets@[dataset_id as int].owner != buyer
        &&& !has_purchase(self.purchases@, buyer, dataset_id)
        &&& !has_escrow(
            self.escrows@,
            (EscrowId { dataset_id, buyer, created_at: now }),
        )
    }

    /// The error a rejected purchase request reports, by the first
    /// guard that fails.
    pub open spec fn purchase_error(
        &self,
        buyer: AccountId,
        attached: Balance,
        now: u64,
        dataset_id: u64,
    ) -> MarketError {
        if dataset_id >= self.next_dataset_id {
            MarketError::NotFound
        } else if attached < self.datasets@[dataset_id as int].price {
            MarketError::InsufficientPayment
        } else if self.datasets@[dataset_id as int].owner == buyer {
            MarketError::SelfPurchaseForbidden
        } else {
            MarketError::AlreadyPurchased
        }
    }

    /// The custody record an accepted purchase request creates: the
    /// price split into fee and seller amount at the rate in effect
    /// now, scheduled to unlock one escrow period from now.
    pub open spec fn new_escrow(&self, buyer: AccountId, now: u64, dataset_id: u64) -> Escrow {
        let price = self.datasets@[dataset_id as int].price;
        let fee = fee_of(price, self.marketplace_fee_percent) as Balance;
        Escrow {
            escrow_id: EscrowId { dataset_id, buyer, created_at: now },
            dataset_id,
            buyer,
            seller: self.datasets@[dataset_id as int].owner,
            amount: (price - fee) as Balance,
            fee,
            status: EscrowStatus::Pending,
            created_at: now,
            release_at: (now + self.escrow_period_ns) as u64,
            dispute_reason: None,
        }
    }

    /// The ledger record an accepted purchase request creates.
    pub open spec fn new_purchase(&self, buyer: AccountId, now: u64, dataset_id: u64) -> Purchase {
        Purchase {
            dataset_id,
            buyer,
            price_paid: self.datasets@[dataset_id as int].price,
            timestamp: now,
            escrow_released: false,
        }
    }

    /// A buyer pays `attached` for a listing: the payment goes into a
    /// fresh `Pending` escrow, a purchase record claims the
    /// `(buyer, dataset_id)` key, and any overpayment comes back as a
    /// refund transfer. Nothing changes when a guard rejects the
    /// request.
    pub fn purchase_dataset(
        &mut self,
        buyer: AccountId,
        attached: Balance,
        now: u64,
        dataset_id: u64,
    ) -> (r: Result<(EscrowId, Option<Transfer>), MarketError>)
        requires
            old(self).wf(),
            now + old(self).escrow_period_ns <= u64::MAX,
        ensures
            final(self).wf(),
            escrows_step_ok(old(self).escrows@, final(self).escrows@),
            r is Ok <==> old(self).purchase_allowed(buyer, attached, now, dataset_id),
            final(self).owner == old(self).owner,
            final(self).datasets@ == old(self).datasets@,
            final(self).next_dataset_id == old(self).next_dataset_id,
            final(self).marketplace_fee_percent == old(self).marketplace_fee_percent,
            final(self).escrow_period_ns == old(self).escrow_period_ns,
            final(self).accrued_fees == old(self).accrued_fees,
            match r {
                Ok(receipt) => {
                    &&& receipt.0 == (EscrowId { dataset_id, buyer, created_at: now })
                    &&& final(self).escrows@ == old(self).escrows@.push(
                        old(self).new_escrow(buyer, now, dataset_id),
                    )
                    &&& final(self).purchases@ == old(self).purchases@.push(
                        old(self).new_purchase(buyer, now, dataset_id),
                    )
                    &&& receipt.1 == (if attached > old(self).datasets@[dataset_id as int].price {
                        Some(
                            Transfer {
                                to: buyer,
                                amount: (attached - old(
                                    self,
                                ).datasets@[dataset_id as int].price) as Balance,
                            },
                        )
                    } else {
                        None::<Transfer>
                    })
                },
                Err(e) => {
                    &&& *final(self) == *old(self)
                    &&& e == old(self).purchase_error(buyer, attached, now, dataset_id)
                },
            },
    {
        if dataset_id >= self.next_dataset_id {
            return Err(MarketError::NotFound);
        }
        let nlen = self.datasets.len();
        proof {
            assert((nlen as int) == (self.next_dataset_id as int));
            assert((dataset_id as int) < (nlen as int));
        }
        let idx = dataset_id as usize;
        let price = self.datasets[idx].price;
        let seller = self.datasets[idx].owner;
        if attached < price {
            return Err(MarketError::InsufficientPayment);
        }
        if seller == buyer {
            return Err(MarketError::SelfPurchaseForbidden);
        }
        if self.find_purchase(buyer, dataset_id).is_some() {
            return Err(MarketError::AlreadyPurchased);
        }
        let escrow_id = EscrowId { dataset_id, buyer, created_at: now };
        if self.find_escrow(escrow_id).is_some() {
            return Err(MarketError::AlreadyPurchased);
        }
        let fee = compute_fee(price, self.marketplace_fee_percent);
        let amount = price - fee;
        let escrow = Escrow {
            escrow_id,
            dataset_id,
            buyer,
            seller,
            amount,
            fee,
            status: EscrowStatus::Pending,
            created_at: now,
            release_at: now + self.escrow_period_ns,
            dispute_reason: None,
        };
        let ghost pre = *self;
        self.escrows.push(escrow);
        self.purchases.push(
            Purchase { dataset_id, buyer, price_paid: price, timestamp: now, escrow_released: false },
        );
        let refund = if attached > price {
            Some(Transfer { to: buyer, amount: attached - price })
        } else {
            None
        };
        proof {
            lemma_purchase_preserves_wf(pre, *self, buyer, now, dataset_id);
        }
        Ok((escrow_id, refund))
    }

    /// The escrow carrying this key (meaningful when `has_escrow`
    /// holds; unique under `wf`).
    pub open spec fn escrow_at(&self, id: EscrowId) -> Escrow {
        self.escrows@[escrow_index(self.escrows@, id)]
    }

    /// The buyer confirms receipt: escrow `escrow_id` settles in the
    /// seller's favor. Only the buyer may confirm, and only while the
    /// escrow is `Pending`.
    pub fn confirm_and_release(&mut self, caller: AccountId, escrow_id: EscrowId) -> (r: Result<
        Transfer,
        MarketError,
    >)
        requires
            old(self).wf(),
        ensures
            final(self).wf(),
            escrows_step_ok(old(self).escrows@, final(self).escrows@),
            r is Ok <==> (has_escrow(old(self).escrows@, escrow_id) && old(self).escrow_at(
                escrow_id,
            ).buyer == caller && old(self).escrow_at(escrow_id).status == EscrowStatus::Pending),
            match r {
                Ok(t) => release_effect(
                    *old(self),
                    *final(self),
                    escrow_index(old(self).escrows@, escrow_id),
                    t,
                ),
                Err(e) => {
                    &&& *final(self) == *old(self)
                    &&& e == (if !has_escrow(old(self).escrows@, escrow_id) {
                        MarketError::NotFound
                    } else if old(self).escrow_at(escrow_id).buyer != caller {
                        MarketError::Unauthorized
                    } else {
                        MarketError::InvalidState
                    })
                },
            },
    {
        let i = match self.find_escrow(escrow_id) {
            Some(i) => i,
            None => {
                return Err(MarketError::NotFound);
            },
        };
        proof {
            lemma_escrow_index_agrees(*self, i as int, escrow_id);
        }
        if self.escrows[i].buyer != caller {
            return Err(MarketError::Unauthorized);
        }
        let pending = match self.escrows[i].status {
            EscrowStatus::Pending => true,
            _ => false,
        };
        if !pending {
            return Err(MarketError::InvalidState);
        }
        Ok(self.apply_release(i))
    }

    /// Anyone may settle a `Pending` escrow in the seller's favor once
    /// its lock period has elapsed; no caller identity is involved.
    pub fn auto_release(&mut self, now: u64, escrow_id: EscrowId) -> (r: Result<
        Transfer,
        MarketError,
    >)
        requires
            old(self).wf(),
        ensures
            final(self).wf(),
            escrows_step_ok(old(self).escrows@, final(self).escrows@),
            r is Ok <==> (has_escrow(old(self).escrows@, escrow_id) && old(self).escrow_at(
                escrow_id,
            ).status == EscrowStatus::Pending && now >= old(self).escrow_at(escrow_id).release_at),
            match r {
                Ok(t) => release_effect(
                    *old(self),
                    *final(self),
                    escrow_index(old(self).escrows@, escrow_id),
                    t,
                ),
                Err(e) => {
                    &&& *final(self) == *old(self)
                    &&& e == (if !has_escrow(old(self).escrows@, escrow_id) {
                        MarketError::NotFound
                    } else if old(self).escrow_at(escrow_id).status != EscrowStatus::Pending {
                        MarketError::InvalidState
                    } else {
                        MarketError::TooEarly
                    })
                },
            },
    {
        let i = match self.find_escrow(escrow_id) {
            Some(i) => i,
            None => {
                return Err(MarketError::NotFound);
            },
        };
        proof {
            lemma_escrow_index_agrees(*self, i as int, escrow_id);
        }
        let pending = match self.escrows[i].status {
            EscrowStatus::Pending => true,
            _ => false,
        };
        if !pending {
            return Err(MarketError::InvalidState);
        }
        if now < self.escrows[i].release_at {
            return Err(MarketError::TooEarly);
        }
        Ok(self.apply_release(i))
    }

    /// The buyer puts a `Pending` escrow under dispute, recording the
    /// reason and stopping the auto-release clock until the
    /// administrator resolves it.
    pub fn raise_dispute(&mut self, caller: AccountId, escrow_id: EscrowId, reason: String) -> (r:
        Result<(), MarketError>)
        requires
            old(self).wf(),
        ensures
            final(self).wf(),
            escrows_step_ok(old(self).escrows@, final(self).escrows@),
            r is Ok <==> (has_escrow(old(self).escrows@, escrow_id) && old(self).escrow_at(
                escrow_id,
            ).buyer == caller && old(self).escrow_at(escrow_id).status == EscrowStatus::Pending),
            match r {
                Ok(()) => {
                    &&& final(self).escrows@ == old(self).escrows@.update(
                        escrow_index(old(self).escrows@, escrow_id),
                        disputed_escrow(old(self).escrow_at(escrow_id), reason),
                    )
                    &&& final(self).purchases@ == old(self).purchases@
                    &&& final(self).datasets@ == old(self).datasets@
                    &&& final(self).owner == old(self).owner
                    &&& final(self).next_dataset_id == old(self).next_dataset_id
                    &&& final(self).marketplace_fee_percent == old(self).marketplace_fee_percent
                    &&& final(self).escrow_period_ns == old(self).escrow_period_ns
                    &&& final(self).accrued_fees == old(self).accrued_fees
                },
                Err(e) => {
                    &&& *final(self) == *old(self)
                    &&& e == (if !has_escrow(old(self).escrows@, escrow_id) {
                        MarketError::NotFound
                    } else if old(self).escrow_at(escrow_id).buyer != caller {
                        MarketError::Unauthorized
                    } else {
                        MarketError::InvalidState
                    })
                },
            },
    {
        let i = match self.find_escrow(escrow_id) {
            Some(i) => i,
            None => {
                return Err(MarketError::NotFound);
            },
        };
        proof {
            lemma_escrow_index_agrees(*self, i as int, escrow_id);
        }
        if self.escrows[i].buyer != caller {
            return Err(MarketError::Unauthorized);
        }
        let pending = match self.escrows[i].status {
            EscrowStatus::Pending => true,
            _ => false,
        };
        if !pending {
            return Err(MarketError::InvalidState);
        }
        let ghost pre = *self;
        let e_eid = self.escrows[i].escrow_id;
        let e_did = self.escrows[i].dataset_id;
        let e_buyer = self.escrows[i].buyer;
        let e_seller = self.escrows[i].seller;
        let e_amount = self.escrows[i].amount;
        let e_fee = self.escrows[i].fee;
        let e_created = self.escrows[i].created_at;
        let e_release = self.escrows[i].release_at;
        self.escrows[i] = Escrow {
            escrow_id: e_eid,
            dataset_id: e_did,
            buyer: e_buyer,
            seller: e_seller,
            amount: e_amount,
            fee: e_fee,
            status: EscrowStatus::Disputed,
            created_at: e_created,
            release_at: e_release,
            dispute_reason: Some(reason),
        };
        proof {
            lemma_dispute_preserves_wf(pre, *self, i as int);
        }
        Ok(())
    }

    /// The administrator settles a `Disputed` escrow: in the buyer's
    /// favor (full refund, fee waived, purchase record deleted) or in
    /// the seller's favor (exactly as a buyer confirmation would).
    pub fn resolve_dispute(
        &mut self,
        caller: AccountId,
        escrow_id: EscrowId,
        refund_buyer: bool,
    ) -> (r: Result<Transfer, MarketError>)
        requires
            old(self).wf(),
        ensures
            final(self).wf(),
            escrows_step_ok(old(self).escrows@, final(self).escrows@),
            r is Ok <==> (caller == old(self).owner && has_escrow(old(self).escrows@, escrow_id)
                && old(self).escrow_at(escrow_id).status == EscrowStatus::Disputed),
            match r {
                Ok(t) => {
                    if refund_buyer {
                        refund_effect(
                            *old(self),
                            *final(self),
                            escrow_index(old(self).escrows@, escrow_id),
                            t,
                        )
                    } else {
                        release_effect(
                            *old(self),
                            *final(self),
                            escrow_index(old(self).escrows@, escrow_id),
                            t,
                        )
                    }
                },
                Err(e) => {
                    &&& *final(self) == *old(self)
                    &&& e == (if caller != old(self).owner {
                        MarketError::Unauthorized
                    } else if !has_escrow(old(self).escrows@, escrow_id) {
                        MarketError::NotFound
                    } else {
                        MarketError::InvalidState
                    })
                },
            },
    {
        if caller != self.owner {
            return Err(MarketError::Unauthorized);
        }
        let i = match self.find_escrow(escrow_id) {
            Some(i) => i,
            None => {
                return Err(MarketError::NotFound);
            },
        };
        proof {
            lemma_escrow_index_agrees(*self, i as int, escrow_id);
        }
        let disputed = match self.escrows[i].status {
            EscrowStatus::Disputed => true,
            _ => false,
        };
        if !disputed {
            return Err(MarketError::InvalidState);
        }
        if refund_buyer {
            Ok(self.apply_refund(i))
        } else {
            Ok(self.apply_release(i))
        }
    }

    /// The common body of every settlement in the seller's favor.
    fn apply_release(&mut self, i: usize) -> (t: Transfer)
        requires
            old(self).wf(),
            i < old(self).escrows@.len(),
            is_live(old(self).escrows@[i as int].status),
        ensures
            final(self).wf(),
            release_effect(*old(self), *final(self), i as int, t),
            escrows_step_ok(old(self).escrows@, final(self).escrows@),
    {
        let ghost pre = *self;
        let e_eid = self.escrows[i].escrow_id;
        let e_did = self.escrows[i].dataset_id;
        let e_buyer = self.escrows[i].buyer;
        let e_seller = self.escrows[i].seller;
        let e_amount = self.escrows[i].amount;
        let e_fee = self.escrows[i].fee;
        let e_created = self.escrows[i].created_at;
        let e_release = self.escrows[i].release_at;
        self.escrows[i] = Escrow {
            escrow_id: e_eid,
            dataset_id: e_did,
            buyer: e_buyer,
            seller: e_seller,
            amount: e_amount,
            fee: e_fee,
            status: EscrowStatus::Released,
            created_at: e_created,
            release_at: e_release,
            dispute_reason: None,
        };
        proof {
            assert(self.escrows@ == pre.escrows@.update(
                i as int,
                released_escrow(pre.escrows@[i as int]),
            ));
        }
        let pj_opt = self.find_purchase(e_buyer, e_did);
        proof {
            let w = choose|w: int|
                0 <= w < pre.purchases@.len() && backs(
                    #[trigger] pre.purchases@[w],
                    pre.escrows@[i as int],
                );
            assert(purchase_keyed(self.purchases@[w], e_buyer, e_did));
            assert(has_purchase(self.purchases@, e_buyer, e_did));
        }
        let pj = match pj_opt {
            Some(j) => j,
            None => {
                proof {
                    assert(false);
                }
                0
            },
        };
        let mut pv = self.purchases[pj];
        pv.escrow_released = true;
        self.purchases[pj] = pv;
        proof {
            assert forall|k: int| 0 <= k < pre.purchases@.len() implies self.purchases@[k]
                == mark_released(pre.purchases@, e_buyer, e_did)[k] by {
                if k != pj as int {
                    if purchase_keyed(pre.purchases@[k], e_buyer, e_did) {
                        if k < pj as int {
                            assert(!purchase_keyed(
                                pre.purchases@[k],
                                pre.purchases@[pj as int].buyer,
                                pre.purchases@[pj as int].dataset_id,
                            ));
                        } else {
                            assert(!purchase_keyed(
                                pre.purchases@[pj as int],
                                pre.purchases@[k].buyer,
                                pre.purchases@[k].dataset_id,
                            ));
                        }
                    }
                }
            }
            assert(self.purchases@ =~= mark_released(pre.purchases@, e_buyer, e_did));
        }
        let dlen = self.datasets.len();
        proof {
            assert(pre.escrow_ok(pre.escrows@[i as int]));
            assert((dlen as int) == (self.next_dataset_id as int));
            assert((e_did as int) < (dlen as int));
        }
        let dj = e_did as usize;
        let cur = self.datasets[dj].downloads;
        let bumped = if cur == u32::MAX {
            u32::MAX
        } else {
            cur + 1
        };
        let dref = &mut self.datasets[dj];
        dref.downloads = bumped;
        proof {
            assert forall|k: int| 0 <= k < pre.datasets@.len() implies self.datasets@[k]
                == bump_downloads(pre.datasets@, e_did)[k] by {
                assert(pre.datasets@[k].id == k);
                if k == e_did as int {
                    assert(self.datasets@[k] == (Dataset {
                        downloads: bumped_downloads(pre.datasets@[k].downloads),
                        ..pre.datasets@[k]
                    }));
                }
            }
            assert(self.datasets@ =~= bump_downloads(pre.datasets@, e_did));
        }
        self.accrued_fees = if self.accrued_fees > Balance::MAX - e_fee {
            Balance::MAX
        } else {
            self.accrued_fees + e_fee
        };
        proof {
            lemma_release_preserves_wf(pre, *self, i as int);
        }
        Transfer { to: e_seller, amount: e_amount }
    }

    /// The body of a dispute resolved in the buyer's favor.
    fn apply_refund(&mut self, i: usize) -> (t: Transfer)
        requires
            old(self).wf(),
            i < old(self).escrows@.len(),
            is_live(old(self).escrows@[i as int].status),
        ensures
            final(self).wf(),
            refund_effect(*old(self), *final(self), i as int, t),
            escrows_step_ok(old(self).escrows@, final(self).escrows@),
    {
        let ghost pre = *self;
        let e_eid = self.escrows[i].escrow_id;
        let e_did = self.escrows[i].dataset_id;
        let e_buyer = self.escrows[i].buyer;
        let e_seller = self.escrows[i].seller;
        let e_amount = self.escrows[i].amount;
        let e_fee = self.escrows[i].fee;
        let e_created = self.escrows[i].created_at;
        let e_release = self.escrows[i].release_at;
        proof {
            assert(pre.escrow_ok(pre.escrows@[i as int]));
        }
        self.escrows[i] = Escrow {
            escrow_id: e_eid,
            dataset_id: e_did,
            buyer: e_buyer,
            seller: e_seller,
            amount: e_amount,
            fee: e_fee,
            status: EscrowStatus::Refunded,
            created_at: e_created,
            release_at: e_release,
            dispute_reason: None,
        };
        proof {
            assert(self.escrows@ == pre.escrows@.update(
                i as int,
                refunded_escrow(pre.escrows@[i as int]),
            ));
        }
        let pj_opt = self.find_purchase(e_buyer, e_did);
        proof {
            let w = choose|w: int|
                0 <= w < pre.purchases@.len() && backs(
                    #[trigger] pre.purchases@[w],
                    pre.escrows@[i as int],
                );
            assert(purchase_keyed(self.purchases@[w], e_buyer, e_did));
            assert(has_purchase(self.purchases@, e_buyer, e_did));
        }
        let pj = match pj_opt {
            Some(j) => j,
            None => {
                proof {
                    assert(false);
                }
                0
            },
        };
        self.purchases.remove(pj);
        proof {
            lemma_refund_preserves_wf(pre, *self, i as int, pj as int);
            let w = choose|w: int|
                0 <= w < pre.purchases@.len() && backs(
                    #[trigger] pre.purchases@[w],
                    pre.escrows@[i as int],
                );
            if w != pj as int {
                if w < pj as int {
                    assert(!purchase_keyed(
                        pre.purchases@[w],
                        pre.purchases@[pj as int].buyer,
                        pre.purchases@[pj as int].dataset_id,
                    ));
                } else {
                    assert(!purchase_keyed(
                        pre.purchases@[pj as int],
                        pre.purchases@[w].buyer,
                        pre.purchases@[w].dataset_id,
                    ));
                }
            }
            assert(backs(pre.purchases@[pj as int], pre.escrows@[i as int]));
        }
        Transfer { to: e_buyer, amount: e_amount + e_fee }
    }

    /// The administrator sets the fee percentage for escrows created
    /// from now on; existing escrows keep their frozen split.
    pub fn set_marketplace_fee(&mut self, caller: AccountId, fee_percent: u8) -> (r: Result<
        (),
        MarketError,
    >)
        requires
            old(self).wf(),
        ensures
            final(self).wf(),
            r is Ok <==> (caller == old(self).owner && fee_percent <= 10),
            match r {
                Ok(()) => *final(self) == (MarketplaceContract {
                    marketplace_fee_percent: fee_percent,
                    ..*old(self)
                }),
                Err(e) => {
                    &&& *final(self) == *old(self)
                    &&& e == (if caller != old(self).owner {
                        MarketError::Unauthorized
                    } else {
                        MarketError::InvalidParameter
                    })
                },
            },
    {
        if caller != self.owner {
            return Err(MarketError::Unauthorized);
        }
        if fee_percent > 10 {
            return Err(MarketError::InvalidParameter);
        }
        self.marketplace_fee_percent = fee_percent;
        proof {
            lemma_wf_params_only(*old(self), *self);
        }
        Ok(())
    }

    /// The administrator sets the escrow lock period, between one and
    /// thirty days; existing escrows keep their frozen schedule.
    pub fn set_escrow_period(&mut self, caller: AccountId, days: u64) -> (r: Result<
        (),
        MarketError,
    >)
        requires
            old(self).wf(),
        ensures
            final(self).wf(),
            r is Ok <==> (caller == old(self).owner && 1 <= days <= 30),
            match r {
                Ok(()) => *final(self) == (MarketplaceContract {
                    escrow_period_ns: (days * DAY_NS) as u64,
                    ..*old(self)
                }),
                Err(e) => {
                    &&& *final(self) == *old(self)
                    &&& e == (if caller != old(self).owner {
                        MarketError::Unauthorized
                    } else {
                        MarketError::InvalidParameter
                    })
                },
            },
    {
        if caller != self.owner {
            return Err(MarketError::Unauthorized);
        }
        if days < 1 || days > 30 {
            return Err(MarketError::InvalidParameter);
        }
        proof {
            assert(DAY_NS == 86_400_000_000_000);
            assert((days as int) * (DAY_NS as int) <= 30 * (DAY_NS as int)) by (nonlinear_arith)
                requires
                    1 <= days <= 30,
            ;
            assert((days as int) * (DAY_NS as int) >= 1 * (DAY_NS as int)) by (nonlinear_arith)
                requires
                    1 <= days <= 30,
            ;
        }
        self.escrow_period_ns = days * DAY_NS;
        proof {
            lemma_wf_params_only(*old(self), *self);
        }
        Ok(())
    }

    /// The administrator withdraws part of the accrued fee balance;
    /// no more than has accrued can leave, so refunded principal and
    /// fees never commingle.
    pub fn withdraw_fees(&mut self, caller: AccountId, amount: Balance) -> (r: Result<
        Transfer,
        MarketError,
    >)
        requires
            old(self).wf(),
        ensures
            final(self).wf(),
            r is Ok <==> (caller == old(self).owner && amount <= old(self).accrued_fees),
            match r {
                Ok(t) => {
                    &&& t == (Transfer { to: old(self).owner, amount })
                    &&& *final(self) == (MarketplaceContract {
                        accrued_fees: (old(self).accrued_fees - amount) as Balance,
                        ..*old(self)
                    })
                },
                Err(e) => {
                    &&& *final(self) == *old(self)
                    &&& e == (if caller != old(self).owner {
                        MarketError::Unauthorized
                    } else {
                        MarketError::InvalidParameter
                    })
                },
            },
    {
        if caller != self.owner {
            return Err(MarketError::Unauthorized);
        }
        if amount > self.accrued_fees {
            return Err(MarketError::InvalidParameter);
        }
        self.accrued_fees = self.accrued_fees - amount;
        proof {
            lemma_wf_params_only(*old(self), *self);
        }
        Ok(Transfer { to: caller, amount })
    }

    /// Returns a copy of the listing with this id, when it exists.
    pub fn get_dataset(&self, dataset_id: u64) -> (r: Option<Dataset>)
        requires
            self.wf(),
        ensures
            match r {
                Some(d) => dataset_id < self.next_dataset_id && d == self.datasets@[dataset_id as int],
                None => dataset_id >= self.next_dataset_id,
            },
    {
        if dataset_id >= self.next_dataset_id {
            return None;
        }
        let nlen = self.datasets.len();
        proof {
            assert((nlen as int) == (self.next_dataset_id as int));
            assert((dataset_id as int) < (nlen as int));
        }
        Some(clone_dataset(&self.datasets[dataset_id as usize]))
    }

    /// Returns copies of up to `limit` listings starting at
    /// `from_index`, in catalog order.
    pub fn get_datasets(&self, from_index: u64, limit: u64) -> (r: Vec<Dataset>)
        requires
            self.wf(),
        ensures
            r@ == listing_window(self.datasets@, from_index as int, limit as int),
    {
        let nlen = self.datasets.len();
        proof {
            assert((nlen as int) == (self.next_dataset_id as int));
        }
        let mut out: Vec<Dataset> = Vec::new();
        if from_index >= nlen as u64 {
            proof {
                assert(out@ =~= listing_window(self.datasets@, from_index as int, limit as int));
            }
            return out;
        }
        let start = from_index as usize;
        let end: usize = if limit > (nlen as u64 - from_index) {
            nlen
        } else {
            start + limit as usize
        };
        let mut k = start;
        while k < end
            invariant
                start <= k <= end <= self.datasets@.len(),
                out@.len() == k - start,
                forall|m: int| 0 <= m < out@.len() ==> #[trigger] out@[m] == self.datasets@[
                start + m],
            decreases end - k,
        {
            out.push(clone_dataset(&self.datasets[k]));
            k = k + 1;
        }
        proof {
            assert(out@ =~= listing_window(self.datasets@, from_index as int, limit as int));
        }
        out
    }

    /// Whether a purchase record exists for this buyer and listing,
    /// released or not.
    pub fn verify_purchase(&self, buyer: AccountId, dataset_id: u64) -> (r: bool)
        ensures
            r == has_purchase(self.purchases@, buyer, dataset_id),
    {
        match self.find_purchase(buyer, dataset_id) {
            Some(j) => {
                proof {
                    assert(purchase_keyed(self.purchases@[j as int], buyer, dataset_id));
                }
                true
            },
            None => false,
        }
    }

    /// Returns a copy of the escrow carrying this key, when it exists.
    pub fn get_escrow(&self, escrow_id: EscrowId) -> (r: Option<Escrow>)
        requires
            self.wf(),
        ensures
            match r {
                Some(e) => has_escrow(self.escrows@, escrow_id) && e == self.escrow_at(escrow_id),
                None => !has_escrow(self.escrows@, escrow_id),
            },
    {
        match self.find_escrow(escrow_id) {
            Some(i) => {
                proof {
                    lemma_escrow_index_agrees(*self, i as int, escrow_id);
                }
                Some(clone_escrow(&self.escrows[i]))
            },
            None => None,
        }
    }

    /// Returns the status of the escrow carrying this key, when it
    /// exists.
    pub fn get_escrow_status(&self, escrow_id: EscrowId) -> (r: Option<EscrowStatus>)
        requires
            self.wf(),
        ensures
            match r {
                Some(st) => has_escrow(self.escrows@, escrow_id) && st == self.escrow_at(
                    escrow_id,
                ).status,
                None => !has_escrow(self.escrows@, escrow_id),
            },
    {
        match self.find_escrow(escrow_id) {
            Some(i) => {
                proof {
                    lemma_escrow_index_agrees(*self, i as int, escrow_id);
                }
                Some(self.escrows[i].status)
            },
            None => None,
        }
    }

    /// The fee percentage currently in effect for new escrows.
    pub fn get_marketplace_fee(&self) -> (r: u8)
        ensures
            r == self.marketplace_fee_percent,
    {
        self.marketplace_fee_percent
    }

    /// The escrow lock period currently in effect, in whole days.
    pub fn get_escrow_period_days(&self) -> (r: u64)
        ensures
            r == self.escrow_period_ns / DAY_NS,
    {
        self.escrow_period_ns / DAY_NS
    }

    /// Finds the index of the purchase for this buyer and listing.
    fn find_purchase(&self, buyer: AccountId, dataset_id: u64) -> (r: Option<usize>)
        ensures
            match r {
                Some(j) => {
                    &&& j < self.purchases@.len()
                    &&& self.purchases@[j as int].buyer == buyer
                    &&& self.purchases@[j as int].dataset_id == dataset_id
                },
                None => !has_purchase(self.purchases@, buyer, dataset_id),
            },
    {
        let mut k: usize = 0;
        while k < self.purchases.len()
            invariant
                k <= self.purchases@.len(),
                forall|m: int|
                    0 <= m < k ==> !purchase_keyed(
                        #[trigger] self.purchases@[m],
                        buyer,
                        dataset_id,
                    ),
            decreases self.purchases@.len() - k,
        {
            if self.purchases[k].buyer == buyer && self.purchases[k].dataset_id == dataset_id {
                return Some(k);
            }
            k = k + 1;
        }
        None
    }

    /// Finds the index of the escrow carrying this key.
    fn find_escrow(&self, escrow_id: EscrowId) -> (r: Option<usize>)
        ensures
            match r {
                Some(j) => j < self.escrows@.len() && self.escrows@[j as int].escrow_id
                    == escrow_id,
                None => !has_escrow(self.escrows@, escrow_id),
            },
    {
        let mut k: usize = 0;
        while k < self.escrows.len()
            invariant
                k <= self.escrows@.len(),
                forall|m: int|
                    0 <= m < k ==> (#[trigger] self.escrows@[m]).escrow_id != escrow_id,
            decreases self.escrows@.len() - k,
        {
            if self.escrows[k].escrow_id == escrow_id {
                return Some(k);
            }
            k = k + 1;
        }
        None
    }
}

/// The one effect of every settlement in the seller's favor — buyer
/// confirmation, timeout release, and a dispute resolved against the
/// buyer all promise exactly this: escrow `i` becomes `Released`, its
/// purchase record is marked released, the listing's usage counter is
/// incremented, the fee accrues to the marketplace, and the seller is
/// owed the escrow's `amount`.
pub open spec fn release_effect(
    pre: MarketplaceContract,
    post: MarketplaceContract,
    i: int,
    t: Transfer,
) -> bool {
    &&& t == (Transfer { to: pre.escrows@[i].seller, amount: pre.escrows@[i].amount })
    &&& post.escrows@ == pre.escrows@.update(i, released_escrow(pre.escrows@[i]))
    &&& post.purchases@ == mark_released(
        pre.purchases@,
        pre.escrows@[i].buyer,
        pre.escrows@[i].dataset_id,
    )
    &&& post.datasets@ == bump_downloads(pre.datasets@, pre.escrows@[i].dataset_id)
    &&& post.accrued_fees == sat_add(pre.accrued_fees, pre.escrows@[i].fee)
    &&& post.owner == pre.owner
    &&& post.next_dataset_id == pre.next_dataset_id
    &&& post.marketplace_fee_percent == pre.marketplace_fee_percent
    &&& post.escrow_period_ns == pre.escrow_period_ns
}

/// The effect of a dispute resolved in the buyer's favor: escrow `i`
/// becomes `Refunded`, the purchase record under its key disappears
/// (freeing the buyer to purchase again), and the buyer is owed the
/// full original payment, fee included.
pub open spec fn refund_effect(
    pre: MarketplaceContract,
    post: MarketplaceContract,
    i: int,
    t: Transfer,
) -> bool {
    &&& t == (Transfer {
        to: pre.escrows@[i].buyer,
        amount: (pre.escrows@[i].amount + pre.escrows@[i].fee) as Balance,
    })
    &&& post.escrows@ == pre.escrows@.update(i, refunded_escrow(pre.escrows@[i]))
    &&& exists|j: int|
        0 <= j < pre.purchases@.len() && backs(#[trigger] pre.purchases@[j], pre.escrows@[i])
            && post.purchases@ == pre.purchases@.remove(j)
    &&& !has_purchase(post.purchases@, pre.escrows@[i].buyer, pre.escrows@[i].dataset_id)
    &&& post.datasets@ == pre.datasets@
    &&& post.accrued_fees == pre.accrued_fees
    &&& post.owner == pre.owner
    &&& post.next_dataset_id == pre.next_dataset_id
    &&& post.marketplace_fee_percent == pre.marketplace_fee_percent
    &&& post.escrow_period_ns == pre.escrow_period_ns
}

/// An explicit copy of a listing, equal to the original.
fn clone_dataset(d: &Dataset) -> (r: Dataset)
    ensures
        r == *d,
{
    Dataset {
        id: d.id,
        owner: d.owner,
        title: d.title.clone(),
        description: d.description.clone(),
        category: d.category.clone(),
        filecoin_cid: d.filecoin_cid.clone(),
        bio_validated: d.bio_validated,
        zk_proof_hash: d.zk_proof_hash.clone(),
        price: d.price,
        license: d.license.clone(),
        created_at: d.created_at,
        downloads: d.downloads,
    }
}

/// An explicit copy of a custody record, equal to the original.
fn clone_escrow(e: &Escrow) -> (r: Escrow)
    ensures
        r == *e,
{
    Escrow {
        escrow_id: e.escrow_id,
        dataset_id: e.dataset_id,
        buyer: e.buyer,
        seller: e.seller,
        amount: e.amount,
        fee: e.fee,
        status: e.status,
        created_at: e.created_at,
        release_at: e.release_at,
        dispute_reason: match &e.dispute_reason {
            Some(s) => Some(s.clone()),
            None => None,
        },
    }
}

/// A change to the marketplace parameters alone — tables untouched,
/// new values in bounds — keeps the marketplace well-formed.
proof fn lemma_wf_params_only(pre: MarketplaceContract, post: MarketplaceContract)
    requires
        pre.wf(),
        post.datasets@ == pre.datasets@,
        post.purchases@ == pre.purchases@,
        post.escrows@ == pre.escrows@,
        post.next_dataset_id == pre.next_dataset_id,
        post.marketplace_fee_percent <= 10,
        DAY_NS <= post.escrow_period_ns <= 30 * DAY_NS,
    ensures
        post.wf(),
{
    assert(post.datasets_ok()) by {
        assert forall|k: int| 0 <= k < post.datasets@.len() implies (#[trigger] post.datasets@[
        k]).id == k by {
            assert(pre.datasets@[k].id == k);
        }
    }
    assert(post.purchase_keys_unique()) by {
        assert forall|a: int, b: int| 0 <= a < b < post.purchases@.len() implies !purchase_keyed(
            #[trigger] post.purchases@[a],
            (#[trigger] post.purchases@[b]).buyer,
            post.purchases@[b].dataset_id,
        ) by {
            assert(!purchase_keyed(
                pre.purchases@[a],
                pre.purchases@[b].buyer,
                pre.purchases@[b].dataset_id,
            ));
        }
    }
    assert(post.escrows_ok()) by {
        assert forall|k: int| 0 <= k < post.escrows@.len() implies post.escrow_ok(
            #[trigger] post.escrows@[k],
        ) by {
            assert(pre.escrow_ok(pre.escrows@[k]));
        }
        assert forall|a: int, b: int| 0 <= a < b < post.escrows@.len() implies (
        #[trigger] post.escrows@[a]).escrow_id != (#[trigger] post.escrows@[b]).escrow_id by {
            assert(pre.escrows@[a].escrow_id != pre.escrows@[b].escrow_id);
        }
        assert forall|a: int, b: int|
            0 <= a < b < post.escrows@.len() && is_live((#[trigger] post.escrows@[a]).status)
                && is_live((#[trigger] post.escrows@[b]).status) implies !(post.escrows@[a].buyer
            == post.escrows@[b].buyer && post.escrows@[a].dataset_id
            == post.escrows@[b].dataset_id) by {
            assert(is_live(pre.escrows@[a].status) && is_live(pre.escrows@[b].status));
        }
    }
    assert(post.live_escrow_backed()) by {
        assert forall|i: int|
            0 <= i < post.escrows@.len() && is_live(
                (#[trigger] post.escrows@[i]).status,
            ) implies exists|j: int|
            0 <= j < post.purchases@.len() && backs(
                #[trigger] post.purchases@[j],
                post.escrows@[i],
            ) by {
            assert(is_live(pre.escrows@[i].status));
            let w = choose|w: int|
                0 <= w < pre.purchases@.len() && backs(
                    #[trigger] pre.purchases@[w],
                    pre.escrows@[i],
                );
            assert(backs(post.purchases@[w], post.escrows@[i]));
        }
    }
}

/// Under `wf`, an index whose escrow carries a key is the one and
/// only index `escrow_index` denotes for that key.
proof fn lemma_escrow_index_agrees(c: MarketplaceContract, i: int, id: EscrowId)
    requires
        c.wf(),
        0 <= i < c.escrows@.len(),
        c.escrows@[i].escrow_id == id,
    ensures
        has_escrow(c.escrows@, id),
        escrow_index(c.escrows@, id) == i,
{
    assert(has_escrow(c.escrows@, id));
    let w = escrow_index(c.escrows@, id);
    assert(0 <= w < c.escrows@.len() && c.escrows@[w].escrow_id == id);
    if w != i {
        if w < i {
            assert(c.escrows@[w].escrow_id != c.escrows@[i].escrow_id);
        } else {
            assert(c.escrows@[i].escrow_id != c.escrows@[w].escrow_id);
        }
    }
}

/// Putting escrow `i` under dispute keeps the marketplace well-formed
/// and moves no other escrow.
proof fn lemma_dispute_preserves_wf(pre: MarketplaceContract, post: MarketplaceContract, i: int)
    requires
        pre.wf(),
        0 <= i < pre.escrows@.len(),
        pre.escrows@[i].status == EscrowStatus::Pending,
        post.escrows@[i].status == EscrowStatus::Disputed,
        post.escrows@[i].dispute_reason is Some,
        post.escrows@.len() == pre.escrows@.len(),
        forall|k: int| 0 <= k < pre.escrows@.len() && k != i ==> post.escrows@[k]
            == #[trigger] pre.escrows@[k],
        post.escrows@[i] == (Escrow {
            status: EscrowStatus::Disputed,
            dispute_reason: post.escrows@[i].dispute_reason,
            ..pre.escrows@[i]
        }),
        post.purchases@ == pre.purchases@,
        post.datasets@ == pre.datasets@,
        post.next_dataset_id == pre.next_dataset_id,
        post.marketplace_fee_percent == pre.marketplace_fee_percent,
        post.escrow_period_ns == pre.escrow_period_ns,
    ensures
        post.wf(),
        escrows_step_ok(pre.escrows@, post.escrows@),
{
    assert(post.datasets_ok()) by {
        assert forall|k: int| 0 <= k < post.datasets@.len() implies (#[trigger] post.datasets@[
        k]).id == k by {
            assert(pre.datasets@[k].id == k);
        }
    }
    assert(post.purchase_keys_unique()) by {
        assert forall|a: int, b: int| 0 <= a < b < post.purchases@.len() implies !purchase_keyed(
            #[trigger] post.purchases@[a],
            (#[trigger] post.purchases@[b]).buyer,
            post.purchases@[b].dataset_id,
        ) by {
            assert(!purchase_keyed(
                pre.purchases@[a],
                pre.purchases@[b].buyer,
                pre.purchases@[b].dataset_id,
            ));
        }
    }
    assert(post.escrows_ok()) by {
        assert forall|k: int| 0 <= k < post.escrows@.len() implies post.escrow_ok(
            #[trigger] post.escrows@[k],
        ) by {
            assert(pre.escrow_ok(pre.escrows@[k]));
        }
        assert forall|a: int, b: int| 0 <= a < b < post.escrows@.len() implies (
        #[trigger] post.escrows@[a]).escrow_id != (#[trigger] post.escrows@[b]).escrow_id by {
            assert(pre.escrows@[a].escrow_id != pre.escrows@[b].escrow_id);
        }
        assert forall|a: int, b: int|
            0 <= a < b < post.escrows@.len() && is_live((#[trigger] post.escrows@[a]).status)
                && is_live((#[trigger] post.escrows@[b]).status) implies !(post.escrows@[a].buyer
            == post.escrows@[b].buyer && post.escrows@[a].dataset_id
            == post.escrows@[b].dataset_id) by {
            assert(is_live(pre.escrows@[a].status) && is_live(pre.escrows@[b].status));
        }
    }
    assert(post.live_escrow_backed()) by {
        assert forall|k: int|
            0 <= k < post.escrows@.len() && is_live(
                (#[trigger] post.escrows@[k]).status,
            ) implies exists|j: int|
            0 <= j < post.purchases@.len() && backs(
                #[trigger] post.purchases@[j],
                post.escrows@[k],
            ) by {
            assert(is_live(pre.escrows@[k].status));
            let w = choose|w: int|
                0 <= w < pre.purchases@.len() && backs(
                    #[trigger] pre.purchases@[w],
                    pre.escrows@[k],
                );
            assert(post.purchases@[w] == pre.purchases@[w]);
            assert(backs(post.purchases@[w], post.escrows@[k]));
        }
    }
    assert(escrows_step_ok(pre.escrows@, post.escrows@));
}

/// Settling escrow `i` in the seller's favor keeps the marketplace
/// well-formed, and moves no other escrow.
proof fn lemma_release_preserves_wf(pre: MarketplaceContract, post: MarketplaceContract, i: int)
    requires
        pre.wf(),
        0 <= i < pre.escrows@.len(),
        is_live(pre.escrows@[i].status),
        post.escrows@ == pre.escrows@.update(i, released_escrow(pre.escrows@[i])),
        post.purchases@ == mark_released(
            pre.purchases@,
            pre.escrows@[i].buyer,
            pre.escrows@[i].dataset_id,
        ),
        post.datasets@ == bump_downloads(pre.datasets@, pre.escrows@[i].dataset_id),
        post.next_dataset_id == pre.next_dataset_id,
        post.marketplace_fee_percent == pre.marketplace_fee_percent,
        post.escrow_period_ns == pre.escrow_period_ns,
    ensures
        post.wf(),
        escrows_step_ok(pre.escrows@, post.escrows@),
{
    let eb = pre.escrows@[i].buyer;
    let ed = pre.escrows@[i].dataset_id;
    assert(post.datasets_ok()) by {
        assert forall|k: int| 0 <= k < post.datasets@.len() implies (#[trigger] post.datasets@[
        k]).id == k by {
            assert(pre.datasets@[k].id == k);
        }
    }
    assert(post.purchase_keys_unique()) by {
        assert forall|a: int, b: int| 0 <= a < b < post.purchases@.len() implies !purchase_keyed(
            #[trigger] post.purchases@[a],
            (#[trigger] post.purchases@[b]).buyer,
            post.purchases@[b].dataset_id,
        ) by {
            assert(!purchase_keyed(
                pre.purchases@[a],
                pre.purchases@[b].buyer,
                pre.purchases@[b].dataset_id,
            ));
        }
    }
    assert(post.escrows_ok()) by {
        assert forall|k: int| 0 <= k < post.escrows@.len() implies post.escrow_ok(
            #[trigger] post.escrows@[k],
        ) by {
            assert(pre.escrow_ok(pre.escrows@[k]));
            if k == i {
                assert(post.escrows@[k] == released_escrow(pre.escrows@[i]));
            }
        }
        assert forall|a: int, b: int| 0 <= a < b < post.escrows@.len() implies (
        #[trigger] post.escrows@[a]).escrow_id != (#[trigger] post.escrows@[b]).escrow_id by {
            assert(pre.escrows@[a].escrow_id != pre.escrows@[b].escrow_id);
        }
        assert forall|a: int, b: int|
            0 <= a < b < post.escrows@.len() && is_live((#[trigger] post.escrows@[a]).status)
                && is_live((#[trigger] post.escrows@[b]).status) implies !(post.escrows@[a].buyer
            == post.escrows@[b].buyer && post.escrows@[a].dataset_id
            == post.escrows@[b].dataset_id) by {
            assert(a != i && b != i);
            assert(is_live(pre.escrows@[a].status) && is_live(pre.escrows@[b].status));
        }
    }
    assert(post.live_escrow_backed()) by {
        assert forall|k: int|
            0 <= k < post.escrows@.len() && is_live(
                (#[trigger] post.escrows@[k]).status,
            ) implies exists|j: int|
            0 <= j < post.purchases@.len() && backs(
                #[trigger] post.purchases@[j],
                post.escrows@[k],
            ) by {
            assert(k != i);
            assert(is_live(pre.escrows@[k].status));
            let w = choose|w: int|
                0 <= w < pre.purchases@.len() && backs(
                    #[trigger] pre.purchases@[w],
                    pre.escrows@[k],
                );
            if k < i {
                assert(!(pre.escrows@[k].buyer == pre.escrows@[i].buyer
                    && pre.escrows@[k].dataset_id == pre.escrows@[i].dataset_id));
            } else {
                assert(!(pre.escrows@[i].buyer == pre.escrows@[k].buyer
                    && pre.escrows@[i].dataset_id == pre.escrows@[k].dataset_id));
            }
            assert(!purchase_keyed(pre.purchases@[w], eb, ed));
            assert(post.purchases@[w] == pre.purchases@[w]);
            assert(backs(post.purchases@[w], post.escrows@[k]));
        }
    }
    assert(escrows_step_ok(pre.escrows@, post.escrows@)) by {
        assert forall|k: int| 0 <= k < pre.escrows@.len() && k != i implies post.escrows@[k]
            == #[trigger] pre.escrows@[k] by {}
        assert(!is_terminal(pre.escrows@[i].status));
    }
}

/// Refunding escrow `i` keeps the marketplace well-formed: the one
/// purchase record backing it goes away and every other escrow stays
/// as it was.
proof fn lemma_refund_preserves_wf(
    pre: MarketplaceContract,
    post: MarketplaceContract,
    i: int,
    j: int,
)
    requires
        pre.wf(),
        0 <= i < pre.escrows@.len(),
        is_live(pre.escrows@[i].status),
        0 <= j < pre.purchases@.len(),
        purchase_keyed(pre.purchases@[j], pre.escrows@[i].buyer, pre.escrows@[i].dataset_id),
        post.escrows@ == pre.escrows@.update(i, refunded_escrow(pre.escrows@[i])),
        post.purchases@ == pre.purchases@.remove(j),
        post.datasets@ == pre.datasets@,
        post.next_dataset_id == pre.next_dataset_id,
        post.marketplace_fee_percent == pre.marketplace_fee_percent,
        post.escrow_period_ns == pre.escrow_period_ns,
    ensures
        post.wf(),
        escrows_step_ok(pre.escrows@, post.escrows@),
        !has_purchase(post.purchases@, pre.escrows@[i].buyer, pre.escrows@[i].dataset_id),
{
    let eb = pre.escrows@[i].buyer;
    let ed = pre.escrows@[i].dataset_id;
    pre.purchases@.remove_ensures(j);
    assert(post.datasets_ok()) by {
        assert forall|k: int| 0 <= k < post.datasets@.len() implies (#[trigger] post.datasets@[
        k]).id == k by {
            assert(pre.datasets@[k].id == k);
        }
    }
    assert(post.purchase_keys_unique()) by {
        assert forall|a: int, b: int| 0 <= a < b < post.purchases@.len() implies !purchase_keyed(
            #[trigger] post.purchases@[a],
            (#[trigger] post.purchases@[b]).buyer,
            post.purchases@[b].dataset_id,
        ) by {
            let a0 = if a < j {
                a
            } else {
                a + 1
            };
            let b0 = if b < j {
                b
            } else {
                b + 1
            };
            assert(post.purchases@[a] == pre.purchases@[a0]);
            assert(post.purchases@[b] == pre.purchases@[b0]);
            assert(!purchase_keyed(
                pre.purchases@[a0],
                pre.purchases@[b0].buyer,
                pre.purchases@[b0].dataset_id,
            ));
        }
    }
    assert(!has_purchase(post.purchases@, eb, ed)) by {
        assert forall|k: int| 0 <= k < post.purchases@.len() implies !purchase_keyed(
            #[trigger] post.purchases@[k],
            eb,
            ed,
        ) by {
            let k0 = if k < j {
                k
            } else {
                k + 1
            };
            assert(post.purchases@[k] == pre.purchases@[k0]);
            if purchase_keyed(pre.purchases@[k0], eb, ed) {
                if k0 < j {
                    assert(!purchase_keyed(
                        pre.purchases@[k0],
                        pre.purchases@[j].buyer,
                        pre.purchases@[j].dataset_id,
                    ));
                } else {
                    assert(!purchase_keyed(
                        pre.purchases@[j],
                        pre.purchases@[k0].buyer,
                        pre.purchases@[k0].dataset_id,
                    ));
                }
            }
        }
    }
    assert(post.escrows_ok()) by {
        assert forall|k: int| 0 <= k < post.escrows@.len() implies post.escrow_ok(
            #[trigger] post.escrows@[k],
        ) by {
            assert(pre.escrow_ok(pre.escrows@[k]));
            if k == i {
                assert(post.escrows@[k] == refunded_escrow(pre.escrows@[i]));
            }
        }
        assert forall|a: int, b: int| 0 <= a < b < post.escrows@.len() implies (
        #[trigger] post.escrows@[a]).escrow_id != (#[trigger] post.escrows@[b]).escrow_id by {
            assert(pre.escrows@[a].escrow_id != pre.escrows@[b].escrow_id);
        }
        assert forall|a: int, b: int|
            0 <= a < b < post.escrows@.len() && is_live((#[trigger] post.escrows@[a]).status)
                && is_live((#[trigger] post.escrows@[b]).status) implies !(post.escrows@[a].buyer
            == post.escrows@[b].buyer && post.escrows@[a].dataset_id
            == post.escrows@[b].dataset_id) by {
            assert(a != i && b != i);
            assert(is_live(pre.escrows@[a].status) && is_live(pre.escrows@[b].status));
        }
    }
    assert(post.live_escrow_backed()) by {
        assert forall|k: int|
            0 <= k < post.escrows@.len() && is_live(
                (#[trigger] post.escrows@[k]).status,
            ) implies exists|m: int|
            0 <= m < post.purchases@.len() && backs(
                #[trigger] post.purchases@[m],
                post.escrows@[k],
            ) by {
            assert(k != i);
            assert(is_live(pre.escrows@[k].status));
            let w = choose|w: int|
                0 <= w < pre.purchases@.len() && backs(
                    #[trigger] pre.purchases@[w],
                    pre.escrows@[k],
                );
            if k < i {
                assert(!(pre.escrows@[k].buyer == pre.escrows@[i].buyer
                    && pre.escrows@[k].dataset_id == pre.escrows@[i].dataset_id));
            } else {
                assert(!(pre.escrows@[i].buyer == pre.escrows@[k].buyer
                    && pre.escrows@[i].dataset_id == pre.escrows@[k].dataset_id));
            }
            assert(!purchase_keyed(pre.purchases@[w], eb, ed));
            assert(w != j);
            let w1 = if w < j {
                w
            } else {
                w - 1
            };
            assert(post.purchases@[w1] == pre.purchases@[w]);
            assert(backs(post.purchases@[w1], post.escrows@[k]));
        }
    }
    assert(escrows_step_ok(pre.escrows@, post.escrows@)) by {
        assert forall|k: int| 0 <= k < pre.escrows@.len() && k != i implies post.escrows@[k]
            == #[trigger] pre.escrows@[k] by {}
        assert(!is_terminal(pre.escrows@[i].status));
    }
}

/// The fee never exceeds the price it is charged on, at any
/// percentage up to one hundred.
pub proof fn lemma_fee_of_bounds(price: Balance, percent: u8)
    requires
        percent <= 100,
    ensures
        0 <= fee_of(price, percent) <= price,
{
    let p = price as int;
    let ff = percent as int;
    assert(0 <= p * ff <= p * 100) by (nonlinear_arith)
        requires
            0 <= p,
            0 <= ff <= 100,
    ;
    lemma_div_is_ordered(0, p * ff, 100);
    lemma_div_is_ordered(p * ff, p * 100, 100);
    lemma_div_multiples_vanish(p, 100);
    assert(p * 100 == 100 * p) by (nonlinear_arith);
}

/// A rejected purchase changes nothing; an accepted one appends one
/// escrow and one purchase, and the marketplace stays well-formed.
proof fn lemma_purchase_preserves_wf(
    pre: MarketplaceContract,
    post: MarketplaceContract,
    buyer: AccountId,
    now: u64,
    dataset_id: u64,
)
    requires
        pre.wf(),
        dataset_id < pre.next_dataset_id,
        now + pre.escrow_period_ns <= u64::MAX,
        !has_purchase(pre.purchases@, buyer, dataset_id),
        !has_escrow(pre.escrows@, (EscrowId { dataset_id, buyer, created_at: now })),
        post.escrows@ == pre.escrows@.push(pre.new_escrow(buyer, now, dataset_id)),
        post.purchases@ == pre.purchases@.push(pre.new_purchase(buyer, now, dataset_id)),
        post.datasets@ == pre.datasets@,
        post.next_dataset_id == pre.next_dataset_id,
        post.marketplace_fee_percent == pre.marketplace_fee_percent,
        post.escrow_period_ns == pre.escrow_period_ns,
    ensures
        post.wf(),
        escrows_step_ok(pre.escrows@, post.escrows@),
{
    let e = pre.new_escrow(buyer, now, dataset_id);
    let p = pre.new_purchase(buyer, now, dataset_id);
    let en = pre.escrows@.len() as int;
    let pn = pre.purchases@.len() as int;
    lemma_fee_of_bounds(pre.datasets@[dataset_id as int].price, pre.marketplace_fee_percent);
    assert(post.datasets_ok()) by {
        assert forall|i: int| 0 <= i < post.datasets@.len() implies (#[trigger] post.datasets@[
        i]).id == i by {
            assert(pre.datasets@[i].id == i);
        }
    }
    assert(post.purchase_keys_unique()) by {
        assert forall|i: int, j: int| 0 <= i < j < post.purchases@.len() implies !purchase_keyed(
            #[trigger] post.purchases@[i],
            (#[trigger] post.purchases@[j]).buyer,
            post.purchases@[j].dataset_id,
        ) by {
            if j < pn {
                assert(!purchase_keyed(
                    pre.purchases@[i],
                    pre.purchases@[j].buyer,
                    pre.purchases@[j].dataset_id,
                ));
            } else {
                assert(post.purchases@[j] == p);
                assert(post.purchases@[i] == pre.purchases@[i]);
                if purchase_keyed(pre.purchases@[i], buyer, dataset_id) {
                    assert(has_purchase(pre.purchases@, buyer, dataset_id));
                }
            }
        }
    }
    assert(post.escrows_ok()) by {
        assert(post.escrow_ok(e));
        assert forall|i: int| 0 <= i < post.escrows@.len() implies post.escrow_ok(
            #[trigger] post.escrows@[i],
        ) by {
            if i < en {
                assert(pre.escrow_ok(pre.escrows@[i]));
            } else {
                assert(post.escrows@[i] == e);
            }
        }
        assert forall|i: int, j: int| 0 <= i < j < post.escrows@.len() implies (
        #[trigger] post.escrows@[i]).escrow_id != (#[trigger] post.escrows@[j]).escrow_id by {
            if j < en {
                assert(pre.escrows@[i].escrow_id != pre.escrows@[j].escrow_id);
            } else {
                assert(post.escrows@[j] == e);
                if pre.escrows@[i].escrow_id == e.escrow_id {
                    assert(has_escrow(pre.escrows@, e.escrow_id));
                }
            }
        }
        assert forall|i: int, j: int|
            0 <= i < j < post.escrows@.len() && is_live((#[trigger] post.escrows@[i]).status)
                && is_live((#[trigger] post.escrows@[j]).status) implies !(post.escrows@[i].buyer
            == post.escrows@[j].buyer && post.escrows@[i].dataset_id
            == post.escrows@[j].dataset_id) by {
            if j < en {
                assert(!(pre.escrows@[i].buyer == pre.escrows@[j].buyer
                    && pre.escrows@[i].dataset_id == pre.escrows@[j].dataset_id));
            } else {
                assert(post.escrows@[j] == e);
                if pre.escrows@[i].buyer == buyer && pre.escrows@[i].dataset_id == dataset_id {
                    assert(is_live(pre.escrows@[i].status));
                    let w = choose|w: int|
                        0 <= w < pre.purchases@.len() && backs(
                            #[trigger] pre.purchases@[w],
                            pre.escrows@[i],
                        );
                    assert(purchase_keyed(pre.purchases@[w], buyer, dataset_id));
                    assert(has_purchase(pre.purchases@, buyer, dataset_id));
                }
            }
        }
    }
    assert(post.live_escrow_backed()) by {
        assert forall|i: int|
            0 <= i < post.escrows@.len() && is_live(
                (#[trigger] post.escrows@[i]).status,
            ) implies exists|j: int|
            0 <= j < post.purchases@.len() && backs(
                #[trigger] post.purchases@[j],
                post.escrows@[i],
            ) by {
            if i < en {
                assert(is_live(pre.escrows@[i].status));
                let w = choose|w: int|
                    0 <= w < pre.purchases@.len() && backs(
                        #[trigger] pre.purchases@[w],
                        pre.escrows@[i],
                    );
                assert(post.purchases@[w] == pre.purchases@[w]);
                assert(backs(post.purchases@[w], post.escrows@[i]));
            } else {
                assert(post.escrows@[i] == e);
                assert(post.purchases@[pn] == p);
                assert(backs(post.purchases@[pn], post.escrows@[i]));
            }
        }
    }
    assert(escrows_step_ok(pre.escrows@, post.escrows@)) by {
        assert forall|i: int| 0 <= i < en implies post.escrows@[i] == #[trigger] pre.escrows@[
        i] by {}
    }
}

/// Computes the marketplace fee, `floor(price * percent / 100)`,
/// exactly for every representable price, by splitting the price into
/// its hundreds and its remainder so that no intermediate product
/// overflows.
pub fn compute_fee(price: Balance, percent: u8) -> (fee: Balance)
    requires
        percent <= 10,
    ensures
        fee == fee_of(price, percent),
        fee <= price,
{
    let q: u128 = price / 100;
    let r: u128 = price % 100;
    let f: u128 = percent as u128;
    proof {
        let p = price as int;
        let ff = percent as int;
        lemma_fundamental_div_mod(p, 100);
        lemma_mod_bound(p, 100);
        lemma_div_is_ordered(0, p, 100);
        assert(100 * (p / 100) <= p);
        assert((p / 100) * ff + ((p % 100) * ff) / 100 == (p * ff) / 100 && (p / 100) * ff <= p
            && ((p % 100) * ff) / 100 < 10) by {
            let qq = p / 100;
            let rr = p % 100;
            assert(rr * ff + (qq * ff) * 100 == p * ff) by (nonlinear_arith)
                requires
                    p == 100 * qq + rr,
            ;
            lemma_hoist_over_denominator(rr * ff, qq * ff, 100);
            assert(rr * ff < 1000) by (nonlinear_arith)
                requires
                    0 <= rr < 100,
                    0 <= ff <= 10,
            ;
            lemma_div_is_ordered(rr * ff, 999, 100);
            assert(qq * ff <= p) by (nonlinear_arith)
                requires
                    100 * qq <= p,
                    0 <= qq,
                    0 <= ff <= 10,
            ;
        }
        assert((p * ff) / 100 <= p) by {
            assert(p * ff <= p * 100) by (nonlinear_arith)
                requires
                    0 <= p,
                    0 <= ff <= 10,
            ;
            lemma_div_is_ordered(p * ff, p * 100, 100);
            lemma_div_multiples_vanish(p, 100);
            assert(p * 100 == 100 * p) by (nonlinear_arith);
        }
    }
    q * f + (r * f) / 100
}

} // verus!
