//! The settlement engine's `fulfill` operation: settle and destroy an escrow.

use vstd::prelude::*;
use crate::error::ErrorCode;
use crate::escrow::{JoinTrade, lemma_record_index_agrees, lemma_remove_record};
use crate::ledger::{
    Authority, TokenRef, balance, can_debit, holds_key, lemma_alloc, lemma_with_balance,
    user_address,
};
use crate::market::Market;
use crate::model::{fulfill_fits, fulfill_outcome};

verus! {

impl JoinTrade {
    /// Fulfill an escrow in one atomic step: validate the reference, the
    /// mints and the vault against the record, move the required amount of
    /// asset B from the taker to the maker's receiving account, move the
    /// entire live vault balance of asset A to the taker's receiving
    /// account (authorized by the escrow's derived authority, reproduced
    /// from the record's own fields), and destroy the record.  Any failure
    /// happens before anything moves and leaves the market untouched, with
    /// the exact error the outcome function names.
    pub fn execute_swap(&self, market: &mut Market) -> (r: Result<(), ErrorCode>)
        requires
            old(market).wf(),
            fulfill_fits(old(market).records@, old(market).ledger.accounts@, *self),
        ensures
            final(market).wf(),
            ({
                let (rs, accs, res) = fulfill_outcome(
                    old(market).records@, old(market).ledger.accounts@, *self,
                );
                &&& final(market).records@ == rs
                &&& final(market).ledger.accounts@ == accs
                &&& r == res
            }),
    {
        let ghost rs0 = market.records@;
        let ghost a0 = market.ledger.accounts@;
        let idx: usize = match market.find_record(self.maker, self.seed) {
            Some(i) => i,
            None => {
                return Err(ErrorCode::RecordNotFound);
            },
        };
        proof {
            lemma_record_index_agrees(rs0, self.maker, self.seed, idx as int);
        }
        let rec = market.records[idx];
        if self.mint_a != rec.mint_a || self.mint_b != rec.mint_b || self.vault != rec.vault_a {
            return Err(ErrorCode::AssetMismatch);
        }
        let source_b = TokenRef { owner: Authority::User(self.buyer), mint: rec.mint_b };
        let sufficient: bool = match market.ledger.balance_of(source_b) {
            Some(v) => v >= rec.receive_amt,
            None => false,
        };
        proof {
            assert(source_b == user_address(self.buyer, rec.mint_b));
            assert(sufficient == can_debit(a0, source_b, rec.receive_amt));
        }
        if !sufficient {
            return Err(ErrorCode::InsufficientFunds);
        }

        // Leg one: the taker pays the maker the required amount of asset B.
        let maker_recv = TokenRef { owner: Authority::User(rec.maker), mint: rec.mint_b };
        proof {
            lemma_alloc(a0, maker_recv);
        }
        market.ledger.ensure_account(maker_recv);
        let ghost a1 = market.ledger.accounts@;
        proof {
            assert(can_debit(a1, source_b, rec.receive_amt));
            lemma_with_balance(a1, source_b, (balance(a1, source_b) - rec.receive_amt) as u64);
        }
        market.ledger.debit(source_b, rec.receive_amt);
        let ghost a2 = market.ledger.accounts@;
        proof {
            lemma_with_balance(a2, maker_recv, (balance(a2, maker_recv) + rec.receive_amt) as u64);
        }
        market.ledger.credit(maker_recv, rec.receive_amt);
        let ghost a3 = market.ledger.accounts@;

        // Leg two: the entire live vault balance of asset A goes to the
        // taker, authorized by the escrow's own derived authority.
        proof {
            assert(holds_key(a0, rec.vault_a));
            assert(holds_key(a3, rec.vault_a));
        }
        let vault_amt: u64 = match market.ledger.balance_of(rec.vault_a) {
            Some(v) => v,
            None => {
                proof {
                    assert(false);
                }
                0
            },
        };
        let taker_recv = TokenRef { owner: Authority::User(self.buyer), mint: rec.mint_a };
        proof {
            lemma_alloc(a3, taker_recv);
        }
        market.ledger.ensure_account(taker_recv);
        let ghost a4 = market.ledger.accounts@;
        proof {
            assert(can_debit(a4, rec.vault_a, vault_amt));
            lemma_with_balance(a4, rec.vault_a, (balance(a4, rec.vault_a) - vault_amt) as u64);
        }
        market.ledger.debit(rec.vault_a, vault_amt);
        let ghost a5 = market.ledger.accounts@;
        proof {
            lemma_with_balance(a5, taker_recv, (balance(a5, taker_recv) + vault_amt) as u64);
        }
        market.ledger.credit(taker_recv, vault_amt);
        let ghost a6 = market.ledger.accounts@;

        // Destroy the record: fulfillment is its only destructor.
        let _removed = market.records.remove(idx);
        proof {
            lemma_remove_record(rs0, idx as int);
            let rs = market.records@;
            assert forall|i: int| 0 <= i < rs.len() implies
                (#[trigger] rs[i]).wf() && holds_key(a6, rs[i].vault_a)
            by {
                let i0 = if i < idx as int { i } else { i + 1 };
                assert(rs[i] == rs0[i0]);
                assert(holds_key(a0, rs0[i0].vault_a));
                assert(holds_key(a1, rs0[i0].vault_a));
                assert(holds_key(a3, rs0[i0].vault_a));
                assert(holds_key(a4, rs0[i0].vault_a));
            }
        }
        Ok(())
    }
}

} // verus!
