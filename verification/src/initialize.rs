//! The record manager's `open` operation: create and fund an escrow.

use vstd::prelude::*;
use crate::constants::DERIVATION_BUMP;
use crate::error::ErrorCode;
use crate::escrow::{Escrow, Initialize, derive_authority, has_record, new_record, record_key};
use crate::ledger::{
    Authority, TokenRef, balance, can_debit, holds_key, lemma_alloc, lemma_with_balance,
    user_address,
};
use crate::market::Market;
use crate::model::{open_fits, open_outcome};

verus! {

impl Initialize {
    /// Open an escrow: derive the record's and the vault's addresses from
    /// `(maker, seed)`, check that no record already lives there, move
    /// `deposit_amt` of asset A from the maker's source account into the
    /// vault, and append the new record — or fail with the exact error the
    /// outcome function names, leaving the market untouched.
    pub fn create_escrow(
        &self,
        market: &mut Market,
        seed: u64,
        receive_amt: u64,
        deposit_amt: u64,
    ) -> (r: Result<(), ErrorCode>)
        requires
            old(market).wf(),
            receive_amt > 0,
            open_fits(old(market).ledger.accounts@, *self, seed, deposit_amt),
        ensures
            final(market).wf(),
            ({
                let (rs, accs, res) = open_outcome(
                    old(market).records@, old(market).ledger.accounts@,
                    *self, seed, receive_amt, deposit_amt,
                );
                &&& final(market).records@ == rs
                &&& final(market).ledger.accounts@ == accs
                &&& r == res
            }),
    {
        if self.signer != self.seller {
            return Err(ErrorCode::AuthorizationError);
        }
        match market.find_record(self.seller, seed) {
            Some(i) => {
                proof {
                    assert(has_record(market.records@, self.seller, seed));
                }
                return Err(ErrorCode::DuplicateEscrow);
            },
            None => {},
        }
        let source = TokenRef { owner: Authority::User(self.seller), mint: self.mint_seller };
        let sufficient: bool = match market.ledger.balance_of(source) {
            Some(v) => v >= deposit_amt,
            None => false,
        };
        proof {
            assert(source == user_address(self.seller, self.mint_seller));
            assert(sufficient == can_debit(market.ledger.accounts@, source, deposit_amt));
        }
        if !sufficient {
            return Err(ErrorCode::InsufficientFunds);
        }

        let ghost a0 = market.ledger.accounts@;
        let vault = TokenRef { owner: derive_authority(self.seller, seed), mint: self.mint_seller };
        proof {
            assert(vault != source);
            lemma_alloc(a0, vault);
        }
        market.ledger.ensure_account(vault);
        let ghost a1 = market.ledger.accounts@;
        proof {
            assert(can_debit(a1, source, deposit_amt));
            lemma_with_balance(a1, source, (balance(a1, source) - deposit_amt) as u64);
        }
        market.ledger.debit(source, deposit_amt);
        let ghost a2 = market.ledger.accounts@;
        proof {
            assert(balance(a2, vault) == balance(a0, vault));
            lemma_with_balance(a2, vault, (balance(a2, vault) + deposit_amt) as u64);
        }
        market.ledger.credit(vault, deposit_amt);
        let ghost a3 = market.ledger.accounts@;

        let record = Escrow {
            seed,
            maker: self.seller,
            taker: None,
            mint_a: self.mint_seller,
            mint_b: self.mint_buyer,
            vault_a: vault,
            vault_b: None,
            receive_amt,
            bump: DERIVATION_BUMP,
        };
        market.records.push(record);
        proof {
            assert(record == new_record(*self, seed, receive_amt));
            let rs = market.records@;
            let rs0 = old(market).records@;
            assert forall|a: int, b: int| 0 <= a < b < rs.len() implies
                record_key(rs[a]) != record_key(rs[b])
            by {
                if b < rs.len() - 1 {
                    assert(rs[a] == rs0[a] && rs[b] == rs0[b]);
                } else {
                    assert(rs[a] == rs0[a]);
                    assert(record_key(rs[b]) == (self.seller, seed));
                    assert(!has_record(rs0, self.seller, seed));
                }
            }
            assert forall|i: int| 0 <= i < rs.len() implies
                (#[trigger] rs[i]).wf() && holds_key(a3, rs[i].vault_a)
            by {
                if i < rs.len() - 1 {
                    assert(rs[i] == rs0[i]);
                    assert(holds_key(a0, rs[i].vault_a));
                    assert(holds_key(a1, rs[i].vault_a));
                } else {
                    assert(rs[i] == record);
                    assert(holds_key(a1, vault));
                }
            }
        }
        Ok(())
    }
}

} // verus!
