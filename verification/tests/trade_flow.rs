//! End-to-end trade scenarios.

use globe_swap::error::ErrorCode;
use globe_swap::escrow::{Initialize, JoinTrade};
use globe_swap::ledger::{Authority, TokenRef};
use globe_swap::market::Market;
use globe_swap::{initialize_trade, join_trade};

const MINT_A: u64 = 10;
const MINT_B: u64 = 20;
const MAKER: u64 = 1;
const TAKER: u64 = 2;

fn open_ctx(signer: u64, seller: u64) -> Initialize {
    Initialize { signer, seller, mint_seller: MINT_A, mint_buyer: MINT_B }
}

fn fulfill_ctx(buyer: u64, maker: u64, seed: u64) -> JoinTrade {
    JoinTrade {
        buyer,
        maker,
        seed,
        mint_a: MINT_A,
        mint_b: MINT_B,
        vault: TokenRef { owner: Authority::Escrow(maker, seed), mint: MINT_A },
    }
}

#[test]
fn open_then_fulfill_moves_both_legs() {
    let mut m = Market::new();
    m.mint_to(MAKER, MINT_A, 100);
    m.mint_to(TAKER, MINT_B, 50);

    let r = initialize_trade(&mut m, open_ctx(MAKER, MAKER), 1, 50, 100);
    assert_eq!(r, Ok(()));
    assert_eq!(m.balance_of(MAKER, MINT_A), Some(0));
    assert_eq!(m.vault_balance(MAKER, 1, MINT_A), Some(100));
    let rec = m.get_record(MAKER, 1).expect("record must be live after open");
    assert_eq!(rec.maker, MAKER);
    assert_eq!(rec.seed, 1);
    assert_eq!(rec.mint_a, MINT_A);
    assert_eq!(rec.mint_b, MINT_B);
    assert_eq!(rec.receive_amt, 50);
    assert_eq!(rec.taker, None);

    let r = join_trade(&mut m, fulfill_ctx(TAKER, MAKER, 1));
    assert_eq!(r, Ok(()));
    assert_eq!(m.balance_of(TAKER, MINT_B), Some(0));
    assert_eq!(m.balance_of(MAKER, MINT_B), Some(50));
    assert_eq!(m.balance_of(TAKER, MINT_A), Some(100));
    // The vault stays allocated, but empty.
    assert_eq!(m.vault_balance(MAKER, 1, MINT_A), Some(0));
    // The record is destroyed.
    assert!(m.get_record(MAKER, 1).is_none());
    assert_eq!(m.escrow_count(), 0);
}

#[test]
fn second_fulfill_sees_record_not_found() {
    let mut m = Market::new();
    m.mint_to(MAKER, MINT_A, 100);
    m.mint_to(TAKER, MINT_B, 200);

    assert_eq!(initialize_trade(&mut m, open_ctx(MAKER, MAKER), 1, 50, 100), Ok(()));
    // Two attempts race on the same record: the host serializes them, the
    // first to run wins, the second finds no record and changes nothing.
    assert_eq!(join_trade(&mut m, fulfill_ctx(TAKER, MAKER, 1)), Ok(()));
    let taker_a = m.balance_of(TAKER, MINT_A);
    let taker_b = m.balance_of(TAKER, MINT_B);
    let maker_b = m.balance_of(MAKER, MINT_B);
    assert_eq!(join_trade(&mut m, fulfill_ctx(TAKER, MAKER, 1)), Err(ErrorCode::RecordNotFound));
    assert_eq!(m.balance_of(TAKER, MINT_A), taker_a);
    assert_eq!(m.balance_of(TAKER, MINT_B), taker_b);
    assert_eq!(m.balance_of(MAKER, MINT_B), maker_b);
}

#[test]
fn duplicate_open_rejected_first_escrow_untouched() {
    let mut m = Market::new();
    m.mint_to(MAKER, MINT_A, 300);

    assert_eq!(initialize_trade(&mut m, open_ctx(MAKER, MAKER), 1, 50, 100), Ok(()));
    let rec_before = m.get_record(MAKER, 1);
    let r = initialize_trade(&mut m, open_ctx(MAKER, MAKER), 1, 75, 100);
    assert_eq!(r, Err(ErrorCode::DuplicateEscrow));
    assert_eq!(m.get_record(MAKER, 1), rec_before);
    assert_eq!(m.vault_balance(MAKER, 1, MINT_A), Some(100));
    assert_eq!(m.balance_of(MAKER, MINT_A), Some(200));
    assert_eq!(m.escrow_count(), 1);
}

#[test]
fn distinct_seeds_coexist_and_settle_independently() {
    let mut m = Market::new();
    m.mint_to(MAKER, MINT_A, 300);
    m.mint_to(TAKER, MINT_B, 100);

    assert_eq!(initialize_trade(&mut m, open_ctx(MAKER, MAKER), 1, 40, 100), Ok(()));
    assert_eq!(initialize_trade(&mut m, open_ctx(MAKER, MAKER), 2, 60, 200), Ok(()));
    assert_eq!(m.escrow_count(), 2);

    assert_eq!(join_trade(&mut m, fulfill_ctx(TAKER, MAKER, 2)), Ok(()));
    assert_eq!(m.escrow_count(), 1);
    assert!(m.get_record(MAKER, 1).is_some());
    assert!(m.get_record(MAKER, 2).is_none());
    assert_eq!(m.balance_of(TAKER, MINT_A), Some(200));
    assert_eq!(m.balance_of(MAKER, MINT_B), Some(60));
    assert_eq!(m.vault_balance(MAKER, 1, MINT_A), Some(100));
}

#[test]
fn same_asset_trade_is_allowed() {
    // Nothing forbids assetA == assetB: the trade degenerates but settles.
    let mut m = Market::new();
    m.mint_to(MAKER, MINT_A, 100);
    m.mint_to(TAKER, MINT_A, 50);

    let ctx = Initialize { signer: MAKER, seller: MAKER, mint_seller: MINT_A, mint_buyer: MINT_A };
    assert_eq!(initialize_trade(&mut m, ctx, 1, 50, 100), Ok(()));
    let f = JoinTrade {
        buyer: TAKER,
        maker: MAKER,
        seed: 1,
        mint_a: MINT_A,
        mint_b: MINT_A,
        vault: TokenRef { owner: Authority::Escrow(MAKER, 1), mint: MINT_A },
    };
    assert_eq!(join_trade(&mut m, f), Ok(()));
    // The taker paid 50 and received the whole 100-unit vault.
    assert_eq!(m.balance_of(TAKER, MINT_A), Some(100));
    assert_eq!(m.balance_of(MAKER, MINT_A), Some(50));
    assert_eq!(m.vault_balance(MAKER, 1, MINT_A), Some(0));
}

#[test]
fn maker_may_fulfill_own_escrow() {
    // The taker role is open to any signer, the maker included.  The
    // asset-B leg then pays the maker from the maker's own account.
    let mut m = Market::new();
    m.mint_to(MAKER, MINT_A, 100);
    m.mint_to(MAKER, MINT_B, 50);

    assert_eq!(initialize_trade(&mut m, open_ctx(MAKER, MAKER), 1, 50, 100), Ok(()));
    assert_eq!(join_trade(&mut m, fulfill_ctx(MAKER, MAKER, 1)), Ok(()));
    assert_eq!(m.balance_of(MAKER, MINT_B), Some(50));
    assert_eq!(m.balance_of(MAKER, MINT_A), Some(100));
    assert!(m.get_record(MAKER, 1).is_none());
}

#[test]
fn zero_deposit_open_is_accepted() {
    // The deposit amount is caller-chosen; an empty vault is degenerate
    // but legal, and fulfillment then hands the taker an empty leg.
    let mut m = Market::new();
    m.mint_to(MAKER, MINT_A, 0);
    m.mint_to(TAKER, MINT_B, 5);

    assert_eq!(initialize_trade(&mut m, open_ctx(MAKER, MAKER), 3, 5, 0), Ok(()));
    assert_eq!(m.vault_balance(MAKER, 3, MINT_A), Some(0));
    assert_eq!(join_trade(&mut m, fulfill_ctx(TAKER, MAKER, 3)), Ok(()));
    assert_eq!(m.balance_of(TAKER, MINT_A), Some(0));
    assert_eq!(m.balance_of(MAKER, MINT_B), Some(5));
}

#[test]
fn mint_to_accumulates_and_unknown_accounts_are_absent() {
    let mut m = Market::new();
    assert_eq!(m.balance_of(MAKER, MINT_A), None);
    m.mint_to(MAKER, MINT_A, 30);
    m.mint_to(MAKER, MINT_A, 12);
    assert_eq!(m.balance_of(MAKER, MINT_A), Some(42));
    assert_eq!(m.balance_of(MAKER, MINT_B), None);
    assert_eq!(m.vault_balance(MAKER, 1, MINT_A), None);
}
