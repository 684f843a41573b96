//! Every failure code, with the state shown untouched afterwards.

use globe_swap::error::ErrorCode;
use globe_swap::escrow::{Initialize, JoinTrade};
use globe_swap::ledger::{Authority, TokenRef};
use globe_swap::market::Market;
use globe_swap::{initialize_trade, join_trade};

const MINT_A: u64 = 10;
const MINT_B: u64 = 20;
const MAKER: u64 = 1;
const TAKER: u64 = 2;

fn funded_market_with_escrow() -> Market {
    let mut m = Market::new();
    m.mint_to(MAKER, MINT_A, 100);
    m.mint_to(TAKER, MINT_B, 50);
    let ctx = Initialize { signer: MAKER, seller: MAKER, mint_seller: MINT_A, mint_buyer: MINT_B };
    assert_eq!(initialize_trade(&mut m, ctx, 1, 50, 100), Ok(()));
    m
}

fn good_fulfill_ctx() -> JoinTrade {
    JoinTrade {
        buyer: TAKER,
        maker: MAKER,
        seed: 1,
        mint_a: MINT_A,
        mint_b: MINT_B,
        vault: TokenRef { owner: Authority::Escrow(MAKER, 1), mint: MINT_A },
    }
}

#[test]
fn open_rejects_wrong_signer() {
    let mut m = Market::new();
    m.mint_to(MAKER, MINT_A, 100);
    let ctx = Initialize { signer: 9, seller: MAKER, mint_seller: MINT_A, mint_buyer: MINT_B };
    assert_eq!(initialize_trade(&mut m, ctx, 1, 50, 100), Err(ErrorCode::AuthorizationError));
    assert!(m.get_record(MAKER, 1).is_none());
    assert_eq!(m.balance_of(MAKER, MINT_A), Some(100));
    assert_eq!(m.vault_balance(MAKER, 1, MINT_A), None);
}

#[test]
fn open_rejects_short_balance() {
    let mut m = Market::new();
    m.mint_to(MAKER, MINT_A, 99);
    let ctx = Initialize { signer: MAKER, seller: MAKER, mint_seller: MINT_A, mint_buyer: MINT_B };
    assert_eq!(initialize_trade(&mut m, ctx, 1, 50, 100), Err(ErrorCode::InsufficientFunds));
    assert!(m.get_record(MAKER, 1).is_none());
    assert_eq!(m.balance_of(MAKER, MINT_A), Some(99));
}

#[test]
fn open_rejects_missing_source_account() {
    let mut m = Market::new();
    let ctx = Initialize { signer: MAKER, seller: MAKER, mint_seller: MINT_A, mint_buyer: MINT_B };
    assert_eq!(initialize_trade(&mut m, ctx, 1, 50, 0), Err(ErrorCode::InsufficientFunds));
    assert!(m.get_record(MAKER, 1).is_none());
}

#[test]
fn fulfill_rejects_dangling_reference() {
    let mut m = Market::new();
    m.mint_to(TAKER, MINT_B, 50);
    assert_eq!(join_trade(&mut m, good_fulfill_ctx()), Err(ErrorCode::RecordNotFound));
    assert_eq!(m.balance_of(TAKER, MINT_B), Some(50));
}

#[test]
fn fulfill_rejects_substituted_asset_b() {
    let mut m = funded_market_with_escrow();
    let mut ctx = good_fulfill_ctx();
    ctx.mint_b = 999;
    assert_eq!(join_trade(&mut m, ctx), Err(ErrorCode::AssetMismatch));
    // No side effects: the record and every balance are as before.
    assert!(m.get_record(MAKER, 1).is_some());
    assert_eq!(m.vault_balance(MAKER, 1, MINT_A), Some(100));
    assert_eq!(m.balance_of(TAKER, MINT_B), Some(50));
    assert_eq!(m.balance_of(MAKER, MINT_B), None);
}

#[test]
fn fulfill_rejects_substituted_asset_a() {
    let mut m = funded_market_with_escrow();
    let mut ctx = good_fulfill_ctx();
    ctx.mint_a = 999;
    assert_eq!(join_trade(&mut m, ctx), Err(ErrorCode::AssetMismatch));
    assert!(m.get_record(MAKER, 1).is_some());
    assert_eq!(m.vault_balance(MAKER, 1, MINT_A), Some(100));
}

#[test]
fn fulfill_rejects_wrong_vault() {
    let mut m = funded_market_with_escrow();
    let mut ctx = good_fulfill_ctx();
    ctx.vault = TokenRef { owner: Authority::Escrow(MAKER, 2), mint: MINT_A };
    assert_eq!(join_trade(&mut m, ctx), Err(ErrorCode::AssetMismatch));
    assert!(m.get_record(MAKER, 1).is_some());
    assert_eq!(m.vault_balance(MAKER, 1, MINT_A), Some(100));
}

#[test]
fn fulfill_rejects_short_taker_balance_and_record_stays_open() {
    let mut m = Market::new();
    m.mint_to(MAKER, MINT_A, 100);
    m.mint_to(TAKER, MINT_B, 49);
    let ctx = Initialize { signer: MAKER, seller: MAKER, mint_seller: MINT_A, mint_buyer: MINT_B };
    assert_eq!(initialize_trade(&mut m, ctx, 1, 50, 100), Ok(()));

    assert_eq!(join_trade(&mut m, good_fulfill_ctx()), Err(ErrorCode::InsufficientFunds));
    assert_eq!(m.balance_of(TAKER, MINT_B), Some(49));
    assert!(m.get_record(MAKER, 1).is_some());

    // A failed attempt leaves the record open: once funded, a retry works.
    m.mint_to(TAKER, MINT_B, 1);
    assert_eq!(join_trade(&mut m, good_fulfill_ctx()), Ok(()));
    assert_eq!(m.balance_of(MAKER, MINT_B), Some(50));
    assert_eq!(m.balance_of(TAKER, MINT_A), Some(100));
    assert!(m.get_record(MAKER, 1).is_none());
}

#[test]
fn fulfill_rejects_missing_taker_account() {
    let mut m = funded_market_with_escrow();
    let ctx = JoinTrade { buyer: 7, ..good_fulfill_ctx() };
    assert_eq!(join_trade(&mut m, ctx), Err(ErrorCode::InsufficientFunds));
    assert!(m.get_record(MAKER, 1).is_some());
}
