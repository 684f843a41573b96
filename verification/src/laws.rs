//! The guarantees of the escrow state machine, proved once and for all over
//! the transition model.  Together with the operations' own contracts, which
//! tie every executable call to these transitions, they hold of every run.

use vstd::prelude::*;
use crate::error::ErrorCode;
use crate::escrow::{
    Escrow, Initialize, JoinTrade, has_record, lemma_remove_record, new_record, record_index,
    record_key, records_unique,
};
use crate::escrow::vault_address;
use crate::ledger::{
    TokenAccount, TokenRef, account_key, alloc_key, balance, can_debit, contribution,
    holds_key, key_index, keys_unique, lemma_alloc, lemma_supply_push, lemma_supply_update,
    lemma_with_balance, supply, user_address,
};
use crate::model::{
    fulfill_fits, fulfill_outcome, open_fits, open_outcome, referenced_record, state_wf,
};

verus! {

/// Opening an escrow succeeds at most once per `(maker, seed)` pair: once a
/// record lives at that derived address, every further `open` against the
/// same pair fails with `DuplicateEscrow` and changes nothing — in
/// particular, the first escrow's record and vault are untouched.
pub proof fn lemma_open_unique(
    records: Seq<Escrow>,
    accounts: Seq<TokenAccount>,
    ctx1: Initialize,
    seed: u64,
    receive_amt1: u64,
    deposit_amt1: u64,
    ctx2: Initialize,
    receive_amt2: u64,
    deposit_amt2: u64,
)
    requires
        open_outcome(records, accounts, ctx1, seed, receive_amt1, deposit_amt1).2 is Ok,
        ctx2.seller == ctx1.seller,
        ctx2.signer == ctx2.seller,
    ensures
        ({
            let (rs1, accs1, _) = open_outcome(
                records, accounts, ctx1, seed, receive_amt1, deposit_amt1,
            );
            open_outcome(rs1, accs1, ctx2, seed, receive_amt2, deposit_amt2)
                == (rs1, accs1, Err::<(), ErrorCode>(ErrorCode::DuplicateEscrow))
        }),
{
    let (rs1, accs1, _) = open_outcome(records, accounts, ctx1, seed, receive_amt1, deposit_amt1);
    assert(rs1 == records.push(new_record(ctx1, seed, receive_amt1)));
    let n = records.len() as int;
    assert(record_key(rs1[n]) == (ctx1.seller, seed));
    assert(has_record(rs1, ctx2.seller, seed));
}

/// At most one fulfillment ever succeeds for a record: a successful
/// `fulfill` destroys it, and every further attempt against the same
/// `(maker, seed)` reference fails with `RecordNotFound` and changes
/// nothing.
pub proof fn lemma_single_fulfillment(
    records: Seq<Escrow>,
    accounts: Seq<TokenAccount>,
    ctx1: JoinTrade,
    ctx2: JoinTrade,
)
    requires
        records_unique(records),
        fulfill_outcome(records, accounts, ctx1).2 is Ok,
        ctx2.maker == ctx1.maker,
        ctx2.seed == ctx1.seed,
    ensures
        ({
            let (rs1, accs1, _) = fulfill_outcome(records, accounts, ctx1);
            fulfill_outcome(rs1, accs1, ctx2)
                == (rs1, accs1, Err::<(), ErrorCode>(ErrorCode::RecordNotFound))
        }),
{
    let i = record_index(records, ctx1.maker, ctx1.seed);
    assert(has_record(records, ctx1.maker, ctx1.seed));
    assert(0 <= i < records.len() && record_key(records[i]) == (ctx1.maker, ctx1.seed));
    lemma_remove_record(records, i);
}

/// A `fulfill` call whose supplied mint accounts do not match the record's
/// stored asset types fails with `AssetMismatch` and has no side effects.
pub proof fn lemma_asset_binding(
    records: Seq<Escrow>,
    accounts: Seq<TokenAccount>,
    ctx: JoinTrade,
)
    requires
        records_unique(records),
        has_record(records, ctx.maker, ctx.seed),
        ctx.mint_a != referenced_record(records, ctx).mint_a
            || ctx.mint_b != referenced_record(records, ctx).mint_b,
    ensures
        fulfill_outcome(records, accounts, ctx)
            == (records, accounts, Err::<(), ErrorCode>(ErrorCode::AssetMismatch)),
{
}

/// Fulfillment is all-or-nothing.  On any failure the records and the
/// accounts are exactly as before: no transfer, no destruction, no
/// observable intermediate state.  On success the record is gone and its
/// vault is empty, though still allocated.
pub proof fn lemma_fulfill_atomic(
    records: Seq<Escrow>,
    accounts: Seq<TokenAccount>,
    ctx: JoinTrade,
)
    requires
        state_wf(records, accounts),
    ensures
        ({
            let (rs, accs, res) = fulfill_outcome(records, accounts, ctx);
            &&& (res is Err ==> rs == records && accs == accounts)
            &&& (res is Ok ==> {
                &&& rs.len() == records.len() - 1
                &&& !has_record(rs, ctx.maker, ctx.seed)
                &&& holds_key(accs, referenced_record(records, ctx).vault_a)
                &&& balance(accs, referenced_record(records, ctx).vault_a) == 0
            })
        }),
{
    let (rs, accs, res) = fulfill_outcome(records, accounts, ctx);
    if res is Ok {
        let i = record_index(records, ctx.maker, ctx.seed);
        let r = records[i];
        lemma_remove_record(records, i);
        let source_b = user_address(ctx.buyer, r.mint_b);
        let maker_recv = user_address(r.maker, r.mint_b);
        let vault = r.vault_a;
        let taker_recv = user_address(ctx.buyer, r.mint_a);
        assert(r.wf() && holds_key(accounts, vault));
        assert(vault != source_b && vault != maker_recv && vault != taker_recv);
        lemma_alloc(accounts, maker_recv);
        let a1 = alloc_key(accounts, maker_recv);
        assert(can_debit(accounts, source_b, r.receive_amt));
        lemma_with_balance(a1, source_b, (balance(a1, source_b) - r.receive_amt) as u64);
        let a2 = crate::ledger::debit_spec(a1, source_b, r.receive_amt);
        lemma_with_balance(a2, maker_recv, (balance(a2, maker_recv) + r.receive_amt) as u64);
        let a3 = crate::ledger::credit_spec(a2, maker_recv, r.receive_amt);
        let vault_amt = balance(a3, vault);
        lemma_alloc(a3, taker_recv);
        let a4 = alloc_key(a3, taker_recv);
        assert(balance(a4, vault) == vault_amt);
        lemma_with_balance(a4, vault, (balance(a4, vault) - vault_amt) as u64);
        let a5 = crate::ledger::debit_spec(a4, vault, vault_amt);
        assert(balance(a5, vault) == 0);
        lemma_with_balance(a5, taker_recv, (balance(a5, taker_recv) + vault_amt) as u64);
        let a6 = crate::ledger::credit_spec(a5, taker_recv, vault_amt);
        assert(accs == a6);
        assert(balance(a6, vault) == 0);
    }
}

/// Conservation: when distinct parties trade distinct assets, a successful
/// fulfillment moves exactly what the trade names and nothing else.  The
/// taker's asset-A account grows by exactly the vault's pre-fulfillment
/// balance; the maker's asset-B account grows by exactly the required
/// amount; the taker's asset-B account shrinks by the same amount; the
/// vault ends empty; every other account keeps its balance, and no account
/// but the two receiving accounts is allocated.  No asset is created or
/// destroyed: each debit is matched, unit for unit, by its credit.
pub proof fn lemma_fulfill_conserves(
    records: Seq<Escrow>,
    accounts: Seq<TokenAccount>,
    ctx: JoinTrade,
)
    requires
        state_wf(records, accounts),
        fulfill_fits(records, accounts, ctx),
        fulfill_outcome(records, accounts, ctx).2 is Ok,
        ctx.buyer != referenced_record(records, ctx).maker,
        referenced_record(records, ctx).mint_a != referenced_record(records, ctx).mint_b,
    ensures
        ({
            let r = referenced_record(records, ctx);
            let accs = fulfill_outcome(records, accounts, ctx).1;
            let taker_a = user_address(ctx.buyer, r.mint_a);
            let maker_b = user_address(r.maker, r.mint_b);
            let taker_b = user_address(ctx.buyer, r.mint_b);
            &&& balance(accs, taker_a)
                == balance(accounts, taker_a) + balance(accounts, r.vault_a)
            &&& balance(accs, maker_b) == balance(accounts, maker_b) + r.receive_amt
            &&& balance(accs, taker_b) == balance(accounts, taker_b) - r.receive_amt
            &&& balance(accs, r.vault_a) == 0
            &&& forall|k: TokenRef|
                k != taker_a && k != maker_b && k != taker_b && k != r.vault_a
                    ==> balance(accs, k) == balance(accounts, k)
            &&& forall|k: TokenRef|
                holds_key(accs, k)
                    == (holds_key(accounts, k) || k == taker_a || k == maker_b)
        }),
{
    let i = record_index(records, ctx.maker, ctx.seed);
    let r = records[i];
    let source_b = user_address(ctx.buyer, r.mint_b);
    let maker_recv = user_address(r.maker, r.mint_b);
    let vault = r.vault_a;
    let taker_recv = user_address(ctx.buyer, r.mint_a);
    assert(r.wf() && holds_key(accounts, vault));
    assert(vault != source_b && vault != maker_recv && vault != taker_recv);
    assert(source_b != maker_recv);
    assert(source_b != taker_recv);
    assert(maker_recv != taker_recv);
    lemma_alloc(accounts, maker_recv);
    let a1 = alloc_key(accounts, maker_recv);
    assert(can_debit(accounts, source_b, r.receive_amt));
    lemma_with_balance(a1, source_b, (balance(a1, source_b) - r.receive_amt) as u64);
    let a2 = crate::ledger::debit_spec(a1, source_b, r.receive_amt);
    lemma_with_balance(a2, maker_recv, (balance(a2, maker_recv) + r.receive_amt) as u64);
    let a3 = crate::ledger::credit_spec(a2, maker_recv, r.receive_amt);
    let vault_amt = balance(a3, vault);
    lemma_alloc(a3, taker_recv);
    let a4 = alloc_key(a3, taker_recv);
    assert(balance(a4, vault) == vault_amt);
    lemma_with_balance(a4, vault, (balance(a4, vault) - vault_amt) as u64);
    let a5 = crate::ledger::debit_spec(a4, vault, vault_amt);
    lemma_with_balance(a5, taker_recv, (balance(a5, taker_recv) + vault_amt) as u64);
    let a6 = crate::ledger::credit_spec(a5, taker_recv, vault_amt);
    let accs = fulfill_outcome(records, accounts, ctx).1;
    assert(accs == a6);
    assert(vault_amt == balance(accounts, vault));
    assert(balance(a5, taker_recv) == balance(accounts, taker_recv));
    assert(balance(a2, maker_recv) == balance(accounts, maker_recv));
    assert(balance(a6, taker_recv) == balance(accounts, taker_recv) + balance(accounts, vault));
    assert(balance(a6, maker_recv) == balance(accounts, maker_recv) + r.receive_amt);
    assert(balance(a6, source_b) == balance(accounts, source_b) - r.receive_amt);
    assert(balance(a6, vault) == 0);
    assert forall|k: TokenRef|
        k != taker_recv && k != maker_recv && k != source_b && k != vault
            implies balance(a6, k) == balance(accounts, k)
    by {
        assert(balance(a1, k) == balance(accounts, k));
        assert(balance(a2, k) == balance(a1, k));
        assert(balance(a3, k) == balance(a2, k));
        assert(balance(a4, k) == balance(a3, k));
        assert(balance(a5, k) == balance(a4, k));
        assert(balance(a6, k) == balance(a5, k));
    }
    assert forall|k: TokenRef|
        holds_key(a6, k) == (holds_key(accounts, k) || k == taker_recv || k == maker_recv)
    by {
        assert(holds_key(a1, k) == (holds_key(accounts, k) || k == maker_recv));
        assert(holds_key(a2, k) == holds_key(a1, k));
        assert(holds_key(a3, k) == holds_key(a2, k));
        assert(holds_key(a4, k) == (holds_key(a3, k) || k == taker_recv));
        assert(holds_key(a5, k) == holds_key(a4, k));
        assert(holds_key(a6, k) == holds_key(a5, k));
    }
}

/// Opening an escrow creates and destroys no asset: for every asset type,
/// the total supply across all accounts is exactly what it was — the
/// deposit only moves from the maker's source account into the vault.
pub proof fn lemma_open_preserves_supply(
    records: Seq<Escrow>,
    accounts: Seq<TokenAccount>,
    ctx: Initialize,
    seed: u64,
    receive_amt: u64,
    deposit_amt: u64,
    mint: u64,
)
    requires
        keys_unique(accounts),
        open_fits(accounts, ctx, seed, deposit_amt),
        open_outcome(records, accounts, ctx, seed, receive_amt, deposit_amt).2 is Ok,
    ensures
        supply(open_outcome(records, accounts, ctx, seed, receive_amt, deposit_amt).1, mint)
            == supply(accounts, mint),
{
    let source = user_address(ctx.seller, ctx.mint_seller);
    let vault = vault_address(ctx.seller, seed, ctx.mint_seller);
    assert(vault != source);
    assert(can_debit(accounts, source, deposit_amt));
    lemma_alloc(accounts, vault);
    let a1 = alloc_key(accounts, vault);
    if !holds_key(accounts, vault) {
        lemma_supply_push(
            accounts,
            TokenAccount { owner: vault.owner, mint: vault.mint, amount: 0 },
            mint,
        );
    }
    assert(supply(a1, mint) == supply(accounts, mint));

    let v1 = (balance(a1, source) - deposit_amt) as u64;
    let i1 = key_index(a1, source);
    assert(0 <= i1 < a1.len() && account_key(a1[i1]) == source);
    assert(a1[i1].amount == balance(a1, source));
    lemma_supply_update(
        a1, i1, TokenAccount { owner: source.owner, mint: source.mint, amount: v1 }, mint,
    );
    lemma_with_balance(a1, source, v1);
    let a2 = crate::ledger::debit_spec(a1, source, deposit_amt);
    assert(supply(a2, mint) == supply(a1, mint)
        - (if ctx.mint_seller == mint { deposit_amt as int } else { 0 }));

    let v2 = (balance(a2, vault) + deposit_amt) as u64;
    assert(balance(a2, vault) == balance(accounts, vault));
    assert(v2 == balance(a2, vault) + deposit_amt);
    let i2 = key_index(a2, vault);
    assert(0 <= i2 < a2.len() && account_key(a2[i2]) == vault);
    assert(a2[i2].amount == balance(a2, vault));
    lemma_supply_update(
        a2, i2, TokenAccount { owner: vault.owner, mint: vault.mint, amount: v2 }, mint,
    );
    let a3 = crate::ledger::credit_spec(a2, vault, deposit_amt);
    assert(supply(a3, mint) == supply(a2, mint)
        + (if ctx.mint_seller == mint { deposit_amt as int } else { 0 }));
}

/// Fulfilling an escrow creates and destroys no asset: for every asset
/// type, the total supply across all accounts is exactly what it was — each
/// of the two legs only moves funds between accounts.  This holds for every
/// pair of parties and assets, the degenerate same-party and same-asset
/// trades included.
pub proof fn lemma_fulfill_preserves_supply(
    records: Seq<Escrow>,
    accounts: Seq<TokenAccount>,
    ctx: JoinTrade,
    mint: u64,
)
    requires
        state_wf(records, accounts),
        fulfill_fits(records, accounts, ctx),
        fulfill_outcome(records, accounts, ctx).2 is Ok,
    ensures
        supply(fulfill_outcome(records, accounts, ctx).1, mint) == supply(accounts, mint),
{
    let i = record_index(records, ctx.maker, ctx.seed);
    let r = records[i];
    let source_b = user_address(ctx.buyer, r.mint_b);
    let maker_recv = user_address(r.maker, r.mint_b);
    let vault = r.vault_a;
    let taker_recv = user_address(ctx.buyer, r.mint_a);
    assert(r.wf() && holds_key(accounts, vault));
    assert(vault != source_b && vault != maker_recv && vault != taker_recv);
    assert(vault.mint == r.mint_a);
    assert(can_debit(accounts, source_b, r.receive_amt));

    lemma_alloc(accounts, maker_recv);
    let a1 = alloc_key(accounts, maker_recv);
    if !holds_key(accounts, maker_recv) {
        lemma_supply_push(
            accounts,
            TokenAccount { owner: maker_recv.owner, mint: maker_recv.mint, amount: 0 },
            mint,
        );
    }
    assert(supply(a1, mint) == supply(accounts, mint));

    let v1 = (balance(a1, source_b) - r.receive_amt) as u64;
    let i1 = key_index(a1, source_b);
    assert(0 <= i1 < a1.len() && account_key(a1[i1]) == source_b);
    assert(a1[i1].amount == balance(a1, source_b));
    lemma_supply_update(
        a1, i1,
        TokenAccount { owner: source_b.owner, mint: source_b.mint, amount: v1 }, mint,
    );
    lemma_with_balance(a1, source_b, v1);
    let a2 = crate::ledger::debit_spec(a1, source_b, r.receive_amt);
    assert(supply(a2, mint) == supply(a1, mint)
        - (if r.mint_b == mint { r.receive_amt as int } else { 0 }));

    let v2 = (balance(a2, maker_recv) + r.receive_amt) as u64;
    assert(v2 == balance(a2, maker_recv) + r.receive_amt);
    let i2 = key_index(a2, maker_recv);
    assert(0 <= i2 < a2.len() && account_key(a2[i2]) == maker_recv);
    assert(a2[i2].amount == balance(a2, maker_recv));
    lemma_supply_update(
        a2, i2,
        TokenAccount { owner: maker_recv.owner, mint: maker_recv.mint, amount: v2 }, mint,
    );
    lemma_with_balance(a2, maker_recv, v2);
    let a3 = crate::ledger::credit_spec(a2, maker_recv, r.receive_amt);
    assert(supply(a3, mint) == supply(a2, mint)
        + (if r.mint_b == mint { r.receive_amt as int } else { 0 }));

    let vault_amt = balance(a3, vault);
    lemma_alloc(a3, taker_recv);
    let a4 = alloc_key(a3, taker_recv);
    if !holds_key(a3, taker_recv) {
        lemma_supply_push(
            a3,
            TokenAccount { owner: taker_recv.owner, mint: taker_recv.mint, amount: 0 },
            mint,
        );
    }
    assert(supply(a4, mint) == supply(a3, mint));

    assert(balance(a4, vault) == vault_amt);
    let v3 = (balance(a4, vault) - vault_amt) as u64;
    let i3 = key_index(a4, vault);
    assert(0 <= i3 < a4.len() && account_key(a4[i3]) == vault);
    assert(a4[i3].amount == balance(a4, vault));
    lemma_supply_update(
        a4, i3, TokenAccount { owner: vault.owner, mint: vault.mint, amount: v3 }, mint,
    );
    lemma_with_balance(a4, vault, v3);
    let a5 = crate::ledger::debit_spec(a4, vault, vault_amt);
    assert(supply(a5, mint) == supply(a4, mint)
        - (if r.mint_a == mint { vault_amt as int } else { 0 }));

    let v4 = (balance(a5, taker_recv) + vault_amt) as u64;
    assert(v4 == balance(a5, taker_recv) + vault_amt);
    let i4 = key_index(a5, taker_recv);
    assert(0 <= i4 < a5.len() && account_key(a5[i4]) == taker_recv);
    assert(a5[i4].amount == balance(a5, taker_recv));
    lemma_supply_update(
        a5, i4,
        TokenAccount { owner: taker_recv.owner, mint: taker_recv.mint, amount: v4 }, mint,
    );
    let a6 = crate::ledger::credit_spec(a5, taker_recv, vault_amt);
    assert(supply(a6, mint) == supply(a5, mint)
        + (if r.mint_a == mint { vault_amt as int } else { 0 }));
}

} // verus!
