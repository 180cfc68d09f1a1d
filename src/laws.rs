use vstd::prelude::*;
use crate::ledger::{
    Erc721, tokens_of, count_of, mint_result, burn_result, transfer_result, approve_result,
    set_approval_for_all_result, lemma_tokens_of_finite,
};
use crate::types::{AccountId, TokenId, Error};

verus! {

/// No token is among the holdings of two different accounts.
pub proof fn lemma_owner_unique(l: Erc721, t: TokenId, a: AccountId, b: AccountId)
    requires
        l.wf(),
        tokens_of(l.owners(), a).contains(t),
        tokens_of(l.owners(), b).contains(t),
    ensures
        a == b,
{
}

/// The recorded balance of every account is the number of tokens it owns.
pub proof fn lemma_balance_consistent(l: Erc721, a: AccountId)
    requires
        l.wf(),
    ensures
        l.balance(a) == tokens_of(l.owners(), a).len(),
{
}

/// Minting a token that does not exist, by a real account and with room left in the
/// stores, succeeds; the minter then owns the token and holds one token more.
pub proof fn lemma_mint_then_own(
    pre: Erc721,
    post: Erc721,
    a: AccountId,
    t: TokenId,
    r: Result<(), Error>,
)
    requires
        pre.wf(),
        mint_result(pre, post, a, t, r),
        !pre.owners().contains_key(t),
        !a.is_zero_spec(),
        pre.room_for_token(),
        pre.room_for_count(a),
    ensures
        r is Ok,
        post.owners().contains_key(t),
        post.owners()[t] == a,
        post.balance(a) == pre.balance(a) + 1,
{
    lemma_tokens_of_finite(pre.owners(), a);
}

/// Minting an existing token fails with `TokenExists` and changes nothing.
pub proof fn lemma_double_mint_rejected(
    pre: Erc721,
    post: Erc721,
    a: AccountId,
    t: TokenId,
    r: Result<(), Error>,
)
    requires
        pre.wf(),
        mint_result(pre, post, a, t, r),
        pre.owners().contains_key(t),
    ensures
        r == Err::<(), Error>(Error::TokenExists),
        post.owners() == pre.owners(),
        post.balances() == pre.balances(),
{
}

/// The owner of a token moving it to another real account succeeds: the receiver
/// owns it, the sender holds one token less, the receiver one more, and the token
/// has no single-token approval left.
pub proof fn lemma_transfer_moves_one(
    pre: Erc721,
    post: Erc721,
    a: AccountId,
    b: AccountId,
    t: TokenId,
    r: Result<(), Error>,
)
    requires
        pre.wf(),
        pre.owners().contains_key(t),
        pre.owners()[t] == a,
        !b.is_zero_spec(),
        a != b,
        pre.room_for_count(b),
        transfer_result(pre, post, a, a, b, t, r),
    ensures
        r is Ok,
        post.owners()[t] == b,
        post.balance(a) == pre.balance(a) - 1,
        post.balance(b) == pre.balance(b) + 1,
        !post.approvals().contains_key(t),
{
    lemma_tokens_of_finite(pre.owners(), b);
    vstd::set_lib::lemma_len_subset(tokens_of(pre.owners(), b), pre.owners().dom().remove(t));
    assert(pre.balance(b) == tokens_of(pre.owners(), b).len());
    let debited = pre.balances().insert(a, (pre.balance(a) - 1) as u32);
    assert(count_of(debited, b) == pre.balance(b));
    assert(pre.balance(a) == tokens_of(pre.owners(), a).len());
    assert(tokens_of(pre.owners(), a).contains(t));
}

/// An account that is neither the owner, nor the approved spender, nor an operator
/// of the owner cannot move the token: `NotApproved`, and nothing changes.
pub proof fn lemma_unauthorized_transfer_rejected(
    pre: Erc721,
    post: Erc721,
    caller: AccountId,
    from: AccountId,
    to: AccountId,
    t: TokenId,
    r: Result<(), Error>,
)
    requires
        pre.wf(),
        pre.owners().contains_key(t),
        caller != pre.owners()[t],
        !(pre.approvals().contains_key(t) && pre.approvals()[t] == caller),
        !pre.approved_for_all_spec(pre.owners()[t], caller),
        transfer_result(pre, post, caller, from, to, t, r),
    ensures
        r == Err::<(), Error>(Error::NotApproved),
        post == pre,
{
}

/// After the owner approves a spender and the spender moves the token, the token
/// has no single-token approval: it does not pass to the new owner.
pub proof fn lemma_approval_cleared_by_transfer(
    s0: Erc721,
    s1: Erc721,
    s2: Erc721,
    a: AccountId,
    b: AccountId,
    c: AccountId,
    t: TokenId,
    r1: Result<(), Error>,
    r2: Result<(), Error>,
)
    requires
        s0.wf(),
        s0.owners().contains_key(t),
        s0.owners()[t] == a,
        !s0.approvals().contains_key(t),
        !b.is_zero_spec(),
        !c.is_zero_spec(),
        s0.room_for_count(b),
        approve_result(s0, s1, a, c, t, r1),
        transfer_result(s1, s2, c, a, b, t, r2),
    ensures
        r1 is Ok,
        r2 is Ok,
        s2.owners()[t] == b,
        !s2.approvals().contains_key(t),
{
}

/// An operator approval concerns one (owner, operator) pair: it sets that pair's
/// flag and leaves every other pair as it was.
pub proof fn lemma_operator_pair_scoped(
    pre: Erc721,
    post: Erc721,
    a: AccountId,
    o: AccountId,
    approved: bool,
    r: Result<(), Error>,
    x: AccountId,
    y: AccountId,
)
    requires
        pre.wf(),
        a != o,
        pre.operators().contains_key((a, o)) || pre.operators().dom().len() < u32::MAX,
        set_approval_for_all_result(pre, post, a, o, approved, r),
    ensures
        r is Ok,
        post.approved_for_all_spec(a, o) == approved,
        (x, y) != (a, o) ==> post.approved_for_all_spec(x, y) == pre.approved_for_all_spec(x, y),
{
}

/// An approved operator of an owner may move any token that owner holds, whenever
/// it came to hold it.
pub proof fn lemma_operator_covers_owner_tokens(l: Erc721, a: AccountId, o: AccountId, t: TokenId)
    requires
        l.owners().contains_key(t),
        l.owners()[t] == a,
        l.approved_for_all_spec(a, o),
        !o.is_zero_spec(),
    ensures
        l.may_move(o, t),
{
}

/// Only the owner can burn a token; a missing token is reported as such; a burn
/// removes the token and lowers the owner's balance by one.
pub proof fn lemma_burn_requires_ownership(
    pre: Erc721,
    post: Erc721,
    caller: AccountId,
    t: TokenId,
    r: Result<(), Error>,
)
    requires
        pre.wf(),
        burn_result(pre, post, caller, t, r),
    ensures
        !pre.owners().contains_key(t) ==> r == Err::<(), Error>(Error::TokenNotFound),
        pre.owners().contains_key(t) && pre.owners()[t] != caller ==> r == Err::<(), Error>(
            Error::NotOwner,
        ),
        pre.owners().contains_key(t) && pre.owners()[t] == caller ==> {
            &&& r is Ok
            &&& !post.owners().contains_key(t)
            &&& post.balance(caller) == pre.balance(caller) - 1
        },
{
    if pre.owners().contains_key(t) && pre.owners()[t] == caller {
        assert(pre.balance(caller) == tokens_of(pre.owners(), caller).len());
        assert(tokens_of(pre.owners(), caller).contains(t));
        lemma_tokens_of_finite(pre.owners(), caller);
    }
}

/// No account can make itself its own operator.
pub proof fn lemma_self_operator_rejected(
    pre: Erc721,
    post: Erc721,
    a: AccountId,
    approved: bool,
    r: Result<(), Error>,
)
    requires
        set_approval_for_all_result(pre, post, a, a, approved, r),
    ensures
        r == Err::<(), Error>(Error::NotAllowed),
        post == pre,
{
}

} // verus!
