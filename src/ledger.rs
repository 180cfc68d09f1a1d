use vstd::prelude::*;
use crate::store::{
    TokenStore, CountStore, FlagStore, token_entries, count_entries, flag_entries,
    token_store_new, token_store_get, token_store_insert, token_store_take, token_store_len,
    count_store_new, count_store_get, count_store_insert, count_store_len,
    flag_store_new, flag_store_get, flag_store_insert, flag_store_len,
};
use crate::types::{AccountId, TokenId, Error, Event, Transfer, Approval, ApprovalForAll};

verus! {

/// The tokens that `a` owns according to `owners`.
pub open spec fn tokens_of(owners: Map<TokenId, AccountId>, a: AccountId) -> Set<TokenId> {
    owners.dom().filter(|t: TokenId| owners[t] == a)
}

/// The count recorded for `a`; an absent entry counts as zero.
pub open spec fn count_of(counts: Map<AccountId, u32>, a: AccountId) -> nat {
    if counts.contains_key(a) {
        counts[a] as nat
    } else {
        0
    }
}

/// A ledger of non-fungible tokens: who owns each token, who may move it, and how
/// many tokens each account holds.
pub struct Erc721 {
    token_owner: TokenStore,
    token_approvals: TokenStore,
    owned_tokens_count: CountStore,
    operator_approves: FlagStore,
    events: Vec<Event>,
}

impl Erc721 {
    /// Owner of each existing token.
    pub closed spec fn owners(self) -> Map<TokenId, AccountId> {
        token_entries(self.token_owner)
    }

    /// Single-token approvals.
    pub closed spec fn approvals(self) -> Map<TokenId, AccountId> {
        token_entries(self.token_approvals)
    }

    /// Recorded token counts.
    pub closed spec fn balances(self) -> Map<AccountId, u32> {
        count_entries(self.owned_tokens_count)
    }

    /// Operator approvals, keyed by (owner, operator).
    pub closed spec fn operators(self) -> Map<(AccountId, AccountId), bool> {
        flag_entries(self.operator_approves)
    }

    /// Notifications emitted so far and not yet drained.
    pub closed spec fn events(self) -> Seq<Event> {
        self.events@
    }

    /// The number of tokens recorded for `a`.
    pub open spec fn balance(self, a: AccountId) -> nat {
        count_of(self.balances(), a)
    }

    /// Whether `operator` is an approved operator of `owner`.
    pub open spec fn approved_for_all_spec(self, owner: AccountId, operator: AccountId) -> bool {
        self.operators().contains_key((owner, operator)) && self.operators()[(owner, operator)]
    }

    /// Whether `caller` may move the existing token `id`: it is a real account and
    /// the owner, the approved spender of `id`, or an operator of the owner.
    pub open spec fn may_move(self, caller: AccountId, id: TokenId) -> bool {
        &&& !caller.is_zero_spec()
        &&& {
            ||| caller == self.owners()[id]
            ||| (self.approvals().contains_key(id) && self.approvals()[id] == caller)
            ||| self.approved_for_all_spec(self.owners()[id], caller)
        }
    }

    /// Whether one more token can be recorded.
    pub open spec fn room_for_token(self) -> bool {
        self.owners().dom().len() < u32::MAX
    }

    /// Whether a count can be recorded for `a`.
    pub open spec fn room_for_count(self, a: AccountId) -> bool {
        self.balances().contains_key(a) || self.balances().dom().len() < u32::MAX
    }

    /// The ledger's invariant.
    pub open spec fn wf(self) -> bool {
        &&& self.owners().dom().finite()
        &&& self.approvals().dom().finite()
        &&& self.balances().dom().finite()
        &&& self.operators().dom().finite()
        &&& self.owners().dom().len() <= u32::MAX
        &&& forall|t: TokenId| #[trigger]
            self.owners().contains_key(t) ==> !self.owners()[t].is_zero_spec()
        &&& forall|t: TokenId| #[trigger]
            self.approvals().contains_key(t) ==> self.owners().contains_key(t)
                && !self.approvals()[t].is_zero_spec()
        &&& forall|a: AccountId| #[trigger] self.balance(a) == tokens_of(self.owners(), a).len()
        &&& forall|o: AccountId, p: AccountId| #[trigger]
            self.operators().contains_key((o, p)) ==> o != p
    }
}

proof fn lemma_wf_same_maps(pre: Erc721, post: Erc721)
    requires
        pre.wf(),
        post.owners() == pre.owners(),
        post.approvals() == pre.approvals(),
        post.balances() == pre.balances(),
        post.operators() == pre.operators(),
    ensures
        post.wf(),
{
    assert forall|a: AccountId| #[trigger] post.balance(a) == tokens_of(post.owners(), a).len() by {
        assert(pre.balance(a) == tokens_of(pre.owners(), a).len());
    }
}

proof fn lemma_wf_same_maps_but_approvals(pre: Erc721, post: Erc721)
    requires
        pre.wf(),
        post.owners() == pre.owners(),
        post.approvals().dom().finite(),
        forall|t: TokenId| #[trigger]
            post.approvals().contains_key(t) ==> post.owners().contains_key(t)
                && !post.approvals()[t].is_zero_spec(),
        post.balances() == pre.balances(),
        post.operators() == pre.operators(),
    ensures
        post.wf(),
{
    assert forall|a: AccountId| #[trigger] post.balance(a) == tokens_of(post.owners(), a).len() by {
        assert(pre.balance(a) == tokens_of(pre.owners(), a).len());
    }
}

pub(crate) proof fn lemma_tokens_of_finite(owners: Map<TokenId, AccountId>, a: AccountId)
    requires
        owners.dom().finite(),
    ensures
        tokens_of(owners, a).finite(),
        tokens_of(owners, a).len() <= owners.dom().len(),
{
    vstd::set_lib::lemma_len_subset(tokens_of(owners, a), owners.dom());
}

pub(crate) proof fn lemma_tokens_of_insert(owners: Map<TokenId, AccountId>, id: TokenId, to: AccountId, b: AccountId)
    requires
        owners.dom().finite(),
        !owners.contains_key(id),
    ensures
        tokens_of(owners.insert(id, to), b).len() == if b == to {
            tokens_of(owners, b).len() + 1
        } else {
            tokens_of(owners, b).len()
        },
{
    lemma_tokens_of_finite(owners, b);
    if b == to {
        assert(tokens_of(owners.insert(id, to), b) =~= tokens_of(owners, b).insert(id));
    } else {
        assert(tokens_of(owners.insert(id, to), b) =~= tokens_of(owners, b));
    }
}

pub(crate) proof fn lemma_tokens_of_remove(owners: Map<TokenId, AccountId>, id: TokenId, b: AccountId)
    requires
        owners.dom().finite(),
        owners.contains_key(id),
    ensures
        tokens_of(owners.remove(id), b).len() == if b == owners[id] {
            tokens_of(owners, b).len() - 1
        } else {
            tokens_of(owners, b).len() as int
        },
{
    lemma_tokens_of_finite(owners, b);
    if b == owners[id] {
        assert(tokens_of(owners.remove(id), b) =~= tokens_of(owners, b).remove(id));
    } else {
        assert(tokens_of(owners.remove(id), b) =~= tokens_of(owners, b));
    }
}

/// What `mint(caller, id)` makes of `pre`: `post` and the result `r`.
pub open spec fn mint_result(
    pre: Erc721,
    post: Erc721,
    caller: AccountId,
    id: TokenId,
    r: Result<(), Error>,
) -> bool {
    if pre.owners().contains_key(id) {
        r == Err::<(), Error>(Error::TokenExists) && post == pre
    } else if caller.is_zero_spec() {
        r == Err::<(), Error>(Error::NotAllowed) && post == pre
    } else if !pre.room_for_token() || !pre.room_for_count(caller) {
        r == Err::<(), Error>(Error::CannotInsert) && post == pre
    } else {
        &&& r == Ok::<(), Error>(())
        &&& post.owners() == pre.owners().insert(id, caller)
        &&& post.approvals() == pre.approvals()
        &&& post.balances() == pre.balances().insert(caller, (pre.balance(caller) + 1) as u32)
        &&& post.operators() == pre.operators()
        &&& post.events() == pre.events().push(
            Event::Transfer(
                (Transfer { from: Some(AccountId::zero_spec()), to: Some(caller), id: id }),
            ),
        )
    }
}

/// What `burn(caller, id)` makes of `pre`: `post` and the result `r`. A burned
/// token also loses its single-token approval.
pub open spec fn burn_result(
    pre: Erc721,
    post: Erc721,
    caller: AccountId,
    id: TokenId,
    r: Result<(), Error>,
) -> bool {
    if !pre.owners().contains_key(id) {
        r == Err::<(), Error>(Error::TokenNotFound) && post == pre
    } else if pre.owners()[id] != caller {
        r == Err::<(), Error>(Error::NotOwner) && post == pre
    } else {
        &&& r == Ok::<(), Error>(())
        &&& post.owners() == pre.owners().remove(id)
        &&& post.approvals() == pre.approvals().remove(id)
        &&& post.balances() == pre.balances().insert(caller, (pre.balance(caller) - 1) as u32)
        &&& post.operators() == pre.operators()
        &&& post.events() == pre.events().push(
            Event::Transfer(
                (Transfer { from: Some(caller), to: Some(AccountId::zero_spec()), id: id }),
            ),
        )
    }
}

/// What `transfer_from(caller, from, to, id)` makes of `pre`: `post` and the result `r`.
/// Checks come in this order and nothing changes on failure: the token exists, the
/// caller may move it, `from` is its owner, `to` is a real account, and a count can be
/// recorded for `to`.
pub open spec fn transfer_result(
    pre: Erc721,
    post: Erc721,
    caller: AccountId,
    from: AccountId,
    to: AccountId,
    id: TokenId,
    r: Result<(), Error>,
) -> bool {
    if !pre.owners().contains_key(id) {
        r == Err::<(), Error>(Error::TokenNotFound) && post == pre
    } else if !pre.may_move(caller, id) {
        r == Err::<(), Error>(Error::NotApproved) && post == pre
    } else if pre.owners()[id] != from {
        r == Err::<(), Error>(Error::NotOwner) && post == pre
    } else if to.is_zero_spec() {
        r == Err::<(), Error>(Error::NotAllowed) && post == pre
    } else if !pre.room_for_count(to) {
        r == Err::<(), Error>(Error::CannotInsert) && post == pre
    } else {
        let debited = pre.balances().insert(from, (pre.balance(from) - 1) as u32);
        &&& r == Ok::<(), Error>(())
        &&& post.owners() == pre.owners().insert(id, to)
        &&& post.approvals() == pre.approvals().remove(id)
        &&& post.balances() == debited.insert(to, (count_of(debited, to) + 1) as u32)
        &&& post.operators() == pre.operators()
        &&& post.events() == pre.events().push(
            Event::Transfer((Transfer { from: Some(from), to: Some(to), id: id })),
        )
    }
}

/// What `approve(caller, to, id)` makes of `pre`: `post` and the result `r`.
pub open spec fn approve_result(
    pre: Erc721,
    post: Erc721,
    caller: AccountId,
    to: AccountId,
    id: TokenId,
    r: Result<(), Error>,
) -> bool {
    let authorized = pre.owners().contains_key(id) && (pre.owners()[id] == caller
        || pre.approved_for_all_spec(pre.owners()[id], caller));
    if !authorized {
        r == Err::<(), Error>(Error::NotAllowed) && post == pre
    } else if to.is_zero_spec() {
        r == Err::<(), Error>(Error::NotAllowed) && post == pre
    } else if pre.approvals().contains_key(id) {
        r == Err::<(), Error>(Error::CannotInsert) && post == pre
    } else {
        &&& r == Ok::<(), Error>(())
        &&& post.owners() == pre.owners()
        &&& post.approvals() == pre.approvals().insert(id, to)
        &&& post.balances() == pre.balances()
        &&& post.operators() == pre.operators()
        &&& post.events() == pre.events().push(
            Event::Approval((Approval { from: caller, to: to, id: id })),
        )
    }
}

/// What `set_approval_for_all(caller, operator, approved)` makes of `pre`: `post`
/// and the result `r`.
pub open spec fn set_approval_for_all_result(
    pre: Erc721,
    post: Erc721,
    caller: AccountId,
    operator: AccountId,
    approved: bool,
    r: Result<(), Error>,
) -> bool {
    if operator == caller {
        r == Err::<(), Error>(Error::NotAllowed) && post == pre
    } else if !pre.operators().contains_key((caller, operator))
        && pre.operators().dom().len() >= u32::MAX {
        r == Err::<(), Error>(Error::CannotInsert) && post == pre
    } else {
        &&& r == Ok::<(), Error>(())
        &&& post.owners() == pre.owners()
        &&& post.approvals() == pre.approvals()
        &&& post.balances() == pre.balances()
        &&& post.operators() == pre.operators().insert((caller, operator), approved)
        &&& post.events() == pre.events().push(
            Event::ApprovalForAll(
                (ApprovalForAll { owner: caller, operator: operator, approved: approved }),
            ),
        )
    }
}

impl Erc721 {
    /// Creates an empty ledger.
    pub fn new() -> (r: Erc721)
        ensures
            r.wf(),
            r.owners().is_empty(),
            r.approvals().is_empty(),
            r.balances().is_empty(),
            r.operators().is_empty(),
            r.events() == Seq::<Event>::empty(),
    {
        let r = Erc721 {
            token_owner: token_store_new(),
            token_approvals: token_store_new(),
            owned_tokens_count: count_store_new(),
            operator_approves: flag_store_new(),
            events: Vec::new(),
        };
        proof {
            assert forall|a: AccountId| #[trigger] r.balance(a) == tokens_of(r.owners(), a).len() by {
                assert(tokens_of(r.owners(), a) =~= Set::<TokenId>::empty());
            }
        }
        r
    }

    /// The number of tokens `owner` holds.
    pub fn balance_of(&self, owner: AccountId) -> (r: u32)
        ensures
            r as nat == self.balance(owner),
    {
        self.balance_of_or_zero(owner)
    }

    /// The owner of `id`, or `None` if the token does not exist.
    pub fn owner_of(&self, id: TokenId) -> (r: Option<AccountId>)
        ensures
            r == (if self.owners().contains_key(id) {
                Some(self.owners()[id])
            } else {
                None::<AccountId>
            }),
    {
        token_store_get(&self.token_owner, id)
    }

    /// The approved spender of `id`, if any.
    pub fn get_approved(&self, id: TokenId) -> (r: Option<AccountId>)
        ensures
            r == (if self.approvals().contains_key(id) {
                Some(self.approvals()[id])
            } else {
                None::<AccountId>
            }),
    {
        token_store_get(&self.token_approvals, id)
    }

    /// Whether `operator` may move every token of `owner`.
    pub fn is_approved_for_all(&self, owner: AccountId, operator: AccountId) -> (r: bool)
        ensures
            r == self.approved_for_all_spec(owner, operator),
    {
        self.approved_for_all(owner, operator)
    }

    /// The notifications emitted so far and not yet drained.
    pub fn recorded_events(&self) -> (r: &Vec<Event>)
        ensures
            r@ == self.events(),
    {
        &self.events
    }

    /// Hands out the notifications emitted so far and forgets them.
    pub fn take_events(&mut self) -> (r: Vec<Event>)
        requires
            old(self).wf(),
        ensures
            final(self).wf(),
            r@ == old(self).events(),
            final(self).events() == Seq::<Event>::empty(),
            final(self).owners() == old(self).owners(),
            final(self).approvals() == old(self).approvals(),
            final(self).balances() == old(self).balances(),
            final(self).operators() == old(self).operators(),
    {
        let mut taken: Vec<Event> = Vec::new();
        let ghost pre = *self;
        std::mem::swap(&mut taken, &mut self.events);
        proof {
            lemma_wf_same_maps(pre, *self);
        }
        taken
    }

    /// Creates token `id`, owned by `caller`.
    pub fn mint(&mut self, caller: AccountId, id: TokenId) -> (r: Result<(), Error>)
        requires
            old(self).wf(),
        ensures
            final(self).wf(),
            mint_result(*old(self), *final(self), caller, id, r),
    {
        match self.add_token_to(caller, id) {
            Ok(()) => {},
            Err(e) => {
                return Err(e);
            },
        }
        let zero = AccountId::zero();
        let ghost mid = *self;
        self.events.push(Event::Transfer(Transfer { from: Some(zero), to: Some(caller), id }));
        proof {
            lemma_wf_same_maps(mid, *self);
        }
        Ok(())
    }

    /// Grants (`approved`) or revokes the right of `to` to move every token of `caller`.
    pub fn set_approval_for_all(&mut self, caller: AccountId, to: AccountId, approved: bool) -> (r:
        Result<(), Error>)
        requires
            old(self).wf(),
        ensures
            final(self).wf(),
            set_approval_for_all_result(*old(self), *final(self), caller, to, approved, r),
    {
        self.approve_for_all(caller, to, approved)
    }

    /// Lets `to` move the single token `id` on behalf of its owner.
    pub fn approve(&mut self, caller: AccountId, to: AccountId, id: TokenId) -> (r: Result<
        (),
        Error,
    >)
        requires
            old(self).wf(),
        ensures
            final(self).wf(),
            approve_result(*old(self), *final(self), caller, to, id, r),
    {
        self.approve_for(caller, to, id)
    }

    /// Moves token `id` from `caller` to `destination`.
    pub fn transfer(&mut self, caller: AccountId, destination: AccountId, id: TokenId) -> (r:
        Result<(), Error>)
        requires
            old(self).wf(),
        ensures
            final(self).wf(),
            transfer_result(*old(self), *final(self), caller, caller, destination, id, r),
    {
        self.transfer_token_from(caller, caller, destination, id)
    }

    /// Moves token `id` from its owner `from` to `to`, on the authority of `caller`.
    pub fn transfer_from(&mut self, caller: AccountId, from: AccountId, to: AccountId, id: TokenId) -> (r:
        Result<(), Error>)
        requires
            old(self).wf(),
        ensures
            final(self).wf(),
            transfer_result(*old(self), *final(self), caller, from, to, id, r),
    {
        self.transfer_token_from(caller, from, to, id)
    }

    /// Destroys token `id`; only its owner may.
    pub fn burn(&mut self, caller: AccountId, id: TokenId) -> (r: Result<(), Error>)
        requires
            old(self).wf(),
        ensures
            final(self).wf(),
            burn_result(*old(self), *final(self), caller, id, r),
    {
        let owner = match token_store_get(&self.token_owner, id) {
            None => {
                return Err(Error::TokenNotFound);
            },
            Some(o) => o,
        };
        if owner != caller {
            return Err(Error::NotOwner);
        }
        match self.clear_approval(id) {
            Ok(()) => {},
            Err(e) => {
                return Err(e);
            },
        }
        match self.remove_token_from(caller, id) {
            Ok(()) => {},
            Err(e) => {
                return Err(e);
            },
        }
        let zero = AccountId::zero();
        let ghost mid = *self;
        self.events.push(Event::Transfer(Transfer { from: Some(caller), to: Some(zero), id }));
        proof {
            lemma_wf_same_maps(mid, *self);
        }
        Ok(())
    }

    fn transfer_token_from(&mut self, caller: AccountId, from: AccountId, to: AccountId, id: TokenId) -> (r:
        Result<(), Error>)
        requires
            old(self).wf(),
        ensures
            final(self).wf(),
            transfer_result(*old(self), *final(self), caller, from, to, id, r),
    {
        if !self.token_exists(id) {
            return Err(Error::TokenNotFound);
        }
        if !self.approved_or_owner(caller, id) {
            return Err(Error::NotApproved);
        }
        match token_store_get(&self.token_owner, id) {
            Some(owner) => {
                if owner != from {
                    return Err(Error::NotOwner);
                }
            },
            None => {
                return Err(Error::TokenNotFound);
            },
        }
        if to.is_zero() {
            return Err(Error::NotAllowed);
        }
        if count_store_get(&self.owned_tokens_count, to).is_none() && count_store_len(
            &self.owned_tokens_count,
        ) == u32::MAX {
            return Err(Error::CannotInsert);
        }
        let ghost pre = *self;
        match self.clear_approval(id) {
            Ok(()) => {},
            Err(e) => {
                return Err(e);
            },
        }
        match self.remove_token_from(from, id) {
            Ok(()) => {},
            Err(e) => {
                return Err(e);
            },
        }
        let ghost removed = *self;
        proof {
            assert(removed.owners().dom() =~= pre.owners().dom().remove(id));
            assert(removed.owners().dom().len() == pre.owners().dom().len() - 1);
            lemma_tokens_of_remove(pre.owners(), id, from);
            assert(pre.balance(from) == tokens_of(pre.owners(), from).len());
            assert(pre.balances().contains_key(from));
            assert(removed.balances().dom() =~= pre.balances().dom());
        }
        match self.add_token_to(to, id) {
            Ok(()) => {},
            Err(e) => {
                return Err(e);
            },
        }
        let ghost mid = *self;
        proof {
            assert(mid.owners() =~= pre.owners().insert(id, to));
        }
        self.events.push(Event::Transfer(Transfer { from: Some(from), to: Some(to), id }));
        proof {
            lemma_wf_same_maps(mid, *self);
        }
        Ok(())
    }

    fn approve_for(&mut self, caller: AccountId, to: AccountId, id: TokenId) -> (r: Result<(), Error>)
        requires
            old(self).wf(),
        ensures
            final(self).wf(),
            approve_result(*old(self), *final(self), caller, to, id, r),
    {
        let authorized = match token_store_get(&self.token_owner, id) {
            Some(owner) => owner == caller || self.approved_for_all(owner, caller),
            None => false,
        };
        if !authorized {
            return Err(Error::NotAllowed);
        }
        if to.is_zero() {
            return Err(Error::NotAllowed);
        }
        if token_store_get(&self.token_approvals, id).is_some() {
            return Err(Error::CannotInsert);
        }
        let ghost pre = *self;
        proof {
            vstd::set_lib::lemma_len_subset(pre.approvals().dom(), pre.owners().dom().remove(id));
        }
        token_store_insert(&mut self.token_approvals, id, to);
        let ghost mid = *self;
        proof {
            lemma_wf_same_maps_but_approvals(pre, mid);
        }
        self.events.push(Event::Approval(Approval { from: caller, to, id }));
        proof {
            lemma_wf_same_maps(mid, *self);
        }
        Ok(())
    }

    fn approve_for_all(&mut self, caller: AccountId, to: AccountId, approved: bool) -> (r: Result<
        (),
        Error,
    >)
        requires
            old(self).wf(),
        ensures
            final(self).wf(),
            set_approval_for_all_result(*old(self), *final(self), caller, to, approved, r),
    {
        if to == caller {
            return Err(Error::NotAllowed);
        }
        if flag_store_get(&self.operator_approves, caller, to).is_none() && flag_store_len(
            &self.operator_approves,
        ) == u32::MAX {
            return Err(Error::CannotInsert);
        }
        let ghost pre = *self;
        self.events.push(Event::ApprovalForAll(ApprovalForAll { owner: caller, operator: to, approved }));
        flag_store_insert(&mut self.operator_approves, caller, to, approved);
        proof {
            assert forall|a: AccountId| #[trigger]
                self.balance(a) == tokens_of(self.owners(), a).len() by {
                assert(pre.balance(a) == tokens_of(pre.owners(), a).len());
            }
        }
        Ok(())
    }

    fn approved_or_owner(&self, caller: AccountId, id: TokenId) -> (r: bool)
        requires
            self.owners().contains_key(id),
        ensures
            r == self.may_move(caller, id),
    {
        let owner = match token_store_get(&self.token_owner, id) {
            Some(o) => o,
            None => {
                return false;
            },
        };
        let spender = match token_store_get(&self.token_approvals, id) {
            Some(a) => a == caller,
            None => false,
        };
        !caller.is_zero() && (caller == owner || spender || self.approved_for_all(owner, caller))
    }

    /// Drops the single-token approval of `id`, if there is one.
    fn clear_approval(&mut self, id: TokenId) -> (r: Result<(), Error>)
        requires
            old(self).wf(),
        ensures
            final(self).wf(),
            r == Ok::<(), Error>(()),
            final(self).owners() == old(self).owners(),
            final(self).approvals() == old(self).approvals().remove(id),
            final(self).balances() == old(self).balances(),
            final(self).operators() == old(self).operators(),
            final(self).events() == old(self).events(),
    {
        if token_store_get(&self.token_approvals, id).is_none() {
            proof {
                assert(self.approvals().remove(id) =~= self.approvals());
            }
            return Ok(());
        }
        let ghost pre = *self;
        match token_store_take(&mut self.token_approvals, id) {
            Some(_) => {
                proof {
                    lemma_wf_same_maps_but_approvals(pre, *self);
                }
                Ok(())
            },
            None => Err(Error::CannotRemove),
        }
    }

    /// Takes the existing token `id` away from its owner `from`.
    fn remove_token_from(&mut self, from: AccountId, id: TokenId) -> (r: Result<(), Error>)
        requires
            old(self).wf(),
            old(self).owners().contains_key(id),
            old(self).owners()[id] == from,
            !old(self).approvals().contains_key(id),
        ensures
            final(self).wf(),
            r == Ok::<(), Error>(()),
            final(self).owners() == old(self).owners().remove(id),
            final(self).approvals() == old(self).approvals(),
            final(self).balances() == old(self).balances().insert(
                from,
                (old(self).balance(from) - 1) as u32,
            ),
            final(self).operators() == old(self).operators(),
            final(self).events() == old(self).events(),
    {
        if !self.token_exists(id) {
            return Err(Error::TokenNotFound);
        }
        let ghost pre = *self;
        proof {
            lemma_tokens_of_remove(pre.owners(), id, from);
            assert(pre.balance(from) == tokens_of(pre.owners(), from).len());
        }
        match decrease_counter_of(&mut self.owned_tokens_count, from) {
            Ok(()) => {},
            Err(e) => {
                return Err(e);
            },
        }
        token_store_take(&mut self.token_owner, id);
        proof {
            assert forall|a: AccountId| #[trigger]
                self.balance(a) == tokens_of(self.owners(), a).len() by {
                lemma_tokens_of_remove(pre.owners(), id, a);
                assert(pre.balance(a) == tokens_of(pre.owners(), a).len());
            }
        }
        Ok(())
    }

    fn balance_of_or_zero(&self, of: AccountId) -> (r: u32)
        ensures
            r as nat == self.balance(of),
    {
        match count_store_get(&self.owned_tokens_count, of) {
            Some(c) => c,
            None => 0,
        }
    }

    fn approved_for_all(&self, owner: AccountId, operator: AccountId) -> (r: bool)
        ensures
            r == self.approved_for_all_spec(owner, operator),
    {
        match flag_store_get(&self.operator_approves, owner, operator) {
            Some(f) => f,
            None => false,
        }
    }

    fn token_exists(&self, id: TokenId) -> (r: bool)
        ensures
            r == self.owners().contains_key(id),
    {
        token_store_get(&self.token_owner, id).is_some()
    }

    /// Records `to` as the owner of the new token `id` and counts it.
    fn add_token_to(&mut self, to: AccountId, id: TokenId) -> (r: Result<(), Error>)
        requires
            old(self).wf(),
        ensures
            final(self).wf(),
            if old(self).owners().contains_key(id) {
                r == Err::<(), Error>(Error::TokenExists) && *final(self) == *old(self)
            } else if to.is_zero_spec() {
                r == Err::<(), Error>(Error::NotAllowed) && *final(self) == *old(self)
            } else if !old(self).room_for_token() || !old(self).room_for_count(to) {
                r == Err::<(), Error>(Error::CannotInsert) && *final(self) == *old(self)
            } else {
                &&& r == Ok::<(), Error>(())
                &&& final(self).owners() == old(self).owners().insert(id, to)
                &&& final(self).approvals() == old(self).approvals()
                &&& final(self).balances() == old(self).balances().insert(
                    to,
                    (old(self).balance(to) + 1) as u32,
                )
                &&& final(self).operators() == old(self).operators()
                &&& final(self).events() == old(self).events()
            },
    {
        if self.token_exists(id) {
            return Err(Error::TokenExists);
        }
        if to.is_zero() {
            return Err(Error::NotAllowed);
        }
        if token_store_len(&self.token_owner) == u32::MAX {
            return Err(Error::CannotInsert);
        }
        let count = count_store_get(&self.owned_tokens_count, to);
        if count.is_none() && count_store_len(&self.owned_tokens_count) == u32::MAX {
            return Err(Error::CannotInsert);
        }
        let ghost pre = *self;
        proof {
            lemma_tokens_of_finite(pre.owners(), to);
        }
        increase_counter_of(&mut self.owned_tokens_count, to);
        token_store_insert(&mut self.token_owner, id, to);
        proof {
            assert forall|a: AccountId| #[trigger]
                self.balance(a) == tokens_of(self.owners(), a).len() by {
                lemma_tokens_of_insert(pre.owners(), id, to, a);
                assert(pre.balance(a) == tokens_of(pre.owners(), a).len());
            }
        }
        Ok(())
    }
}

/// Lowers the count of `of` by one.
fn decrease_counter_of(counts: &mut CountStore, of: AccountId) -> (r: Result<(), Error>)
    requires
        count_entries(*old(counts)).contains_key(of) ==> count_entries(*old(counts))[of] > 0,
    ensures
        count_entries(*old(counts)).contains_key(of) ==> r == Ok::<(), Error>(())
            && count_entries(*final(counts)) == count_entries(*old(counts)).insert(
            of,
            (count_entries(*old(counts))[of] - 1) as u32,
        ),
        !count_entries(*old(counts)).contains_key(of) ==> r == Err::<(), Error>(
            Error::CannotFetchValue,
        ) && *final(counts) == *old(counts),
{
    match count_store_get(counts, of) {
        Some(c) => {
            count_store_insert(counts, of, c - 1);
            Ok(())
        },
        None => Err(Error::CannotFetchValue),
    }
}

/// Raises the count of `of` by one; an absent entry starts at one.
fn increase_counter_of(counts: &mut CountStore, of: AccountId)
    requires
        count_of(count_entries(*old(counts)), of) < u32::MAX,
        count_entries(*old(counts)).contains_key(of) || count_entries(*old(counts)).dom().len()
            < u32::MAX,
    ensures
        count_entries(*final(counts)) == count_entries(*old(counts)).insert(
            of,
            (count_of(count_entries(*old(counts)), of) + 1) as u32,
        ),
{
    let next: u32 = match count_store_get(counts, of) {
        Some(c) => c + 1,
        None => 1,
    };
    count_store_insert(counts, of, next);
}

} // verus!
