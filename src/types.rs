use vstd::prelude::*;

verus! {

/// Identifier of a token.
pub type TokenId = u32;

/// An account: 32 raw bytes. The all-zero account is the "no account" sentinel.
#[derive(Clone, Copy, Debug, Eq)]
pub struct AccountId(pub [u8; 32]);

impl AccountId {
    /// The all-zero sentinel, standing for "no account".
    pub open spec fn zero_spec() -> AccountId {
        AccountId(vstd::array::spec_array_fill_for_copy_type(0u8))
    }

    pub open spec fn is_zero_spec(self) -> bool {
        self == AccountId::zero_spec()
    }

    /// Returns the all-zero sentinel account.
    pub fn zero() -> (r: AccountId)
        ensures
            r == AccountId::zero_spec(),
    {
        AccountId(vstd::array::array_fill_for_copy_types(0u8))
    }

    /// Returns whether this is the all-zero sentinel account.
    pub fn is_zero(&self) -> (r: bool)
        ensures
            r == self.is_zero_spec(),
    {
        *self == AccountId::zero()
    }
}

impl PartialEq for AccountId {
    fn eq(&self, other: &AccountId) -> (r: bool)
        ensures
            r == (*self == *other),
    {
        let mut i: usize = 0;
        while i < 32
            invariant
                0 <= i <= 32,
                forall|j: int| 0 <= j < i ==> #[trigger] self.0[j] == other.0[j],
            decreases 32 - i,
        {
            if self.0[i] != other.0[i] {
                return false;
            }
            i = i + 1;
        }
        proof {
            assert(self.0@ =~= other.0@);
            vstd::array::axiom_array_ext_equal(self.0, other.0);
        }
        true
    }
}

impl vstd::std_specs::cmp::PartialEqSpecImpl for AccountId {
    open spec fn obeys_eq_spec() -> bool {
        true
    }

    open spec fn eq_spec(&self, other: &AccountId) -> bool {
        *self == *other
    }
}

/// Why an operation of the ledger failed.
#[derive(Clone, Copy, Debug, PartialEq, Eq, Structural)]
pub enum Error {
    NotOwner,
    NotApproved,
    TokenExists,
    TokenNotFound,
    CannotInsert,
    CannotRemove,
    CannotFetchValue,
    NotAllowed,
}

/// A token changed hands; the zero account stands for creation (`from`) or destruction (`to`).
#[derive(Clone, Copy, Debug, PartialEq, Eq)]
pub struct Transfer {
    pub from: Option<AccountId>,
    pub to: Option<AccountId>,
    pub id: TokenId,
}

/// `from` approved `to` to move the single token `id`.
#[derive(Clone, Copy, Debug, PartialEq, Eq)]
pub struct Approval {
    pub from: AccountId,
    pub to: AccountId,
    pub id: TokenId,
}

/// `owner` granted or revoked blanket rights of `operator` over its tokens.
#[derive(Clone, Copy, Debug, PartialEq, Eq)]
pub struct ApprovalForAll {
    pub owner: AccountId,
    pub operator: AccountId,
    pub approved: bool,
}

/// A notification emitted by a successful operation.
#[derive(Clone, Copy, Debug, PartialEq, Eq)]
pub enum Event {
    Transfer(Transfer),
    Approval(Approval),
    ApprovalForAll(ApprovalForAll),
}

} // verus!
