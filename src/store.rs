use vstd::prelude::*;
use ink_storage::collections::HashMap as StorageHashMap;
use crate::types::AccountId;

verus! {

/// Storage map from token to account, backed by ink_storage's `HashMap`.
#[verifier::external_body]
pub struct TokenStore {
    inner: StorageHashMap<u32, [u8; 32]>,
}

/// Storage map from account to token count, backed by ink_storage's `HashMap`.
#[verifier::external_body]
pub struct CountStore {
    inner: StorageHashMap<[u8; 32], u32>,
}

/// Storage map from (owner, operator) to a flag, backed by ink_storage's `HashMap`.
#[verifier::external_body]
pub struct FlagStore {
    inner: StorageHashMap<([u8; 32], [u8; 32]), bool>,
}

/// The entries held by a `TokenStore`.
pub uninterp spec fn token_entries(m: TokenStore) -> Map<u32, AccountId>;

/// The entries held by a `CountStore`.
pub uninterp spec fn count_entries(m: CountStore) -> Map<AccountId, u32>;

/// The entries held by a `FlagStore`.
pub uninterp spec fn flag_entries(m: FlagStore) -> Map<(AccountId, AccountId), bool>;

/// Relies on ink_storage's `HashMap::new`: the map starts empty.
#[verifier::external_body]
pub(crate) fn token_store_new() -> (r: TokenStore)
    ensures
        token_entries(r).is_empty(),
{
    TokenStore { inner: StorageHashMap::new() }
}

/// Relies on ink_storage's `HashMap::get`: the value stored under `k`, if any.
#[verifier::external_body]
pub(crate) fn token_store_get(m: &TokenStore, k: u32) -> (r: Option<AccountId>)
    ensures
        r == (if token_entries(*m).contains_key(k) {
            Some(token_entries(*m)[k])
        } else {
            None::<AccountId>
        }),
{
    m.inner.get(&k).map(|b| AccountId(*b))
}

/// Relies on ink_storage's `HashMap::insert`: stores `v` under `k` and returns the
/// value it replaced. A new key grows the map's `u32` entry count.
#[verifier::external_body]
pub(crate) fn token_store_insert(m: &mut TokenStore, k: u32, v: AccountId) -> (r: Option<AccountId>)
    requires
        token_entries(*old(m)).contains_key(k) || token_entries(*old(m)).dom().len() < u32::MAX,
    ensures
        token_entries(*final(m)) == token_entries(*old(m)).insert(k, v),
        r == (if token_entries(*old(m)).contains_key(k) {
            Some(token_entries(*old(m))[k])
        } else {
            None::<AccountId>
        }),
{
    m.inner.insert(k, v.0).map(|b| AccountId(b))
}

/// Relies on ink_storage's `HashMap::take`: removes the entry of `k` and returns its value.
#[verifier::external_body]
pub(crate) fn token_store_take(m: &mut TokenStore, k: u32) -> (r: Option<AccountId>)
    ensures
        token_entries(*final(m)) == token_entries(*old(m)).remove(k),
        r == (if token_entries(*old(m)).contains_key(k) {
            Some(token_entries(*old(m))[k])
        } else {
            None::<AccountId>
        }),
{
    m.inner.take(&k).map(|b| AccountId(b))
}

/// Relies on ink_storage's `HashMap::len`: the number of entries.
#[verifier::external_body]
pub(crate) fn token_store_len(m: &TokenStore) -> (r: u32)
    ensures
        r as nat == token_entries(*m).dom().len(),
{
    m.inner.len()
}

/// Relies on ink_storage's `HashMap::new`: the map starts empty.
#[verifier::external_body]
pub(crate) fn count_store_new() -> (r: CountStore)
    ensures
        count_entries(r).is_empty(),
{
    CountStore { inner: StorageHashMap::new() }
}

/// Relies on ink_storage's `HashMap::get`: the value stored under `k`, if any.
#[verifier::external_body]
pub(crate) fn count_store_get(m: &CountStore, k: AccountId) -> (r: Option<u32>)
    ensures
        r == (if count_entries(*m).contains_key(k) {
            Some(count_entries(*m)[k])
        } else {
            None::<u32>
        }),
{
    m.inner.get(&k.0).map(|c| *c)
}

/// Relies on ink_storage's `HashMap::insert`: stores `v` under `k`. A new key grows
/// the map's `u32` entry count.
#[verifier::external_body]
pub(crate) fn count_store_insert(m: &mut CountStore, k: AccountId, v: u32) -> (r: Option<u32>)
    requires
        count_entries(*old(m)).contains_key(k) || count_entries(*old(m)).dom().len() < u32::MAX,
    ensures
        count_entries(*final(m)) == count_entries(*old(m)).insert(k, v),
        r == (if count_entries(*old(m)).contains_key(k) {
            Some(count_entries(*old(m))[k])
        } else {
            None::<u32>
        }),
{
    m.inner.insert(k.0, v)
}

/// Relies on ink_storage's `HashMap::len`: the number of entries.
#[verifier::external_body]
pub(crate) fn count_store_len(m: &CountStore) -> (r: u32)
    ensures
        r as nat == count_entries(*m).dom().len(),
{
    m.inner.len()
}

/// Relies on ink_storage's `HashMap::new`: the map starts empty.
#[verifier::external_body]
pub(crate) fn flag_store_new() -> (r: FlagStore)
    ensures
        flag_entries(r).is_empty(),
{
    FlagStore { inner: StorageHashMap::new() }
}

/// Relies on ink_storage's `HashMap::get`: the value stored under `(a, b)`, if any.
#[verifier::external_body]
pub(crate) fn flag_store_get(m: &FlagStore, a: AccountId, b: AccountId) -> (r: Option<bool>)
    ensures
        r == (if flag_entries(*m).contains_key((a, b)) {
            Some(flag_entries(*m)[(a, b)])
        } else {
            None::<bool>
        }),
{
    m.inner.get(&(a.0, b.0)).map(|f| *f)
}

/// Relies on ink_storage's `HashMap::insert`: stores `v` under `(a, b)`. A new key
/// grows the map's `u32` entry count.
#[verifier::external_body]
pub(crate) fn flag_store_insert(m: &mut FlagStore, a: AccountId, b: AccountId, v: bool) -> (r: Option<bool>)
    requires
        flag_entries(*old(m)).contains_key((a, b)) || flag_entries(*old(m)).dom().len() < u32::MAX,
    ensures
        flag_entries(*final(m)) == flag_entries(*old(m)).insert((a, b), v),
        r == (if flag_entries(*old(m)).contains_key((a, b)) {
            Some(flag_entries(*old(m))[(a, b)])
        } else {
            None::<bool>
        }),
{
    m.inner.insert((a.0, b.0), v)
}

/// Relies on ink_storage's `HashMap::len`: the number of entries.
#[verifier::external_body]
pub(crate) fn flag_store_len(m: &FlagStore) -> (r: u32)
    ensures
        r as nat == flag_entries(*m).dom().len(),
{
    m.inner.len()
}

} // verus!
