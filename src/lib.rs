//! A ledger of non-fungible tokens: each token identifier has at most one owner,
//! balances always equal the number of tokens held, and every move is authorized
//! by the owner, a single-token approval, or an operator approval. The identity of
//! the calling account is an explicit argument of each operation, and successful
//! operations record their notifications for the host to drain.

pub mod types;
mod store;
pub mod ledger;
pub mod laws;
