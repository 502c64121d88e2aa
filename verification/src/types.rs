//! Plain data carried across the registry's boundary: token and contract
//! metadata records, the constructed token, errors, and the refund decision
//! the purchase-mint path hands back for asynchronous dispatch.

use vstd::prelude::*;

verus! {

/// The structured record attached to a token when it is minted.
#[derive(Debug)]
pub struct TokenMetadata {
    pub title: Option<String>,
    pub description: Option<String>,
    pub media: Option<String>,
    pub extra: Option<String>,
}

impl TokenMetadata {
    pub fn new_titled(title: String) -> (r: TokenMetadata)
        ensures
            r.title == Some(title),
            r.description is None,
            r.media is None,
            r.extra is None,
    {
        TokenMetadata { title: Some(title), description: None, media: None, extra: None }
    }
}

impl Clone for TokenMetadata {
    fn clone(&self) -> (r: Self)
        ensures
            r == *self,
    {
        TokenMetadata {
            title: clone_opt_string(&self.title),
            description: clone_opt_string(&self.description),
            media: clone_opt_string(&self.media),
            extra: clone_opt_string(&self.extra),
        }
    }
}

fn clone_opt_string(o: &Option<String>) -> (r: Option<String>)
    ensures
        r == *o,
{
    match o {
        Some(s) => Some(s.clone()),
        None => None,
    }
}

/// The contract-level descriptor, set once at initialization.
pub struct ContractMetadata {
    pub spec_version: String,
    pub name: String,
    pub symbol: String,
    pub icon: Option<String>,
}

/// A minted token as handed back to callers.
#[derive(Debug)]
pub struct Token {
    pub token_id: String,
    pub owner_id: String,
    pub metadata: Option<TokenMetadata>,
    /// `Some` (and empty at mint time) exactly when the approval index is
    /// enabled.
    pub approved_account_ids: Option<Vec<(String, u64)>>,
}

/// Why a mint was rejected. Every rejection leaves the registry untouched.
#[derive(Clone, Copy, Debug, PartialEq, Eq, Structural)]
pub enum MintError {
    /// The purchase-mint path demands a metadata record.
    MissingMetadata,
    /// The token id is already taken, and can never be reassigned.
    DuplicateToken,
    /// The prepayment does not cover the storage cost; carries the required
    /// amount.
    InsufficientDeposit(u128),
}

/// The surplus the purchase-mint path asks the environment to send back.
/// Dispatching it is asynchronous and best-effort: its outcome is never
/// observed by the registry.
#[derive(Debug, PartialEq, Eq)]
pub struct RefundTransfer {
    pub target: String,
    pub amount: u128,
}

} // verus!
