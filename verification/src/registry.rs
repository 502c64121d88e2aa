//! The registry core: four coupled indices over one logical token set, the
//! storage meter that prices what an operation adds to them, and the mint,
//! purchase-mint and approval protocols built on top.
//!
//! The registry owns its state exclusively; the surrounding environment
//! serializes calls, supplies the per-byte price and the prepaid amount, and
//! dispatches the refund transfers the purchase-mint path decides on.

use vstd::prelude::*;
use vstd::string::StrSliceExecFns;
use vstd::string::StringExecFns;
use crate::strmap::StrMap;
use crate::types::{ContractMetadata, MintError, RefundTransfer, Token, TokenMetadata};

verus! {

/// A refund of at most this many currency units is not worth the transaction
/// overhead and is skipped rather than dispatched.
pub const DUST_THRESHOLD: u128 = 1;

/// Fixed bookkeeping charge, in storage units, for each index entry the
/// storage model counts.
pub const ENTRY_OVERHEAD: u64 = 40;

/// Storage units charged for an optional string attribute.
pub open spec fn opt_str_units(o: Option<String>) -> int {
    match o {
        Some(s) => s@.len() as int,
        None => 0,
    }
}

/// Storage units charged for a metadata record.
pub open spec fn metadata_units(m: TokenMetadata) -> int {
    opt_str_units(m.title) + opt_str_units(m.description) + opt_str_units(m.media) + opt_str_units(
        m.extra,
    )
}

/// The token ids held in one owner's entry of the owner index.
pub open spec fn ids_of_seq(q: Seq<String>) -> Set<Seq<char>> {
    Set::new(|x: Seq<char>| exists|i: int| 0 <= i < q.len() && q[i]@ == x)
}

/// As `ids_of_seq`, over the stored vector.
pub open spec fn ids_of(v: Vec<String>) -> Set<Seq<char>> {
    ids_of_seq(v@)
}

proof fn lemma_ids_of_push(q: Seq<String>, s: String)
    ensures
        ids_of_seq(q.push(s)) == ids_of_seq(q).insert(s@),
{
    assert forall|x: Seq<char>| ids_of_seq(q.push(s)).contains(x) implies ids_of_seq(
        q,
    ).insert(s@).contains(x) by {
        let i = choose|i: int| 0 <= i < q.push(s).len() && q.push(s)[i]@ == x;
        if i < q.len() {
            assert(q[i]@ == x);
        }
    }
    assert forall|x: Seq<char>| ids_of_seq(q).insert(s@).contains(x) implies ids_of_seq(
        q.push(s),
    ).contains(x) by {
        if x == s@ {
            assert(q.push(s)[q.len() as int]@ == x);
        } else {
            let i = choose|i: int| 0 <= i < q.len() && q[i]@ == x;
            assert(q.push(s)[i]@ == x);
        }
    }
    assert(ids_of_seq(q.push(s)) =~= ids_of_seq(q).insert(s@));
}

/// The registry. Its four index mappings are projections of one logical token
/// set and stay mutually consistent (`wf`); `storage_usage` is the monotonic
/// counter of storage units its persistent state occupies, sampled by the
/// purchase-mint path before and after mutating.
pub struct Contract {
    /// The account the registry was initialized for.
    pub owner_id: String,
    /// The contract-level descriptor, set once at initialization.
    pub metadata: ContractMetadata,
    /// token id -> owning account; absence means the token does not exist.
    pub owner_by_id: StrMap<String>,
    /// token id -> metadata record; `None` when the metadata index is
    /// disabled.
    pub metadata_by_id: Option<StrMap<TokenMetadata>>,
    /// owning account -> ids of its tokens; derived from `owner_by_id`.
    pub tokens_by_owner: StrMap<Vec<String>>,
    /// token id -> approved account -> approval sequence number; `None` when
    /// the approval index is disabled.
    pub approvals_by_id: Option<StrMap<StrMap<u64>>>,
    /// token id -> next approval sequence number to assign; enabled exactly
    /// when `approvals_by_id` is.
    pub next_approval_id_by_id: Option<StrMap<u64>>,
    /// Monotonic storage-usage counter, in storage units.
    pub storage_usage: u64,
    /// Price of one storage unit, fixed at initialization by the environment.
    pub price_per_byte: u64,
}

impl Contract {
    pub open spec fn metadata_enabled(&self) -> bool {
        self.metadata_by_id is Some
    }

    pub open spec fn approvals_enabled(&self) -> bool {
        self.approvals_by_id is Some
    }

    pub open spec fn owners(&self) -> Map<Seq<char>, String> {
        self.owner_by_id@
    }

    pub open spec fn meta_map(&self) -> Map<Seq<char>, TokenMetadata> {
        self.metadata_by_id->Some_0@
    }

    pub open spec fn sets_map(&self) -> Map<Seq<char>, Vec<String>> {
        self.tokens_by_owner@
    }

    pub open spec fn approvals_map(&self) -> Map<Seq<char>, StrMap<u64>> {
        self.approvals_by_id->Some_0@
    }

    pub open spec fn next_map(&self) -> Map<Seq<char>, u64> {
        self.next_approval_id_by_id->Some_0@
    }

    /// Mutual consistency of the four indices: every live token id is mapped
    /// to exactly one owner, sits in that owner's set and in no other, and
    /// (when the metadata index is enabled) carries a metadata record.
    pub open spec fn wf(&self) -> bool {
        &&& self.owner_by_id.wf()
        &&& self.tokens_by_owner.wf()
        &&& (self.metadata_enabled() ==> self.metadata_by_id->Some_0.wf())
        &&& (self.approvals_enabled() ==> self.approvals_by_id->Some_0.wf())
        &&& (self.approvals_enabled() ==> forall|id: Seq<char>|
            #[trigger] self.approvals_map().contains_key(id) ==> self.approvals_map()[id].wf())
        &&& (self.approvals_enabled() <==> self.next_approval_id_by_id is Some)
        &&& (self.approvals_enabled() ==> self.next_approval_id_by_id->Some_0.wf())
        &&& (self.approvals_enabled() ==> forall|id: Seq<char>|
            #[trigger] self.next_map().contains_key(id) ==> self.next_map()[id] >= 1)
        &&& (self.metadata_enabled() ==> forall|id: Seq<char>|
            #[trigger] self.owners().contains_key(id) ==> self.meta_map().contains_key(id))
        &&& (forall|id: Seq<char>| #[trigger] self.owners().contains_key(id) ==> {
            &&& self.sets_map().contains_key(self.owners()[id]@)
            &&& ids_of(self.sets_map()[self.owners()[id]@]).contains(id)
        })
        &&& (forall|o: Seq<char>, id: Seq<char>|
            self.sets_map().contains_key(o) && #[trigger] ids_of(self.sets_map()[o]).contains(id)
                ==> self.owners().contains_key(id) && self.owners()[id]@ == o)
    }

    /// Storage units a mint of `id` to `owner` with record `meta` adds: one
    /// owner entry, one metadata entry if that index is enabled, the id in
    /// the owner's set (plus the set itself if `owner` holds nothing yet),
    /// and a reserved approval entry if that index is enabled.
    pub open spec fn mint_delta(&self, id: Seq<char>, owner: Seq<char>, meta: TokenMetadata) -> int {
        id.len() + owner.len() + ENTRY_OVERHEAD + (if self.metadata_enabled() {
            id.len() + metadata_units(meta) + ENTRY_OVERHEAD
        } else {
            0
        }) + (if self.sets_map().contains_key(owner) {
            id.len() as int
        } else {
            owner.len() + id.len() + ENTRY_OVERHEAD
        }) + (if self.approvals_enabled() {
            id.len() + ENTRY_OVERHEAD
        } else {
            0
        })
    }

    /// What the purchase-mint path charges for a mint: its storage delta at
    /// the per-unit price.
    pub open spec fn purchase_cost(&self, id: Seq<char>, owner: Seq<char>, meta: TokenMetadata) -> int {
        self.mint_delta(id, owner, meta) * self.price_per_byte
    }
}

/// Every token id that exists in `pre` still exists in `post`: no operation
/// ever deletes or reassigns an id.
pub open spec fn preserves_tokens(pre: Contract, post: Contract) -> bool {
    forall|id: Seq<char>|
        #[trigger] pre.owners().contains_key(id) ==> post.owners().contains_key(id)
}

/// How a successful mint of `token_id` to `owner` with record `meta` changes
/// the registry: the id is added to the owner index and (where enabled) to
/// the metadata and approval indices, it joins exactly `owner`'s set, the
/// storage counter grows by the mint's delta, and nothing else moves.
pub open spec fn mint_effect(
    pre: Contract,
    post: Contract,
    token_id: String,
    owner: String,
    meta: TokenMetadata,
) -> bool {
    &&& post.owners() == pre.owners().insert(token_id@, owner)
    &&& (post.metadata_by_id is Some <==> pre.metadata_by_id is Some)
    &&& (pre.metadata_enabled() ==> post.meta_map() == pre.meta_map().insert(token_id@, meta))
    &&& post.sets_map().dom() == pre.sets_map().dom().insert(owner@)
    &&& (forall|o: Seq<char>|
        o != owner@ && #[trigger] pre.sets_map().contains_key(o) ==> post.sets_map()[o]
            == pre.sets_map()[o])
    &&& post.sets_map()[owner@]@ == (if pre.sets_map().contains_key(owner@) {
        pre.sets_map()[owner@]@
    } else {
        Seq::<String>::empty()
    }).push(token_id)
    &&& (post.approvals_by_id is Some <==> pre.approvals_by_id is Some)
    &&& (pre.approvals_enabled() ==> {
        &&& post.approvals_map().dom() == pre.approvals_map().dom().insert(token_id@)
        &&& (forall|k: Seq<char>|
            k != token_id@ && #[trigger] pre.approvals_map().contains_key(k)
                ==> post.approvals_map()[k] == pre.approvals_map()[k])
        &&& post.approvals_map()[token_id@]@ == Map::<Seq<char>, u64>::empty()
        &&& post.approvals_map()[token_id@].wf()
    })
    &&& post.next_approval_id_by_id == pre.next_approval_id_by_id
    &&& post.storage_usage == pre.storage_usage + pre.mint_delta(token_id@, owner@, meta)
    &&& post.owner_id == pre.owner_id
    &&& post.metadata == pre.metadata
    &&& post.price_per_byte == pre.price_per_byte
}

/// Exec mirror of `opt_str_units`.
fn opt_str_size(o: &Option<String>) -> (r: u128)
    ensures
        r == opt_str_units(*o),
        r <= u64::MAX,
{
    match o {
        Some(s) => s.as_str().unicode_len() as u128,
        None => 0,
    }
}

/// Exec mirror of `metadata_units`.
fn metadata_size(m: &TokenMetadata) -> (r: u128)
    ensures
        r == metadata_units(*m),
        r <= 4 * (u64::MAX as u128),
{
    opt_str_size(&m.title) + opt_str_size(&m.description) + opt_str_size(&m.media) + opt_str_size(
        &m.extra,
    )
}

impl Contract {
    /// Builds an empty registry, choosing which optional indices exist.
    pub fn with_indices(
        owner_id: String,
        metadata: ContractMetadata,
        price_per_byte: u64,
        metadata_index: bool,
        approval_index: bool,
    ) -> (r: Contract)
        ensures
            r.wf(),
            r.owners() == Map::<Seq<char>, String>::empty(),
            r.sets_map() == Map::<Seq<char>, Vec<String>>::empty(),
            r.metadata_enabled() == metadata_index,
            r.approvals_enabled() == approval_index,
            metadata_index ==> r.meta_map() == Map::<Seq<char>, TokenMetadata>::empty(),
            approval_index ==> r.approvals_map() == Map::<Seq<char>, StrMap<u64>>::empty(),
            approval_index ==> r.next_map() == Map::<Seq<char>, u64>::empty(),
            r.storage_usage == 0,
            r.price_per_byte == price_per_byte,
            r.owner_id == owner_id,
            r.metadata == metadata,
    {
        Contract {
            owner_id,
            metadata,
            owner_by_id: StrMap::new(),
            metadata_by_id: if metadata_index {
                Some(StrMap::new())
            } else {
                None
            },
            tokens_by_owner: StrMap::new(),
            approvals_by_id: if approval_index {
                Some(StrMap::new())
            } else {
                None
            },
            next_approval_id_by_id: if approval_index {
                Some(StrMap::new())
            } else {
                None
            },
            storage_usage: 0,
            price_per_byte,
        }
    }

    /// Builds an empty registry with every optional index enabled.
    pub fn new(owner_id: String, metadata: ContractMetadata, price_per_byte: u64) -> (r: Contract)
        ensures
            r.wf(),
            r.owners() == Map::<Seq<char>, String>::empty(),
            r.sets_map() == Map::<Seq<char>, Vec<String>>::empty(),
            r.metadata_enabled(),
            r.approvals_enabled(),
            r.meta_map() == Map::<Seq<char>, TokenMetadata>::empty(),
            r.approvals_map() == Map::<Seq<char>, StrMap<u64>>::empty(),
            r.next_map() == Map::<Seq<char>, u64>::empty(),
            r.storage_usage == 0,
            r.price_per_byte == price_per_byte,
            r.owner_id == owner_id,
            r.metadata == metadata,
    {
        Contract::with_indices(owner_id, metadata, price_per_byte, true, true)
    }

    /// Builds an empty registry under this deployment's stock descriptor.
    pub fn new_default_meta(owner_id: String, price_per_byte: u64) -> (r: Contract)
        ensures
            r.wf(),
            r.owners() == Map::<Seq<char>, String>::empty(),
            r.sets_map() == Map::<Seq<char>, Vec<String>>::empty(),
            r.metadata_enabled(),
            r.approvals_enabled(),
            r.meta_map() == Map::<Seq<char>, TokenMetadata>::empty(),
            r.approvals_map() == Map::<Seq<char>, StrMap<u64>>::empty(),
            r.next_map() == Map::<Seq<char>, u64>::empty(),
            r.storage_usage == 0,
            r.price_per_byte == price_per_byte,
            r.owner_id == owner_id,
            r.metadata.spec_version@ == "nft-1.0.0"@,
            r.metadata.name@ == "AITA Game NFT"@,
            r.metadata.symbol@ == "AITANFT"@,
            r.metadata.icon is None,
    {
        let descriptor = ContractMetadata {
            spec_version: String::from_str("nft-1.0.0"),
            name: String::from_str("AITA Game NFT"),
            symbol: String::from_str("AITANFT"),
            icon: None,
        };
        Contract::with_indices(owner_id, descriptor, price_per_byte, true, true)
    }

    /// Exec mirror of `mint_delta`, computed before any mutation.
    fn compute_mint_delta(&self, token_id: &String, owner: &String, meta: &TokenMetadata) -> (r:
        u128)
        ensures
            r == self.mint_delta(token_id@, owner@, *meta),
    {
        let id_len: u128 = token_id.as_str().unicode_len() as u128;
        let owner_len: u128 = owner.as_str().unicode_len() as u128;
        let mut d: u128 = id_len + owner_len + ENTRY_OVERHEAD as u128;
        if self.metadata_by_id.is_some() {
            d = d + id_len + metadata_size(meta) + ENTRY_OVERHEAD as u128;
        }
        if self.tokens_by_owner.contains(owner) {
            d = d + id_len;
        } else {
            d = d + owner_len + id_len + ENTRY_OVERHEAD as u128;
        }
        if self.approvals_by_id.is_some() {
            d = d + id_len + ENTRY_OVERHEAD as u128;
        }
        d
    }

    /// Performs, in order, the four index insertions of a mint and advances
    /// the storage counter by exactly their measured delta. The caller has
    /// already validated uniqueness.
    fn insert_token(&mut self, token_id: String, owner: String, meta: TokenMetadata) -> (delta:
        u128)
        requires
            old(self).wf(),
            !old(self).owners().contains_key(token_id@),
            old(self).storage_usage + old(self).mint_delta(token_id@, owner@, meta) <= u64::MAX,
        ensures
            final(self).wf(),
            mint_effect(*old(self), *final(self), token_id, owner, meta),
            delta == old(self).mint_delta(token_id@, owner@, meta),
    {
        let delta = self.compute_mint_delta(&token_id, &owner, &meta);
        self.owner_by_id.insert(token_id.clone(), owner.clone());
        match &mut self.metadata_by_id {
            Some(m) => {
                m.insert(token_id.clone(), meta);
            },
            None => {},
        }
        let ghost pre_ids: Seq<String> = if old(self).sets_map().contains_key(owner@) {
            old(self).sets_map()[owner@]@
        } else {
            Seq::<String>::empty()
        };
        let mut ids: Vec<String> = match self.tokens_by_owner.remove(&owner) {
            Some(v) => v,
            None => Vec::new(),
        };
        ids.push(token_id.clone());
        proof {
            assert(ids@ =~= pre_ids.push(token_id));
            lemma_ids_of_push(pre_ids, token_id);
        }
        self.tokens_by_owner.insert(owner.clone(), ids);
        match &mut self.approvals_by_id {
            Some(a) => {
                a.insert(token_id.clone(), StrMap::new());
            },
            None => {},
        }
        assert(delta <= u64::MAX as u128);
        self.storage_usage = self.storage_usage + delta as u64;
        proof {
            self.lemma_insert_token_shape(*old(self), token_id, owner, meta);
        }
        delta
    }

    /// The index bookkeeping of `insert_token` yields `mint_effect` and keeps
    /// the four indices mutually consistent.
    proof fn lemma_insert_token_shape(
        &self,
        pre: Contract,
        token_id: String,
        owner: String,
        meta: TokenMetadata,
    )
        requires
            pre.wf(),
            !pre.owners().contains_key(token_id@),
            self.owner_by_id.wf(),
            self.tokens_by_owner.wf(),
            self.owners() == pre.owners().insert(token_id@, owner),
            self.metadata_by_id is Some <==> pre.metadata_by_id is Some,
            pre.metadata_enabled() ==> self.metadata_by_id->Some_0.wf() && self.meta_map()
                == pre.meta_map().insert(token_id@, meta),
            self.sets_map() == pre.sets_map().remove(owner@).insert(
                owner@,
                self.sets_map()[owner@],
            ),
            self.sets_map().contains_key(owner@),
            ids_of(self.sets_map()[owner@]) == ids_of_seq(
                if pre.sets_map().contains_key(owner@) {
                    pre.sets_map()[owner@]@
                } else {
                    Seq::<String>::empty()
                },
            ).insert(token_id@),
            self.sets_map()[owner@]@ == (if pre.sets_map().contains_key(owner@) {
                pre.sets_map()[owner@]@
            } else {
                Seq::<String>::empty()
            }).push(token_id),
            self.approvals_by_id is Some <==> pre.approvals_by_id is Some,
            pre.approvals_enabled() ==> self.approvals_by_id->Some_0.wf() && self.approvals_map()
                == pre.approvals_map().insert(token_id@, self.approvals_map()[token_id@])
                && self.approvals_map()[token_id@]@ == Map::<Seq<char>, u64>::empty()
                && self.approvals_map()[token_id@].wf(),
            self.next_approval_id_by_id == pre.next_approval_id_by_id,
            self.storage_usage == pre.storage_usage + pre.mint_delta(token_id@, owner@, meta),
            self.owner_id == pre.owner_id,
            self.metadata == pre.metadata,
            self.price_per_byte == pre.price_per_byte,
        ensures
            self.wf(),
            mint_effect(pre, *self, token_id, owner, meta),
    {
        let ghost pre_ids: Seq<String> = if pre.sets_map().contains_key(owner@) {
            pre.sets_map()[owner@]@
        } else {
            Seq::<String>::empty()
        };
        assert(self.sets_map().dom() =~= pre.sets_map().dom().insert(owner@));
        if pre.approvals_enabled() {
            assert(self.approvals_map().dom() =~= pre.approvals_map().dom().insert(token_id@));
        }
        // ids already in some owner's set stayed exactly where they were
        assert forall|id: Seq<char>| #[trigger] self.owners().contains_key(id) implies {
            &&& self.sets_map().contains_key(self.owners()[id]@)
            &&& ids_of(self.sets_map()[self.owners()[id]@]).contains(id)
        } by {
            if id == token_id@ {
                assert(self.owners()[id] == owner);
            } else {
                assert(pre.owners().contains_key(id));
                let o = pre.owners()[id]@;
                assert(pre.sets_map().contains_key(o) && ids_of(pre.sets_map()[o]).contains(id));
                if o == owner@ {
                    assert(ids_of(self.sets_map()[owner@]).contains(id));
                } else {
                    assert(self.sets_map()[o] == pre.sets_map()[o]);
                }
            }
        }
        assert forall|o: Seq<char>, id: Seq<char>|
            self.sets_map().contains_key(o) && #[trigger] ids_of(self.sets_map()[o]).contains(
                id,
            ) implies self.owners().contains_key(id) && self.owners()[id]@ == o by {
            if o == owner@ {
                if id == token_id@ {
                    assert(self.owners()[id] == owner);
                } else {
                    assert(ids_of_seq(pre_ids).contains(id));
                    if pre.sets_map().contains_key(owner@) {
                        assert(ids_of(pre.sets_map()[owner@]).contains(id));
                        assert(pre.owners().contains_key(id) && pre.owners()[id]@ == o);
                        assert(self.owners()[id] == pre.owners()[id]);
                    } else {
                        assert(false);
                    }
                }
            } else {
                assert(pre.sets_map().contains_key(o));
                assert(self.sets_map()[o] == pre.sets_map()[o]);
                assert(pre.owners().contains_key(id) && pre.owners()[id]@ == o);
                assert(id != token_id@);
                assert(self.owners()[id] == pre.owners()[id]);
            }
        }
        if pre.metadata_enabled() {
            assert forall|id: Seq<char>| #[trigger] self.owners().contains_key(id) implies self
                .meta_map().contains_key(id) by {
                if id != token_id@ {
                    assert(pre.owners().contains_key(id));
                }
            }
        }
        if pre.approvals_enabled() {
            assert forall|id: Seq<char>| #[trigger] self.approvals_map().contains_key(
                id,
            ) implies self.approvals_map()[id].wf() by {
                if id != token_id@ {
                    assert(pre.approvals_map().contains_key(id));
                }
            }
            assert forall|id: Seq<char>| #[trigger] self.next_map().contains_key(id) implies self
                .next_map()[id] >= 1 by {
                assert(pre.next_map().contains_key(id));
            }
        }
        assert forall|o: Seq<char>|
            o != owner@ && #[trigger] pre.sets_map().contains_key(o) implies self.sets_map()[o]
            == pre.sets_map()[o] by {}
    }
}

impl Contract {
    /// Storage-meter snapshot: the current value of the monotonic
    /// storage-usage counter, in storage units.
    pub fn snapshot(&self) -> (r: u64)
        ensures
            r == self.storage_usage,
    {
        self.storage_usage
    }

    /// Storage-meter pricing: what a byte delta costs at the configured
    /// per-unit price.
    pub fn cost_of(&self, byte_delta: u64) -> (r: u128)
        ensures
            r == byte_delta * self.price_per_byte,
    {
        proof {
            assert((byte_delta as u128) * (self.price_per_byte as u128) <= (u64::MAX as u128) * (
            u64::MAX as u128)) by (nonlinear_arith)
                requires
                    byte_delta <= u64::MAX,
                    self.price_per_byte <= u64::MAX,
            ;
        }
        (byte_delta as u128) * (self.price_per_byte as u128)
    }

    /// The exact cost a purchase-mint of these inputs would charge against
    /// the prepayment, measured before any mutation.
    pub fn required_mint_cost(&self, token_id: &String, owner: &String, metadata: &TokenMetadata)
        -> (r: u128)
        requires
            self.mint_delta(token_id@, owner@, *metadata) <= u64::MAX,
        ensures
            r == self.purchase_cost(token_id@, owner@, *metadata),
    {
        let delta = self.compute_mint_delta(token_id, owner, metadata);
        proof {
            assert(delta * (self.price_per_byte as u128) <= (u64::MAX as u128) * (
            u64::MAX as u128)) by (nonlinear_arith)
                requires
                    delta <= u64::MAX as u128,
                    self.price_per_byte <= u64::MAX,
            ;
        }
        delta * (self.price_per_byte as u128)
    }

    /// Whether a token with this id exists.
    pub fn contains_token(&self, token_id: &String) -> (r: bool)
        ensures
            r == self.owners().contains_key(token_id@),
    {
        self.owner_by_id.contains(token_id)
    }

    /// The owning account of a live token.
    pub fn owner_of(&self, token_id: &String) -> (r: Option<String>)
        requires
            self.wf(),
        ensures
            match r {
                Some(o) => self.owners().contains_key(token_id@) && o == self.owners()[token_id@],
                None => !self.owners().contains_key(token_id@),
            },
    {
        match self.owner_by_id.get(token_id) {
            Some(o) => Some(o.clone()),
            None => None,
        }
    }

    /// The stored metadata record of a live token, where the metadata index
    /// is enabled.
    pub fn metadata_of(&self, token_id: &String) -> (r: Option<TokenMetadata>)
        requires
            self.wf(),
        ensures
            match r {
                Some(m) => self.metadata_enabled() && self.meta_map().contains_key(token_id@) && m
                    == self.meta_map()[token_id@],
                None => !self.metadata_enabled() || !self.meta_map().contains_key(token_id@),
            },
    {
        match &self.metadata_by_id {
            Some(by_id) => match by_id.get(token_id) {
                Some(m) => Some(m.clone()),
                None => None,
            },
            None => None,
        }
    }

    /// The approval sequence number `account` holds on the token, if any.
    pub fn approval_of(&self, token_id: &String, account: &String) -> (r: Option<u64>)
        requires
            self.wf(),
        ensures
            match r {
                Some(n) => {
                    &&& self.approvals_enabled()
                    &&& self.approvals_map().contains_key(token_id@)
                    &&& self.approvals_map()[token_id@]@.contains_key(account@)
                    &&& n == self.approvals_map()[token_id@]@[account@]
                },
                None => !self.approvals_enabled() || !self.approvals_map().contains_key(token_id@)
                    || !self.approvals_map()[token_id@]@.contains_key(account@),
            },
    {
        match &self.approvals_by_id {
            Some(by_id) => match by_id.get(token_id) {
                Some(record) => {
                    proof {
                        assert(self.approvals_map().contains_key(token_id@));
                        assert(self.approvals_map()[token_id@].wf());
                    }
                    match record.get(account) {
                        Some(n) => Some(*n),
                        None => None,
                    }
                },
                None => None,
            },
            None => None,
        }
    }

    /// The contract-level descriptor.
    pub fn nft_metadata(&self) -> (r: &ContractMetadata)
        ensures
            r == self.metadata,
    {
        &self.metadata
    }
}

/// The token a successful mint hands back: the requested id and owner, the
/// stored record when the metadata index is enabled, and an empty approval
/// record when the approval index is enabled.
pub open spec fn minted_token(
    t: Token,
    token_id: String,
    owner: String,
    meta: TokenMetadata,
    metadata_enabled: bool,
    approvals_enabled: bool,
) -> bool {
    &&& t.token_id == token_id
    &&& t.owner_id == owner
    &&& t.metadata == (if metadata_enabled {
        Some(meta)
    } else {
        None::<TokenMetadata>
    })
    &&& (match t.approved_account_ids {
        Some(v) => approvals_enabled && v@.len() == 0,
        None => !approvals_enabled,
    })
}

/// The refund the purchase-mint path dispatches: the surplus of the
/// prepayment over the required cost, sent to the refund target, unless there
/// is no target or the surplus is dust.
pub open spec fn refund_due(target: Option<String>, prepaid: u128, required: int) -> Option<
    RefundTransfer,
> {
    match target {
        Some(t) => if prepaid >= required && prepaid - required > DUST_THRESHOLD {
            Some(RefundTransfer { target: t, amount: (prepaid - required) as u128 })
        } else {
            None
        },
        None => None,
    }
}

impl Contract {
    /// The next approval sequence number `issue_approval` will assign for
    /// `id`: the stored counter, or 1 where none has been stored yet.
    pub open spec fn approval_counter(&self, id: Seq<char>) -> int {
        if self.next_map().contains_key(id) {
            self.next_map()[id] as int
        } else {
            1
        }
    }
}

/// An operation that leaves the owner, metadata and owner-set indices alone
/// keeps them mutually consistent.
proof fn lemma_core_indices_unchanged(pre: Contract, post: Contract)
    requires
        pre.wf(),
        post.owner_by_id == pre.owner_by_id,
        post.metadata_by_id == pre.metadata_by_id,
        post.tokens_by_owner == pre.tokens_by_owner,
    ensures
        post.owner_by_id.wf(),
        post.tokens_by_owner.wf(),
        post.metadata_enabled() ==> post.metadata_by_id->Some_0.wf(),
        post.metadata_enabled() ==> forall|id: Seq<char>|
            #[trigger] post.owners().contains_key(id) ==> post.meta_map().contains_key(id),
        forall|id: Seq<char>| #[trigger] post.owners().contains_key(id) ==> {
            &&& post.sets_map().contains_key(post.owners()[id]@)
            &&& ids_of(post.sets_map()[post.owners()[id]@]).contains(id)
        },
        forall|o: Seq<char>, id: Seq<char>|
            post.sets_map().contains_key(o) && #[trigger] ids_of(post.sets_map()[o]).contains(id)
                ==> post.owners().contains_key(id) && post.owners()[id]@ == o,
{
    if post.metadata_enabled() {
        assert forall|id: Seq<char>| #[trigger] post.owners().contains_key(id) implies post
            .meta_map().contains_key(id) by {
            assert(pre.owners().contains_key(id));
        }
    }
    assert forall|id: Seq<char>| #[trigger] post.owners().contains_key(id) implies {
        &&& post.sets_map().contains_key(post.owners()[id]@)
        &&& ids_of(post.sets_map()[post.owners()[id]@]).contains(id)
    } by {
        assert(pre.owners().contains_key(id));
    }
    assert forall|o: Seq<char>, id: Seq<char>|
        post.sets_map().contains_key(o) && #[trigger] ids_of(post.sets_map()[o]).contains(
            id,
        ) implies post.owners().contains_key(id) && post.owners()[id]@ == o by {
        assert(ids_of(pre.sets_map()[o]).contains(id));
    }
}

/// One approval issuance for `id` returned `n`: it handed out the token's
/// counter, which starts at 1, and advanced it past `n`, so no later issuance
/// for `id` can ever return `n` again.
pub open spec fn issue_step(pre: Contract, post: Contract, id: Seq<char>, n: u64) -> bool {
    &&& n == pre.approval_counter(id)
    &&& post.approval_counter(id) == n + 1
    &&& n >= 1
}

impl Contract {
    /// Allocates the token's next approval sequence number, records
    /// `account` as approved under it, advances the counter, and returns the
    /// assigned number. Returns `None` exactly when the approval index is
    /// disabled. Revocations never move the counter, so assigned numbers
    /// strictly increase per token and are never reused.
    pub fn issue_approval(&mut self, token_id: &String, account: String) -> (r: Option<u64>)
        requires
            old(self).wf(),
            old(self).approvals_enabled() ==> old(self).approval_counter(token_id@) < u64::MAX,
        ensures
            final(self).wf(),
            preserves_tokens(*old(self), *final(self)),
            r is Some == old(self).approvals_enabled(),
            !old(self).approvals_enabled() ==> *final(self) == *old(self),
            r matches Some(n) ==> {
                &&& issue_step(*old(self), *final(self), token_id@, n)
                &&& final(self).next_map() == old(self).next_map().insert(
                    token_id@,
                    (n + 1) as u64,
                )
                &&& final(self).approvals_map().dom() == old(self).approvals_map().dom().insert(
                    token_id@,
                )
                &&& (forall|k: Seq<char>|
                    k != token_id@ && #[trigger] old(self).approvals_map().contains_key(k) ==> final(self).approvals_map()[k] == old(self).approvals_map()[k])
                &&& final(self).approvals_map()[token_id@]@ == (if old(self).approvals_map().contains_key(token_id@) {
                    old(self).approvals_map()[token_id@]@
                } else {
                    Map::<Seq<char>, u64>::empty()
                }).insert(account@, n)
                &&& final(self).owner_by_id == old(self).owner_by_id
                &&& final(self).metadata_by_id == old(self).metadata_by_id
                &&& final(self).tokens_by_owner == old(self).tokens_by_owner
                &&& final(self).storage_usage == old(self).storage_usage
                &&& final(self).owner_id == old(self).owner_id
                &&& final(self).metadata == old(self).metadata
                &&& final(self).price_per_byte == old(self).price_per_byte
            },
    {
        if self.approvals_by_id.is_none() {
            return None;
        }
        let n: u64 = match &self.next_approval_id_by_id {
            Some(nm) => match nm.get(token_id) {
                Some(v) => *v,
                None => 1,
            },
            None => {
                // the approval index is enabled, so its counter index is too
                proof {
                    assert(false);
                }
                1
            },
        };
        match &mut self.approvals_by_id {
            Some(a) => {
                let mut record = match a.remove(token_id) {
                    Some(m) => m,
                    None => StrMap::new(),
                };
                proof {
                    if old(self).approvals_map().contains_key(token_id@) {
                        assert(old(self).approvals_map()[token_id@].wf());
                    }
                }
                record.insert(account, n);
                a.insert(token_id.clone(), record);
            },
            None => {
                proof {
                    assert(false);
                }
            },
        }
        match &mut self.next_approval_id_by_id {
            Some(nm) => {
                nm.insert(token_id.clone(), n + 1);
            },
            None => {
                proof {
                    assert(false);
                }
            },
        }
        proof {
            assert(self.approvals_map().dom() =~= old(self).approvals_map().dom().insert(
                token_id@,
            ));
            assert forall|id: Seq<char>| #[trigger] self.approvals_map().contains_key(
                id,
            ) implies self.approvals_map()[id].wf() by {
                if id != token_id@ {
                    assert(old(self).approvals_map().contains_key(id));
                }
            }
            assert forall|id: Seq<char>| #[trigger] self.next_map().contains_key(id) implies self
                .next_map()[id] >= 1 by {
                if id != token_id@ {
                    assert(old(self).next_map().contains_key(id));
                }
            }
            lemma_core_indices_unchanged(*old(self), *self);
        }
        Some(n)
    }

    /// Removes `account` from the token's approval record, returning the
    /// sequence number it held. The counter is untouched: a revoked number is
    /// never reissued.
    pub fn revoke_approval(&mut self, token_id: &String, account: &String) -> (r: Option<u64>)
        requires
            old(self).wf(),
        ensures
            final(self).wf(),
            preserves_tokens(*old(self), *final(self)),
            final(self).next_approval_id_by_id == old(self).next_approval_id_by_id,
            forall|id: Seq<char>| #[trigger] final(self).approval_counter(id) == old(self).approval_counter(id),
            final(self).owner_by_id == old(self).owner_by_id,
            final(self).metadata_by_id == old(self).metadata_by_id,
            final(self).tokens_by_owner == old(self).tokens_by_owner,
            final(self).storage_usage == old(self).storage_usage,
            final(self).owner_id == old(self).owner_id,
            final(self).metadata == old(self).metadata,
            final(self).price_per_byte == old(self).price_per_byte,
            final(self).approvals_by_id is Some <==> old(self).approvals_by_id is Some,
            r matches Some(p) ==> {
                &&& old(self).approvals_enabled()
                &&& old(self).approvals_map().contains_key(token_id@)
                &&& old(self).approvals_map()[token_id@]@.contains_key(account@)
                &&& p == old(self).approvals_map()[token_id@]@[account@]
            },
            old(self).approvals_enabled() && old(self).approvals_map().contains_key(token_id@)
                ==> {
                &&& final(self).approvals_map().dom() == old(self).approvals_map().dom()
                &&& (forall|k: Seq<char>|
                    k != token_id@ && #[trigger] old(self).approvals_map().contains_key(k) ==> final(self).approvals_map()[k] == old(self).approvals_map()[k])
                &&& final(self).approvals_map()[token_id@]@ == old(self).approvals_map()[token_id@]@.remove(account@)
                &&& (r is Some <==> old(self).approvals_map()[token_id@]@.contains_key(account@))
            },
            !(old(self).approvals_enabled() && old(self).approvals_map().contains_key(token_id@))
                ==> *final(self) == *old(self) && r is None,
    {
        match &mut self.approvals_by_id {
            Some(a) => {
                match a.remove(token_id) {
                    Some(mut record) => {
                        proof {
                            assert(old(self).approvals_map().contains_key(token_id@));
                            assert(old(self).approvals_map()[token_id@].wf());
                        }
                        let p = record.remove(account);
                        a.insert(token_id.clone(), record);
                        proof {
                            assert(self.approvals_map().dom() =~= old(self).approvals_map().dom());
                            assert forall|id: Seq<char>| #[trigger] self.approvals_map().contains_key(
                                id,
                            ) implies self.approvals_map()[id].wf() by {
                                if id != token_id@ {
                                    assert(old(self).approvals_map().contains_key(id));
                                }
                            }
                            assert forall|id: Seq<char>| #[trigger] self.next_map().contains_key(
                                id,
                            ) implies self.next_map()[id] >= 1 by {
                                assert(old(self).next_map().contains_key(id));
                            }
                            lemma_core_indices_unchanged(*old(self), *self);
                        }
                        p
                    },
                    None => None,
                }
            },
            None => None,
        }
    }
}

impl Contract {
    /// The standard (non-purchase) issuance path: requires the id to be
    /// fresh, inserts into every enabled index, and returns the constructed
    /// token. Payment for its storage is the surrounding environment's
    /// concern.
    pub fn nft_mint(&mut self, token_id: String, receiver_id: String, token_metadata: TokenMetadata)
        -> (r: Result<Token, MintError>)
        requires
            old(self).wf(),
            !old(self).owners().contains_key(token_id@) ==> old(self).storage_usage
                + old(self).mint_delta(token_id@, receiver_id@, token_metadata) <= u64::MAX,
        ensures
            final(self).wf(),
            preserves_tokens(*old(self), *final(self)),
            old(self).owners().contains_key(token_id@) ==> r == Err::<Token, MintError>(
                MintError::DuplicateToken,
            ) && *final(self) == *old(self),
            !old(self).owners().contains_key(token_id@) ==> {
                &&& mint_effect(*old(self), *final(self), token_id, receiver_id, token_metadata)
                &&& r matches Ok(t) && minted_token(
                    t,
                    token_id,
                    receiver_id,
                    token_metadata,
                    old(self).metadata_enabled(),
                    old(self).approvals_enabled(),
                )
            },
    {
        if self.owner_by_id.contains(&token_id) {
            return Err(MintError::DuplicateToken);
        }
        let meta_for_token = if self.metadata_by_id.is_some() {
            Some(token_metadata.clone())
        } else {
            None
        };
        let approved = if self.approvals_by_id.is_some() {
            Some(Vec::<(String, u64)>::new())
        } else {
            None
        };
        let id_for_token = token_id.clone();
        let owner_for_token = receiver_id.clone();
        self.insert_token(token_id, receiver_id, token_metadata);
        Ok(
            Token {
                token_id: id_for_token,
                owner_id: owner_for_token,
                metadata: meta_for_token,
                approved_account_ids: approved,
            },
        )
    }

    /// The settle step of a deposit-covered operation: prices the storage it
    /// consumed, demands that the attached deposit cover that cost, and
    /// decides the refund of the surplus to `account_id`. Dispatching the
    /// refund is the environment's asynchronous step.
    pub fn refund_deposit_to_account(
        &self,
        storage_used: u64,
        attached_deposit: u128,
        account_id: String,
    ) -> (r: Result<Option<RefundTransfer>, MintError>)
        ensures
            attached_deposit < storage_used * self.price_per_byte ==> r == Err::<
                Option<RefundTransfer>,
                MintError,
            >(MintError::InsufficientDeposit((storage_used * self.price_per_byte) as u128)),
            attached_deposit >= storage_used * self.price_per_byte ==> r == Ok::<
                Option<RefundTransfer>,
                MintError,
            >(refund_due(Some(account_id), attached_deposit, storage_used * self.price_per_byte)),
    {
        let required = self.cost_of(storage_used);
        if attached_deposit < required {
            return Err(MintError::InsufficientDeposit(required));
        }
        let refund_amount = attached_deposit - required;
        if refund_amount > DUST_THRESHOLD {
            Ok(Some(RefundTransfer { target: account_id, amount: refund_amount }))
        } else {
            Ok(None)
        }
    }

    /// The purchase-triggered mint path. It validates before any mutation
    /// (the one ordering guarantee that makes it look atomic), measures the
    /// storage its insertions add, and — only when a refund target was
    /// supplied — demands that the prepayment cover the cost and decides the
    /// refund of the surplus. Dispatching that refund is the environment's
    /// asynchronous, best-effort step; its outcome is never observed here.
    pub fn nft_mint_purchase(
        &mut self,
        token_id: String,
        receiver_id: String,
        token_metadata: Option<TokenMetadata>,
        refund_target: Option<String>,
        prepaid_amount: u128,
    ) -> (r: Result<(Token, Option<RefundTransfer>), MintError>)
        requires
            old(self).wf(),
            token_metadata matches Some(m) ==> (!old(self).owners().contains_key(token_id@)
                ==> old(self).storage_usage + old(self).mint_delta(token_id@, receiver_id@, m)
                <= u64::MAX),
        ensures
            final(self).wf(),
            preserves_tokens(*old(self), *final(self)),
            token_metadata is None ==> r == Err::<(Token, Option<RefundTransfer>), MintError>(
                MintError::MissingMetadata,
            ) && *final(self) == *old(self),
            token_metadata is Some && old(self).owners().contains_key(token_id@) ==> r == Err::<
                (Token, Option<RefundTransfer>),
                MintError,
            >(MintError::DuplicateToken) && *final(self) == *old(self),
            token_metadata matches Some(m) ==> {
                let required = old(self).purchase_cost(token_id@, receiver_id@, m);
                &&& (!old(self).owners().contains_key(token_id@) && refund_target is Some
                    && prepaid_amount < required ==> r == Err::<
                    (Token, Option<RefundTransfer>),
                    MintError,
                >(MintError::InsufficientDeposit(required as u128)) && *final(self) == *old(self))
                &&& (!old(self).owners().contains_key(token_id@) && (refund_target is None
                    || prepaid_amount >= required) ==> {
                    &&& mint_effect(*old(self), *final(self), token_id, receiver_id, m)
                    &&& r matches Ok(p) && minted_token(
                        p.0,
                        token_id,
                        receiver_id,
                        m,
                        old(self).metadata_enabled(),
                        old(self).approvals_enabled(),
                    ) && p.1 == refund_due(refund_target, prepaid_amount, required)
                })
            },
    {
        let meta = match token_metadata {
            Some(m) => m,
            None => { return Err(MintError::MissingMetadata) },
        };
        if self.owner_by_id.contains(&token_id) {
            return Err(MintError::DuplicateToken);
        }
        let usage_before = self.storage_usage;
        let delta = self.compute_mint_delta(&token_id, &receiver_id, &meta);
        assert(delta <= u64::MAX as u128);
        let delta64: u64 = delta as u64;
        // the cost is exact before any mutation, so the deposit is validated
        // strictly pre-mutation: a rejected call leaves no trace
        let refund = match refund_target {
            Some(t) => match self.refund_deposit_to_account(delta64, prepaid_amount, t) {
                Ok(r) => r,
                Err(e) => { return Err(e) },
            },
            None => None,
        };
        let meta_for_token = if self.metadata_by_id.is_some() {
            Some(meta.clone())
        } else {
            None
        };
        let approved = if self.approvals_by_id.is_some() {
            Some(Vec::<(String, u64)>::new())
        } else {
            None
        };
        let id_for_token = token_id.clone();
        let owner_for_token = receiver_id.clone();
        self.insert_token(token_id, receiver_id, meta);
        // metering: the counter sampled after the mutations confirms the
        // pre-measured delta the deposit was validated against
        let usage_after = self.storage_usage;
        assert(usage_after - usage_before == delta);
        Ok(
            (
                Token {
                    token_id: id_for_token,
                    owner_id: owner_for_token,
                    metadata: meta_for_token,
                    approved_account_ids: approved,
                },
                refund,
            ),
        )
    }
}

} // verus!
