//! Registry-wide laws, stated over the same spec functions the operation
//! contracts use and proved from them.

use vstd::prelude::*;
use crate::registry::{
    issue_step, mint_effect, preserves_tokens, refund_due, Contract, DUST_THRESHOLD,
};
use crate::types::RefundTransfer;

verus! {

/// Uniqueness: once a mint has issued a token id, the id stays taken through
/// any later sequence of operations, since every operation preserves the
/// token set. Both mint paths reject a taken id with `DuplicateToken` and
/// leave the registry unchanged, so no two successful calls can ever produce
/// the same id.
pub proof fn lemma_minted_id_stays_taken(
    c0: Contract,
    c1: Contract,
    c2: Contract,
    token_id: String,
    owner: String,
    meta: crate::types::TokenMetadata,
)
    requires
        mint_effect(c0, c1, token_id, owner, meta),
        preserves_tokens(c1, c2),
    ensures
        c2.owners().contains_key(token_id@),
{
    assert(c1.owners().contains_key(token_id@));
}

/// Uniqueness, stated of two successful mints: a second mint can only succeed
/// from a state in which its id is still free, so it cannot issue an id an
/// earlier successful mint already issued.
pub proof fn lemma_successful_mints_distinct(
    c0: Contract,
    c1: Contract,
    c2: Contract,
    id1: String,
    id2: String,
    owner: String,
    meta: crate::types::TokenMetadata,
)
    requires
        mint_effect(c0, c1, id1, owner, meta),
        preserves_tokens(c1, c2),
        !c2.owners().contains_key(id2@),
    ensures
        id1@ != id2@,
{
    lemma_minted_id_stays_taken(c0, c1, c2, id1, owner, meta);
}

/// Index consistency: every live token id is owned by exactly one account,
/// appears in that account's set and in no other, and (when the metadata
/// index is enabled) carries a metadata record.
pub proof fn lemma_index_consistency(c: Contract, id: Seq<char>)
    requires
        c.wf(),
        c.owners().contains_key(id),
    ensures
        c.sets_map().contains_key(c.owners()[id]@),
        crate::registry::ids_of(c.sets_map()[c.owners()[id]@]).contains(id),
        forall|o: Seq<char>|
            c.sets_map().contains_key(o) && #[trigger] crate::registry::ids_of(
                c.sets_map()[o],
            ).contains(id) ==> o == c.owners()[id]@,
        c.metadata_enabled() ==> c.meta_map().contains_key(id),
{
}

/// Approval monotonicity: approval sequence numbers issued for one token
/// strictly increase call over call, and are at least 1. Between the two
/// issuances any operations may run that keep the token's counter — which
/// every revocation does — so a number, once assigned, is never repeated.
pub proof fn lemma_approval_monotonicity(
    c0: Contract,
    c1: Contract,
    c2: Contract,
    c3: Contract,
    id: Seq<char>,
    n1: u64,
    n2: u64,
)
    requires
        issue_step(c0, c1, id, n1),
        c2.approval_counter(id) == c1.approval_counter(id),
        issue_step(c2, c3, id, n2),
    ensures
        n2 > n1,
        n1 >= 1,
{
}

/// Refund correctness: with a refund target supplied and the prepayment
/// covering the required cost, the dispatched refund is exactly the surplus,
/// unless that surplus is dust, in which case nothing is dispatched. An
/// insufficient prepayment never yields a refund (the purchase-mint contract
/// rejects it with `InsufficientDeposit` before any mutation).
pub proof fn lemma_refund_correctness(target: String, prepaid: u128, required: int)
    requires
        required >= 0,
    ensures
        prepaid >= required ==> match refund_due(Some(target), prepaid, required) {
            Some(rt) => rt.target == target && rt.amount == prepaid - required && rt.amount
                > DUST_THRESHOLD,
            None => prepaid - required <= DUST_THRESHOLD,
        },
        prepaid < required ==> refund_due(Some(target), prepaid, required) is None,
{
}

/// No-refund-target bypass: with no refund target, the purchase-mint path
/// performs no payment validation at all — its acceptance condition does not
/// mention the prepaid amount — and never dispatches a refund, whatever was
/// attached.
pub proof fn lemma_no_refund_target_bypass(prepaid: u128, required: int)
    ensures
        refund_due(None, prepaid, required) == None::<RefundTransfer>,
{
}

} // verus!
