//! Ledger-wide laws: what the transitions' contracts add up to.
//!
//! The address-derivation laws (injectivity within a kind, disjointness
//! across kinds) live beside the deriver itself; here stand the laws of the
//! store-level behaviour: a profile can be created exactly once per owner
//! and slot, and the close sweep destroys exactly the candidates that hold
//! the profile's contribution records.

use vstd::prelude::*;

use crate::address::Address;
use crate::address::Identity;
use crate::address::spec_contribution_address;
use crate::address::spec_profile_address;
use crate::address::lemma_contribution_address_injective;
use crate::codec::spec_is_comment_for_profile;
use crate::errors::TxError;
use crate::store::StoredAccountView;
use crate::store::funds_ok;
use crate::store::lemma_remove_addr_properties;
use crate::store::lookup;
use crate::store::unique_addresses;
use crate::transitions::spec_create_check;
use crate::transitions::spec_sweep;
use crate::transitions::sweepable;

verus! {

/// A profile is created at most once per `(owner, slot)` pair: while the
/// derived address is occupied, `create_profile` owes every caller a
/// failure, and the well-formed inputs among them exactly an address
/// collision.
pub proof fn lemma_create_profile_exclusive(
    s: Seq<StoredAccountView>,
    authority: Identity,
    slot: u8,
    name: Seq<u8>,
)
    requires
        lookup(s, spec_profile_address(authority, slot)) is Some,
    ensures
        spec_create_check(s, authority, slot, name) is Err,
        spec_create_check(s, authority, slot, name) == Err::<Address, TxError>(
            TxError::AddressCollision,
        ) || !(slot < crate::constants::MAX_PROFILES_PER_AUTHORITY && name.len()
            <= crate::constants::MAX_PROFILE_NAME),
{
}

/// Contribution addresses of one profile never repeat across distinct
/// sequence numbers; since a profile's sequence number strictly increases
/// with every recorded tip, no two contributions can ever land at the same
/// derived address.
pub proof fn lemma_sequence_numbers_never_collide(pa: Address, q1: u64, q2: u64)
    requires
        pa is Profile,
        q1 != q2,
    ensures
        spec_contribution_address(pa, q1) != spec_contribution_address(pa, q2),
{
    lemma_contribution_address_injective(pa, q1, pa, q2);
}

/// The close sweep keeps the store's invariants: addresses stay unique and
/// every remaining profile record stays covered by its holding.
pub proof fn lemma_sweep_keeps_invariants(
    s: Seq<StoredAccountView>,
    pa: Address,
    cands: Seq<Address>,
)
    requires
        unique_addresses(s),
    ensures
        unique_addresses(spec_sweep(s, pa, cands).0),
        funds_ok(s) ==> funds_ok(spec_sweep(s, pa, cands).0),
    decreases cands.len(),
{
    if cands.len() == 0 {
    } else {
        let c = cands[0];
        if sweepable(s, pa, c) {
            lemma_remove_addr_properties(s, c);
            lemma_sweep_keeps_invariants(crate::store::remove_addr(s, c), pa, cands.drop_first());
        } else {
            lemma_sweep_keeps_invariants(s, pa, cands.drop_first());
        }
    }
}

/// The close sweep never touches an account whose address is not among the
/// candidates: contributions left out of the list survive unchanged,
/// orphaned but unaffected.
pub proof fn lemma_sweep_skips_unnamed(
    s: Seq<StoredAccountView>,
    pa: Address,
    cands: Seq<Address>,
    x: Address,
)
    requires
        unique_addresses(s),
        !cands.contains(x),
    ensures
        lookup(spec_sweep(s, pa, cands).0, x) == lookup(s, x),
    decreases cands.len(),
{
    if cands.len() == 0 {
    } else {
        let c = cands[0];
        assert(c != x);
        assert(!cands.drop_first().contains(x)) by {
            if cands.drop_first().contains(x) {
                let i = choose|i: int|
                    0 <= i < cands.drop_first().len() && cands.drop_first()[i] == x;
                assert(cands[i + 1] == x);
            }
        }
        if sweepable(s, pa, c) {
            lemma_remove_addr_properties(s, c);
            lemma_sweep_skips_unnamed(crate::store::remove_addr(s, c), pa, cands.drop_first(), x);
        } else {
            lemma_sweep_skips_unnamed(s, pa, cands.drop_first(), x);
        }
    }
}

/// The close sweep never creates a record: an address that held nothing
/// still holds nothing after the sweep.
pub proof fn lemma_sweep_never_creates(
    s: Seq<StoredAccountView>,
    pa: Address,
    cands: Seq<Address>,
    x: Address,
)
    requires
        unique_addresses(s),
        lookup(s, x) is None,
    ensures
        lookup(spec_sweep(s, pa, cands).0, x) is None,
    decreases cands.len(),
{
    if cands.len() == 0 {
    } else {
        let c = cands[0];
        if sweepable(s, pa, c) {
            lemma_remove_addr_properties(s, c);
            lemma_sweep_never_creates(crate::store::remove_addr(s, c), pa, cands.drop_first(), x);
        } else {
            lemma_sweep_never_creates(s, pa, cands.drop_first(), x);
        }
    }
}

/// The close sweep destroys every candidate that holds one of the profile's
/// contribution records: a ledger-namespace account, other than the profile
/// itself, whose bytes decode as a contribution targeting the profile, is
/// gone once its address has been supplied.
pub proof fn lemma_sweep_destroys_matched(
    s: Seq<StoredAccountView>,
    pa: Address,
    cands: Seq<Address>,
    x: Address,
)
    requires
        unique_addresses(s),
        cands.contains(x),
        x != pa,
        match lookup(s, x) {
            Some(e) => e.program_owned && spec_is_comment_for_profile(e.data, pa),
            None => false,
        },
    ensures
        lookup(spec_sweep(s, pa, cands).0, x) is None,
    decreases cands.len(),
{
    let c = cands[0];
    if c == x {
        assert(sweepable(s, pa, x));
        lemma_remove_addr_properties(s, x);
        lemma_sweep_never_creates(crate::store::remove_addr(s, x), pa, cands.drop_first(), x);
    } else {
        assert(cands.drop_first().contains(x)) by {
            let i = choose|i: int| 0 <= i < cands.len() && cands[i] == x;
            assert(cands.drop_first()[i - 1] == x);
        }
        if sweepable(s, pa, c) {
            lemma_remove_addr_properties(s, c);
            lemma_sweep_destroys_matched(crate::store::remove_addr(s, c), pa, cands.drop_first(), x);
        } else {
            lemma_sweep_destroys_matched(s, pa, cands.drop_first(), x);
        }
    }
}

} // verus!
