//! Identities and deterministic record addresses.
//!
//! A record's storage location is a pure function of what the record is for:
//! a profile lives at the address derived from its owner and slot, and a
//! contribution lives at the address derived from its parent profile's
//! address and the sequence number the profile held when the tip arrived.
//! The derivation is injective by construction, so distinct inputs can never
//! collide, across record kinds or across owners.

use vstd::bytes::spec_u64_to_le_bytes;
use vstd::bytes::u64_to_le_bytes;
use vstd::prelude::*;

verus! {

/// The identity of an authority or contributor: 32 bytes held as four
/// 64-bit limbs, least-significant limb first.
#[derive(Clone, Copy, Debug, PartialEq, Eq, Structural)]
pub struct Identity {
    pub limb0: u64,
    pub limb1: u64,
    pub limb2: u64,
    pub limb3: u64,
}

/// A deterministic storage location. A profile's address is fixed by its
/// owner and slot; a contribution's address is fixed by its parent profile's
/// owner and slot together with the sequence number it was recorded under.
#[derive(Clone, Copy, Debug, PartialEq, Eq, Structural)]
pub enum Address {
    Profile { owner: Identity, slot: u8 },
    Contribution { profile_owner: Identity, profile_slot: u8, sequence: u64 },
}

/// The address a profile owned by `owner` in `slot` is stored at.
pub open spec fn spec_profile_address(owner: Identity, slot: u8) -> Address {
    Address::Profile { owner, slot }
}

/// The address the contribution recorded under `sequence` against the
/// profile at `profile_address` is stored at. Meaningful only for a parent
/// that is itself a profile address; on a contribution parent the derivation
/// keeps that contribution's own profile coordinates.
pub open spec fn spec_contribution_address(profile_address: Address, sequence: u64) -> Address {
    match profile_address {
        Address::Profile { owner, slot } => Address::Contribution {
            profile_owner: owner,
            profile_slot: slot,
            sequence,
        },
        Address::Contribution { profile_owner, profile_slot, .. } => Address::Contribution {
            profile_owner,
            profile_slot,
            sequence,
        },
    }
}

/// Derive the storage address of the profile owned by `owner` in `slot`.
/// Reproducible by any party from the two inputs alone; no discriminant
/// ("bump") is needed, since every derived value is a legal address.
pub fn derive_profile_address(owner: Identity, slot: u8) -> (a: Address)
    ensures
        a == spec_profile_address(owner, slot),
{
    Address::Profile { owner, slot }
}

/// Derive the storage address of the contribution recorded under `sequence`
/// against the profile at `profile_address`.
pub fn derive_contribution_address(profile_address: &Address, sequence: u64) -> (a: Address)
    ensures
        a == spec_contribution_address(*profile_address, sequence),
{
    match profile_address {
        Address::Profile { owner, slot } => Address::Contribution {
            profile_owner: *owner,
            profile_slot: *slot,
            sequence,
        },
        Address::Contribution { profile_owner, profile_slot, .. } => Address::Contribution {
            profile_owner: *profile_owner,
            profile_slot: *profile_slot,
            sequence,
        },
    }
}

/// The seed bytes a profile slot contributes to its record's encoded address.
pub fn slot_seed(slot: u8) -> (r: Vec<u8>)
    ensures
        r@ == seq![slot],
{
    let mut v: Vec<u8> = Vec::new();
    v.push(slot);
    proof {
        assert(v@ =~= seq![slot]);
    }
    v
}

/// The seed bytes a contribution's sequence number contributes to its
/// record's encoded address: the little-endian encoding of the number.
pub fn tip_index_seed(index: u64) -> (r: Vec<u8>)
    ensures
        r@ == spec_u64_to_le_bytes(index),
{
    u64_to_le_bytes(index)
}

/// Two profile addresses agree exactly when their owners and slots do:
/// distinct `(owner, slot)` pairs can never collide.
pub proof fn lemma_profile_address_injective(o1: Identity, s1: u8, o2: Identity, s2: u8)
    ensures
        (spec_profile_address(o1, s1) == spec_profile_address(o2, s2)) <==> (o1 == o2 && s1
            == s2),
{
}

/// Two contribution addresses derived from profile addresses agree exactly
/// when the parent addresses and the sequence numbers both do. In
/// particular, one profile's contributions at distinct sequence numbers
/// never collide.
pub proof fn lemma_contribution_address_injective(
    p1: Address,
    q1: u64,
    p2: Address,
    q2: u64,
)
    requires
        p1 is Profile,
        p2 is Profile,
    ensures
        (spec_contribution_address(p1, q1) == spec_contribution_address(p2, q2)) <==> (p1 == p2
            && q1 == q2),
{
}

/// A profile address never equals a contribution address: the two record
/// kinds partition the address space.
pub proof fn lemma_address_kinds_disjoint(owner: Identity, slot: u8, parent: Address, q: u64)
    ensures
        spec_profile_address(owner, slot) != spec_contribution_address(parent, q),
{
}

} // verus!
