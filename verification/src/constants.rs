//! Size budgets, limits, and record tags shared by the whole ledger.

use vstd::prelude::*;

verus! {

/// Namespace tag of a profile address.
pub const PROFILE_SEED: u8 = 1;

/// Namespace tag of a contribution (tip log) address.
pub const TIP_LOG_SEED: u8 = 2;

/// Smallest value a tip may carry, in native base units.
pub const MIN_TIP_LAMPORTS: u64 = 100_000_000;

/// How many profiles one authority may hold; valid slots are below this.
pub const MAX_PROFILES_PER_AUTHORITY: u8 = 3;

/// Longest allowed profile name, in bytes.
pub const MAX_PROFILE_NAME: usize = 32;

/// Longest allowed tip message, in bytes.
pub const MAX_TIP_MESSAGE: usize = 200;

/// Bytes of the record-kind header that opens every stored record.
pub const DISCRIMINATOR_LEN: usize = 8;

/// Bytes of an identity (four 64-bit limbs).
pub const IDENTITY_LEN: usize = 32;

/// Bytes of an address-kind tag inside an encoded address.
pub const ADDRESS_KIND_LEN: usize = 1;

/// Bytes of an encoded address: kind tag, owner identity, slot, sequence.
pub const ADDRESS_LEN: usize = ADDRESS_KIND_LEN + IDENTITY_LEN + SLOT_LEN + U64_LEN;

pub const U64_LEN: usize = 8;

pub const I64_LEN: usize = 8;

pub const SLOT_LEN: usize = 1;

/// Bytes of the length prefix that precedes a stored string.
pub const STRING_PREFIX_LEN: usize = 4;

/// Exact storage footprint of an encoded profile record.
pub const PROFILE_ACCOUNT_SPACE: usize = DISCRIMINATOR_LEN + U64_LEN + IDENTITY_LEN + U64_LEN
    + SLOT_LEN + STRING_PREFIX_LEN + MAX_PROFILE_NAME + U64_LEN + I64_LEN;

/// Exact storage footprint of an encoded contribution record.
pub const TIP_LOG_SPACE: usize = DISCRIMINATOR_LEN + ADDRESS_LEN + IDENTITY_LEN + U64_LEN
    + I64_LEN + STRING_PREFIX_LEN + MAX_TIP_MESSAGE;

/// Header value that opens every encoded profile record.
pub const PROFILE_HEADER: u64 = 0x454c_4946_4f52_5001;

/// Header value that opens every encoded contribution record.
pub const TIP_LOG_HEADER: u64 = 0x474f_4c50_4954_0002;

} // verus!
