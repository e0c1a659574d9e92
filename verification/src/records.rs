//! The two record kinds the ledger persists.

use vstd::prelude::*;

use crate::address::Address;
use crate::address::Identity;
use crate::address::spec_profile_address;
use crate::constants::MAX_PROFILE_NAME;
use crate::constants::MAX_TIP_MESSAGE;

verus! {

/// One tippable identity instance owned by an authority.
#[derive(Debug)]
pub struct ProfileAccount {
    /// How many contributions the profile has received.
    pub tip_count: u64,
    /// The identity allowed to cash out and close the profile. Immutable.
    pub authority: Identity,
    /// Accumulated withdrawable amount, in native base units.
    pub balance: u64,
    /// Which of the authority's profile slots this record occupies. Immutable.
    pub slot: u8,
    /// Display name, at most `MAX_PROFILE_NAME` bytes. Immutable.
    pub name: Vec<u8>,
    /// Sequence number the next contribution's address will be derived from.
    pub next_comment_id: u64,
    /// Timestamp captured when the profile was created. Immutable.
    pub created_at: i64,
}

/// Mathematical model of a `ProfileAccount`.
pub struct ProfileView {
    pub tip_count: u64,
    pub authority: Identity,
    pub balance: u64,
    pub slot: u8,
    pub name: Seq<u8>,
    pub next_comment_id: u64,
    pub created_at: i64,
}

impl View for ProfileAccount {
    type V = ProfileView;

    open spec fn view(&self) -> ProfileView {
        ProfileView {
            tip_count: self.tip_count,
            authority: self.authority,
            balance: self.balance,
            slot: self.slot,
            name: self.name@,
            next_comment_id: self.next_comment_id,
            created_at: self.created_at,
        }
    }
}

impl ProfileView {
    /// A profile is well formed when its name fits the fixed record layout.
    pub open spec fn wf(self) -> bool {
        self.name.len() <= MAX_PROFILE_NAME
    }

    /// The address this profile's own fields derive: where the record must
    /// be stored.
    pub open spec fn derived_address(self) -> Address {
        spec_profile_address(self.authority, self.slot)
    }
}

/// An immutable receipt of one tip.
#[derive(Debug)]
pub struct TipLog {
    /// Address of the profile the tip targeted. Immutable.
    pub profile: Address,
    /// Identity of the contributor. Immutable.
    pub sender: Identity,
    /// Value transferred, in native base units. Immutable.
    pub lamports: u64,
    /// Timestamp captured when the tip was recorded. Immutable.
    pub recorded_at: i64,
    /// Message attached to the tip, at most `MAX_TIP_MESSAGE` bytes. Immutable.
    pub message: Vec<u8>,
}

/// Mathematical model of a `TipLog`.
pub struct TipLogView {
    pub profile: Address,
    pub sender: Identity,
    pub lamports: u64,
    pub recorded_at: i64,
    pub message: Seq<u8>,
}

impl View for TipLog {
    type V = TipLogView;

    open spec fn view(&self) -> TipLogView {
        TipLogView {
            profile: self.profile,
            sender: self.sender,
            lamports: self.lamports,
            recorded_at: self.recorded_at,
            message: self.message@,
        }
    }
}

impl TipLogView {
    /// A tip log is well formed when its message fits the fixed record layout.
    pub open spec fn wf(self) -> bool {
        self.message.len() <= MAX_TIP_MESSAGE
    }
}

} // verus!
