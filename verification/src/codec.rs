//! Fixed-layout (de)serialization of the two record kinds.
//!
//! Every stored record opens with an 8-byte header naming its kind, followed
//! by its fields at fixed offsets; variable-length text is stored as a 4-byte
//! little-endian length prefix, the bytes themselves, and zero padding up to
//! the field's maximum. A profile record is exactly
//! `PROFILE_ACCOUNT_SPACE` bytes and a contribution record exactly
//! `TIP_LOG_SPACE` bytes, so the byte budget of a record is a constant of
//! its kind.

use vstd::bytes::lemma_auto_spec_u32_to_from_le_bytes;
use vstd::bytes::lemma_auto_spec_u64_to_from_le_bytes;
use vstd::bytes::spec_u32_from_le_bytes;
use vstd::bytes::spec_u32_to_le_bytes;
use vstd::bytes::spec_u64_from_le_bytes;
use vstd::bytes::spec_u64_to_le_bytes;
use vstd::bytes::u32_from_le_bytes;
use vstd::bytes::u32_to_le_bytes;
use vstd::bytes::u64_from_le_bytes;
use vstd::bytes::u64_to_le_bytes;
use vstd::prelude::*;
use vstd::slice::slice_index_get;
use vstd::slice::slice_subrange;
use vstd::slice::slice_to_vec;

use crate::address::Address;
use crate::address::Identity;
use crate::constants::ADDRESS_LEN;
use crate::constants::IDENTITY_LEN;
use crate::constants::MAX_PROFILE_NAME;
use crate::constants::MAX_TIP_MESSAGE;
use crate::constants::PROFILE_ACCOUNT_SPACE;
use crate::constants::PROFILE_HEADER;
use crate::constants::PROFILE_SEED;
use crate::constants::TIP_LOG_HEADER;
use crate::constants::TIP_LOG_SEED;
use crate::constants::TIP_LOG_SPACE;
use crate::records::ProfileAccount;
use crate::records::ProfileView;
use crate::records::TipLog;
use crate::records::TipLogView;

verus! {

/// `n` zero bytes.
pub open spec fn zero_pad(n: int) -> Seq<u8> {
    Seq::new(n as nat, |i: int| 0u8)
}

/// The 32-byte encoding of an identity: its four limbs, little-endian,
/// least-significant limb first.
pub open spec fn spec_identity_bytes(id: Identity) -> Seq<u8> {
    spec_u64_to_le_bytes(id.limb0) + spec_u64_to_le_bytes(id.limb1) + spec_u64_to_le_bytes(
        id.limb2,
    ) + spec_u64_to_le_bytes(id.limb3)
}

/// The identity whose encoding a 32-byte sequence is.
pub open spec fn spec_identity_from_bytes(s: Seq<u8>) -> Identity
    recommends
        s.len() == IDENTITY_LEN,
{
    Identity {
        limb0: spec_u64_from_le_bytes(s.subrange(0, 8)),
        limb1: spec_u64_from_le_bytes(s.subrange(8, 16)),
        limb2: spec_u64_from_le_bytes(s.subrange(16, 24)),
        limb3: spec_u64_from_le_bytes(s.subrange(24, 32)),
    }
}

/// The 42-byte encoding of an address: a namespace tag, the owning
/// identity's bytes, the slot seed, and the sequence seed (zero for a
/// profile address).
pub open spec fn spec_address_bytes(a: Address) -> Seq<u8> {
    match a {
        Address::Profile { owner, slot } => seq![PROFILE_SEED] + spec_identity_bytes(owner)
            + seq![slot] + spec_u64_to_le_bytes(0u64),
        Address::Contribution { profile_owner, profile_slot, sequence } => seq![TIP_LOG_SEED]
            + spec_identity_bytes(profile_owner) + seq![profile_slot] + spec_u64_to_le_bytes(
            sequence,
        ),
    }
}

/// The address a 42-byte sequence encodes, when its namespace tag names one.
pub open spec fn spec_address_from_bytes(s: Seq<u8>) -> Option<Address>
    recommends
        s.len() == ADDRESS_LEN,
{
    if s[0] == PROFILE_SEED {
        Some(
            Address::Profile {
                owner: spec_identity_from_bytes(s.subrange(1, 33)),
                slot: s[33],
            },
        )
    } else if s[0] == TIP_LOG_SEED {
        Some(
            Address::Contribution {
                profile_owner: spec_identity_from_bytes(s.subrange(1, 33)),
                profile_slot: s[33],
                sequence: spec_u64_from_le_bytes(s.subrange(34, 42)),
            },
        )
    } else {
        None
    }
}

/// The encoded bytes of a profile record.
pub open spec fn spec_profile_bytes(v: ProfileView) -> Seq<u8>
    recommends
        v.wf(),
{
    spec_u64_to_le_bytes(PROFILE_HEADER) + spec_u64_to_le_bytes(v.tip_count) + spec_identity_bytes(
        v.authority,
    ) + spec_u64_to_le_bytes(v.balance) + seq![v.slot] + spec_u32_to_le_bytes(
        v.name.len() as u32,
    ) + v.name + zero_pad(MAX_PROFILE_NAME - v.name.len()) + spec_u64_to_le_bytes(
        v.next_comment_id,
    ) + spec_u64_to_le_bytes(v.created_at as u64)
}

/// The profile record a byte sequence encodes, when it is one. Padding
/// beyond the named name length is not inspected.
pub open spec fn spec_decode_profile(d: Seq<u8>) -> Option<ProfileView> {
    if d.len() != PROFILE_ACCOUNT_SPACE {
        None
    } else if spec_u64_from_le_bytes(d.subrange(0, 8)) != PROFILE_HEADER {
        None
    } else if spec_u32_from_le_bytes(d.subrange(57, 61)) > MAX_PROFILE_NAME as u32 {
        None
    } else {
        let name_len = spec_u32_from_le_bytes(d.subrange(57, 61)) as int;
        Some(
            ProfileView {
                tip_count: spec_u64_from_le_bytes(d.subrange(8, 16)),
                authority: spec_identity_from_bytes(d.subrange(16, 48)),
                balance: spec_u64_from_le_bytes(d.subrange(48, 56)),
                slot: d[56],
                name: d.subrange(61, 61 + name_len),
                next_comment_id: spec_u64_from_le_bytes(d.subrange(93, 101)),
                created_at: spec_u64_from_le_bytes(d.subrange(101, 109)) as i64,
            },
        )
    }
}

/// The encoded bytes of a contribution record.
pub open spec fn spec_tip_bytes(v: TipLogView) -> Seq<u8>
    recommends
        v.wf(),
{
    spec_u64_to_le_bytes(TIP_LOG_HEADER) + spec_address_bytes(v.profile) + spec_identity_bytes(
        v.sender,
    ) + spec_u64_to_le_bytes(v.lamports) + spec_u64_to_le_bytes(v.recorded_at as u64)
        + spec_u32_to_le_bytes(v.message.len() as u32) + v.message + zero_pad(
        MAX_TIP_MESSAGE - v.message.len(),
    )
}

/// The contribution record a byte sequence encodes, when it is one.
pub open spec fn spec_decode_tip(d: Seq<u8>) -> Option<TipLogView> {
    if d.len() != TIP_LOG_SPACE {
        None
    } else if spec_u64_from_le_bytes(d.subrange(0, 8)) != TIP_LOG_HEADER {
        None
    } else if spec_address_from_bytes(d.subrange(8, 50)) is None {
        None
    } else if spec_u32_from_le_bytes(d.subrange(98, 102)) > MAX_TIP_MESSAGE as u32 {
        None
    } else {
        let msg_len = spec_u32_from_le_bytes(d.subrange(98, 102)) as int;
        Some(
            TipLogView {
                profile: spec_address_from_bytes(d.subrange(8, 50))->Some_0,
                sender: spec_identity_from_bytes(d.subrange(50, 82)),
                lamports: spec_u64_from_le_bytes(d.subrange(82, 90)),
                recorded_at: spec_u64_from_le_bytes(d.subrange(90, 98)) as i64,
                message: d.subrange(102, 102 + msg_len),
            },
        )
    }
}

/// Whether the bytes decode as a contribution record that targets the
/// profile stored at `pk`.
pub open spec fn spec_is_comment_for_profile(d: Seq<u8>, pk: Address) -> bool {
    match spec_decode_tip(d) {
        Some(t) => t.profile == pk,
        None => false,
    }
}

/// Encode an identity into its 32 bytes.
pub fn identity_to_bytes(id: &Identity) -> (r: Vec<u8>)
    ensures
        r@ == spec_identity_bytes(*id),
        r@.len() == IDENTITY_LEN,
{
    proof {
        lemma_auto_spec_u64_to_from_le_bytes();
    }
    let mut out = u64_to_le_bytes(id.limb0);
    let mut b1 = u64_to_le_bytes(id.limb1);
    out.append(&mut b1);
    let mut b2 = u64_to_le_bytes(id.limb2);
    out.append(&mut b2);
    let mut b3 = u64_to_le_bytes(id.limb3);
    out.append(&mut b3);
    out
}

/// Decode an identity from its 32 bytes.
pub fn identity_from_bytes(d: &[u8]) -> (r: Identity)
    requires
        d@.len() == IDENTITY_LEN,
    ensures
        r == spec_identity_from_bytes(d@),
{
    Identity {
        limb0: u64_from_le_bytes(slice_subrange(d, 0, 8)),
        limb1: u64_from_le_bytes(slice_subrange(d, 8, 16)),
        limb2: u64_from_le_bytes(slice_subrange(d, 16, 24)),
        limb3: u64_from_le_bytes(slice_subrange(d, 24, 32)),
    }
}

/// Identity encoding loses nothing: decoding the encoded bytes gives the
/// identity back.
pub proof fn lemma_identity_round_trip(id: Identity)
    ensures
        spec_identity_bytes(id).len() == IDENTITY_LEN,
        spec_identity_from_bytes(spec_identity_bytes(id)) == id,
{
    lemma_auto_spec_u64_to_from_le_bytes();
    let s = spec_identity_bytes(id);
    assert(s.subrange(0, 8) =~= spec_u64_to_le_bytes(id.limb0));
    assert(s.subrange(8, 16) =~= spec_u64_to_le_bytes(id.limb1));
    assert(s.subrange(16, 24) =~= spec_u64_to_le_bytes(id.limb2));
    assert(s.subrange(24, 32) =~= spec_u64_to_le_bytes(id.limb3));
}

/// Encode an address into its 42 bytes.
pub fn encode_address(a: &Address) -> (r: Vec<u8>)
    ensures
        r@ == spec_address_bytes(*a),
        r@.len() == ADDRESS_LEN,
{
    proof {
        lemma_auto_spec_u64_to_from_le_bytes();
    }
    match a {
        Address::Profile { owner, slot } => {
            let mut out: Vec<u8> = Vec::new();
            out.push(PROFILE_SEED);
            proof {
                assert(out@ =~= seq![PROFILE_SEED]);
            }
            let mut idb = identity_to_bytes(owner);
            out.append(&mut idb);
            out.push(*slot);
            proof {
                assert(out@ =~= seq![PROFILE_SEED] + spec_identity_bytes(*owner) + seq![*slot]);
            }
            let mut sq = u64_to_le_bytes(0u64);
            out.append(&mut sq);
            out
        },
        Address::Contribution { profile_owner, profile_slot, sequence } => {
            let mut out: Vec<u8> = Vec::new();
            out.push(TIP_LOG_SEED);
            proof {
                assert(out@ =~= seq![TIP_LOG_SEED]);
            }
            let mut idb = identity_to_bytes(profile_owner);
            out.append(&mut idb);
            out.push(*profile_slot);
            proof {
                assert(out@ =~= seq![TIP_LOG_SEED] + spec_identity_bytes(*profile_owner)
                    + seq![*profile_slot]);
            }
            let mut sq = u64_to_le_bytes(*sequence);
            out.append(&mut sq);
            out
        },
    }
}

/// Decode an address from its 42 bytes.
pub fn decode_address(d: &[u8]) -> (r: Option<Address>)
    requires
        d@.len() == ADDRESS_LEN,
    ensures
        r == spec_address_from_bytes(d@),
{
    let kind = *slice_index_get(d, 0);
    if kind == PROFILE_SEED {
        let owner = identity_from_bytes(slice_subrange(d, 1, 33));
        let slot = *slice_index_get(d, 33);
        Some(Address::Profile { owner, slot })
    } else if kind == TIP_LOG_SEED {
        let profile_owner = identity_from_bytes(slice_subrange(d, 1, 33));
        let profile_slot = *slice_index_get(d, 33);
        let sequence = u64_from_le_bytes(slice_subrange(d, 34, 42));
        Some(Address::Contribution { profile_owner, profile_slot, sequence })
    } else {
        None
    }
}

/// Address encoding loses nothing: decoding the encoded bytes gives the
/// address back.
pub proof fn lemma_address_round_trip(a: Address)
    ensures
        spec_address_bytes(a).len() == ADDRESS_LEN,
        spec_address_from_bytes(spec_address_bytes(a)) == Some(a),
{
    lemma_auto_spec_u64_to_from_le_bytes();
    let s = spec_address_bytes(a);
    match a {
        Address::Profile { owner, slot } => {
            lemma_identity_round_trip(owner);
            assert(s.subrange(1, 33) =~= spec_identity_bytes(owner));
            assert(s[0] == PROFILE_SEED && s[33] == slot);
        },
        Address::Contribution { profile_owner, profile_slot, sequence } => {
            lemma_identity_round_trip(profile_owner);
            assert(s.subrange(1, 33) =~= spec_identity_bytes(profile_owner));
            assert(s.subrange(34, 42) =~= spec_u64_to_le_bytes(sequence));
            assert(s[0] == TIP_LOG_SEED && s[33] == profile_slot);
        },
    }
}

/// Encode a profile record into its fixed-size bytes.
pub fn encode_profile(p: &ProfileAccount) -> (r: Vec<u8>)
    requires
        p@.wf(),
    ensures
        r@ == spec_profile_bytes(p@),
        r@.len() == PROFILE_ACCOUNT_SPACE,
{
    proof {
        lemma_auto_spec_u64_to_from_le_bytes();
        lemma_auto_spec_u32_to_from_le_bytes();
    }
    let mut out = u64_to_le_bytes(PROFILE_HEADER);
    let mut tc = u64_to_le_bytes(p.tip_count);
    out.append(&mut tc);
    let mut auth = identity_to_bytes(&p.authority);
    out.append(&mut auth);
    let mut bal = u64_to_le_bytes(p.balance);
    out.append(&mut bal);
    out.push(p.slot);
    proof {
        assert(out@ =~= spec_u64_to_le_bytes(PROFILE_HEADER) + spec_u64_to_le_bytes(p.tip_count)
            + spec_identity_bytes(p.authority) + spec_u64_to_le_bytes(p.balance) + seq![p.slot]);
    }
    let name_len = p.name.len();
    let mut nl = u32_to_le_bytes(name_len as u32);
    out.append(&mut nl);
    let mut nb = slice_to_vec(p.name.as_slice());
    out.append(&mut nb);
    let ghost before_pad = out@;
    let mut i = name_len;
    while i < MAX_PROFILE_NAME
        invariant
            name_len <= i <= MAX_PROFILE_NAME,
            out@ == before_pad + zero_pad(i - name_len),
        decreases MAX_PROFILE_NAME - i,
    {
        out.push(0);
        i = i + 1;
        proof {
            assert(out@ =~= before_pad + zero_pad(i - name_len));
        }
    }
    let mut nx = u64_to_le_bytes(p.next_comment_id);
    out.append(&mut nx);
    let mut ca = u64_to_le_bytes(p.created_at as u64);
    out.append(&mut ca);
    proof {
        assert(out@ =~= spec_profile_bytes(p@));
    }
    out
}

/// Decode a profile record from stored bytes, when they are one.
pub fn decode_profile(d: &[u8]) -> (r: Option<ProfileAccount>)
    ensures
        match r {
            Some(p) => spec_decode_profile(d@) == Some(p@) && p@.wf(),
            None => spec_decode_profile(d@) is None,
        },
{
    if d.len() != PROFILE_ACCOUNT_SPACE {
        return None;
    }
    let header = u64_from_le_bytes(slice_subrange(d, 0, 8));
    if header != PROFILE_HEADER {
        return None;
    }
    let name_len_raw = u32_from_le_bytes(slice_subrange(d, 57, 61));
    if name_len_raw > MAX_PROFILE_NAME as u32 {
        return None;
    }
    let name_len = name_len_raw as usize;
    let tip_count = u64_from_le_bytes(slice_subrange(d, 8, 16));
    let authority = identity_from_bytes(slice_subrange(d, 16, 48));
    let balance = u64_from_le_bytes(slice_subrange(d, 48, 56));
    let slot = *slice_index_get(d, 56);
    let name = slice_to_vec(slice_subrange(d, 61, 61 + name_len));
    let next_comment_id = u64_from_le_bytes(slice_subrange(d, 93, 101));
    let created_at = u64_from_le_bytes(slice_subrange(d, 101, 109)) as i64;
    Some(ProfileAccount { tip_count, authority, balance, slot, name, next_comment_id, created_at })
}

/// Profile encoding loses nothing: decoding the encoded bytes gives the
/// record back.
pub proof fn lemma_profile_round_trip(v: ProfileView)
    requires
        v.wf(),
    ensures
        spec_profile_bytes(v).len() == PROFILE_ACCOUNT_SPACE,
        spec_decode_profile(spec_profile_bytes(v)) == Some(v),
{
    lemma_auto_spec_u64_to_from_le_bytes();
    lemma_auto_spec_u32_to_from_le_bytes();
    lemma_identity_round_trip(v.authority);
    let s = spec_profile_bytes(v);
    assert(s.subrange(0, 8) =~= spec_u64_to_le_bytes(PROFILE_HEADER));
    assert(s.subrange(8, 16) =~= spec_u64_to_le_bytes(v.tip_count));
    assert(s.subrange(16, 48) =~= spec_identity_bytes(v.authority));
    assert(s.subrange(48, 56) =~= spec_u64_to_le_bytes(v.balance));
    assert(s[56] == v.slot);
    assert(s.subrange(57, 61) =~= spec_u32_to_le_bytes(v.name.len() as u32));
    assert(s.subrange(61, 61 + v.name.len() as int) =~= v.name);
    assert(s.subrange(93, 101) =~= spec_u64_to_le_bytes(v.next_comment_id));
    assert(s.subrange(101, 109) =~= spec_u64_to_le_bytes(v.created_at as u64));
    let ca = v.created_at;
    assert(((ca as u64) as i64) == ca) by (bit_vector);
}

/// Encode a contribution record into its fixed-size bytes.
pub fn encode_tip_log(t: &TipLog) -> (r: Vec<u8>)
    requires
        t@.wf(),
    ensures
        r@ == spec_tip_bytes(t@),
        r@.len() == TIP_LOG_SPACE,
{
    proof {
        lemma_auto_spec_u64_to_from_le_bytes();
        lemma_auto_spec_u32_to_from_le_bytes();
        lemma_address_round_trip(t.profile);
    }
    let mut out = u64_to_le_bytes(TIP_LOG_HEADER);
    let mut pa = encode_address(&t.profile);
    out.append(&mut pa);
    let mut sn = identity_to_bytes(&t.sender);
    out.append(&mut sn);
    let mut lam = u64_to_le_bytes(t.lamports);
    out.append(&mut lam);
    let mut ra = u64_to_le_bytes(t.recorded_at as u64);
    out.append(&mut ra);
    let msg_len = t.message.len();
    let mut ml = u32_to_le_bytes(msg_len as u32);
    out.append(&mut ml);
    let mut mb = slice_to_vec(t.message.as_slice());
    out.append(&mut mb);
    let ghost before_pad = out@;
    let mut i = msg_len;
    while i < MAX_TIP_MESSAGE
        invariant
            msg_len <= i <= MAX_TIP_MESSAGE,
            out@ == before_pad + zero_pad(i - msg_len),
        decreases MAX_TIP_MESSAGE - i,
    {
        out.push(0);
        i = i + 1;
        proof {
            assert(out@ =~= before_pad + zero_pad(i - msg_len));
        }
    }
    proof {
        assert(out@ =~= spec_tip_bytes(t@));
    }
    out
}

/// Decode a contribution record from stored bytes, when they are one.
pub fn decode_tip_log(d: &[u8]) -> (r: Option<TipLog>)
    ensures
        match r {
            Some(t) => spec_decode_tip(d@) == Some(t@) && t@.wf(),
            None => spec_decode_tip(d@) is None,
        },
{
    if d.len() != TIP_LOG_SPACE {
        return None;
    }
    let header = u64_from_le_bytes(slice_subrange(d, 0, 8));
    if header != TIP_LOG_HEADER {
        return None;
    }
    let profile = match decode_address(slice_subrange(d, 8, 50)) {
        Some(a) => a,
        None => {
            return None;
        },
    };
    let msg_len_raw = u32_from_le_bytes(slice_subrange(d, 98, 102));
    if msg_len_raw > MAX_TIP_MESSAGE as u32 {
        return None;
    }
    let msg_len = msg_len_raw as usize;
    let sender = identity_from_bytes(slice_subrange(d, 50, 82));
    let lamports = u64_from_le_bytes(slice_subrange(d, 82, 90));
    let recorded_at = u64_from_le_bytes(slice_subrange(d, 90, 98)) as i64;
    let message = slice_to_vec(slice_subrange(d, 102, 102 + msg_len));
    Some(TipLog { profile, sender, lamports, recorded_at, message })
}

/// Contribution encoding loses nothing: decoding the encoded bytes gives
/// the record back.
pub proof fn lemma_tip_round_trip(v: TipLogView)
    requires
        v.wf(),
    ensures
        spec_tip_bytes(v).len() == TIP_LOG_SPACE,
        spec_decode_tip(spec_tip_bytes(v)) == Some(v),
{
    lemma_auto_spec_u64_to_from_le_bytes();
    lemma_auto_spec_u32_to_from_le_bytes();
    lemma_address_round_trip(v.profile);
    lemma_identity_round_trip(v.sender);
    let s = spec_tip_bytes(v);
    assert(s.subrange(0, 8) =~= spec_u64_to_le_bytes(TIP_LOG_HEADER));
    assert(s.subrange(8, 50) =~= spec_address_bytes(v.profile));
    assert(s.subrange(50, 82) =~= spec_identity_bytes(v.sender));
    assert(s.subrange(82, 90) =~= spec_u64_to_le_bytes(v.lamports));
    assert(s.subrange(90, 98) =~= spec_u64_to_le_bytes(v.recorded_at as u64));
    assert(s.subrange(98, 102) =~= spec_u32_to_le_bytes(v.message.len() as u32));
    assert(s.subrange(102, 102 + v.message.len() as int) =~= v.message);
    let ra = v.recorded_at;
    assert(((ra as u64) as i64) == ra) by (bit_vector);
}

/// A profile record's bytes never decode as a contribution record, and the
/// other way round: the two kinds have different byte budgets.
pub proof fn lemma_record_kinds_disjoint(p: ProfileView, t: TipLogView)
    requires
        p.wf(),
        t.wf(),
    ensures
        spec_decode_tip(spec_profile_bytes(p)) is None,
        spec_decode_profile(spec_tip_bytes(t)) is None,
{
    lemma_profile_round_trip(p);
    lemma_tip_round_trip(t);
}

/// Whether stored bytes are a contribution record that targets the profile
/// stored at `profile_key`.
pub fn is_comment_for_profile(data: &[u8], profile_key: &Address) -> (r: bool)
    ensures
        r == spec_is_comment_for_profile(data@, *profile_key),
{
    match decode_tip_log(data) {
        Some(t) => t.profile == *profile_key,
        None => false,
    }
}

} // verus!
