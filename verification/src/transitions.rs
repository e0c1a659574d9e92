//! The four transitions of the tipping ledger.
//!
//! Each transition is an indivisible unit against the record store: it
//! re-derives the addresses it is handed, re-verifies ownership and bounds,
//! and either applies its whole effect or leaves the store untouched. The
//! caller identities it receives are taken as already authenticated by the
//! host; everything else is re-checked here.

use vstd::prelude::*;

use crate::address::Address;
use crate::address::Identity;
use crate::address::derive_contribution_address;
use crate::address::derive_profile_address;
use crate::address::spec_contribution_address;
use crate::address::spec_profile_address;
use crate::codec::decode_profile;
use crate::codec::encode_profile;
use crate::codec::encode_tip_log;
use crate::codec::lemma_profile_round_trip;
use crate::codec::lemma_tip_round_trip;
use crate::codec::spec_decode_profile;
use crate::codec::spec_profile_bytes;
use crate::codec::spec_tip_bytes;
use crate::constants::MAX_PROFILES_PER_AUTHORITY;
use crate::constants::MAX_PROFILE_NAME;
use crate::constants::MAX_TIP_MESSAGE;
use crate::constants::MIN_TIP_LAMPORTS;
use crate::errors::AppError;
use crate::errors::TxError;
use crate::math::meets_minimum_tip;
use crate::records::ProfileAccount;
use crate::records::ProfileView;
use crate::records::TipLog;
use crate::records::TipLogView;
use crate::store::Ledger;
use crate::store::StoredAccount;
use crate::store::StoredAccountView;
use crate::codec::decode_tip_log;
use crate::codec::is_comment_for_profile;
use crate::codec::spec_decode_tip;
use crate::codec::spec_is_comment_for_profile;
use crate::store::lemma_lookup_push;
use crate::store::lemma_lookup_update;
use crate::store::lemma_remove_addr_is_remove;
use crate::store::lemma_remove_addr_properties;
use crate::store::lookup;
use crate::store::remove_addr;

verus! {

/// How a transition finds the profile it names: the account must exist, lie
/// in the ledger's namespace, decode as a profile record, and sit at the
/// address its own owner and slot derive.
pub open spec fn spec_load_profile(s: Seq<StoredAccountView>, a: Address) -> Result<
    ProfileView,
    TxError,
> {
    match lookup(s, a) {
        None => Err(TxError::AccountNotFound),
        Some(e) => if !e.program_owned {
            Err(TxError::MalformedRecord)
        } else {
            match spec_decode_profile(e.data) {
                None => Err(TxError::MalformedRecord),
                Some(p) => if p.derived_address() != a {
                    Err(TxError::MalformedRecord)
                } else {
                    Ok(p)
                },
            }
        },
    }
}

/// Which outcome `create_profile` owes each input: the first failing check
/// in order, or the derived address of the new profile.
pub open spec fn spec_create_check(
    s: Seq<StoredAccountView>,
    authority: Identity,
    slot: u8,
    name: Seq<u8>,
) -> Result<Address, TxError> {
    if slot >= MAX_PROFILES_PER_AUTHORITY {
        Err(TxError::App(AppError::InvalidSlot))
    } else if name.len() > MAX_PROFILE_NAME {
        Err(TxError::App(AppError::NameTooLong))
    } else if lookup(s, spec_profile_address(authority, slot)) is Some {
        Err(TxError::AddressCollision)
    } else {
        Ok(spec_profile_address(authority, slot))
    }
}

/// Which outcome `give_tip` owes each input: the first failing check in
/// order, or the profile record the tip lands on.
pub open spec fn spec_give_tip_check(
    s: Seq<StoredAccountView>,
    pa: Address,
    sender: Identity,
    amount: u64,
    message: Seq<u8>,
) -> Result<ProfileView, TxError> {
    match spec_load_profile(s, pa) {
        Err(e) => Err(e),
        Ok(p) => if sender == p.authority {
            Err(TxError::App(AppError::SelfTippingForbidden))
        } else if amount < MIN_TIP_LAMPORTS {
            Err(TxError::App(AppError::InsufficientAmount))
        } else if message.len() > MAX_TIP_MESSAGE {
            Err(TxError::App(AppError::MessageTooLong))
        } else if p.balance + amount > u64::MAX {
            Err(TxError::App(AppError::MathOverflow))
        } else if p.tip_count + 1 > u64::MAX {
            Err(TxError::App(AppError::MathOverflow))
        } else if p.next_comment_id + 1 > u64::MAX {
            Err(TxError::App(AppError::MathOverflow))
        } else if lookup(s, pa)->Some_0.lamports + amount > u64::MAX {
            Err(TxError::App(AppError::MathOverflow))
        } else if lookup(s, spec_contribution_address(pa, p.next_comment_id)) is Some {
            Err(TxError::AddressCollision)
        } else {
            Ok(p)
        },
    }
}

/// The profile record after a tip of `amount` lands on `p`.
pub open spec fn spec_tipped_profile(p: ProfileView, amount: u64) -> ProfileView {
    ProfileView {
        tip_count: (p.tip_count + 1) as u64,
        authority: p.authority,
        balance: (p.balance + amount) as u64,
        slot: p.slot,
        name: p.name,
        next_comment_id: (p.next_comment_id + 1) as u64,
        created_at: p.created_at,
    }
}

/// Which outcome `cashout` owes each input: the first failing check in
/// order, or the profile record the withdrawal comes from.
pub open spec fn spec_cashout_check(
    s: Seq<StoredAccountView>,
    pa: Address,
    caller: Identity,
    amount: u64,
) -> Result<ProfileView, TxError> {
    match spec_load_profile(s, pa) {
        Err(e) => Err(e),
        Ok(p) => if caller != p.authority {
            Err(TxError::App(AppError::InvalidAccountOwner))
        } else if amount > p.balance {
            Err(TxError::App(AppError::BalanceTooLow))
        } else {
            Ok(p)
        },
    }
}

/// Whether the close sweep claims the candidate at `c`: it is not the
/// profile's own record, it exists, it lies in the ledger's namespace, and
/// its bytes decode as a contribution that targets the profile at `pa`.
pub open spec fn sweepable(s: Seq<StoredAccountView>, pa: Address, c: Address) -> bool {
    &&& c != pa
    &&& match lookup(s, c) {
        Some(e) => e.program_owned && spec_is_comment_for_profile(e.data, pa),
        None => false,
    }
}

/// The store the close sweep leaves behind, and the native units it
/// reclaims, after working through `cands` front to back: each claimed
/// candidate's record is destroyed and its whole holding reclaimed; every
/// other candidate is skipped without effect.
pub open spec fn spec_sweep(
    s: Seq<StoredAccountView>,
    pa: Address,
    cands: Seq<Address>,
) -> (Seq<StoredAccountView>, int)
    decreases cands.len(),
{
    if cands.len() == 0 {
        (s, 0)
    } else {
        let c = cands[0];
        let after = if sweepable(s, pa, c) {
            (remove_addr(s, c), lookup(s, c)->Some_0.lamports as int)
        } else {
            (s, 0)
        };
        let rest = spec_sweep(after.0, pa, cands.drop_first());
        (rest.0, after.1 + rest.1)
    }
}

/// Which outcome `close_profile` owes each input: the first failing check,
/// or the profile record to be destroyed.
pub open spec fn spec_close_check(
    s: Seq<StoredAccountView>,
    pa: Address,
    caller: Identity,
) -> Result<ProfileView, TxError> {
    match spec_load_profile(s, pa) {
        Err(e) => Err(e),
        Ok(p) => if caller != p.authority {
            Err(TxError::App(AppError::InvalidAccountOwner))
        } else {
            Ok(p)
        },
    }
}

/// Working through one more candidate extends the sweep by one step at the
/// end.
pub proof fn lemma_sweep_snoc(
    s: Seq<StoredAccountView>,
    pa: Address,
    cands: Seq<Address>,
    c: Address,
)
    ensures
        spec_sweep(s, pa, cands.push(c)) == ({
            let sw = spec_sweep(s, pa, cands);
            if sweepable(sw.0, pa, c) {
                (remove_addr(sw.0, c), sw.1 + lookup(sw.0, c)->Some_0.lamports as int)
            } else {
                sw
            }
        }),
    decreases cands.len(),
{
    if cands.len() == 0 {
        assert(cands.push(c)[0] == c);
        assert(cands.push(c).drop_first() =~= Seq::<Address>::empty());
        let after = if sweepable(s, pa, c) {
            remove_addr(s, c)
        } else {
            s
        };
        let gain = if sweepable(s, pa, c) {
            lookup(s, c)->Some_0.lamports as int
        } else {
            0
        };
        assert(spec_sweep(after, pa, cands.push(c).drop_first()) == (after, 0int));
        assert(spec_sweep(s, pa, cands.push(c)) == (after, gain));
        assert(spec_sweep(s, pa, cands) == (s, 0int));
    } else {
        let c0 = cands[0];
        assert(cands.push(c)[0] == c0);
        assert(cands.push(c).drop_first() =~= cands.drop_first().push(c));
        let after = if sweepable(s, pa, c0) {
            remove_addr(s, c0)
        } else {
            s
        };
        let gain = if sweepable(s, pa, c0) {
            lookup(s, c0)->Some_0.lamports as int
        } else {
            0
        };
        lemma_sweep_snoc(after, pa, cands.drop_first(), c);
        let rest = spec_sweep(after, pa, cands.drop_first());
        let rest2 = spec_sweep(after, pa, cands.drop_first().push(c));
        assert(spec_sweep(s, pa, cands) == (rest.0, gain + rest.1));
        assert(spec_sweep(s, pa, cands.push(c)) == (rest2.0, gain + rest2.1));
        if sweepable(rest.0, pa, c) {
            assert(rest2 == (remove_addr(rest.0, c), rest.1 + lookup(
                rest.0,
                c,
            )->Some_0.lamports as int));
        } else {
            assert(rest2 == rest);
        }
    }
}

/// Find, check, and decode the profile record stored at `a`.
fn load_profile(ledger: &Ledger, a: &Address) -> (r: Result<(usize, ProfileAccount), TxError>)
    ensures
        match r {
            Ok((i, p)) => i < ledger@.len() && ledger@[i as int].address == *a && lookup(
                ledger@,
                *a,
            ) == Some(ledger@[i as int]) && ledger@[i as int].program_owned && spec_decode_profile(
                ledger@[i as int].data,
            ) == Some(p@) && p@.wf() && spec_load_profile(ledger@, *a) == Ok::<
                ProfileView,
                TxError,
            >(p@),
            Err(e) => spec_load_profile(ledger@, *a) == Err::<ProfileView, TxError>(e),
        },
{
    let i = match ledger.find_index(a) {
        Some(i) => i,
        None => {
            return Err(TxError::AccountNotFound);
        },
    };
    let entry = ledger.entry_at(i);
    if !entry.program_owned {
        return Err(TxError::MalformedRecord);
    }
    let p = match decode_profile(entry.data.as_slice()) {
        Some(p) => p,
        None => {
            return Err(TxError::MalformedRecord);
        },
    };
    let derived = derive_profile_address(p.authority, p.slot);
    if derived == *a {
        Ok((i, p))
    } else {
        Err(TxError::MalformedRecord)
    }
}

/// The profile record stored at `a`, as a transition would load it.
pub fn read_profile(ledger: &Ledger, a: &Address) -> (r: Option<ProfileAccount>)
    ensures
        match r {
            Some(p) => spec_load_profile(ledger@, *a) == Ok::<ProfileView, TxError>(p@),
            None => spec_load_profile(ledger@, *a) is Err,
        },
{
    match load_profile(ledger, a) {
        Ok((_, p)) => Some(p),
        Err(_) => None,
    }
}

/// The contribution record stored at `a`, when that address holds one of
/// the ledger's contribution records.
pub fn read_tip_log(ledger: &Ledger, a: &Address) -> (r: Option<TipLog>)
    ensures
        match r {
            Some(t) => lookup(ledger@, *a) matches Some(e) && e.program_owned && spec_decode_tip(
                e.data,
            ) == Some(t@),
            None => match lookup(ledger@, *a) {
                Some(e) => !e.program_owned || spec_decode_tip(e.data) is None,
                None => true,
            },
        },
{
    match ledger.get(a) {
        Some(entry) => {
            if !entry.program_owned {
                return None;
            }
            decode_tip_log(entry.data.as_slice())
        },
        None => None,
    }
}

/// Create a new profile owned by `authority` in `slot`, named `name`,
/// stamped `now`, its record paid for with `rent` native units.
///
/// On success the new record sits at the address derived from
/// `(authority, slot)`, opens with zero balance and counters, and nothing
/// else in the store moves. On failure the store is untouched and the error
/// is exactly what `spec_create_check` owes the input.
pub fn create_profile(
    ledger: &mut Ledger,
    authority: Identity,
    slot: u8,
    name: Vec<u8>,
    now: i64,
    rent: u64,
) -> (r: Result<Address, TxError>)
    requires
        old(ledger).wf(),
    ensures
        final(ledger).wf(),
        match r {
            Ok(a) => {
                &&& spec_create_check(old(ledger)@, authority, slot, name@) == Ok::<
                    Address,
                    TxError,
                >(a)
                &&& a == spec_profile_address(authority, slot)
                &&& final(ledger)@ == old(ledger)@.push(
                    StoredAccountView {
                        address: a,
                        lamports: rent,
                        program_owned: true,
                        data: spec_profile_bytes(
                            ProfileView {
                                tip_count: 0,
                                authority,
                                balance: 0,
                                slot,
                                name: name@,
                                next_comment_id: 0,
                                created_at: now,
                            },
                        ),
                    },
                )
            },
            Err(e) => spec_create_check(old(ledger)@, authority, slot, name@) == Err::<
                Address,
                TxError,
            >(e) && final(ledger)@ == old(ledger)@,
        },
{
    if slot >= MAX_PROFILES_PER_AUTHORITY {
        return Err(TxError::App(AppError::InvalidSlot));
    }
    if name.len() > MAX_PROFILE_NAME {
        return Err(TxError::App(AppError::NameTooLong));
    }
    let address = derive_profile_address(authority, slot);
    match ledger.find_index(&address) {
        Some(_) => Err(TxError::AddressCollision),
        None => {
            let profile = ProfileAccount {
                tip_count: 0,
                authority,
                balance: 0,
                slot,
                name,
                next_comment_id: 0,
                created_at: now,
            };
            let data = encode_profile(&profile);
            proof {
                lemma_profile_round_trip(profile@);
            }
            ledger.insert_new(
                StoredAccount { address, lamports: rent, program_owned: true, data },
            );
            Ok(address)
        },
    }
}

/// Withdraw `amount` from the profile at `profile_address`, on behalf of
/// `caller`.
///
/// Succeeds exactly when the profile loads, `caller` is its authority, and
/// `amount` does not exceed its balance; the balance and the account's
/// native holding both drop by `amount` (the withdrawn value is owed to the
/// owner by the host's transfer primitive), and nothing else in the store
/// moves. On failure the store is untouched.
pub fn cashout(
    ledger: &mut Ledger,
    profile_address: &Address,
    caller: Identity,
    amount: u64,
) -> (r: Result<(), TxError>)
    requires
        old(ledger).wf(),
    ensures
        final(ledger).wf(),
        match r {
            Ok(()) => {
                &&& spec_cashout_check(old(ledger)@, *profile_address, caller, amount) matches Ok(
                    p,
                )
                &&& {
                    let p = spec_cashout_check(
                        old(ledger)@,
                        *profile_address,
                        caller,
                        amount,
                    )->Ok_0;
                    let e = lookup(old(ledger)@, *profile_address)->Some_0;
                    let upd = ProfileView {
                        balance: (p.balance - amount) as u64,
                        ..p
                    };
                    &&& final(ledger)@.len() == old(ledger)@.len()
                    &&& lookup(final(ledger)@, *profile_address) == Some(
                        StoredAccountView {
                            address: *profile_address,
                            lamports: (e.lamports - amount) as u64,
                            program_owned: true,
                            data: spec_profile_bytes(upd),
                        },
                    )
                    &&& forall|x: Address|
                        x != *profile_address ==> lookup(final(ledger)@, x) == lookup(
                            old(ledger)@,
                            x,
                        )
                }
            },
            Err(e) => spec_cashout_check(old(ledger)@, *profile_address, caller, amount) == Err::<
                ProfileView,
                TxError,
            >(e) && final(ledger)@ == old(ledger)@,
        },
{
    let (i, profile) = match load_profile(ledger, profile_address) {
        Ok(v) => v,
        Err(e) => {
            return Err(e);
        },
    };
    if caller != profile.authority {
        return Err(TxError::App(AppError::InvalidAccountOwner));
    }
    if amount > profile.balance {
        return Err(TxError::App(AppError::BalanceTooLow));
    }
    let entry_lamports = ledger.entry_at(i).lamports;
    // The standing funds invariant covers the withdrawal; the subtraction is
    // still checked, signalling as the balance check does.
    if entry_lamports < amount {
        return Err(TxError::App(AppError::BalanceTooLow));
    }
    let updated = ProfileAccount {
        tip_count: profile.tip_count,
        authority: profile.authority,
        balance: profile.balance - amount,
        slot: profile.slot,
        name: profile.name,
        next_comment_id: profile.next_comment_id,
        created_at: profile.created_at,
    };
    let data = encode_profile(&updated);
    proof {
        lemma_profile_round_trip(updated@);
    }
    let ghost prev = ledger@;
    ledger.set_entry(
        i,
        StoredAccount {
            address: *profile_address,
            lamports: entry_lamports - amount,
            program_owned: true,
            data,
        },
    );
    proof {
        assert forall|x: Address| #![auto] true implies lookup(ledger@, x) == (if x
            == *profile_address {
            Some(ledger@[i as int])
        } else {
            lookup(prev, x)
        }) by {
            lemma_lookup_update(prev, i as int, ledger@[i as int], x);
        }
    }
    Ok(())
}

/// Record a tip of `amount` with `message` from `sender` against the
/// profile at `profile_address`, stamped `now`; the new contribution
/// record's storage is paid for with `rent` native units by the sender.
///
/// Succeeds exactly when the profile loads, the sender is not the owner,
/// the amount and message are within bounds, no counter or holding would
/// overflow, and the derived contribution address is free. The whole effect
/// is applied as a unit: balance, tip count, and sequence number advance,
/// the profile account's holding grows by the transferred amount, and the
/// contribution record appears at the address derived from the profile's
/// sequence number. On failure the store is untouched.
pub fn give_tip(
    ledger: &mut Ledger,
    profile_address: &Address,
    sender: Identity,
    amount: u64,
    message: Vec<u8>,
    now: i64,
    rent: u64,
) -> (r: Result<Address, TxError>)
    requires
        old(ledger).wf(),
    ensures
        final(ledger).wf(),
        match r {
            Ok(ta) => {
                &&& spec_give_tip_check(
                    old(ledger)@,
                    *profile_address,
                    sender,
                    amount,
                    message@,
                ) matches Ok(p)
                &&& {
                    let p = spec_give_tip_check(
                        old(ledger)@,
                        *profile_address,
                        sender,
                        amount,
                        message@,
                    )->Ok_0;
                    let e = lookup(old(ledger)@, *profile_address)->Some_0;
                    &&& ta == spec_contribution_address(*profile_address, p.next_comment_id)
                    &&& final(ledger)@.len() == old(ledger)@.len() + 1
                    &&& lookup(final(ledger)@, *profile_address) == Some(
                        StoredAccountView {
                            address: *profile_address,
                            lamports: (e.lamports + amount) as u64,
                            program_owned: true,
                            data: spec_profile_bytes(spec_tipped_profile(p, amount)),
                        },
                    )
                    &&& lookup(final(ledger)@, ta) == Some(
                        StoredAccountView {
                            address: ta,
                            lamports: rent,
                            program_owned: true,
                            data: spec_tip_bytes(
                                TipLogView {
                                    profile: *profile_address,
                                    sender,
                                    lamports: amount,
                                    recorded_at: now,
                                    message: message@,
                                },
                            ),
                        },
                    )
                    &&& forall|x: Address|
                        x != *profile_address && x != ta ==> lookup(final(ledger)@, x) == lookup(
                            old(ledger)@,
                            x,
                        )
                }
            },
            Err(e) => spec_give_tip_check(old(ledger)@, *profile_address, sender, amount, message@)
                == Err::<ProfileView, TxError>(e) && final(ledger)@ == old(ledger)@,
        },
{
    let (i, profile) = match load_profile(ledger, profile_address) {
        Ok(v) => v,
        Err(e) => {
            return Err(e);
        },
    };
    if sender == profile.authority {
        return Err(TxError::App(AppError::SelfTippingForbidden));
    }
    if !meets_minimum_tip(amount) {
        return Err(TxError::App(AppError::InsufficientAmount));
    }
    if message.len() > MAX_TIP_MESSAGE {
        return Err(TxError::App(AppError::MessageTooLong));
    }
    if profile.balance > u64::MAX - amount {
        return Err(TxError::App(AppError::MathOverflow));
    }
    if profile.tip_count == u64::MAX {
        return Err(TxError::App(AppError::MathOverflow));
    }
    if profile.next_comment_id == u64::MAX {
        return Err(TxError::App(AppError::MathOverflow));
    }
    let entry_lamports = ledger.entry_at(i).lamports;
    if entry_lamports > u64::MAX - amount {
        return Err(TxError::App(AppError::MathOverflow));
    }
    let tip_address = derive_contribution_address(profile_address, profile.next_comment_id);
    match ledger.find_index(&tip_address) {
        Some(_) => {
            return Err(TxError::AddressCollision);
        },
        None => {},
    }
    let updated = ProfileAccount {
        tip_count: profile.tip_count + 1,
        authority: profile.authority,
        balance: profile.balance + amount,
        slot: profile.slot,
        name: profile.name,
        next_comment_id: profile.next_comment_id + 1,
        created_at: profile.created_at,
    };
    let data = encode_profile(&updated);
    proof {
        lemma_profile_round_trip(updated@);
    }
    let ghost prev = ledger@;
    ledger.set_entry(
        i,
        StoredAccount {
            address: *profile_address,
            lamports: entry_lamports + amount,
            program_owned: true,
            data,
        },
    );
    let ghost mid = ledger@;
    proof {
        assert forall|x: Address| #![auto] true implies lookup(mid, x) == (if x
            == *profile_address {
            Some(mid[i as int])
        } else {
            lookup(prev, x)
        }) by {
            lemma_lookup_update(prev, i as int, mid[i as int], x);
        }
    }
    let tip = TipLog {
        profile: *profile_address,
        sender,
        lamports: amount,
        recorded_at: now,
        message,
    };
    let tip_data = encode_tip_log(&tip);
    proof {
        lemma_tip_round_trip(tip@);
    }
    ledger.insert_new(
        StoredAccount { address: tip_address, lamports: rent, program_owned: true, data: tip_data },
    );
    proof {
        assert forall|x: Address| #![auto] true implies lookup(ledger@, x) == (if lookup(
            mid,
            x,
        ) is Some {
            lookup(mid, x)
        } else if x == tip_address {
            Some(ledger@[ledger@.len() - 1])
        } else {
            None::<StoredAccountView>
        }) by {
            lemma_lookup_push(mid, ledger@[ledger@.len() - 1], x);
        }
    }
    Ok(tip_address)
}

/// Close the profile at `profile_address` on behalf of `caller`, sweeping
/// the supplied candidate addresses for this profile's contribution records.
///
/// Succeeds exactly when the profile loads and `caller` is its authority.
/// Each candidate that holds one of this profile's contribution records is
/// destroyed and its whole native holding reclaimed; any other candidate —
/// a foreign account, the profile's own address, a record of another kind
/// or of another profile, or an address holding nothing — is skipped
/// without effect. Contribution records not supplied as candidates are left
/// untouched. Finally the profile record itself is destroyed, and the
/// returned total (the reclaimed storage rent and remaining holdings) is
/// owed to the caller by the host's transfer primitive. On failure the
/// store is untouched.
pub fn close_profile(
    ledger: &mut Ledger,
    profile_address: &Address,
    caller: Identity,
    candidates: &Vec<Address>,
) -> (r: Result<u128, TxError>)
    requires
        old(ledger).wf(),
    ensures
        final(ledger).wf(),
        match r {
            Ok(total) => {
                &&& spec_close_check(old(ledger)@, *profile_address, caller) is Ok
                &&& {
                    let sw = spec_sweep(old(ledger)@, *profile_address, candidates@);
                    &&& final(ledger)@ == remove_addr(sw.0, *profile_address)
                    &&& total as int == sw.1 + lookup(
                        old(ledger)@,
                        *profile_address,
                    )->Some_0.lamports
                    &&& lookup(final(ledger)@, *profile_address) is None
                }
            },
            Err(e) => spec_close_check(old(ledger)@, *profile_address, caller) == Err::<
                ProfileView,
                TxError,
            >(e) && final(ledger)@ == old(ledger)@,
        },
{
    let (i, profile) = match load_profile(ledger, profile_address) {
        Ok(v) => v,
        Err(e) => {
            return Err(e);
        },
    };
    if caller != profile.authority {
        return Err(TxError::App(AppError::InvalidAccountOwner));
    }
    let ghost start = ledger@;
    let mut total: u128 = 0;
    let n = candidates.len();
    let mut k: usize = 0;
    while k < n
        invariant
            old(ledger).wf(),
            ledger.wf(),
            k <= n,
            n == candidates@.len(),
            spec_sweep(start, *profile_address, candidates@.take(k as int)).0 == ledger@,
            spec_sweep(start, *profile_address, candidates@.take(k as int)).1 == total as int,
            total as int <= (k as int) * (u64::MAX as int),
            lookup(ledger@, *profile_address) == lookup(start, *profile_address),
        decreases n - k,
    {
        let c = candidates[k];
        let ghost cur = ledger@;
        if c != *profile_address {
            match ledger.find_index(&c) {
                Some(j) => {
                    let claimed = ledger.entry_at(j).program_owned && is_comment_for_profile(
                        ledger.entry_at(j).data.as_slice(),
                        profile_address,
                    );
                    if claimed {
                        proof {
                            assert(n as int <= u64::MAX as int);
                            assert((total as int) + (cur[j as int].lamports as int) <= (
                            k as int) * (u64::MAX as int) + (u64::MAX as int));
                        }
                        let removed = ledger.remove_entry(j);
                        total = total + removed.lamports as u128;
                        proof {
                            lemma_remove_addr_is_remove(cur, c);
                            let w = choose|w: int|
                                0 <= w < cur.len() && (#[trigger] cur[w]).address == c
                                    && remove_addr(cur, c) == cur.remove(w);
                            assert(w == j as int);
                            assert(ledger@ == remove_addr(cur, c));
                            lemma_remove_addr_properties(cur, c);
                        }
                    }
                },
                None => {},
            }
        }
        proof {
            lemma_sweep_snoc(start, *profile_address, candidates@.take(k as int), c);
            assert(candidates@.take(k as int).push(c) =~= candidates@.take(k as int + 1));
        }
        k = k + 1;
    }
    proof {
        assert(candidates@.take(n as int) =~= candidates@);
    }
    let ghost swept = ledger@;
    match ledger.find_index(profile_address) {
        Some(j2) => {
            proof {
                assert(n as int <= u64::MAX as int);
            }
            let removed = ledger.remove_entry(j2);
            total = total + removed.lamports as u128;
            proof {
                lemma_remove_addr_is_remove(swept, *profile_address);
                let w = choose|w: int|
                    0 <= w < swept.len() && (#[trigger] swept[w]).address == *profile_address
                        && remove_addr(swept, *profile_address) == swept.remove(w);
                assert(w == j2 as int);
                assert(ledger@ == remove_addr(swept, *profile_address));
                lemma_remove_addr_properties(swept, *profile_address);
            }
            Ok(total)
        },
        None => {
            proof {
                assert(false);
            }
            Err(TxError::AccountNotFound)
        },
    }
}

} // verus!
