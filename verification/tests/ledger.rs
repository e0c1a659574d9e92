use tipping::address::derive_contribution_address;
use tipping::address::derive_profile_address;
use tipping::address::Address;
use tipping::address::Identity;
use tipping::errors::AppError;
use tipping::errors::TxError;
use tipping::store::Ledger;
use tipping::transitions::cashout;
use tipping::transitions::close_profile;
use tipping::transitions::create_profile;
use tipping::transitions::give_tip;
use tipping::transitions::read_profile;
use tipping::transitions::read_tip_log;

fn id(n: u64) -> Identity {
    Identity { limb0: n, limb1: 0, limb2: 0, limb3: 0 }
}

const MIN_TIP: u64 = 100_000_000;
const RENT: u64 = 2_000_000;

fn fresh_profile(ledger: &mut Ledger, owner: Identity, slot: u8, name: &[u8]) -> Address {
    create_profile(ledger, owner, slot, name.to_vec(), 1_700_000_000, RENT).unwrap()
}

#[test]
fn create_profile_succeeds_once_per_owner_and_slot() {
    let mut ledger = Ledger::new();
    let owner = id(7);
    let addr = create_profile(&mut ledger, owner, 0, b"A".to_vec(), 5, RENT).unwrap();
    assert_eq!(addr, derive_profile_address(owner, 0));
    let again = create_profile(&mut ledger, owner, 0, b"B".to_vec(), 6, RENT);
    assert_eq!(again, Err(TxError::AddressCollision));
    // Other slots and other owners are unaffected.
    assert!(create_profile(&mut ledger, owner, 1, b"A".to_vec(), 5, RENT).is_ok());
    assert!(create_profile(&mut ledger, owner, 2, b"A".to_vec(), 5, RENT).is_ok());
    assert!(create_profile(&mut ledger, id(8), 0, b"A".to_vec(), 5, RENT).is_ok());
}

#[test]
fn create_profile_rejects_invalid_slot() {
    let mut ledger = Ledger::new();
    let r = create_profile(&mut ledger, id(1), 3, b"A".to_vec(), 5, RENT);
    assert_eq!(r, Err(TxError::App(AppError::InvalidSlot)));
    let r = create_profile(&mut ledger, id(1), 254, b"A".to_vec(), 5, RENT);
    assert_eq!(r, Err(TxError::App(AppError::InvalidSlot)));
    assert_eq!(ledger.len(), 0);
}

#[test]
fn create_profile_rejects_long_name() {
    let mut ledger = Ledger::new();
    let name = vec![b'x'; 33];
    let r = create_profile(&mut ledger, id(1), 0, name, 5, RENT);
    assert_eq!(r, Err(TxError::App(AppError::NameTooLong)));
    // Exactly 32 bytes is fine.
    let name = vec![b'x'; 32];
    assert!(create_profile(&mut ledger, id(1), 0, name, 5, RENT).is_ok());
}

#[test]
fn create_profile_starts_empty() {
    let mut ledger = Ledger::new();
    let owner = id(9);
    let addr = fresh_profile(&mut ledger, owner, 2, b"fresh");
    let p = read_profile(&ledger, &addr).unwrap();
    assert_eq!(p.tip_count, 0);
    assert_eq!(p.authority, owner);
    assert_eq!(p.balance, 0);
    assert_eq!(p.slot, 2);
    assert_eq!(p.name, b"fresh".to_vec());
    assert_eq!(p.next_comment_id, 0);
    assert_eq!(p.created_at, 1_700_000_000);
}

#[test]
fn give_tip_updates_profile_and_appends_contribution() {
    let mut ledger = Ledger::new();
    let owner = id(1);
    let sender = id(2);
    let addr = fresh_profile(&mut ledger, owner, 0, b"A");
    let tip_addr = give_tip(&mut ledger, &addr, sender, MIN_TIP, b"hi".to_vec(), 77, RENT)
        .unwrap();
    assert_eq!(tip_addr, derive_contribution_address(&addr, 0));
    let p = read_profile(&ledger, &addr).unwrap();
    assert_eq!(p.balance, MIN_TIP);
    assert_eq!(p.tip_count, 1);
    assert_eq!(p.next_comment_id, 1);
    let t = read_tip_log(&ledger, &tip_addr).unwrap();
    assert_eq!(t.profile, addr);
    assert_eq!(t.sender, sender);
    assert_eq!(t.lamports, MIN_TIP);
    assert_eq!(t.recorded_at, 77);
    assert_eq!(t.message, b"hi".to_vec());
}

#[test]
fn give_tip_below_minimum_fails_and_changes_nothing() {
    let mut ledger = Ledger::new();
    let owner = id(1);
    let addr = fresh_profile(&mut ledger, owner, 0, b"A");
    let before = read_profile(&ledger, &addr).unwrap();
    let r = give_tip(&mut ledger, &addr, id(2), 99_999_999, b"hi".to_vec(), 77, RENT);
    assert_eq!(r, Err(TxError::App(AppError::InsufficientAmount)));
    let after = read_profile(&ledger, &addr).unwrap();
    assert_eq!(after.balance, before.balance);
    assert_eq!(after.tip_count, before.tip_count);
    assert_eq!(after.next_comment_id, before.next_comment_id);
    assert_eq!(ledger.len(), 1);
}

#[test]
fn give_tip_by_owner_fails_regardless_of_amount() {
    let mut ledger = Ledger::new();
    let owner = id(1);
    let addr = fresh_profile(&mut ledger, owner, 0, b"A");
    let r = give_tip(&mut ledger, &addr, owner, MIN_TIP * 10, b"hi".to_vec(), 77, RENT);
    assert_eq!(r, Err(TxError::App(AppError::SelfTippingForbidden)));
    let r = give_tip(&mut ledger, &addr, owner, 1, b"hi".to_vec(), 77, RENT);
    assert_eq!(r, Err(TxError::App(AppError::SelfTippingForbidden)));
}

#[test]
fn give_tip_rejects_long_message() {
    let mut ledger = Ledger::new();
    let addr = fresh_profile(&mut ledger, id(1), 0, b"A");
    let msg = vec![b'm'; 201];
    let r = give_tip(&mut ledger, &addr, id(2), MIN_TIP, msg, 77, RENT);
    assert_eq!(r, Err(TxError::App(AppError::MessageTooLong)));
    let msg = vec![b'm'; 200];
    assert!(give_tip(&mut ledger, &addr, id(2), MIN_TIP, msg, 77, RENT).is_ok());
}

#[test]
fn give_tip_to_missing_or_malformed_target_fails() {
    let mut ledger = Ledger::new();
    let owner = id(1);
    let nowhere = derive_profile_address(owner, 1);
    let r = give_tip(&mut ledger, &nowhere, id(2), MIN_TIP, b"hi".to_vec(), 7, RENT);
    assert_eq!(r, Err(TxError::AccountNotFound));
    // A contribution record is not a profile.
    let addr = fresh_profile(&mut ledger, owner, 0, b"A");
    let tip_addr = give_tip(&mut ledger, &addr, id(2), MIN_TIP, b"hi".to_vec(), 7, RENT).unwrap();
    let r = give_tip(&mut ledger, &tip_addr, id(2), MIN_TIP, b"hi".to_vec(), 7, RENT);
    assert_eq!(r, Err(TxError::MalformedRecord));
    // An account outside the ledger's namespace is not a profile either.
    let foreign = derive_profile_address(id(50), 0);
    ledger.register_foreign_account(foreign, 10, vec![1, 2, 3]).unwrap();
    let r = give_tip(&mut ledger, &foreign, id(2), MIN_TIP, b"hi".to_vec(), 7, RENT);
    assert_eq!(r, Err(TxError::MalformedRecord));
}

#[test]
fn give_tip_overflow_leaves_profile_unchanged() {
    let mut ledger = Ledger::new();
    let owner = id(1);
    let addr = create_profile(&mut ledger, owner, 0, b"A".to_vec(), 5, 0).unwrap();
    // Push the balance to u64::MAX - 1 with a single huge tip.
    let huge = u64::MAX - 1;
    give_tip(&mut ledger, &addr, id(2), huge, b"big".to_vec(), 7, 0).unwrap();
    let before = read_profile(&ledger, &addr).unwrap();
    assert_eq!(before.balance, u64::MAX - 1);
    let r = give_tip(&mut ledger, &addr, id(2), MIN_TIP, b"more".to_vec(), 8, 0);
    assert_eq!(r, Err(TxError::App(AppError::MathOverflow)));
    let after = read_profile(&ledger, &addr).unwrap();
    assert_eq!(after.balance, u64::MAX - 1);
    assert_eq!(after.tip_count, before.tip_count);
    assert_eq!(after.next_comment_id, before.next_comment_id);
}

#[test]
fn repeated_tips_never_share_an_address() {
    let mut ledger = Ledger::new();
    let addr = fresh_profile(&mut ledger, id(1), 0, b"A");
    let a0 = give_tip(&mut ledger, &addr, id(2), MIN_TIP, b"one".to_vec(), 1, RENT).unwrap();
    let a1 = give_tip(&mut ledger, &addr, id(3), MIN_TIP, b"two".to_vec(), 2, RENT).unwrap();
    let a2 = give_tip(&mut ledger, &addr, id(2), MIN_TIP, b"three".to_vec(), 3, RENT).unwrap();
    assert_ne!(a0, a1);
    assert_ne!(a0, a2);
    assert_ne!(a1, a2);
    assert_eq!(a0, derive_contribution_address(&addr, 0));
    assert_eq!(a1, derive_contribution_address(&addr, 1));
    assert_eq!(a2, derive_contribution_address(&addr, 2));
}

#[test]
fn cashout_requires_the_owner() {
    let mut ledger = Ledger::new();
    let owner = id(1);
    let addr = fresh_profile(&mut ledger, owner, 0, b"A");
    give_tip(&mut ledger, &addr, id(2), MIN_TIP, b"hi".to_vec(), 1, RENT).unwrap();
    let r = cashout(&mut ledger, &addr, id(2), 1);
    assert_eq!(r, Err(TxError::App(AppError::InvalidAccountOwner)));
    assert!(cashout(&mut ledger, &addr, owner, 1).is_ok());
}

#[test]
fn cashout_boundaries() {
    let mut ledger = Ledger::new();
    let owner = id(1);
    let addr = fresh_profile(&mut ledger, owner, 0, b"A");
    give_tip(&mut ledger, &addr, id(2), MIN_TIP, b"hi".to_vec(), 1, RENT).unwrap();
    // More than the balance fails and changes nothing.
    let r = cashout(&mut ledger, &addr, owner, MIN_TIP + 1);
    assert_eq!(r, Err(TxError::App(AppError::BalanceTooLow)));
    assert_eq!(read_profile(&ledger, &addr).unwrap().balance, MIN_TIP);
    // Exactly the balance succeeds and leaves zero.
    cashout(&mut ledger, &addr, owner, MIN_TIP).unwrap();
    assert_eq!(read_profile(&ledger, &addr).unwrap().balance, 0);
}

#[test]
fn tip_tip_cashout_scenario() {
    let mut ledger = Ledger::new();
    let owner = id(1);
    let addr = create_profile(&mut ledger, owner, 0, b"A".to_vec(), 10, RENT).unwrap();
    give_tip(&mut ledger, &addr, id(2), 100_000_000, b"hi".to_vec(), 11, RENT).unwrap();
    give_tip(&mut ledger, &addr, id(3), 200_000_000, b"hi2".to_vec(), 12, RENT).unwrap();
    cashout(&mut ledger, &addr, owner, 250_000_000).unwrap();
    let p = read_profile(&ledger, &addr).unwrap();
    assert_eq!(p.balance, 50_000_000);
    assert_eq!(p.tip_count, 2);
    assert_eq!(p.next_comment_id, 2);
}

#[test]
fn close_profile_requires_the_owner() {
    let mut ledger = Ledger::new();
    let owner = id(1);
    let addr = fresh_profile(&mut ledger, owner, 0, b"A");
    let r = close_profile(&mut ledger, &addr, id(2), &Vec::new());
    assert_eq!(r, Err(TxError::App(AppError::InvalidAccountOwner)));
    assert!(read_profile(&ledger, &addr).is_some());
}

#[test]
fn close_profile_sweeps_all_supplied_contributions() {
    let mut ledger = Ledger::new();
    let owner = id(1);
    let addr = fresh_profile(&mut ledger, owner, 0, b"A");
    let mut tips = Vec::new();
    for k in 0..3u64 {
        let ta = give_tip(&mut ledger, &addr, id(2 + k), MIN_TIP, b"hi".to_vec(), 5, RENT)
            .unwrap();
        tips.push(ta);
    }
    let total = close_profile(&mut ledger, &addr, owner, &tips).unwrap();
    // Three tip records at RENT each, plus the profile account holding its
    // own rent and the three transferred tips.
    let expect = 3u128 * RENT as u128 + (RENT as u128 + 3u128 * MIN_TIP as u128);
    assert_eq!(total, expect);
    assert_eq!(ledger.len(), 0);
    assert!(read_profile(&ledger, &addr).is_none());
    for ta in &tips {
        assert!(read_tip_log(&ledger, ta).is_none());
    }
}

#[test]
fn close_profile_with_subset_orphans_the_rest() {
    let mut ledger = Ledger::new();
    let owner = id(1);
    let addr = fresh_profile(&mut ledger, owner, 0, b"A");
    let t0 = give_tip(&mut ledger, &addr, id(2), MIN_TIP, b"a".to_vec(), 5, RENT).unwrap();
    let t1 = give_tip(&mut ledger, &addr, id(3), MIN_TIP, b"b".to_vec(), 6, RENT).unwrap();
    let cands = vec![t0];
    close_profile(&mut ledger, &addr, owner, &cands).unwrap();
    assert!(read_profile(&ledger, &addr).is_none());
    assert!(read_tip_log(&ledger, &t0).is_none());
    // The unsupplied contribution is orphaned but unaffected.
    let orphan = read_tip_log(&ledger, &t1).unwrap();
    assert_eq!(orphan.message, b"b".to_vec());
    assert_eq!(ledger.len(), 1);
}

#[test]
fn close_profile_skips_what_is_not_its_contribution() {
    let mut ledger = Ledger::new();
    let owner = id(1);
    let addr = fresh_profile(&mut ledger, owner, 0, b"mine");
    let t0 = give_tip(&mut ledger, &addr, id(2), MIN_TIP, b"a".to_vec(), 5, RENT).unwrap();
    // Another profile with its own contribution.
    let other_addr = fresh_profile(&mut ledger, id(9), 0, b"other");
    let other_tip = give_tip(&mut ledger, &other_addr, id(2), MIN_TIP, b"x".to_vec(), 6, RENT)
        .unwrap();
    // A foreign account outside the ledger's namespace.
    let foreign = derive_profile_address(id(50), 1);
    ledger.register_foreign_account(foreign, 123, vec![0; 8]).unwrap();
    // Candidates name everything, the profile's own address included, and a
    // duplicate and a missing address for good measure.
    let missing = derive_contribution_address(&addr, 99);
    let cands = vec![addr, t0, t0, other_addr, other_tip, foreign, missing];
    let total = close_profile(&mut ledger, &addr, owner, &cands).unwrap();
    assert_eq!(total, RENT as u128 + (RENT as u128 + MIN_TIP as u128));
    // Only this profile and its one contribution are gone.
    assert!(read_profile(&ledger, &addr).is_none());
    assert!(read_tip_log(&ledger, &t0).is_none());
    assert!(read_profile(&ledger, &other_addr).is_some());
    assert!(read_tip_log(&ledger, &other_tip).is_some());
    assert_eq!(ledger.len(), 3);
}

#[test]
fn closed_slot_can_be_recreated() {
    let mut ledger = Ledger::new();
    let owner = id(1);
    let addr = fresh_profile(&mut ledger, owner, 0, b"first");
    close_profile(&mut ledger, &addr, owner, &Vec::new()).unwrap();
    let again = create_profile(&mut ledger, owner, 0, b"second".to_vec(), 9, RENT).unwrap();
    assert_eq!(again, addr);
    assert_eq!(read_profile(&ledger, &again).unwrap().name, b"second".to_vec());
}

#[test]
fn tip_value_lands_on_the_profile_account() {
    let mut ledger = Ledger::new();
    let owner = id(1);
    let addr = fresh_profile(&mut ledger, owner, 0, b"A");
    assert_eq!(ledger.get(&addr).unwrap().lamports, RENT);
    give_tip(&mut ledger, &addr, id(2), MIN_TIP, b"hi".to_vec(), 1, RENT).unwrap();
    assert_eq!(ledger.get(&addr).unwrap().lamports, RENT + MIN_TIP);
    cashout(&mut ledger, &addr, owner, MIN_TIP / 2).unwrap();
    assert_eq!(ledger.get(&addr).unwrap().lamports, RENT + MIN_TIP / 2);
    // The contribution record carries its own storage rent.
    let tip_addr = derive_contribution_address(&addr, 0);
    assert_eq!(ledger.get(&tip_addr).unwrap().lamports, RENT);
}

#[test]
fn operations_on_a_missing_profile_fail() {
    let mut ledger = Ledger::new();
    let nowhere = derive_profile_address(id(3), 0);
    assert_eq!(cashout(&mut ledger, &nowhere, id(3), 1), Err(TxError::AccountNotFound));
    assert_eq!(
        close_profile(&mut ledger, &nowhere, id(3), &Vec::new()),
        Err(TxError::AccountNotFound)
    );
}

#[test]
fn foreign_account_registration_is_collision_checked() {
    let mut ledger = Ledger::new();
    let addr = derive_profile_address(id(4), 0);
    ledger.register_foreign_account(addr, 1, Vec::new()).unwrap();
    let r = ledger.register_foreign_account(addr, 2, Vec::new());
    assert_eq!(r, Err(TxError::AddressCollision));
    assert_eq!(ledger.len(), 1);
}

#[test]
fn foreign_account_blocks_creation_at_its_address() {
    let mut ledger = Ledger::new();
    let owner = id(1);
    let addr = derive_profile_address(owner, 0);
    ledger.register_foreign_account(addr, 5, Vec::new()).unwrap();
    let r = create_profile(&mut ledger, owner, 0, b"A".to_vec(), 5, RENT);
    assert_eq!(r, Err(TxError::AddressCollision));
}
