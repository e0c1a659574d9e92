use tipping::address::derive_contribution_address;
use tipping::address::derive_profile_address;
use tipping::address::slot_seed;
use tipping::address::tip_index_seed;
use tipping::address::Identity;
use tipping::codec::decode_profile;
use tipping::codec::decode_tip_log;
use tipping::codec::encode_address;
use tipping::codec::encode_profile;
use tipping::codec::encode_tip_log;
use tipping::codec::is_comment_for_profile;
use tipping::constants::ADDRESS_LEN;
use tipping::constants::PROFILE_ACCOUNT_SPACE;
use tipping::constants::TIP_LOG_SPACE;
use tipping::errors::AppError;
use tipping::math::meets_minimum_tip;
use tipping::records::ProfileAccount;
use tipping::records::TipLog;

fn id(n: u64) -> Identity {
    Identity { limb0: n, limb1: n + 1, limb2: n + 2, limb3: n + 3 }
}

fn sample_profile() -> ProfileAccount {
    ProfileAccount {
        tip_count: 4,
        authority: id(11),
        balance: 900_000_000,
        slot: 2,
        name: b"a display name".to_vec(),
        next_comment_id: 5,
        created_at: -12345,
    }
}

fn sample_tip() -> TipLog {
    TipLog {
        profile: derive_profile_address(id(11), 2),
        sender: id(40),
        lamports: 250_000_000,
        recorded_at: 1_700_000_001,
        message: b"thanks for everything".to_vec(),
    }
}

#[test]
fn profile_record_layout_is_fixed() {
    assert_eq!(PROFILE_ACCOUNT_SPACE, 109);
    let bytes = encode_profile(&sample_profile());
    assert_eq!(bytes.len(), PROFILE_ACCOUNT_SPACE);
}

#[test]
fn tip_record_layout_is_fixed() {
    assert_eq!(TIP_LOG_SPACE, 302);
    let bytes = encode_tip_log(&sample_tip());
    assert_eq!(bytes.len(), TIP_LOG_SPACE);
}

#[test]
fn profile_codec_round_trip() {
    let p = sample_profile();
    let bytes = encode_profile(&p);
    let q = decode_profile(bytes.as_slice()).unwrap();
    assert_eq!(q.tip_count, p.tip_count);
    assert_eq!(q.authority, p.authority);
    assert_eq!(q.balance, p.balance);
    assert_eq!(q.slot, p.slot);
    assert_eq!(q.name, p.name);
    assert_eq!(q.next_comment_id, p.next_comment_id);
    assert_eq!(q.created_at, p.created_at);
}

#[test]
fn tip_codec_round_trip() {
    let t = sample_tip();
    let bytes = encode_tip_log(&t);
    let u = decode_tip_log(bytes.as_slice()).unwrap();
    assert_eq!(u.profile, t.profile);
    assert_eq!(u.sender, t.sender);
    assert_eq!(u.lamports, t.lamports);
    assert_eq!(u.recorded_at, t.recorded_at);
    assert_eq!(u.message, t.message);
}

#[test]
fn decoders_reject_wrong_bytes() {
    assert!(decode_profile(&[]).is_none());
    assert!(decode_tip_log(&[]).is_none());
    assert!(decode_profile(&[0u8; 109]).is_none());
    assert!(decode_tip_log(&[0u8; 302]).is_none());
    // Records of one kind never decode as the other.
    let p = encode_profile(&sample_profile());
    assert!(decode_tip_log(p.as_slice()).is_none());
    let t = encode_tip_log(&sample_tip());
    assert!(decode_profile(t.as_slice()).is_none());
    // A flipped header byte spoils a record.
    let mut bad = encode_profile(&sample_profile());
    bad[0] ^= 0xff;
    assert!(decode_profile(bad.as_slice()).is_none());
}

#[test]
fn comment_check_matches_the_target_profile_only() {
    let t = sample_tip();
    let bytes = encode_tip_log(&t);
    assert!(is_comment_for_profile(bytes.as_slice(), &t.profile));
    let other = derive_profile_address(id(99), 0);
    assert!(!is_comment_for_profile(bytes.as_slice(), &other));
    assert!(!is_comment_for_profile(&[1, 2, 3], &t.profile));
}

#[test]
fn address_encoding_is_deterministic_and_distinct() {
    let p = derive_profile_address(id(1), 0);
    let c = derive_contribution_address(&p, 0);
    let pb = encode_address(&p);
    let cb = encode_address(&c);
    assert_eq!(pb.len(), ADDRESS_LEN);
    assert_eq!(cb.len(), ADDRESS_LEN);
    assert_ne!(pb, cb);
    assert_eq!(pb, encode_address(&derive_profile_address(id(1), 0)));
}

#[test]
fn seed_helpers_produce_the_raw_seeds() {
    assert_eq!(slot_seed(7), vec![7u8]);
    assert_eq!(tip_index_seed(1), vec![1, 0, 0, 0, 0, 0, 0, 0]);
    assert_eq!(tip_index_seed(0x0102030405060708), vec![8, 7, 6, 5, 4, 3, 2, 1]);
}

#[test]
fn minimum_tip_boundary() {
    assert!(!meets_minimum_tip(0));
    assert!(!meets_minimum_tip(99_999_999));
    assert!(meets_minimum_tip(100_000_000));
    assert!(meets_minimum_tip(u64::MAX));
}

#[test]
fn error_messages_name_each_failure() {
    assert_eq!(
        AppError::InsufficientAmount.message(),
        "tip amount did not meet the minimum threshold"
    );
    assert_eq!(AppError::MathOverflow.message(), "mathematical overflow detected");
    assert_ne!(AppError::BalanceTooLow.message(), AppError::InvalidSlot.message());
}
