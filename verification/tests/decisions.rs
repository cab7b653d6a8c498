use open_close_account::context::{AccountInfo, Close, Initialize};
use open_close_account::error::ErrorCode;
use open_close_account::pubkey::Pubkey;
use open_close_account::record::{
    OpenAccount, ACCOUNT_DISCRIMINATOR, CLOSED_ACCOUNT_DISCRIMINATOR,
};

fn key(n: u8) -> Pubkey {
    Pubkey::new([n; 32])
}

fn record(owner: Pubkey, lamports: u64) -> OpenAccount {
    OpenAccount {
        address: key(200),
        authority: owner,
        bump: 3,
        lamports,
        discriminator: ACCOUNT_DISCRIMINATOR,
    }
}

fn request(signed: bool, lamports: u64) -> Initialize {
    Initialize {
        authority: key(1),
        payer: AccountInfo { key: key(2), is_signer: signed },
        lamports,
    }
}

fn asking(who: Pubkey, signed: bool) -> Close {
    Close { account: key(200), authority: AccountInfo { key: who, is_signer: signed } }
}

#[test]
fn get_authority_is_the_owner_not_the_payer() {
    assert_eq!(request(true, 5).get_authority(), key(1));
    assert_ne!(request(true, 5).get_authority(), key(2));
}

#[test]
fn validate_passes_a_signed_request_with_funds_at_a_free_address() {
    assert_eq!(request(true, 100).validate(false, 100), Ok(()));
    assert_eq!(request(true, 100).validate(false, u64::MAX), Ok(()));
    assert_eq!(request(true, 0).validate(false, 0), Ok(()));
}

#[test]
fn validate_refuses_in_order() {
    assert_eq!(request(false, 100).validate(true, 0), Err(ErrorCode::Unauthenticated));
    assert_eq!(request(false, 100).validate(false, 100), Err(ErrorCode::Unauthenticated));
    assert_eq!(request(true, 100).validate(true, 0), Err(ErrorCode::AlreadyExists));
    assert_eq!(request(true, 100).validate(true, 100), Err(ErrorCode::AlreadyExists));
    assert_eq!(request(true, 100).validate(false, 99), Err(ErrorCode::InsufficientFunds));
    assert_eq!(request(true, u64::MAX).validate(false, u64::MAX - 1), Err(ErrorCode::InsufficientFunds));
}

#[test]
fn validate_authority_compares_the_owner_with_the_asking_key() {
    let stored = record(key(1), 10);
    assert!(asking(key(1), true).validate_authority(&stored));
    assert!(asking(key(1), false).validate_authority(&stored));
    assert!(!asking(key(2), true).validate_authority(&stored));
    let mut near = [1u8; 32];
    near[31] = 2;
    assert!(!asking(Pubkey::new(near), true).validate_authority(&stored));
}

#[test]
fn authorize_grants_the_owner_the_whole_balance() {
    assert_eq!(asking(key(1), true).authorize(Some(record(key(1), 1_000))), Ok(1_000));
    assert_eq!(asking(key(1), true).authorize(Some(record(key(1), 0))), Ok(0));
    assert_eq!(asking(key(1), true).authorize(Some(record(key(1), u64::MAX))), Ok(u64::MAX));
}

#[test]
fn authorize_refuses_in_order() {
    let mut closed = record(key(1), 0);
    closed.discriminator = CLOSED_ACCOUNT_DISCRIMINATOR;
    assert_eq!(asking(key(2), false).authorize(None), Err(ErrorCode::NotFound));
    assert_eq!(asking(key(1), true).authorize(None), Err(ErrorCode::NotFound));
    assert_eq!(asking(key(2), false).authorize(Some(closed)), Err(ErrorCode::AlreadyClosed));
    assert_eq!(asking(key(1), true).authorize(Some(closed)), Err(ErrorCode::AlreadyClosed));
    assert_eq!(
        asking(key(2), false).authorize(Some(record(key(1), 5))),
        Err(ErrorCode::Unauthenticated)
    );
    assert_eq!(
        asking(key(1), false).authorize(Some(record(key(1), 5))),
        Err(ErrorCode::Unauthenticated)
    );
    assert_eq!(
        asking(key(2), true).authorize(Some(record(key(1), 5))),
        Err(ErrorCode::Unauthorized)
    );
}

#[test]
fn records_compare_by_every_field() {
    let base = record(key(1), 5);
    assert_eq!(base, record(key(1), 5));
    assert_ne!(base, record(key(2), 5));
    assert_ne!(base, record(key(1), 6));
    let mut other = base;
    other.bump = 4;
    assert_ne!(base, other);
    let mut other = base;
    other.address = key(201);
    assert_ne!(base, other);
    let mut other = base;
    other.discriminator = CLOSED_ACCOUNT_DISCRIMINATOR;
    assert_ne!(base, other);
    assert!(base.is_open());
    assert!(other.is_closed());
    let mut neither = base;
    neither.discriminator = [0u8; 8];
    assert!(!neither.is_open());
    assert!(!neither.is_closed());
}
