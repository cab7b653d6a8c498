use std::collections::HashSet;

use open_close_account::address;
use open_close_account::error::ErrorCode;
use open_close_account::pubkey::Pubkey;

fn key(a: u8, b: u8, c: u8) -> Pubkey {
    let mut bytes = [0u8; 32];
    bytes[0] = a;
    bytes[1] = b;
    bytes[2] = c;
    bytes[31] = 7;
    Pubkey::new(bytes)
}

fn program() -> Pubkey {
    Pubkey::new([9u8; 32])
}

fn host(key: &Pubkey) -> anchor_lang::prelude::Pubkey {
    anchor_lang::prelude::Pubkey::new_from_array(key.to_bytes())
}

#[test]
fn derive_twice_gives_the_same_answer() {
    for n in 0..=255u8 {
        let owner = key(1, n, 0);
        for bump in [0u8, 1, 254, 255] {
            let first = address::derive(&owner, bump, &program());
            let second = address::derive(&owner, bump, &program());
            assert_eq!(first, second);
        }
    }
}

#[test]
fn derive_agrees_with_the_host() {
    let mut derived = 0;
    let mut refused = 0;
    for n in 0..=255u8 {
        let owner = key(2, n, 0);
        for bump in [0u8, 3, 255] {
            let bump_seed = [bump];
            let owner_bytes = owner.to_bytes();
            let seeds: [&[u8]; 2] = [&owner_bytes, &bump_seed];
            let expected =
                anchor_lang::prelude::Pubkey::create_program_address(&seeds, &host(&program()));
            match address::derive(&owner, bump, &program()) {
                Ok(found) => {
                    assert_eq!(Ok(found.to_bytes()), expected.map(|k| k.to_bytes()));
                    derived += 1;
                }
                Err(e) => {
                    assert_eq!(e, ErrorCode::DerivationCollision);
                    assert!(expected.is_err());
                    refused += 1;
                }
            }
        }
    }
    assert!(derived > 0);
    assert!(refused > 0);
}

#[test]
fn derive_accepts_the_nonce_that_the_host_finds() {
    for n in 0..64u8 {
        let owner = key(3, n, 0);
        let owner_bytes = owner.to_bytes();
        let seeds: [&[u8]; 1] = [&owner_bytes];
        let (expected, bump) =
            anchor_lang::prelude::Pubkey::find_program_address(&seeds, &host(&program()));
        let found = address::derive(&owner, bump, &program());
        assert_eq!(found, Ok(Pubkey::new(expected.to_bytes())));
        for higher in bump.saturating_add(1)..=255u8 {
            if higher == bump {
                continue;
            }
            assert_eq!(
                address::derive(&owner, higher, &program()),
                Err(ErrorCode::DerivationCollision)
            );
        }
    }
}

#[test]
fn derived_address_is_off_the_curve_and_is_not_the_owner() {
    let mut seen = 0;
    for n in 0..=255u8 {
        let owner = key(4, n, 0);
        if let Ok(found) = address::derive(&owner, 0, &program()) {
            assert_ne!(found, owner);
            assert_ne!(found, program());
            assert!(!address::is_on_curve(&found));
            assert!(!host(&found).is_on_curve());
            seen += 1;
        }
    }
    assert!(seen > 0);
}

#[test]
fn derivation_depends_on_nonce_and_program() {
    let owner = key(5, 0, 0);
    let other_program = Pubkey::new([10u8; 32]);
    let mut by_nonce = HashSet::new();
    let mut count = 0;
    for bump in 0..=255u8 {
        if let Ok(found) = address::derive(&owner, bump, &program()) {
            by_nonce.insert(found.to_bytes());
            count += 1;
            if let Ok(elsewhere) = address::derive(&owner, bump, &other_program) {
                assert_ne!(found, elsewhere);
            }
        }
    }
    assert!(count > 1);
    assert_eq!(by_nonce.len(), count);
}

#[test]
fn ten_thousand_owners_derive_distinct_addresses() {
    let mut found = HashSet::new();
    let mut derived = 0usize;
    let mut refused = 0usize;
    for n in 0..10_000u32 {
        let owner = key(6, (n % 256) as u8, (n / 256) as u8);
        match address::derive(&owner, 0, &program()) {
            Ok(a) => {
                assert!(found.insert(a.to_bytes()));
                derived += 1;
            }
            Err(e) => {
                assert_eq!(e, ErrorCode::DerivationCollision);
                refused += 1;
            }
        }
    }
    assert_eq!(derived + refused, 10_000);
    assert_eq!(found.len(), derived);
    assert!(derived > 1_000);
}

#[test]
fn keys_compare_by_their_bytes() {
    let a = key(7, 1, 2);
    let b = key(7, 1, 2);
    let mut other = a.to_bytes();
    other[31] = 8;
    assert_eq!(a, b);
    assert_ne!(a, Pubkey::new(other));
    assert_eq!(a.to_bytes()[0], 7);
    assert_eq!(Pubkey::new(a.to_bytes()), a);
}

#[test]
fn is_on_curve_agrees_with_the_host() {
    let mut on = 0;
    let mut off = 0;
    for n in 0..=255u8 {
        let candidate = key(8, n, 1);
        let found = address::is_on_curve(&candidate);
        assert_eq!(found, host(&candidate).is_on_curve());
        if found {
            on += 1;
        } else {
            off += 1;
        }
    }
    assert!(on > 0);
    assert!(off > 0);
}

#[test]
fn a_nonce_is_refused_exactly_where_the_digest_is_on_the_curve() {
    for n in 0..=255u8 {
        let owner = key(9, n, 0);
        let owner_bytes = owner.to_bytes();
        let digest = anchor_lang::solana_program::hash::hashv(&[
            &owner_bytes,
            &[0u8],
            &program().to_bytes(),
            b"ProgramDerivedAddress",
        ]);
        let candidate = Pubkey::new(digest.to_bytes());
        match address::derive(&owner, 0, &program()) {
            Ok(found) => {
                assert_eq!(found, candidate);
                assert!(!address::is_on_curve(&candidate));
            }
            Err(e) => {
                assert_eq!(e, ErrorCode::DerivationCollision);
                assert!(address::is_on_curve(&candidate));
            }
        }
    }
}
