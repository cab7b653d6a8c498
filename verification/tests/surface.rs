use open_close_account::{
    close, initialize, AccountInfo, Close, ErrorCode, Initialize, Ledger, OpenAccount, Pubkey,
};

#[test]
fn a_record_is_opened_and_closed_through_the_crate_root() {
    let program = Pubkey::new([42u8; 32]);
    let mut owner = Pubkey::new([0u8; 32]);
    let mut bump = 0u8;
    let mut opened: Option<OpenAccount> = None;
    let mut ledger = Ledger::new(program, true);
    'search: for n in 0..=255u8 {
        owner = Pubkey::new([n; 32]);
        assert!(ledger.deposit(&owner, 10));
        for nonce in 0..=255u8 {
            let request = Initialize {
                authority: owner,
                payer: AccountInfo { key: owner, is_signer: true },
                lamports: 10,
            };
            match initialize(&mut ledger, &request, nonce) {
                Ok(record) => {
                    bump = nonce;
                    opened = Some(record);
                    break 'search;
                }
                Err(e) => assert_eq!(e, ErrorCode::DerivationCollision),
            }
        }
    }
    let record = opened.unwrap();
    assert_eq!(record.bump, bump);
    assert_eq!(record.authority, owner);
    assert_eq!(ledger.balance(&owner), 0);
    let shut = Close { account: record.address, authority: AccountInfo { key: owner, is_signer: true } };
    assert_eq!(close(&mut ledger, &shut), Ok(()));
    assert_eq!(ledger.balance(&owner), 10);
}
