use jito_miner::chain::{bribe_ix_to, AccountMeta, Instruction};
use jito_miner::transaction::{message_fits, same_key, signed_transaction, Keypair, SigningError};
use solana_sdk::message::Message;
use solana_sdk::pubkey::Pubkey;
use solana_sdk::signer::Signer;

fn keypair() -> Keypair {
    let pair = solana_sdk::signature::keypair_from_seed(&[7u8; 32]).unwrap();
    let bytes = pair.to_bytes();
    let mut secret = [0u8; 32];
    secret.copy_from_slice(&bytes[..32]);
    Keypair { secret, pubkey: pair.pubkey().to_bytes() }
}

fn key(n: usize) -> [u8; 32] {
    let mut bytes = [200u8; 32];
    bytes[0] = (n % 256) as u8;
    bytes[1] = (n / 256) as u8;
    bytes
}

fn account(n: usize, is_signer: bool, is_writable: bool) -> AccountMeta {
    AccountMeta { pubkey: key(n), is_signer, is_writable }
}

fn call(accounts: Vec<AccountMeta>, data: Vec<u8>) -> Instruction {
    Instruction { program_id: key(60_000), accounts, data }
}

#[test]
fn signs_what_solana_signs() {
    let payer = keypair();
    let ixs = vec![bribe_ix_to(&payer.pubkey, 5000, 1), bribe_ix_to(&payer.pubkey, 7, 4)];
    let blockhash = [3u8; 32];
    let tx = signed_transaction(&ixs, &payer, &blockhash).unwrap();

    let from = Pubkey::from(payer.pubkey);
    let solana_ixs = vec![
        solana_sdk::system_instruction::transfer(
            &from,
            &Pubkey::from(jito_miner::chain::JITO_RECIPIENTS[1]),
            5000,
        ),
        solana_sdk::system_instruction::transfer(
            &from,
            &Pubkey::from(jito_miner::chain::JITO_RECIPIENTS[4]),
            7,
        ),
    ];
    let message = Message::new_with_blockhash(&solana_ixs, Some(&from), &solana_sdk::hash::Hash::from(blockhash));
    assert_eq!(tx.message, message.serialize());
    assert_eq!(tx.signatures.len(), 1);
    let signature = solana_sdk::signature::Signature::from(tx.signatures[0]);
    assert!(signature.verify(&payer.pubkey, &tx.message));
    let sdk = solana_sdk::transaction::Transaction { signatures: vec![signature], message };
    assert!(sdk.verify().is_ok());
}

#[test]
fn another_blockhash_gives_another_signature() {
    let payer = keypair();
    let ixs = vec![bribe_ix_to(&payer.pubkey, 5000, 1)];
    let a = signed_transaction(&ixs, &payer, &[1u8; 32]).unwrap();
    let b = signed_transaction(&ixs, &payer, &[2u8; 32]).unwrap();
    assert_ne!(a.message, b.message);
    assert_ne!(a.signatures, b.signatures);
}

#[test]
fn a_foreign_signer_is_missing() {
    let payer = keypair();
    let ixs = vec![call(vec![account(1, true, false)], vec![])];
    assert_eq!(
        signed_transaction(&ixs, &payer, &[0u8; 32]).err(),
        Some(SigningError::NotEnoughSigners)
    );
}

#[test]
fn a_keypair_has_to_match() {
    let mut payer = keypair();
    payer.pubkey[0] ^= 1;
    let ixs = vec![call(vec![], vec![1])];
    assert_eq!(
        signed_transaction(&ixs, &payer, &[0u8; 32]).err(),
        Some(SigningError::InvalidKeypair)
    );
}

#[test]
fn too_many_signers_do_not_fit() {
    let payer = keypair();
    let mut accounts: Vec<AccountMeta> = (0..254).map(|n| account(n, true, true)).collect();
    assert!(message_fits(&vec![call(accounts.clone(), vec![])], &payer.pubkey));
    accounts.push(account(254, true, false));
    let ixs = vec![call(accounts, vec![])];
    assert!(!message_fits(&ixs, &payer.pubkey));
    assert_eq!(
        signed_transaction(&ixs, &payer, &[0u8; 32]).err(),
        Some(SigningError::MessageTooLarge)
    );
}

#[test]
fn too_many_read_only_accounts_do_not_fit() {
    let payer = keypair();
    let mut accounts: Vec<AccountMeta> = (0..254).map(|n| account(n, false, false)).collect();
    let ixs = vec![call(accounts.clone(), vec![])];
    assert!(message_fits(&ixs, &payer.pubkey));
    assert!(signed_transaction(&ixs, &payer, &[0u8; 32]).is_ok());
    accounts.push(account(254, false, false));
    assert!(!message_fits(&vec![call(accounts.clone(), vec![])], &payer.pubkey));
    accounts.push(account(254, false, true));
    assert!(message_fits(&vec![call(accounts, vec![])], &payer.pubkey));
}

#[test]
fn an_account_counts_once() {
    let payer = keypair();
    let accounts: Vec<AccountMeta> = (0..300).map(|_| account(1, false, false)).collect();
    let ixs = vec![call(accounts, vec![])];
    assert!(message_fits(&ixs, &payer.pubkey));
    assert!(signed_transaction(&ixs, &payer, &[0u8; 32]).is_ok());
}

#[test]
fn long_data_does_not_fit() {
    let payer = keypair();
    assert!(message_fits(&vec![call(vec![], vec![0; 65535])], &payer.pubkey));
    assert!(!message_fits(&vec![call(vec![], vec![0; 65536])], &payer.pubkey));
}

#[test]
fn same_key_compares_every_byte() {
    assert!(same_key(&[4; 32], &[4; 32]));
    for i in 0..32 {
        let mut other = [4u8; 32];
        other[i] = 5;
        assert!(!same_key(&[4; 32], &other));
    }
}
