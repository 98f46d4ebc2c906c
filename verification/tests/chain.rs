use jito_miner::chain::{
    bribe_ix_to, build_bribe_ix, AccountMeta, Instruction, COMPUTE_BUDGET_PROGRAM, JITO_RECIPIENTS,
    SYSTEM_PROGRAM,
};
use solana_sdk::pubkey::Pubkey;
use std::str::FromStr;

const ADDRESSES: [&str; 8] = [
    "96gYZGLnJYVFmbjzopPSU6QiEV5fGqZNyN9nmNhvrZU5",
    "HFqU5x63VTqvQss8hp11i4wVV8bD44PvwucfZ2bU7gRe",
    "Cw8CFyM9FkoMi7K7Crf6HNQqf4uEMzpKw6QNghXLvLkY",
    "ADaUMid9yfUytqMBgopwjb2DTLSokTSzL1zt6iGPaS49",
    "DfXygSm4jCyNCybVYYK6DwvWqjKee8pbDmJGcLWNDXjh",
    "ADuUkR4vqLUMWXxW9gh6D6L8pMSawimctcNZ5pGwDcEt",
    "DttWaMuVvTiduZRnguLF7jNxTgiMBZ1hyAumKUiL2KRL",
    "3AVi9Tg9Uo68tJfuvoKvqKNWKkC5wPdSSdeBnizKZ6jT",
];

#[test]
fn recipients_are_the_published_addresses() {
    for i in 0..8 {
        let published = Pubkey::from_str(ADDRESSES[i]).unwrap();
        assert_eq!(published.to_bytes(), JITO_RECIPIENTS[i]);
    }
}

#[test]
fn program_addresses_are_solanas() {
    assert_eq!(solana_sdk::system_program::id().to_bytes(), SYSTEM_PROGRAM);
    assert_eq!(solana_sdk::compute_budget::id().to_bytes(), COMPUTE_BUDGET_PROGRAM);
}

#[test]
fn bribe_moves_the_amount_to_the_chosen_recipient() {
    let payer = [9u8; 32];
    let ix = bribe_ix_to(&payer, 0x0102030405060708, 2);
    let expected = Instruction {
        program_id: [0; 32],
        accounts: vec![
            AccountMeta { pubkey: payer, is_signer: true, is_writable: true },
            AccountMeta { pubkey: JITO_RECIPIENTS[2], is_signer: false, is_writable: true },
        ],
        data: vec![2, 0, 0, 0, 8, 7, 6, 5, 4, 3, 2, 1],
    };
    assert_eq!(ix, expected);
}

#[test]
fn bribes_with_different_amounts_differ() {
    let payer = [1u8; 32];
    assert_ne!(bribe_ix_to(&payer, 1, 0), bribe_ix_to(&payer, 2, 0));
    assert_ne!(bribe_ix_to(&payer, 1, 0), bribe_ix_to(&payer, 1, 1));
    assert_eq!(bribe_ix_to(&payer, 1, 0), bribe_ix_to(&payer, 1, 0));
}

#[test]
fn random_bribe_pays_one_of_the_recipients() {
    let payer = [5u8; 32];
    let mut drawn: Vec<usize> = vec![];
    for _ in 0..400 {
        let ix = build_bribe_ix(&payer, 77);
        let choice = (0..8).find(|c| bribe_ix_to(&payer, 77, *c) == ix).unwrap();
        if !drawn.contains(&choice) {
            drawn.push(choice);
        }
    }
    assert!(drawn.len() > 1);
}

#[test]
fn duplicate_says_the_same() {
    let ix = bribe_ix_to(&[3u8; 32], 12, 7);
    assert_eq!(ix.duplicate(), ix);
}
