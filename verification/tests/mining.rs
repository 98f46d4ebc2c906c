use jito_miner::miner::Miner;
use jito_miner::mining::{
    proof_account, proof_of, Best, Mined, MiningError, Proof, Solution, Stopwatch, SubmissionError, CONTRACT_MIN_DIFFICULTY, INSTRUCTIONS_SYSVAR,
    ORE_CONFIG, ORE_FIRST_BUS, ORE_PROGRAM, PROOF_SIZE, PROOF_TAG, SLOT_HASHES_SYSVAR,
};
use jito_miner::transaction::{Keypair, SigningError};
use solana_sdk::compute_budget::ComputeBudgetInstruction;
use solana_sdk::message::Message;
use solana_sdk::signer::Signer;

fn hash(first: u8, second: u8, tag: u8) -> Option<jito_miner::mining::Hash> {
    let mut h = [255u8; 32];
    h[0] = first;
    h[1] = second;
    Some(jito_miner::mining::Hash { d: [tag; 16], h })
}

fn keypair(seed: u8) -> Keypair {
    let pair = solana_sdk::signature::keypair_from_seed(&[seed; 32]).unwrap();
    let bytes = pair.to_bytes();
    let mut secret = [0u8; 32];
    secret.copy_from_slice(&bytes[..32]);
    Keypair { secret, pubkey: pair.pubkey().to_bytes() }
}

#[test]
fn constants_are_those_of_ore() {
    assert_eq!(ORE_PROGRAM, ore_api::ID.to_bytes());
    assert_eq!(ORE_CONFIG, ore_api::consts::CONFIG_ADDRESS.to_bytes());
    assert_eq!(ORE_FIRST_BUS, ore_api::consts::BUS_ADDRESSES[0].to_bytes());
    assert_eq!(INSTRUCTIONS_SYSVAR, solana_sdk::sysvar::instructions::ID.to_bytes());
    assert_eq!(SLOT_HASHES_SYSVAR, solana_sdk::sysvar::slot_hashes::ID.to_bytes());
    assert_eq!(CONTRACT_MIN_DIFFICULTY, ore_api::consts::INITIAL_MIN_DIFFICULTY);
}

#[test]
fn nothing_found_is_a_blank_digest() {
    assert_eq!(Best::none(), Best { nonce: 0, difficulty: 0, digest: [0; 16] });
}

#[test]
fn a_strictly_better_result_wins() {
    let mut best = Best::none();
    best.observe(0, &hash(255, 255, 1));
    assert_eq!(best, Best::none());
    best.observe(1, &None);
    assert_eq!(best, Best::none());
    best.observe(2, &hash(1, 255, 2));
    assert_eq!(best, Best { nonce: 2, difficulty: 7, digest: [2; 16] });
    best.observe(3, &hash(1, 0, 3));
    assert_eq!(best.nonce, 2);
    best.observe(4, &hash(0, 255, 4));
    assert_eq!(best, Best { nonce: 4, difficulty: 8, digest: [4; 16] });
    best.observe(5, &hash(0, 0x10, 5));
    assert_eq!(best, Best { nonce: 5, difficulty: 11, digest: [5; 16] });
    best.observe(6, &Some(jito_miner::mining::Hash { d: [6; 16], h: [0; 32] }));
    assert_eq!(best, Best { nonce: 6, difficulty: 256, digest: [6; 16] });
    best.observe(7, &Some(jito_miner::mining::Hash { d: [7; 16], h: [0; 32] }));
    assert_eq!(best.nonce, 6);
}

#[test]
fn a_search_ends_only_when_it_looks_up() {
    let best = Best { nonce: 1, difficulty: 10, digest: [0; 16] };
    assert!(best.ends_search(0, 9, 0, 60));
    assert!(best.ends_search(128, 9, 0, 60));
    assert!(!best.ends_search(127, 9, 99, 60));
    assert!(!best.ends_search(129, 9, 99, 60));
    assert!(!best.ends_search(128, 10, 59, 60));
    assert!(best.ends_search(128, 10, 60, 60));
    assert!(best.ends_search(256, 10, 61, 60));
}

#[test]
fn a_search_without_time_tries_one_nonce() {
    for seed in 0u8..4 {
        let proof = Proof { challenge: [seed; 32] };
        let solution = Miner::single_mine(&proof, 0, 250).unwrap();
        let expected = match drillx::hash(&proof.challenge, &[0; 8]) {
            Ok(hx) if hx.difficulty() > 0 => hx.d,
            _ => [0; 16],
        };
        assert_eq!(solution, Solution { d: expected, n: [0; 8] });
    }
}

#[test]
fn a_search_ends_at_the_first_look_that_satisfies_it() {
    let good = |seed: &u8| match drillx::hash(&[*seed; 32], &[0; 8]) {
        Ok(hx) => hx.difficulty() > 3,
        Err(_) => false,
    };
    let seed = (0u8..80).find(good).unwrap();
    let proof = Proof { challenge: [seed; 32] };
    let solution = Miner::single_mine(&proof, u64::MAX, 2).unwrap();
    let expected = drillx::hash(&proof.challenge, &[0; 8]).unwrap();
    assert_eq!(solution, Solution { d: expected.d, n: [0; 8] });
    assert_ne!(solution.d, [0; 16]);
    // With time left, a higher minimum that is beaten at the same look changes nothing.
    assert_eq!(Miner::single_mine(&proof, u64::MAX, 3), Ok(solution));
}

#[test]
fn a_search_goes_by_the_watch_it_is_given() {
    let proof = Proof { challenge: [3; 32] };
    let mut watch = Stopwatch::start();
    let solution = Miner::search(&proof, 0, 250, &mut watch);
    assert_eq!(solution, Miner::single_mine(&proof, 0, 250));
    assert_eq!(
        Miner::search(&proof, 0, 1, &mut watch),
        Err(MiningError::DifficultyTooLow)
    );
    assert!(watch.read() < 20);
}

#[test]
fn a_proof_is_read_from_account_data() {
    assert_eq!(PROOF_TAG, ore_api::state::OreAccount::Proof as u8);
    assert_eq!(PROOF_SIZE, 8 + std::mem::size_of::<ore_api::state::Proof>());
    let mut data: Vec<u8> = (0u8..176).collect();
    data[0] = 102;
    let mut challenge = [0u8; 32];
    challenge.copy_from_slice(&data[48..80]);
    assert_eq!(proof_of(&data), Some(Proof { challenge }));
    assert_eq!(proof_of(&data[..175].to_vec()), None);
    assert_eq!(proof_of(&vec![]), None);
    data.push(0);
    assert_eq!(proof_of(&data), None);
    data.pop();
    data[0] = 100;
    assert_eq!(proof_of(&data), None);
}

#[test]
fn a_proof_account_is_where_ore_keeps_it() {
    for seed in 1u8..6 {
        let miner = keypair(seed).pubkey;
        let expected = ore_api::state::proof_pda(solana_sdk::pubkey::Pubkey::from(miner)).0;
        assert_eq!(proof_account(&miner), Some(expected.to_bytes()));
    }
}

#[test]
fn what_is_mined_belongs_to_the_key() {
    let proof = Proof { challenge: [5; 32] };
    let mined = Miner::mine_for(keypair(4), &proof, 0, 250).ok().unwrap();
    assert_eq!(mined.keypair.pubkey, keypair(4).pubkey);
    assert_eq!(mined.keypair.secret, keypair(4).secret);
    assert_eq!(Ok(mined.solution), Miner::single_mine(&proof, 0, 250));
    assert_eq!(
        Miner::mine_for(keypair(4), &proof, 0, 1).err(),
        Some(MiningError::DifficultyTooLow)
    );
}

#[test]
fn a_difficulty_that_the_contract_accepts_anyway_is_refused() {
    let proof = Proof { challenge: [1; 32] };
    assert_eq!(Miner::single_mine(&proof, 0, 0), Err(MiningError::DifficultyTooLow));
    assert_eq!(Miner::single_mine(&proof, 0, 1), Err(MiningError::DifficultyTooLow));
    assert!(Miner::single_mine(&proof, 0, 2).is_ok());
}

#[test]
fn a_bundle_submits_every_solution_in_order() {
    let miner = Miner::new(5, 0, None);
    let found = vec![
        Mined { keypair: keypair(1), solution: Solution { d: [1; 16], n: [2; 8] } },
        Mined { keypair: keypair(2), solution: Solution { d: [3; 16], n: [4; 8] } },
    ];
    let blockhash = [6u8; 32];
    let txs = miner.bundle_mine(&found, &blockhash).unwrap();
    assert_eq!(txs.len(), 2);
    for i in 0..2 {
        let signer = solana_sdk::pubkey::Pubkey::from(found[i].keypair.pubkey);
        let solution = drillx::Solution::new(found[i].solution.d, found[i].solution.n);
        let bus = ore_api::consts::BUS_ADDRESSES[0];
        let ix = ore_api::sdk::mine(signer, signer, bus, solution, vec![]);
        assert_eq!(ix.data.len(), 25);
        assert_eq!(ix.data[0], 2);
        let hash = solana_sdk::hash::Hash::from(blockhash);
        let ixs = vec![
            ComputeBudgetInstruction::set_compute_unit_limit(500_000),
            ComputeBudgetInstruction::set_compute_unit_price(5),
            ix,
        ];
        let message = Message::new_with_blockhash(&ixs, Some(&signer), &hash);
        assert_eq!(txs[i].message, message.serialize());
        let signature = solana_sdk::signature::Signature::from(txs[i].signatures[0]);
        assert!(signature.verify(&found[i].keypair.pubkey, &txs[i].message));
    }
}

#[test]
fn a_bundle_reports_the_first_bad_key() {
    let miner = Miner::new(5, 0, None);
    let mut bad = keypair(2);
    bad.secret = [9; 32];
    let solution = Solution { d: [1; 16], n: [2; 8] };
    let found = vec![
        Mined { keypair: keypair(1), solution },
        Mined { keypair: bad, solution },
    ];
    assert_eq!(
        miner.bundle_mine(&found, &[0; 32]).err(),
        Some(SubmissionError::Signing(SigningError::InvalidKeypair))
    );
    assert_eq!(miner.bundle_mine(&vec![], &[0; 32]).map(|txs| txs.len()), Ok(0));
}
