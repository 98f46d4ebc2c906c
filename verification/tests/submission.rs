use jito_miner::bundle::{BundleError, BundleRejectionError};
use jito_miner::chain::{bribe_ix_to, AccountMeta, Instruction, COMPUTE_BUDGET_PROGRAM};
use jito_miner::miner::Miner;
use jito_miner::submission::{
    is_worth_retrying, leader_regions, AbortReason, ComputeBudget, Order, Stage, Submission,
    SubmitAction, SubmitEvent,
};
use jito_miner::tips::JitoTips;
use jito_miner::transaction::{signed_transaction, Keypair, SigningError};
use solana_sdk::signer::Signer;

fn keypair() -> Keypair {
    let pair = solana_sdk::signature::keypair_from_seed(&[7u8; 32]).unwrap();
    let bytes = pair.to_bytes();
    let mut secret = [0u8; 32];
    secret.copy_from_slice(&bytes[..32]);
    Keypair { secret, pubkey: pair.pubkey().to_bytes() }
}

fn ordered(signer: bool) -> Instruction {
    Instruction {
        program_id: [8; 32],
        accounts: vec![AccountMeta { pubkey: [9; 32], is_signer: signer, is_writable: true }],
        data: vec![1, 2, 3],
    }
}

fn order() -> Order {
    Order {
        ixs: vec![ordered(false)],
        compute_budget: ComputeBudget::Fixed(500_000),
        keypair: keypair(),
        min_balance: 5_000_000,
    }
}

fn tips(p25: u64) -> JitoTips {
    JitoTips { p25_landed: p25, p50_landed: 0, p75_landed: 0, p95_landed: 0, p99_landed: 0 }
}

fn at(stage: Stage) -> Submission {
    Submission { stage, ixs: vec![], transactions: vec![] }
}

fn internal() -> BundleError {
    BundleError::Rejected(BundleRejectionError::InternalError("x".to_string()))
}

#[test]
fn instructions_are_budget_order_and_tip() {
    let miner = Miner::new(7, 0, None);
    let order = order();
    let ixs = miner.full_instructions(&order, 99, 3);
    assert_eq!(ixs.len(), 4);
    assert_eq!(
        ixs[0],
        Instruction {
            program_id: COMPUTE_BUDGET_PROGRAM,
            accounts: vec![],
            data: vec![2, 0x20, 0xa1, 7, 0],
        }
    );
    assert_eq!(
        ixs[1],
        Instruction {
            program_id: COMPUTE_BUDGET_PROGRAM,
            accounts: vec![],
            data: vec![3, 7, 0, 0, 0, 0, 0, 0, 0],
        }
    );
    assert_eq!(ixs[2], ordered(false));
    assert_eq!(ixs[3], bribe_ix_to(&order.keypair.pubkey, 99, 3));
}

#[test]
fn a_dynamic_budget_asks_for_the_most() {
    let mut order = order();
    order.compute_budget = ComputeBudget::Dynamic;
    let ixs = Miner::new(0, 0, None).full_instructions(&order, 0, 0);
    assert_eq!(ixs[0].data, vec![2, 0xc0, 0x5c, 0x15, 0]);
}

#[test]
fn all_regions_are_asked() {
    let expected: Vec<String> =
        "tokyo,amsterdam,frankfurt,ny,slc".split(",").map(|s| s.to_string()).collect();
    assert_eq!(leader_regions(), expected);
}

#[test]
fn a_submission_goes_from_balance_to_landing() {
    let miner = Miner::new(10, 1000, None);
    let order = order();
    let run = Submission::begin();
    assert_eq!(run.stage, Stage::CheckingBalance);
    let (run, action) =
        miner.submit_with_choice(&order, run, SubmitEvent::Balance { lamports: None }, 6);
    assert_eq!(action, SubmitAction::ReadTips);
    let (run, action) =
        miner.submit_with_choice(&order, run, SubmitEvent::Tips { tips: tips(5) }, 6);
    assert_eq!(action, SubmitAction::Subscribe);
    assert_eq!(run.ixs, miner.full_instructions(&order, 15, 6));
    let (run, action) = miner.jito_send_and_confirm(&order, run, SubmitEvent::Subscribed);
    assert_eq!(action, SubmitAction::AskLeader);
    let far = SubmitEvent::Leader { next_leader_slot: 13, current_slot: 10 };
    let (run, action) = miner.jito_send_and_confirm(&order, run, far);
    assert_eq!(action, SubmitAction::Sleep { ms: 500 });
    assert_eq!(run.stage, Stage::Pausing { leads: false });
    let (run, action) = miner.jito_send_and_confirm(&order, run, SubmitEvent::Slept);
    assert_eq!(action, SubmitAction::AskLeader);
    let near = SubmitEvent::Leader { next_leader_slot: 13, current_slot: 11 };
    let (run, action) = miner.jito_send_and_confirm(&order, run, near);
    assert_eq!(action, SubmitAction::Sleep { ms: 500 });
    let (run, action) = miner.jito_send_and_confirm(&order, run, SubmitEvent::Slept);
    assert_eq!(action, SubmitAction::FetchBlockhash);
    let blockhash = [4u8; 32];
    let (run, action) =
        miner.jito_send_and_confirm(&order, run, SubmitEvent::Blockhash { blockhash });
    assert_eq!(action, SubmitAction::Submit { attempt: 1 });
    let expected = signed_transaction(&run.ixs, &order.keypair, &blockhash).unwrap();
    assert_eq!(run.transactions.len(), 1);
    assert_eq!(run.transactions[0].message, expected.message);
    assert_eq!(run.transactions[0].signatures, expected.signatures);
    let (run, action) =
        miner.jito_send_and_confirm(&order, run, SubmitEvent::BundleEnded { result: Ok(()) });
    assert_eq!(action, SubmitAction::Finish);
    assert_eq!(run.stage, Stage::Ended);
}

#[test]
fn a_fixed_tip_skips_the_market() {
    let miner = Miner::new(10, 0, None);
    let order = order();
    let rich = SubmitEvent::Balance { lamports: Some(5_000_001) };
    let (run, action) = miner.submit_with_choice(&order, Submission::begin(), rich, 2);
    assert_eq!(action, SubmitAction::Subscribe);
    assert_eq!(run.ixs, miner.full_instructions(&order, 10, 2));
}

#[test]
fn the_recipient_is_drawn_from_all() {
    let miner = Miner::new(10, 0, None);
    let order = order();
    let event = SubmitEvent::Balance { lamports: None };
    let (run, _) = miner.jito_send_and_confirm(&order, Submission::begin(), event);
    assert!((0..8).any(|c| run.ixs == miner.full_instructions(&order, 10, c)));
}

#[test]
fn a_poor_payer_is_refused() {
    let miner = Miner::new(10, 0, None);
    let order = order();
    for lamports in [0u64, 5_000_000] {
        let event = SubmitEvent::Balance { lamports: Some(lamports) };
        let (run, action) = miner.jito_send_and_confirm(&order, Submission::begin(), event);
        assert_eq!(run.stage, Stage::Ended);
        assert_eq!(
            action,
            SubmitAction::Abort(AbortReason::InsufficientBalance { lamports })
        );
    }
}

#[test]
fn a_tip_that_does_not_fit_is_refused() {
    let miner = Miner::new(10, 1000, None);
    let (_, action) = miner.jito_send_and_confirm(
        &order(),
        at(Stage::ReadingTips),
        SubmitEvent::Tips { tips: tips(u64::MAX) },
    );
    assert_eq!(action, SubmitAction::Abort(AbortReason::TipOverflow));
}

#[test]
fn a_leader_that_has_passed_is_refused() {
    let miner = Miner::new(10, 0, None);
    let event = SubmitEvent::Leader { next_leader_slot: 9, current_slot: 10 };
    let (_, action) = miner.jito_send_and_confirm(&order(), at(Stage::AskingLeader), event);
    assert_eq!(action, SubmitAction::Abort(AbortReason::LeaderPassed));
}

#[test]
fn an_order_that_others_have_to_sign_is_refused() {
    let miner = Miner::new(10, 0, None);
    let mut run = at(Stage::FetchingBlockhash);
    run.ixs = vec![ordered(true)];
    let event = SubmitEvent::Blockhash { blockhash: [0; 32] };
    let (_, action) = miner.jito_send_and_confirm(&order(), run, event);
    assert_eq!(
        action,
        SubmitAction::Abort(AbortReason::Signing(SigningError::NotEnoughSigners))
    );
}

#[test]
fn a_bundle_is_sent_five_times_with_growing_pauses() {
    let miner = Miner::new(10, 0, None);
    let order = order();
    let mut run = at(Stage::Submitting { attempt: 1 });
    let mut pauses: Vec<u64> = vec![];
    let mut last = SubmitAction::Submit { attempt: 1 };
    let mut attempts = 0;
    while let SubmitAction::Submit { attempt } = last {
        attempts += 1;
        assert_eq!(attempt, attempts);
        let event = SubmitEvent::BundleEnded { result: Err(internal()) };
        let (next, action) = miner.jito_send_and_confirm(&order, run, event);
        match action {
            SubmitAction::Sleep { ms } => pauses.push(ms),
            other => panic!("{:?}", other),
        }
        let (next, action) = miner.jito_send_and_confirm(&order, next, SubmitEvent::Slept);
        run = next;
        last = action;
    }
    assert_eq!(attempts, 5);
    assert_eq!(pauses, vec![800, 1200, 1600, 2000, 2400]);
    assert_eq!(last, SubmitAction::GiveUp);
    assert_eq!(run.stage, Stage::Ended);
}

#[test]
fn some_failures_are_worth_another_attempt() {
    let rejected = |e| BundleError::Rejected(e);
    assert!(is_worth_retrying(&internal()));
    assert!(is_worth_retrying(&rejected(BundleRejectionError::StateAuctionBidRejected(
        "a".to_string(),
        1
    ))));
    assert!(is_worth_retrying(&rejected(BundleRejectionError::SimulationFailure(
        "t".to_string(),
        None
    ))));
    assert!(!is_worth_retrying(&rejected(BundleRejectionError::WinningBatchBidRejected(
        "a".to_string(),
        1
    ))));
    let refused = |code, message: &str| BundleError::Status { code, message: message.to_string() };
    let processed = "bundle contains an already processed transaction";
    assert!(is_worth_retrying(&refused(3, processed)));
    assert!(is_worth_retrying(&refused(13, processed)));
    assert!(!is_worth_retrying(&refused(3, "unavailable")));
    assert!(!is_worth_retrying(&refused(14, "")));
}

#[test]
fn a_hopeless_failure_aborts() {
    let miner = Miner::new(10, 0, None);
    let error = || BundleError::Status { code: 14, message: "unavailable".to_string() };
    let (run, action) = miner.jito_send_and_confirm(
        &order(),
        at(Stage::Submitting { attempt: 2 }),
        SubmitEvent::BundleEnded { result: Err(error()) },
    );
    assert_eq!(run.stage, Stage::Ended);
    assert_eq!(action, SubmitAction::Abort(AbortReason::Bundle(error())));
}

#[test]
fn a_lost_global_auction_aborts() {
    let miner = Miner::new(10, 0, None);
    let lost = || {
        BundleError::Rejected(BundleRejectionError::WinningBatchBidRejected("a".to_string(), 1))
    };
    let (run, action) = miner.jito_send_and_confirm(
        &order(),
        at(Stage::Submitting { attempt: 1 }),
        SubmitEvent::BundleEnded { result: Err(lost()) },
    );
    assert_eq!(run.stage, Stage::Ended);
    assert_eq!(action, SubmitAction::Abort(AbortReason::Bundle(lost())));
}

#[test]
fn retries_keep_the_bundle() {
    let miner = Miner::new(10, 0, None);
    let mut run = at(Stage::FetchingBlockhash);
    run.ixs = vec![ordered(false)];
    let event = SubmitEvent::Blockhash { blockhash: [1; 32] };
    let (run, _) = miner.jito_send_and_confirm(&order(), run, event);
    let sent = run.transactions[0].signatures.clone();
    let event = SubmitEvent::BundleEnded { result: Err(internal()) };
    let (run, _) = miner.jito_send_and_confirm(&order(), run, event);
    let (run, action) = miner.jito_send_and_confirm(&order(), run, SubmitEvent::Slept);
    assert_eq!(action, SubmitAction::Submit { attempt: 2 });
    assert_eq!(run.transactions[0].signatures, sent);
}

#[test]
fn a_quiet_market_does_not_lift_the_tip_above_the_cap() {
    let miner = Miner::new(10, 5, None);
    let order = order();
    let (run, action) = miner.submit_with_choice(
        &order,
        at(Stage::ReadingTips),
        SubmitEvent::Tips { tips: tips(0) },
        1,
    );
    assert_eq!(action, SubmitAction::Subscribe);
    assert_eq!(run.ixs, miner.full_instructions(&order, 5, 1));
}
