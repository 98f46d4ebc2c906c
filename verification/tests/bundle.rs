use jito_miner::bundle::{
    bundle_signatures, cluster_of, explorer_link, explorer_links, rejection_of,
    send_bundle_with_confirmation, simulation_failure_report, BundleAction, BundleError,
    BundleEvent, BundleRejectionError, BundleResult, BundleState, RejectionReason, StatusReply,
};
use jito_miner::transaction::SignedTransaction;

fn s(text: &str) -> String {
    text.to_string()
}

fn transaction(tag: u8) -> SignedTransaction {
    SignedTransaction { signatures: vec![[tag; 64]], message: vec![] }
}

fn two() -> Vec<SignedTransaction> {
    vec![transaction(1), transaction(2)]
}

fn rejected(reason: RejectionReason) -> Option<BundleResult> {
    Some(BundleResult::Rejected { reason: Some(reason) })
}

fn state_auction() -> RejectionReason {
    RejectionReason::StateAuctionBidRejected {
        auction_id: s("a1"),
        simulated_bid_lamports: 12,
        msg: Some(s("low")),
    }
}

#[test]
fn rejections_are_reported_in_words() {
    assert_eq!(
        BundleRejectionError::StateAuctionBidRejected(s("a1"), 12).text(),
        "bundle lost state auction, auction: a1, tip 12 lamports"
    );
    assert_eq!(
        BundleRejectionError::WinningBatchBidRejected(s("a2"), 0).text(),
        "bundle won state auction but failed global auction, auction a2, tip 0 lamports"
    );
    assert_eq!(
        BundleRejectionError::SimulationFailure(s("5x"), Some(s("say \"no\""))).text(),
        "bundle simulation failure on tx 5x, message: Some(\"say \\\"no\\\"\")"
    );
    assert_eq!(
        BundleRejectionError::SimulationFailure(s("5x"), None).text(),
        "bundle simulation failure on tx 5x, message: None"
    );
    assert_eq!(BundleRejectionError::InternalError(s("oops")).text(), "internal error oops");
    assert_eq!(
        simulation_failure_report("t", "m"),
        "bundle simulation failure on tx t, message: m"
    );
}

#[test]
fn each_reason_gives_its_rejection() {
    assert_eq!(
        rejection_of(rejected(state_auction())),
        Some(BundleRejectionError::StateAuctionBidRejected(s("a1"), 12))
    );
    let batch = RejectionReason::WinningBatchBidRejected {
        auction_id: s("a2"),
        simulated_bid_lamports: 34,
        msg: None,
    };
    assert_eq!(
        rejection_of(rejected(batch)),
        Some(BundleRejectionError::WinningBatchBidRejected(s("a2"), 34))
    );
    let simulation =
        RejectionReason::SimulationFailure { tx_signature: s("tx"), msg: Some(s("bad nonce")) };
    assert_eq!(
        rejection_of(rejected(simulation)),
        Some(BundleRejectionError::SimulationFailure(s("tx"), Some(s("bad nonce"))))
    );
    assert_eq!(
        rejection_of(rejected(RejectionReason::InternalError { msg: s("oops") })),
        Some(BundleRejectionError::InternalError(s("oops")))
    );
}

#[test]
fn other_results_reject_nothing() {
    assert_eq!(rejection_of(None), None);
    assert_eq!(rejection_of(Some(BundleResult::Other)), None);
    let accepted = BundleResult::Accepted { slot: 1, validator_identity: s("v") };
    assert_eq!(rejection_of(Some(accepted)), None);
    assert_eq!(rejection_of(Some(BundleResult::Rejected { reason: None })), None);
    let dropped = RejectionReason::DroppedBundle { msg: s("late") };
    assert_eq!(rejection_of(rejected(dropped)), None);
    let silent = RejectionReason::SimulationFailure { tx_signature: s("tx"), msg: None };
    assert_eq!(rejection_of(rejected(silent)), None);
    let landed = RejectionReason::SimulationFailure {
        tx_signature: s("tx"),
        msg: Some(s("This transaction has already been processed")),
    };
    assert_eq!(rejection_of(rejected(landed)), None);
}

#[test]
fn a_refused_request_fails_with_its_message() {
    let (state, action) = send_bundle_with_confirmation(
        &two(),
        BundleState::Sending,
        BundleEvent::SendFailed { code: 8, message: s("rate limited") },
    );
    assert_eq!(state, BundleState::Ended);
    assert_eq!(action, BundleAction::Fail(BundleError::Status {
        code: 8,
        message: s("rate limited"),
    }));
}

#[test]
fn a_bundle_lands_when_every_transaction_did() {
    let (state, action) = send_bundle_with_confirmation(&two(), BundleState::Sending, BundleEvent::Sent);
    assert_eq!(state, BundleState::Listening { time_left: 5000 });
    assert_eq!(action, BundleAction::Listen { timeout_ms: 5000 });
    let accepted = BundleResult::Accepted { slot: 1, validator_identity: s("v") };
    let (state, action) =
        send_bundle_with_confirmation(&two(), state, BundleEvent::Reported { result: Some(accepted) });
    assert_eq!(state, BundleState::Handling { time_left: 5000 });
    assert_eq!(action, BundleAction::Measure);
    let (state, action) =
        send_bundle_with_confirmation(&two(), state, BundleEvent::Handled { elapsed_ms: 30 });
    assert_eq!(state, BundleState::Listening { time_left: 4970 });
    assert_eq!(action, BundleAction::Listen { timeout_ms: 4970 });
    let (state, action) = send_bundle_with_confirmation(&two(), state, BundleEvent::Silent);
    assert_eq!(state, BundleState::Confirming);
    let signatures = vec![[1; 64], [2; 64]];
    assert_eq!(action, BundleAction::QueryStatuses { signatures });
    let replies = vec![StatusReply::Landed, StatusReply::Landed];
    let (state, action) = send_bundle_with_confirmation(&two(), state, BundleEvent::Answered { replies });
    assert_eq!(state, BundleState::Ended);
    assert_eq!(action, BundleAction::Land);
}

#[test]
fn one_transaction_that_did_not_land_fails_the_bundle() {
    for reply in [StatusReply::Unavailable, StatusReply::Unknown, StatusReply::Failed] {
        let replies = vec![StatusReply::Landed, reply];
        let (state, action) = send_bundle_with_confirmation(
            &two(),
            BundleState::Confirming,
            BundleEvent::Answered { replies },
        );
        assert_eq!(state, BundleState::Ended);
        assert_eq!(
            action,
            BundleAction::Fail(BundleError::Rejected(BundleRejectionError::InternalError(s(
                "Searcher service did not provide bundle status in time"
            ))))
        );
    }
    let (_, action) = send_bundle_with_confirmation(
        &vec![],
        BundleState::Confirming,
        BundleEvent::Answered { replies: vec![] },
    );
    assert_eq!(action, BundleAction::Land);
}

#[test]
fn a_rejection_is_passed_on_at_once() {
    let (state, action) = send_bundle_with_confirmation(
        &two(),
        BundleState::Listening { time_left: 10 },
        BundleEvent::Reported { result: rejected(state_auction()) },
    );
    assert_eq!(state, BundleState::Ended);
    assert_eq!(
        action,
        BundleAction::Fail(BundleError::Rejected(BundleRejectionError::StateAuctionBidRejected(
            s("a1"),
            12
        )))
    );
}

#[test]
fn time_can_run_out_while_handling() {
    let step = |elapsed_ms| {
        send_bundle_with_confirmation(
            &two(),
            BundleState::Handling { time_left: 10 },
            BundleEvent::Handled { elapsed_ms },
        )
    };
    assert_eq!(step(10).1, BundleAction::Listen { timeout_ms: 0 });
    assert_eq!(step(11), (BundleState::Ended, BundleAction::Abort));
}

#[test]
fn the_cluster_is_read_off_the_address() {
    assert_eq!(cluster_of("https://api.testnet.solana.com"), "testnet");
    assert_eq!(cluster_of("https://api.devnet.solana.com"), "devnet");
    assert_eq!(cluster_of("https://devnet.testnet"), "testnet");
    assert_eq!(cluster_of("https://api.mainnet-beta.solana.com"), "mainnet");
    assert_eq!(cluster_of(""), "mainnet");
}

#[test]
fn links_hold_signature_and_cluster() {
    assert_eq!(explorer_link("sig", "devnet"), "https://solscan.io/tx/sig?cluster=devnet");
    let signatures = vec![[1u8; 64], [2u8; 64]];
    let links = explorer_links(&signatures, "https://api.devnet.solana.com");
    assert_eq!(links.len(), 2);
    for i in 0..2 {
        let written = solana_sdk::signature::Signature::from(signatures[i]).to_string();
        assert_eq!(links[i], format!("https://solscan.io/tx/{}?cluster=devnet", written));
    }
    assert!(explorer_links(&vec![], "x").is_empty());
}

#[test]
fn a_transaction_is_known_by_its_first_signature() {
    let tx = |signatures: Vec<[u8; 64]>| SignedTransaction { signatures, message: vec![] };
    let txs = vec![tx(vec![[1; 64], [2; 64]]), tx(vec![[3; 64]])];
    assert_eq!(bundle_signatures(&txs), vec![[1; 64], [3; 64]]);
}

#[test]
fn the_time_left_counts_every_result() {
    let mut state = BundleState::Listening { time_left: 5000 };
    for elapsed_ms in [1u64, 20, 300] {
        let reported = BundleEvent::Reported { result: None };
        state = send_bundle_with_confirmation(&two(), state, reported).0;
        let handled = BundleEvent::Handled { elapsed_ms };
        state = send_bundle_with_confirmation(&two(), state, handled).0;
    }
    assert_eq!(state, BundleState::Listening { time_left: 4679 });
}
