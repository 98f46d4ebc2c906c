//! Sending a bundle and finding out whether it landed.

use crate::text::{contains_text, decimal, decimal_text, occurs_in, same_text};
use crate::transaction::{Signature, SignedTransaction};
use vstd::prelude::*;
use vstd::string::StringExecFns;

verus! {

/// Why a bundle was not taken.
#[derive(Debug, PartialEq, Eq)]
pub enum BundleRejectionError {
    /// It lost the auction for the state it touches: auction and tip in lamports.
    StateAuctionBidRejected(String, u64),
    /// It won that auction but lost the global one: auction and tip in lamports.
    WinningBatchBidRejected(String, u64),
    /// A transaction failed in simulation: its signature, and a message if there is one.
    SimulationFailure(String, Option<String>),
    /// Anything else that went wrong.
    InternalError(String),
}

/// What a [`BundleRejectionError`] says, as a mathematical value.
pub enum RejectionView {
    StateAuctionBidRejected(Seq<char>, u64),
    WinningBatchBidRejected(Seq<char>, u64),
    SimulationFailure(Seq<char>, Option<Seq<char>>),
    InternalError(Seq<char>),
}

/// The text inside, if there is any.
pub open spec fn optional_text(text: Option<String>) -> Option<Seq<char>> {
    match text {
        Some(s) => Some(s@),
        None => None,
    }
}

impl View for BundleRejectionError {
    type V = RejectionView;

    open spec fn view(&self) -> RejectionView {
        match *self {
            BundleRejectionError::StateAuctionBidRejected(auction, tip) =>
                RejectionView::StateAuctionBidRejected(auction@, tip),
            BundleRejectionError::WinningBatchBidRejected(auction, tip) =>
                RejectionView::WinningBatchBidRejected(auction@, tip),
            BundleRejectionError::SimulationFailure(tx, message) =>
                RejectionView::SimulationFailure(tx@, optional_text(message)),
            BundleRejectionError::InternalError(message) => RejectionView::InternalError(message@),
        }
    }
}

/// How Rust's debug formatting writes a text: in quotes, with what needs it escaped.
pub uninterp spec fn debug_string(text: Seq<char>) -> Seq<char>;

/// Calls `format!` with the debug form of a text. Claimed of it: what it writes depends on the
/// text alone.
#[verifier::external_body]
fn format_debug(text: &str) -> (r: String)
    ensures
        r@ == debug_string(text@),
{
    format!("{:?}", text)
}

/// How Rust's debug formatting writes an optional text.
pub open spec fn debug_text(text: Option<Seq<char>>) -> Seq<char> {
    match text {
        Some(t) => "Some("@ + debug_string(t) + ")"@,
        None => "None"@,
    }
}

/// How a rejection is reported.
pub open spec fn rejection_text(rejection: RejectionView) -> Seq<char> {
    match rejection {
        RejectionView::StateAuctionBidRejected(auction, tip) =>
            "bundle lost state auction, auction: "@ + auction + ", tip "@ + decimal(tip as nat)
            + " lamports"@,
        RejectionView::WinningBatchBidRejected(auction, tip) =>
            "bundle won state auction but failed global auction, auction "@ + auction + ", tip "@
            + decimal(tip as nat) + " lamports"@,
        RejectionView::SimulationFailure(tx, message) =>
            simulation_failure_text(tx, debug_text(message)),
        RejectionView::InternalError(message) => "internal error "@ + message,
    }
}

/// How a failed simulation is reported, given its message in debug form.
pub open spec fn simulation_failure_text(tx: Seq<char>, message: Seq<char>) -> Seq<char> {
    "bundle simulation failure on tx "@ + tx + ", message: "@ + message
}

/// Reports a failed simulation, given its message in debug form.
pub fn simulation_failure_report(tx: &str, message: &str) -> (r: String)
    ensures
        r@ == simulation_failure_text(tx@, message@),
        r@ == "bundle simulation failure on tx "@ + tx@ + ", message: "@ + message@,
{
    "bundle simulation failure on tx ".to_owned().concat(tx).concat(", message: ").concat(message)
}

impl BundleRejectionError {
    /// How the rejection is reported.
    pub fn text(&self) -> (r: String)
        ensures
            r@ == rejection_text(self@),
            match *self {
                BundleRejectionError::StateAuctionBidRejected(auction, tip) => r@
                    == "bundle lost state auction, auction: "@ + auction@ + ", tip "@ + decimal(
                    tip as nat,
                ) + " lamports"@,
                BundleRejectionError::WinningBatchBidRejected(auction, tip) => r@
                    == "bundle won state auction but failed global auction, auction "@ + auction@
                    + ", tip "@ + decimal(tip as nat) + " lamports"@,
                BundleRejectionError::SimulationFailure(tx, Some(message)) => r@
                    == "bundle simulation failure on tx "@ + tx@ + ", message: "@ + ("Some("@
                    + debug_string(message@) + ")"@),
                BundleRejectionError::SimulationFailure(tx, None) => r@
                    == "bundle simulation failure on tx "@ + tx@ + ", message: "@ + "None"@,
                BundleRejectionError::InternalError(message) => r@ == "internal error "@
                    + message@,
            },
    {
        match self {
            BundleRejectionError::StateAuctionBidRejected(auction, tip) => {
                let tip_text = decimal_text(*tip);
                "bundle lost state auction, auction: ".to_owned().concat(auction.as_str()).concat(
                    ", tip ",
                ).concat(tip_text.as_str()).concat(" lamports")
            },
            BundleRejectionError::WinningBatchBidRejected(auction, tip) => {
                let tip_text = decimal_text(*tip);
                "bundle won state auction but failed global auction, auction ".to_owned().concat(
                    auction.as_str(),
                ).concat(", tip ").concat(tip_text.as_str()).concat(" lamports")
            },
            BundleRejectionError::SimulationFailure(tx, message) => {
                let message_text = match message {
                    Some(text) => {
                        let quoted = format_debug(text.as_str());
                        "Some(".to_owned().concat(quoted.as_str()).concat(")")
                    },
                    None => "None".to_owned(),
                };
                simulation_failure_report(tx.as_str(), message_text.as_str())
            },
            BundleRejectionError::InternalError(message) => {
                "internal error ".to_owned().concat(message.as_str())
            },
        }
    }
}

/// Why the block engine says it rejected a bundle.
#[allow(inconsistent_fields)]
pub enum RejectionReason {
    StateAuctionBidRejected {
        auction_id: String,
        simulated_bid_lamports: u64,
        msg: Option<String>,
    },
    WinningBatchBidRejected {
        auction_id: String,
        simulated_bid_lamports: u64,
        msg: Option<String>,
    },
    SimulationFailure { tx_signature: String, msg: Option<String> },
    InternalError { msg: String },
    /// The bundle was dropped before it was considered.
    DroppedBundle { msg: String },
}

/// What the block engine reports of a bundle.
pub enum BundleResult {
    Accepted { slot: u64, validator_identity: String },
    Rejected { reason: Option<RejectionReason> },
    /// It was finalized, processed or dropped.
    Other,
}

/// A failed simulation says this when the transaction landed earlier; that is no failure.
pub const ALREADY_PROCESSED: &'static str = "This transaction has already been processed";

/// The rejection that a reported result amounts to. An accepted bundle, a report without a
/// result or reason, a dropped bundle, and a simulation that failed without a message or because
/// the transaction had landed already are no rejections.
pub open spec fn rejection_in(result: Option<BundleResult>) -> Option<RejectionView> {
    match result {
        Some(BundleResult::Rejected { reason: Some(reason) }) => match reason {
            RejectionReason::StateAuctionBidRejected { auction_id, simulated_bid_lamports, .. } =>
                Some(
                    RejectionView::StateAuctionBidRejected(auction_id@, simulated_bid_lamports),
                ),
            RejectionReason::WinningBatchBidRejected { auction_id, simulated_bid_lamports, .. } =>
                Some(
                    RejectionView::WinningBatchBidRejected(auction_id@, simulated_bid_lamports),
                ),
            RejectionReason::SimulationFailure { tx_signature, msg: Some(msg) } => if msg@
                == ALREADY_PROCESSED@ {
                None
            } else {
                Some(RejectionView::SimulationFailure(tx_signature@, Some(msg@)))
            },
            RejectionReason::InternalError { msg } => Some(RejectionView::InternalError(msg@)),
            _ => None,
        },
        _ => None,
    }
}

/// What the error says, if there is one.
pub open spec fn optional_rejection(error: Option<BundleRejectionError>) -> Option<RejectionView> {
    match error {
        Some(e) => Some(e@),
        None => None,
    }
}

/// The rejection that a reported result amounts to, if it is one.
pub fn rejection_of(result: Option<BundleResult>) -> (r: Option<BundleRejectionError>)
    ensures
        optional_rejection(r) == rejection_in(result),
        result is None ==> r is None,
        result matches Some(reported) ==> !(reported is Rejected) ==> r is None,
        result matches Some(BundleResult::Rejected { reason }) ==> match reason {
            None => r is None,
            Some(RejectionReason::StateAuctionBidRejected {
                auction_id,
                simulated_bid_lamports,
                msg: _,
            }) => r matches Some(BundleRejectionError::StateAuctionBidRejected(auction, tip))
                && auction@ == auction_id@ && tip == simulated_bid_lamports,
            Some(RejectionReason::WinningBatchBidRejected {
                auction_id,
                simulated_bid_lamports,
                msg: _,
            }) => r matches Some(BundleRejectionError::WinningBatchBidRejected(auction, tip))
                && auction@ == auction_id@ && tip == simulated_bid_lamports,
            Some(RejectionReason::SimulationFailure { tx_signature: _, msg: None }) => r is None,
            Some(RejectionReason::SimulationFailure { tx_signature, msg: Some(msg) }) => if msg@
                == "This transaction has already been processed"@ {
                r is None
            } else {
                r matches Some(BundleRejectionError::SimulationFailure(tx, Some(message))) && tx@
                    == tx_signature@ && message@ == msg@
            },
            Some(RejectionReason::InternalError { msg }) => r matches Some(
                BundleRejectionError::InternalError(message),
            ) && message@ == msg@,
            Some(RejectionReason::DroppedBundle { msg: _ }) => r is None,
        },
{
    match result {
        Some(BundleResult::Rejected { reason: Some(reason) }) => match reason {
            RejectionReason::WinningBatchBidRejected { auction_id, simulated_bid_lamports, msg: _ } =>
                Some(
                    BundleRejectionError::WinningBatchBidRejected(
                        auction_id,
                        simulated_bid_lamports,
                    ),
                ),
            RejectionReason::StateAuctionBidRejected { auction_id, simulated_bid_lamports, msg: _ } =>
                Some(
                    BundleRejectionError::StateAuctionBidRejected(
                        auction_id,
                        simulated_bid_lamports,
                    ),
                ),
            RejectionReason::SimulationFailure { tx_signature, msg } => match msg {
                Some(message) => if same_text(message.as_str(), ALREADY_PROCESSED) {
                    None
                } else {
                    Some(BundleRejectionError::SimulationFailure(tx_signature, Some(message)))
                },
                None => None,
            },
            RejectionReason::InternalError { msg } => Some(
                BundleRejectionError::InternalError(msg),
            ),
            RejectionReason::DroppedBundle { msg: _ } => None,
        },
        _ => None,
    }
}

/// Why sending a bundle came to nothing.
#[derive(Debug, PartialEq, Eq)]
pub enum BundleError {
    /// The block engine refused the request with this status code and message.
    Status { code: i32, message: String },
    /// The bundle was sent and not taken.
    Rejected(BundleRejectionError),
}

/// What a [`BundleError`] says, as a mathematical value.
pub enum BundleErrorView {
    Status { code: i32, message: Seq<char> },
    Rejected(RejectionView),
}

impl View for BundleError {
    type V = BundleErrorView;

    open spec fn view(&self) -> BundleErrorView {
        match *self {
            BundleError::Status { code, message } => BundleErrorView::Status {
                code,
                message: message@,
            },
            BundleError::Rejected(rejection) => BundleErrorView::Rejected(rejection@),
        }
    }
}

/// Every transaction carries a signature.
pub open spec fn all_signed(transactions: Seq<SignedTransaction>) -> bool {
    forall|i: int|
        0 <= i < transactions.len() ==> (#[trigger] transactions[i]).signatures@.len() > 0
}

/// Transactions are all signed exactly if each list of signatures has a first one.
pub proof fn lemma_all_signed_means_each(transactions: Seq<SignedTransaction>)
    ensures
        all_signed(transactions) <==> forall|i: int|
            0 <= i < transactions.len() ==> (#[trigger] transactions[i]).signatures@.len() >= 1,
{
}

/// The signature that each transaction of a bundle is known by: its first.
pub open spec fn first_signatures(transactions: Seq<SignedTransaction>) -> Seq<Signature> {
    transactions.map_values(|tx: SignedTransaction| tx.signatures@[0])
}

/// The signature that each transaction of a bundle is known by: its first.
pub fn bundle_signatures(transactions: &Vec<SignedTransaction>) -> (r: Vec<Signature>)
    requires
        all_signed(transactions@),
    ensures
        r@ == first_signatures(transactions@),
        r@.len() == transactions@.len(),
        forall|i: int|
            0 <= i < transactions@.len() ==> #[trigger] r@[i] == transactions@[i].signatures@[0],
{
    let mut signatures: Vec<Signature> = Vec::new();
    let mut i: usize = 0;
    while i < transactions.len()
        invariant
            i <= transactions@.len(),
            all_signed(transactions@),
            signatures@.len() == i,
            forall|k: int|
                0 <= k < i ==> #[trigger] signatures@[k] == transactions@[k].signatures@[0],
        decreases transactions@.len() - i,
    {
        signatures.push(transactions[i].signatures[0]);
        i += 1;
    }
    assert(signatures@ =~= first_signatures(transactions@));
    signatures
}

/// What the network says of a transaction.
#[derive(Clone, Copy, Debug, PartialEq, Eq, Structural)]
pub enum StatusReply {
    /// It did not answer.
    Unavailable,
    /// It does not know the transaction.
    Unknown,
    /// The transaction was executed and failed.
    Failed,
    /// The transaction was executed.
    Landed,
}

/// How far sending a bundle has come.
#[derive(Clone, Copy, Debug, PartialEq, Eq, Structural)]
pub enum BundleState {
    /// The bundle is on its way to the block engine.
    Sending,
    /// Results are awaited for this many milliseconds.
    Listening { time_left: u64 },
    /// A result that settles nothing was handled; `time_left` was left when it came.
    Handling { time_left: u64 },
    /// The network is asked about every transaction.
    Confirming,
    /// It is known what came of the bundle.
    Ended,
}

/// What happened to a bundle.
pub enum BundleEvent {
    /// The block engine refused the request with this status code and message.
    SendFailed { code: i32, message: String },
    /// The block engine has the bundle.
    Sent,
    /// The block engine reported a result.
    Reported { result: Option<BundleResult> },
    /// Handling a result took this many milliseconds.
    Handled { elapsed_ms: u64 },
    /// The time was over, or the stream of results ended or failed.
    Silent,
    /// The network answered for every transaction, in the order they were asked about.
    Answered { replies: Vec<StatusReply> },
}

/// What to do about a bundle.
#[derive(Debug, PartialEq, Eq)]
pub enum BundleAction {
    /// Await a result for this many milliseconds.
    Listen { timeout_ms: u64 },
    /// Say how long handling the result took.
    Measure,
    /// Ask the network about the transactions with these signatures.
    QueryStatuses { signatures: Vec<Signature> },
    /// All transactions landed.
    Land,
    /// The bundle came to nothing.
    Fail(BundleError),
    /// Handling took longer than there was time; give up.
    Abort,
}

/// What a [`BundleAction`] says, as a mathematical value.
pub enum BundleActionView {
    Listen { timeout_ms: u64 },
    Measure,
    QueryStatuses { signatures: Seq<Signature> },
    Land,
    Fail(BundleErrorView),
    Abort,
}

impl View for BundleAction {
    type V = BundleActionView;

    open spec fn view(&self) -> BundleActionView {
        match *self {
            BundleAction::Listen { timeout_ms } => BundleActionView::Listen { timeout_ms },
            BundleAction::Measure => BundleActionView::Measure,
            BundleAction::QueryStatuses { signatures } => BundleActionView::QueryStatuses {
                signatures: signatures@,
            },
            BundleAction::Land => BundleActionView::Land,
            BundleAction::Fail(error) => BundleActionView::Fail(error@),
            BundleAction::Abort => BundleActionView::Abort,
        }
    }
}

/// The milliseconds that results are awaited for.
pub const RESULT_WAIT_MS: u64 = 5000;

/// Reported when the transactions of a bundle did not all land.
pub const NO_STATUS_IN_TIME: &'static str = "Searcher service did not provide bundle status in time";

/// `event` is one that can follow in `state`, for a bundle of `count` transactions.
pub open spec fn can_follow(count: nat, state: BundleState, event: BundleEvent) -> bool {
    match state {
        BundleState::Sending => event is SendFailed || event is Sent,
        BundleState::Listening { .. } => event is Reported || event is Silent,
        BundleState::Handling { .. } => event is Handled,
        BundleState::Confirming => event is Answered && event->replies@.len() == count,
        BundleState::Ended => false,
    }
}

/// Every transaction landed.
pub open spec fn all_landed(replies: Seq<StatusReply>) -> bool {
    forall|i: int| 0 <= i < replies.len() ==> #[trigger] replies[i] == StatusReply::Landed
}

/// What follows on `event`: a rejection ends the matter at once, anything else that is reported
/// only uses up time, and when nothing more is heard the network decides.
pub open spec fn bundle_step(
    transactions: Seq<SignedTransaction>,
    state: BundleState,
    event: BundleEvent,
) -> (BundleState, BundleActionView) {
    match (state, event) {
        (BundleState::Sending, BundleEvent::SendFailed { code, message }) => (
            BundleState::Ended,
            BundleActionView::Fail(BundleErrorView::Status { code, message: message@ }),
        ),
        (BundleState::Sending, BundleEvent::Sent) => (
            BundleState::Listening { time_left: RESULT_WAIT_MS },
            BundleActionView::Listen { timeout_ms: RESULT_WAIT_MS },
        ),
        (BundleState::Listening { time_left }, BundleEvent::Reported { result }) => match rejection_in(
            result,
        ) {
            Some(rejection) => (
                BundleState::Ended,
                BundleActionView::Fail(BundleErrorView::Rejected(rejection)),
            ),
            None => (BundleState::Handling { time_left }, BundleActionView::Measure),
        },
        (BundleState::Handling { time_left }, BundleEvent::Handled { elapsed_ms }) => if elapsed_ms
            <= time_left {
            let rest = (time_left - elapsed_ms) as u64;
            (
                BundleState::Listening { time_left: rest },
                BundleActionView::Listen { timeout_ms: rest },
            )
        } else {
            (BundleState::Ended, BundleActionView::Abort)
        },
        (BundleState::Listening { .. }, BundleEvent::Silent) => (
            BundleState::Confirming,
            BundleActionView::QueryStatuses { signatures: first_signatures(transactions) },
        ),
        (BundleState::Confirming, BundleEvent::Answered { replies }) => if all_landed(replies@) {
            (BundleState::Ended, BundleActionView::Land)
        } else {
            (
                BundleState::Ended,
                BundleActionView::Fail(
                    BundleErrorView::Rejected(RejectionView::InternalError(NO_STATUS_IN_TIME@)),
                ),
            )
        },
        _ => (BundleState::Ended, BundleActionView::Abort),
    }
}

/// Whether every transaction landed.
fn every_landed(replies: &Vec<StatusReply>) -> (r: bool)
    ensures
        r == all_landed(replies@),
{
    let mut i: usize = 0;
    while i < replies.len()
        invariant
            i <= replies@.len(),
            forall|k: int| 0 <= k < i ==> #[trigger] replies@[k] == StatusReply::Landed,
        decreases replies@.len() - i,
    {
        if replies[i] != StatusReply::Landed {
            return false;
        }
        i += 1;
    }
    true
}

/// Takes one event in the life of a bundle of `transactions` into account and says what to do
/// next. A bundle begins in [`BundleState::Sending`].
pub fn send_bundle_with_confirmation(
    transactions: &Vec<SignedTransaction>,
    state: BundleState,
    event: BundleEvent,
) -> (r: (BundleState, BundleAction))
    requires
        all_signed(transactions@),
        can_follow(transactions@.len(), state, event),
    ensures
        (r.0, r.1@) == bundle_step(transactions@, state, event),
        event matches BundleEvent::SendFailed { code, message } ==> {
            &&& r.0 == BundleState::Ended
            &&& r.1 matches BundleAction::Fail(BundleError::Status { code: c, message: m })
            &&& c == code
            &&& m@ == message@
        },
        event is Sent ==> r.0 == (BundleState::Listening { time_left: 5000 }) && r.1 == (
        BundleAction::Listen { timeout_ms: 5000 }),
        event is Silent ==> {
            &&& r.0 == BundleState::Confirming
            &&& r.1 matches BundleAction::QueryStatuses { signatures }
            &&& signatures@.len() == transactions@.len()
            &&& forall|i: int|
                0 <= i < transactions@.len() ==> #[trigger] signatures@[i]
                    == transactions@[i].signatures@[0]
        },
        event matches BundleEvent::Reported { result } ==> match rejection_in(result) {
            Some(rejection) => {
                &&& r.0 == BundleState::Ended
                &&& r.1 matches BundleAction::Fail(BundleError::Rejected(e))
                &&& e@ == rejection
            },
            None => r.0 == (BundleState::Handling { time_left: state->Listening_time_left })
                && r.1 is Measure,
        },
        event matches BundleEvent::Handled { elapsed_ms } ==> (if elapsed_ms
            <= state->Handling_time_left {
            &&& r.0 matches BundleState::Listening { time_left }
            &&& time_left + elapsed_ms == state->Handling_time_left
            &&& r.1 matches BundleAction::Listen { timeout_ms }
            &&& timeout_ms == time_left
        } else {
            r.0 == BundleState::Ended && r.1 is Abort
        }),
        event matches BundleEvent::Answered { replies } ==> {
            &&& r.0 == BundleState::Ended
            &&& r.1 is Land <==> forall|i: int|
                0 <= i < transactions@.len() ==> #[trigger] replies@[i] == StatusReply::Landed
            &&& !(r.1 is Land) ==> {
                &&& r.1 matches BundleAction::Fail(
                    BundleError::Rejected(BundleRejectionError::InternalError(m)),
                )
                &&& m@ == "Searcher service did not provide bundle status in time"@
            }
        },
{
    match state {
        BundleState::Sending => match event {
            BundleEvent::SendFailed { code, message } => (
                BundleState::Ended,
                BundleAction::Fail(BundleError::Status { code, message }),
            ),
            _ => (
                BundleState::Listening { time_left: RESULT_WAIT_MS },
                BundleAction::Listen { timeout_ms: RESULT_WAIT_MS },
            ),
        },
        BundleState::Listening { time_left } => match event {
            BundleEvent::Reported { result } => match rejection_of(result) {
                Some(rejection) => (
                    BundleState::Ended,
                    BundleAction::Fail(BundleError::Rejected(rejection)),
                ),
                None => (BundleState::Handling { time_left }, BundleAction::Measure),
            },
            _ => (
                BundleState::Confirming,
                BundleAction::QueryStatuses { signatures: bundle_signatures(transactions) },
            ),
        },
        BundleState::Handling { time_left } => match event {
            BundleEvent::Handled { elapsed_ms } if elapsed_ms <= time_left => {
                let rest: u64 = time_left - elapsed_ms;
                (
                    BundleState::Listening { time_left: rest },
                    BundleAction::Listen { timeout_ms: rest },
                )
            },
            _ => (BundleState::Ended, BundleAction::Abort),
        },
        BundleState::Confirming => match event {
            BundleEvent::Answered { replies } if every_landed(&replies) => (
                BundleState::Ended,
                BundleAction::Land,
            ),
            _ => (
                BundleState::Ended,
                BundleAction::Fail(
                    BundleError::Rejected(
                        BundleRejectionError::InternalError(NO_STATUS_IN_TIME.to_owned()),
                    ),
                ),
            ),
        },
        BundleState::Ended => (BundleState::Ended, BundleAction::Abort),
    }
}

/// The state after a run of events that began with sending, if each could follow.
pub open spec fn state_after(
    transactions: Seq<SignedTransaction>,
    events: Seq<BundleEvent>,
) -> Option<BundleState>
    decreases events.len(),
{
    if events.len() == 0 {
        Some(BundleState::Sending)
    } else {
        match state_after(transactions, events.drop_last()) {
            Some(state) if can_follow(transactions.len(), state, events.last()) => Some(
                bundle_step(transactions, state, events.last()).0,
            ),
            _ => None,
        }
    }
}

/// A run goes on only over reports that reject nothing.
pub proof fn lemma_no_rejection_while_running(
    transactions: Seq<SignedTransaction>,
    events: Seq<BundleEvent>,
    at: int,
)
    requires
        state_after(transactions, events) matches Some(state) && state != BundleState::Ended,
        0 <= at < events.len(),
        events[at] is Reported,
    ensures
        rejection_in(events[at]->result) is None,
    decreases events.len(),
{
    let shorter = events.drop_last();
    if at < shorter.len() {
        assert(shorter[at] == events[at]);
        lemma_no_rejection_while_running(transactions, shorter, at);
    }
}

/// A bundle counts as landed only when the network says so of every transaction, and nothing
/// that was reported before rejected it.
pub proof fn lemma_landed_means_confirmed(
    transactions: Seq<SignedTransaction>,
    events: Seq<BundleEvent>,
    state: BundleState,
    last: BundleEvent,
)
    requires
        state_after(transactions, events) == Some(state),
        can_follow(transactions.len(), state, last),
        bundle_step(transactions, state, last).1 is Land,
    ensures
        last is Answered,
        last->replies@.len() == transactions.len(),
        all_landed(last->replies@),
        forall|k: int|
            0 <= k < events.len() && (#[trigger] events[k]) is Reported ==> rejection_in(
                events[k]->result,
            ) is None,
{
    assert forall|k: int|
        0 <= k < events.len() && (#[trigger] events[k]) is Reported implies rejection_in(
        events[k]->result,
    ) is None by {
        lemma_no_rejection_while_running(transactions, events, k);
    }
}

/// A reported rejection is what the caller gets, at once and unchanged.
pub proof fn lemma_rejection_is_passed_on(
    transactions: Seq<SignedTransaction>,
    time_left: u64,
    result: Option<BundleResult>,
)
    requires
        rejection_in(result) is Some,
    ensures
        bundle_step(
            transactions,
            BundleState::Listening { time_left },
            BundleEvent::Reported { result },
        ) == (
            BundleState::Ended,
            BundleActionView::Fail(BundleErrorView::Rejected(rejection_in(result)->0)),
        ),
{
}

/// A refused request is what the caller gets, with the same status code and message: no result is
/// awaited, and the network is not asked.
pub proof fn lemma_refusal_is_passed_on(
    transactions: Seq<SignedTransaction>,
    code: i32,
    message: String,
)
    ensures
        bundle_step(
            transactions,
            BundleState::Sending,
            BundleEvent::SendFailed { code, message },
        ) == (
            BundleState::Ended,
            BundleActionView::Fail(BundleErrorView::Status { code, message: message@ }),
        ),
{
}

/// What a report amounts to. A lost auction, a failed simulation with a message and an internal
/// error are rejections and keep what the block engine said. A simulation that failed because the
/// transaction had landed, or without a message, and every other report reject nothing.
pub proof fn lemma_reports_that_reject(
    auction: String,
    bid: u64,
    note: Option<String>,
    tx: String,
    message: String,
    slot: u64,
    identity: String,
)
    ensures
        ({
            let made_of = |reason: RejectionReason| rejection_in(
                Some(BundleResult::Rejected { reason: Some(reason) }),
            );
            &&& made_of(
                RejectionReason::StateAuctionBidRejected {
                    auction_id: auction,
                    simulated_bid_lamports: bid,
                    msg: note,
                },
            ) == Some(RejectionView::StateAuctionBidRejected(auction@, bid))
            &&& made_of(
                RejectionReason::WinningBatchBidRejected {
                    auction_id: auction,
                    simulated_bid_lamports: bid,
                    msg: note,
                },
            ) == Some(RejectionView::WinningBatchBidRejected(auction@, bid))
            &&& made_of(RejectionReason::InternalError { msg: message }) == Some(
                RejectionView::InternalError(message@),
            )
            &&& message@ != "This transaction has already been processed"@ ==> made_of(
                RejectionReason::SimulationFailure { tx_signature: tx, msg: Some(message) },
            ) == Some(RejectionView::SimulationFailure(tx@, Some(message@)))
            &&& message@ == "This transaction has already been processed"@ ==> made_of(
                RejectionReason::SimulationFailure { tx_signature: tx, msg: Some(message) },
            ) is None
            &&& made_of(RejectionReason::SimulationFailure { tx_signature: tx, msg: None }) is None
            &&& made_of(RejectionReason::DroppedBundle { msg: message }) is None
            &&& rejection_in(Some(BundleResult::Rejected { reason: None })) is None
            &&& rejection_in(
                Some(BundleResult::Accepted { slot, validator_identity: identity }),
            ) is None
            &&& rejection_in(Some(BundleResult::Other)) is None
            &&& rejection_in(None) is None
        }),
{
}

/// Every event that a state waits for can follow in it, however much time is left.
pub proof fn lemma_what_can_follow(
    time_left: u64,
    code: i32,
    message: String,
    result: Option<BundleResult>,
    elapsed_ms: u64,
    replies: Vec<StatusReply>,
)
    ensures
        ({
            let count = replies@.len();
            &&& can_follow(count, BundleState::Sending, BundleEvent::Sent)
            &&& can_follow(count, BundleState::Sending, BundleEvent::SendFailed { code, message })
            &&& can_follow(
                count,
                BundleState::Listening { time_left },
                BundleEvent::Reported { result },
            )
            &&& can_follow(count, BundleState::Listening { time_left }, BundleEvent::Silent)
            &&& can_follow(
                count,
                BundleState::Handling { time_left },
                BundleEvent::Handled { elapsed_ms },
            )
            &&& can_follow(count, BundleState::Confirming, BundleEvent::Answered { replies })
        }),
{
}

/// Silence settles nothing: however much time was left, the network is asked next, about the first
/// signature of each transaction, in order.
pub proof fn lemma_silence_asks_network(
    transactions: Seq<SignedTransaction>,
    time_left: u64,
)
    ensures
        ({
            let (next, action) = bundle_step(
                transactions,
                BundleState::Listening { time_left },
                BundleEvent::Silent,
            );
            &&& next == BundleState::Confirming
            &&& action matches BundleActionView::QueryStatuses { signatures }
            &&& signatures.len() == transactions.len()
            &&& forall|i: int|
                0 <= i < transactions.len() ==> #[trigger] signatures[i]
                    == transactions[i].signatures@[0]
        }),
{
}

/// The network's answer settles the matter: the bundle landed exactly if every reply is that the
/// transaction landed, and otherwise it fails for want of a status.
pub proof fn lemma_answer_decides(transactions: Seq<SignedTransaction>, replies: Vec<StatusReply>)
    ensures
        ({
            let (next, action) = bundle_step(
                transactions,
                BundleState::Confirming,
                BundleEvent::Answered { replies },
            );
            &&& next == BundleState::Ended
            &&& action is Land <==> forall|i: int|
                0 <= i < replies@.len() ==> #[trigger] replies@[i] == StatusReply::Landed
            &&& !(action is Land) ==> action == BundleActionView::Fail(
                BundleErrorView::Rejected(
                    RejectionView::InternalError(
                        "Searcher service did not provide bundle status in time"@,
                    ),
                ),
            )
        }),
{
}

/// What was reported without rejecting anything costs the time that it took to handle and nothing
/// else; only what takes longer than there is time ends the run.
pub proof fn lemma_handling_costs_its_time(
    transactions: Seq<SignedTransaction>,
    time_left: u64,
    result: Option<BundleResult>,
    elapsed_ms: u64,
)
    ensures
        rejection_in(result) is None ==> bundle_step(
            transactions,
            BundleState::Listening { time_left },
            BundleEvent::Reported { result },
        ) == (BundleState::Handling { time_left }, BundleActionView::Measure),
        ({
            let (next, action) = bundle_step(
                transactions,
                BundleState::Handling { time_left },
                BundleEvent::Handled { elapsed_ms },
            );
            &&& elapsed_ms <= time_left ==> {
                &&& next matches BundleState::Listening { time_left: rest }
                &&& rest + elapsed_ms == time_left
                &&& action == (BundleActionView::Listen { timeout_ms: rest })
            }
            &&& elapsed_ms > time_left ==> next == BundleState::Ended && action is Abort
        }),
{
}

/// The run that begins with a bundle that was sent, and in which each of `reports` came in and was
/// handled in so many milliseconds.
pub open spec fn run_of(reports: Seq<(Option<BundleResult>, u64)>) -> Seq<BundleEvent>
    decreases reports.len(),
{
    if reports.len() == 0 {
        seq![BundleEvent::Sent]
    } else {
        let (result, elapsed_ms) = reports.last();
        run_of(reports.drop_last()).push(BundleEvent::Reported { result }).push(
            BundleEvent::Handled { elapsed_ms },
        )
    }
}

/// The milliseconds that handling `reports` took.
pub open spec fn time_of(reports: Seq<(Option<BundleResult>, u64)>) -> nat
    decreases reports.len(),
{
    if reports.len() == 0 {
        0
    } else {
        time_of(reports.drop_last()) + reports.last().1 as nat
    }
}

/// However many reports come in, as long as none rejects the bundle and handling them takes five
/// seconds at most, results are still awaited, for the rest of the five seconds.
pub proof fn lemma_patient_run_listens(
    transactions: Seq<SignedTransaction>,
    reports: Seq<(Option<BundleResult>, u64)>,
)
    requires
        forall|k: int| 0 <= k < reports.len() ==> rejection_in((#[trigger] reports[k]).0) is None,
        time_of(reports) <= 5000,
    ensures
        state_after(transactions, run_of(reports)) matches Some(BundleState::Listening { time_left })
            && time_left + time_of(reports) == 5000,
    decreases reports.len(),
{
    reveal_with_fuel(state_after, 3);
    if reports.len() == 0 {
        assert(run_of(reports).drop_last() =~= seq![]);
    } else {
        let shorter = reports.drop_last();
        assert forall|k: int| 0 <= k < shorter.len() implies rejection_in(
            (#[trigger] shorter[k]).0,
        ) is None by {
            assert(shorter[k] == reports[k]);
        }
        lemma_patient_run_listens(transactions, shorter);
        let (result, elapsed_ms) = reports.last();
        assert(rejection_in(reports[reports.len() - 1].0) is None);
        let reported = run_of(shorter).push(BundleEvent::Reported { result });
        assert(reported.drop_last() =~= run_of(shorter));
        assert(reported.push(BundleEvent::Handled { elapsed_ms }).drop_last() =~= reported);
    }
}

/// A bundle that was not rejected lands if the network says so: a run of reports that reject
/// nothing and were handled in time, then silence, then an answer of landed for every transaction
/// ends with the bundle landed.
pub proof fn lemma_confirmed_bundle_lands(
    transactions: Seq<SignedTransaction>,
    reports: Seq<(Option<BundleResult>, u64)>,
    replies: Vec<StatusReply>,
)
    requires
        forall|k: int| 0 <= k < reports.len() ==> rejection_in((#[trigger] reports[k]).0) is None,
        time_of(reports) <= 5000,
        replies@.len() == transactions.len(),
        forall|i: int| 0 <= i < replies@.len() ==> #[trigger] replies@[i] == StatusReply::Landed,
    ensures
        ({
            let events = run_of(reports).push(BundleEvent::Silent);
            let last = BundleEvent::Answered { replies };
            &&& state_after(transactions, events) == Some(BundleState::Confirming)
            &&& can_follow(transactions.len(), BundleState::Confirming, last)
            &&& bundle_step(transactions, BundleState::Confirming, last).1 is Land
            &&& state_after(transactions, events.push(last)) == Some(BundleState::Ended)
        }),
{
    lemma_patient_run_listens(transactions, reports);
    let events = run_of(reports).push(BundleEvent::Silent);
    let last = BundleEvent::Answered { replies };
    assert(events.drop_last() =~= run_of(reports));
    assert(events.push(last).drop_last() =~= events);
}

/// Whatever fails has a cause: a refused request, a reported rejection, or a reply that a
/// transaction has not landed. The want of a status is only ever told after the network was asked,
/// unless the block engine itself used these words. A run is broken off only where handling took
/// longer than there was time.
pub proof fn lemma_failure_has_a_cause(
    transactions: Seq<SignedTransaction>,
    state: BundleState,
    event: BundleEvent,
)
    requires
        can_follow(transactions.len(), state, event),
    ensures
        bundle_step(transactions, state, event).1 is Fail ==> {
            ||| event is SendFailed
            ||| event matches BundleEvent::Reported { result } && rejection_in(result) is Some
            ||| event matches BundleEvent::Answered { replies } && exists|i: int|
                0 <= i < transactions.len() && #[trigger] replies@[i] != StatusReply::Landed
        },
        bundle_step(transactions, state, event).1 == BundleActionView::Fail(
            BundleErrorView::Rejected(
                RejectionView::InternalError(
                    "Searcher service did not provide bundle status in time"@,
                ),
            ),
        ) ==> event is Answered || event is Reported,
        bundle_step(transactions, state, event).1 is Abort ==> {
            &&& state matches BundleState::Handling { time_left }
            &&& event matches BundleEvent::Handled { elapsed_ms }
            &&& elapsed_ms > time_left
        },
{
}

/// The milliseconds that handling results took in a run of events.
pub open spec fn handling_time(events: Seq<BundleEvent>) -> nat
    decreases events.len(),
{
    if events.len() == 0 {
        0
    } else {
        handling_time(events.drop_last()) + (match events.last() {
            BundleEvent::Handled { elapsed_ms } => elapsed_ms as nat,
            _ => 0,
        })
    }
}

/// The time left for results is what there was at first less the time that handling them took.
pub proof fn lemma_time_is_accounted_for(
    transactions: Seq<SignedTransaction>,
    events: Seq<BundleEvent>,
)
    ensures
        state_after(transactions, events) matches Some(BundleState::Listening { time_left }) ==> time_left
            + handling_time(events) == RESULT_WAIT_MS,
        state_after(transactions, events) matches Some(BundleState::Handling { time_left }) ==> time_left
            + handling_time(events) == RESULT_WAIT_MS,
        state_after(transactions, events) == Some(BundleState::Sending) ==> handling_time(events) == 0,
    decreases events.len(),
{
    if events.len() > 0 {
        lemma_time_is_accounted_for(transactions, events.drop_last());
    }
}

/// Nothing follows once it is known what came of a bundle.
pub proof fn lemma_ended_is_final(
    transactions: Seq<SignedTransaction>,
    events: Seq<BundleEvent>,
    event: BundleEvent,
)
    requires
        state_after(transactions, events) == Some(BundleState::Ended),
    ensures
        state_after(transactions, events.push(event)) is None,
{
    assert(events.push(event).drop_last() =~= events);
}

/// The cluster that a node's address belongs to.
pub open spec fn cluster_in(url: Seq<char>) -> Seq<char> {
    if occurs_in("testnet"@, url) {
        "testnet"@
    } else if occurs_in("devnet"@, url) {
        "devnet"@
    } else {
        "mainnet"@
    }
}

/// The cluster that a node's address belongs to, as the explorer names it.
pub fn cluster_of(url: &str) -> (r: &'static str)
    ensures
        r@ == cluster_in(url@),
        occurs_in("testnet"@, url@) ==> r@ == "testnet"@,
        !occurs_in("testnet"@, url@) && occurs_in("devnet"@, url@) ==> r@ == "devnet"@,
        !occurs_in("testnet"@, url@) && !occurs_in("devnet"@, url@) ==> r@ == "mainnet"@,
{
    if contains_text(url, "testnet") {
        "testnet"
    } else if contains_text(url, "devnet") {
        "devnet"
    } else {
        "mainnet"
    }
}

/// How Solana writes a signature: in base 58.
pub uninterp spec fn signature_text(signature: Seq<u8>) -> Seq<char>;

/// Calls `to_string` on a `solana_sdk::signature::Signature`. Claimed of it: what it writes
/// depends on the bytes alone.
#[verifier::external_body]
fn write_signature(signature: &Signature) -> (r: String)
    ensures
        r@ == signature_text(signature@),
{
    solana_sdk::signature::Signature::from(*signature).to_string()
}

/// Where the explorer shows a transaction, given how its signature is written.
pub open spec fn link_text(signature: Seq<char>, cluster: Seq<char>) -> Seq<char> {
    "https://solscan.io/tx/"@ + signature + "?cluster="@ + cluster
}

/// Where the explorer shows a transaction, given how its signature is written.
pub fn explorer_link(signature: &str, cluster: &str) -> (r: String)
    ensures
        r@ == link_text(signature@, cluster@),
        r@ == "https://solscan.io/tx/"@ + signature@ + "?cluster="@ + cluster@,
{
    "https://solscan.io/tx/".to_owned().concat(signature).concat("?cluster=").concat(cluster)
}

/// Where the explorer shows the transactions of a bundle that a node at `url` confirmed.
pub fn explorer_links(signatures: &Vec<Signature>, url: &str) -> (r: Vec<String>)
    ensures
        r@.len() == signatures@.len(),
        forall|i: int|
            0 <= i < signatures@.len() ==> (#[trigger] r@[i])@ == link_text(
                signature_text(signatures@[i]@),
                cluster_in(url@),
            ),
{
    let cluster = cluster_of(url);
    let mut links: Vec<String> = Vec::new();
    let mut i: usize = 0;
    while i < signatures.len()
        invariant
            cluster@ == cluster_in(url@),
            i <= signatures@.len(),
            links@.len() == i,
            forall|k: int|
                0 <= k < i ==> (#[trigger] links@[k])@ == link_text(
                    signature_text(signatures@[k]@),
                    cluster_in(url@),
                ),
        decreases signatures@.len() - i,
    {
        let written = write_signature(&signatures[i]);
        links.push(explorer_link(written.as_str(), cluster));
        i += 1;
    }
    links
}

} // verus!
