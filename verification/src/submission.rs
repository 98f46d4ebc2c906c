//! Submitting instructions as a bundle: what goes into the transaction, when it is sent, and when
//! it is sent again.

use crate::bundle::{BundleError, BundleErrorView, BundleRejectionError};
use crate::chain::{
    bribe_ix_to, random_index, set_compute_unit_limit, set_compute_unit_price,
    transfer_instruction, unit_limit_instruction, unit_price_instruction, views, Instruction,
    InstructionView, JITO_RECIPIENTS,
};
use crate::miner::Miner;
use crate::text::same_text;
use crate::tips::{tip_for, JitoTips};
use crate::transaction::{
    compiled_message, ed25519_signature, lemma_signs_what_was_asked, must_sign, refers, signed_transaction, signing_outcome, sole_signer, Blockhash, Keypair,
    Signature, SignedTransaction, SigningError,
};
use vstd::prelude::*;

verus! {

/// How many compute units a transaction asks for.
#[derive(Clone, Copy, Debug, PartialEq, Eq, Structural)]
pub enum ComputeBudget {
    /// As many as a transaction can get.
    Dynamic,
    /// This many.
    Fixed(u32),
}

/// The most compute units that a transaction can get.
pub const MAX_COMPUTE_UNITS: u32 = 1_400_000;

/// The compute units that a budget asks for.
pub open spec fn units_of(budget: ComputeBudget) -> u32 {
    match budget {
        ComputeBudget::Dynamic => MAX_COMPUTE_UNITS,
        ComputeBudget::Fixed(units) => units,
    }
}

/// What is to be submitted, and for whom.
pub struct Order {
    pub ixs: Vec<Instruction>,
    pub compute_budget: ComputeBudget,
    /// The key that pays and signs.
    pub keypair: Keypair,
    /// The payer has to own more lamports than this.
    pub min_balance: u64,
}

/// The instructions of the transaction: the compute budget, what was ordered, and the tip.
pub open spec fn full_instructions(
    priority_fee: u64,
    order: Order,
    tip: u64,
    choice: int,
) -> Seq<InstructionView> {
    seq![
        unit_limit_instruction(units_of(order.compute_budget)),
        unit_price_instruction(priority_fee),
    ] + views(order.ixs@) + seq![
        transfer_instruction(order.keypair.pubkey, JITO_RECIPIENTS@[choice], tip),
    ]
}

impl Miner {
    /// The instructions of the transaction: the compute budget, what was ordered, and the tip.
    pub fn full_instructions(&self, order: &Order, tip: u64, choice: usize) -> (r: Vec<Instruction>)
        requires
            choice < JITO_RECIPIENTS@.len(),
        ensures
            views(r@) == full_instructions(self.priority_fee, *order, tip, choice as int),
            r@.len() == order.ixs@.len() + 3,
            r@[0]@ == unit_limit_instruction(
                match order.compute_budget {
                    ComputeBudget::Dynamic => 1_400_000,
                    ComputeBudget::Fixed(units) => units,
                },
            ),
            r@[1]@ == unit_price_instruction(self.priority_fee),
            forall|i: int| 0 <= i < order.ixs@.len() ==> r@[2 + i]@ == (#[trigger] order.ixs@[i])@,
            r@.last()@ == transfer_instruction(
                order.keypair.pubkey,
                JITO_RECIPIENTS@[choice as int],
                tip,
            ),
    {
        let units = match order.compute_budget {
            ComputeBudget::Dynamic => MAX_COMPUTE_UNITS,
            ComputeBudget::Fixed(units) => units,
        };
        let mut ixs: Vec<Instruction> = Vec::new();
        ixs.push(set_compute_unit_limit(units));
        ixs.push(set_compute_unit_price(self.priority_fee));
        let ghost head = seq![
            unit_limit_instruction(units_of(order.compute_budget)),
            unit_price_instruction(self.priority_fee),
        ];
        assert(views(ixs@) =~= head + views(order.ixs@).take(0));
        let mut i: usize = 0;
        while i < order.ixs.len()
            invariant
                i <= order.ixs@.len(),
                views(ixs@) == head + views(order.ixs@).take(i as int),
            decreases order.ixs@.len() - i,
        {
            let ghost before = views(ixs@);
            ixs.push(order.ixs[i].duplicate());
            proof {
                let ordered = views(order.ixs@);
                assert(views(ixs@) =~= before.push(ordered[i as int]));
                assert(ordered.take(i + 1) =~= ordered.take(i as int).push(ordered[i as int]));
                assert(views(ixs@) =~= head + ordered.take(i + 1));
            }
            i += 1;
        }
        assert(views(order.ixs@).take(i as int) =~= views(order.ixs@));
        let ghost before = views(ixs@);
        ixs.push(bribe_ix_to(&order.keypair.pubkey, tip, choice));
        assert(views(ixs@) =~= before.push(
            transfer_instruction(order.keypair.pubkey, JITO_RECIPIENTS@[choice as int], tip),
        ));
        assert(views(ixs@) =~= full_instructions(self.priority_fee, *order, tip, choice as int));
        proof {
            let said = views(ixs@);
            assert(said[0] == ixs@[0]@);
            assert(said[1] == ixs@[1]@);
            assert(said.last() == ixs@.last()@);
            assert forall|i: int| 0 <= i < order.ixs@.len() implies ixs@[2 + i]@ == (
            #[trigger] order.ixs@[i])@ by {
                assert(said[2 + i] == ixs@[2 + i]@);
                assert(said[2 + i] == views(order.ixs@)[i]);
            }
        }
        ixs
    }
}

/// The regions whose leaders are asked for.
pub fn leader_regions() -> (r: Vec<String>)
    ensures
        r@.len() == 5,
        r@[0]@ == "tokyo"@,
        r@[1]@ == "amsterdam"@,
        r@[2]@ == "frankfurt"@,
        r@[3]@ == "ny"@,
        r@[4]@ == "slc"@,
{
    let mut regions: Vec<String> = Vec::new();
    regions.push("tokyo".to_owned());
    regions.push("amsterdam".to_owned());
    regions.push("frankfurt".to_owned());
    regions.push("ny".to_owned());
    regions.push("slc".to_owned());
    regions
}

/// How far a submission has come.
#[derive(Clone, Copy, Debug, PartialEq, Eq, Structural)]
pub enum Stage {
    /// The payer's balance is asked for.
    CheckingBalance,
    /// The current tips are looked up.
    ReadingTips,
    /// The results of bundles are subscribed to.
    Subscribing,
    /// The next Jito leader is asked for.
    AskingLeader,
    /// A pause after asking; `leads` tells whether a Jito leader is near.
    Pausing { leads: bool },
    /// The latest blockhash is asked for.
    FetchingBlockhash,
    /// The bundle is sent for the time that `attempt` counts.
    Submitting { attempt: u64 },
    /// A pause after the attempt that `attempt` counts came to nothing.
    BackingOff { attempt: u64 },
    /// It is known what came of the submission.
    Ended,
}

/// A submission under way.
pub struct Submission {
    pub stage: Stage,
    /// The instructions of the transaction, once the tip is known.
    pub ixs: Vec<Instruction>,
    /// The bundle, once it is signed.
    pub transactions: Vec<SignedTransaction>,
}

/// What a [`Submission`] amounts to, as a mathematical value.
#[verifier::ext_equal]
pub struct SubmissionView {
    pub stage: Stage,
    pub ixs: Seq<InstructionView>,
    pub transactions: Seq<(Seq<u8>, Seq<Signature>)>,
}

/// The message of each transaction, with its signatures.
pub open spec fn contents(transactions: Seq<SignedTransaction>) -> Seq<(Seq<u8>, Seq<Signature>)> {
    transactions.map_values(|tx: SignedTransaction| (tx.message@, tx.signatures@))
}

impl View for Submission {
    type V = SubmissionView;

    open spec fn view(&self) -> SubmissionView {
        SubmissionView {
            stage: self.stage,
            ixs: views(self.ixs@),
            transactions: contents(self.transactions@),
        }
    }
}

/// The most attempts that are made to send a bundle.
pub const MAX_ATTEMPTS: u64 = 5;

/// The milliseconds between two questions for the leader.
pub const LEADER_POLL_MS: u64 = 500;

/// A leader is near if it is at most this many slots away.
pub const LEADER_SLOTS: u64 = 2;

/// The milliseconds by which each pause after a failed attempt is longer than the one before.
pub const BACKOFF_MS: u64 = 400;

/// The block engine refuses a bundle with this message when its transaction landed earlier.
pub const ALREADY_PROCESSED_STATUS: &'static str =
    "bundle contains an already processed transaction";

impl SubmissionView {
    /// Attempts are counted from one and never beyond the last.
    pub open spec fn well_formed(self) -> bool {
        match self.stage {
            Stage::Submitting { attempt } => 1 <= attempt <= MAX_ATTEMPTS,
            Stage::BackingOff { attempt } => 1 <= attempt <= MAX_ATTEMPTS,
            _ => true,
        }
    }
}

impl Submission {
    /// A submission that is about to begin: the payer's balance is asked for first.
    pub fn begin() -> (r: Submission)
        ensures
            r@ == beginning(),
            r@.well_formed(),
            r.stage == Stage::CheckingBalance,
            r.ixs@.len() == 0,
            r.transactions@.len() == 0,
    {
        let r = Submission {
            stage: Stage::CheckingBalance,
            ixs: Vec::new(),
            transactions: Vec::new(),
        };
        assert(r@ =~= beginning());
        r
    }
}

/// A submission that is about to begin.
pub open spec fn beginning() -> SubmissionView {
    SubmissionView { stage: Stage::CheckingBalance, ixs: seq![], transactions: seq![] }
}

/// What happened to a submission.
pub enum SubmitEvent {
    /// The payer owns this many lamports; `None` if that could not be learnt.
    Balance { lamports: Option<u64> },
    /// These are the current tips.
    Tips { tips: JitoTips },
    /// The results of bundles are subscribed to.
    Subscribed,
    /// The next Jito leader leads at `next_leader_slot`.
    Leader { next_leader_slot: u64, current_slot: u64 },
    /// The pause is over.
    Slept,
    /// This is the latest blockhash.
    Blockhash { blockhash: Blockhash },
    /// The bundle landed, or this came in its way.
    BundleEnded { result: Result<(), BundleError> },
}

/// Why a submission cannot go on.
#[derive(Debug, PartialEq, Eq)]
pub enum AbortReason {
    /// The payer owns too little: this many lamports.
    InsufficientBalance { lamports: u64 },
    /// The tip does not fit into a `u64`.
    TipOverflow,
    /// The next leader's slot is already past.
    LeaderPassed,
    /// The transaction could not be signed.
    Signing(SigningError),
    /// The bundle failed in a way that trying again does not help.
    Bundle(BundleError),
}

/// What an [`AbortReason`] says, as a mathematical value.
pub enum AbortView {
    InsufficientBalance { lamports: u64 },
    TipOverflow,
    LeaderPassed,
    Signing(SigningError),
    Bundle(BundleErrorView),
}

impl View for AbortReason {
    type V = AbortView;

    open spec fn view(&self) -> AbortView {
        match *self {
            AbortReason::InsufficientBalance { lamports } => AbortView::InsufficientBalance {
                lamports,
            },
            AbortReason::TipOverflow => AbortView::TipOverflow,
            AbortReason::LeaderPassed => AbortView::LeaderPassed,
            AbortReason::Signing(error) => AbortView::Signing(error),
            AbortReason::Bundle(error) => AbortView::Bundle(error@),
        }
    }
}

/// What to do about a submission.
#[derive(Debug, PartialEq, Eq)]
pub enum SubmitAction {
    /// Look up the current tips.
    ReadTips,
    /// Subscribe to the results of bundles.
    Subscribe,
    /// Ask for the next Jito leader.
    AskLeader,
    /// Pause for this many milliseconds.
    Sleep { ms: u64 },
    /// Ask for the latest blockhash.
    FetchBlockhash,
    /// Send the bundle.
    Submit { attempt: u64 },
    /// The bundle landed.
    Finish,
    /// The last attempt came to nothing.
    GiveUp,
    /// The submission cannot go on.
    Abort(AbortReason),
}

/// What a [`SubmitAction`] says, as a mathematical value.
pub enum SubmitActionView {
    ReadTips,
    Subscribe,
    AskLeader,
    Sleep { ms: u64 },
    FetchBlockhash,
    Submit { attempt: u64 },
    Finish,
    GiveUp,
    Abort(AbortView),
}

impl View for SubmitAction {
    type V = SubmitActionView;

    open spec fn view(&self) -> SubmitActionView {
        match *self {
            SubmitAction::ReadTips => SubmitActionView::ReadTips,
            SubmitAction::Subscribe => SubmitActionView::Subscribe,
            SubmitAction::AskLeader => SubmitActionView::AskLeader,
            SubmitAction::Sleep { ms } => SubmitActionView::Sleep { ms },
            SubmitAction::FetchBlockhash => SubmitActionView::FetchBlockhash,
            SubmitAction::Submit { attempt } => SubmitActionView::Submit { attempt },
            SubmitAction::Finish => SubmitActionView::Finish,
            SubmitAction::GiveUp => SubmitActionView::GiveUp,
            SubmitAction::Abort(reason) => SubmitActionView::Abort(reason@),
        }
    }
}

/// `event` is one that can follow in `stage`.
pub open spec fn can_follow(stage: Stage, event: SubmitEvent) -> bool {
    match stage {
        Stage::CheckingBalance => event is Balance,
        Stage::ReadingTips => event is Tips,
        Stage::Subscribing => event is Subscribed,
        Stage::AskingLeader => event is Leader,
        Stage::Pausing { .. } => event is Slept,
        Stage::FetchingBlockhash => event is Blockhash,
        Stage::Submitting { .. } => event is BundleEnded,
        Stage::BackingOff { .. } => event is Slept,
        Stage::Ended => false,
    }
}

/// Sending the bundle again may help: it lost an auction, failed in simulation or for an internal
/// reason, or was refused because its transaction landed earlier.
pub open spec fn worth_retrying(error: BundleErrorView) -> bool {
    match error {
        BundleErrorView::Rejected(rejection) => !(rejection is WinningBatchBidRejected),
        BundleErrorView::Status { message, .. } => message == ALREADY_PROCESSED_STATUS@,
    }
}

/// Whether sending the bundle again may help.
pub fn is_worth_retrying(error: &BundleError) -> (r: bool)
    ensures
        r == worth_retrying(error@),
        match *error {
            BundleError::Rejected(BundleRejectionError::WinningBatchBidRejected(_, _)) => !r,
            BundleError::Rejected(_) => r,
            BundleError::Status { code: _, message } => r <==> message@
                == "bundle contains an already processed transaction"@,
        },
{
    match error {
        BundleError::Rejected(rejection) => match rejection {
            BundleRejectionError::StateAuctionBidRejected(_, _) => true,
            BundleRejectionError::InternalError(_) => true,
            BundleRejectionError::SimulationFailure(_, _) => true,
            BundleRejectionError::WinningBatchBidRejected(_, _) => false,
        },
        BundleError::Status { message, .. } => same_text(
            message.as_str(),
            ALREADY_PROCESSED_STATUS,
        ),
    }
}

/// `run`, moved on to `stage`.
pub open spec fn moved(run: SubmissionView, stage: Stage) -> SubmissionView {
    SubmissionView { stage, ..run }
}

/// `run` cannot go on.
pub open spec fn aborted(run: SubmissionView, reason: AbortView) -> (
    SubmissionView,
    SubmitActionView,
) {
    (moved(run, Stage::Ended), SubmitActionView::Abort(reason))
}

/// The tip is known: the instructions are complete, and results are subscribed to.
pub open spec fn tipped(
    miner: Miner,
    order: Order,
    run: SubmissionView,
    tip: u64,
    choice: int,
) -> (SubmissionView, SubmitActionView) {
    (
        SubmissionView {
            stage: Stage::Subscribing,
            ixs: full_instructions(miner.priority_fee, order, tip, choice),
            ..run
        },
        SubmitActionView::Subscribe,
    )
}

/// The milliseconds to pause after the attempt that `attempt` counts came to nothing.
pub open spec fn backoff_after(attempt: int) -> int {
    BACKOFF_MS * (attempt + 1)
}

/// What follows on `event`, where the tip goes to the recipient at position `choice`.
pub open spec fn submit_step(
    miner: Miner,
    order: Order,
    run: SubmissionView,
    event: SubmitEvent,
    choice: int,
) -> (SubmissionView, SubmitActionView) {
    match (run.stage, event) {
        (Stage::CheckingBalance, SubmitEvent::Balance { lamports }) => {
            if lamports is Some && lamports->0 <= order.min_balance {
                aborted(run, AbortView::InsufficientBalance { lamports: lamports->0 })
            } else if miner.max_adaptive_tip > 0 {
                (moved(run, Stage::ReadingTips), SubmitActionView::ReadTips)
            } else {
                tipped(miner, order, run, miner.priority_fee, choice)
            }
        },
        (Stage::ReadingTips, SubmitEvent::Tips { tips }) => match tip_for(
            miner.priority_fee,
            miner.max_adaptive_tip,
            tips.p25_landed,
        ) {
            Some(tip) => tipped(miner, order, run, tip, choice),
            None => aborted(run, AbortView::TipOverflow),
        },
        (Stage::Subscribing, SubmitEvent::Subscribed) => (
            moved(run, Stage::AskingLeader),
            SubmitActionView::AskLeader,
        ),
        (Stage::AskingLeader, SubmitEvent::Leader { next_leader_slot, current_slot }) => {
            if next_leader_slot < current_slot {
                aborted(run, AbortView::LeaderPassed)
            } else {
                (
                    moved(
                        run,
                        Stage::Pausing { leads: next_leader_slot - current_slot <= LEADER_SLOTS },
                    ),
                    SubmitActionView::Sleep { ms: LEADER_POLL_MS },
                )
            }
        },
        (Stage::Pausing { leads }, SubmitEvent::Slept) => if leads {
            (moved(run, Stage::FetchingBlockhash), SubmitActionView::FetchBlockhash)
        } else {
            (moved(run, Stage::AskingLeader), SubmitActionView::AskLeader)
        },
        (Stage::FetchingBlockhash, SubmitEvent::Blockhash { blockhash }) => match signing_outcome(
            run.ixs,
            order.keypair,
            blockhash,
        ) {
            Ok((message, signature)) => (
                SubmissionView {
                    stage: Stage::Submitting { attempt: 1 },
                    transactions: seq![(message, seq![signature])],
                    ..run
                },
                SubmitActionView::Submit { attempt: 1 },
            ),
            Err(error) => aborted(run, AbortView::Signing(error)),
        },
        (Stage::Submitting { attempt }, SubmitEvent::BundleEnded { result }) => match result {
            Ok(_) => (moved(run, Stage::Ended), SubmitActionView::Finish),
            Err(error) => if worth_retrying(error@) {
                (
                    moved(run, Stage::BackingOff { attempt }),
                    SubmitActionView::Sleep { ms: backoff_after(attempt as int) as u64 },
                )
            } else {
                aborted(run, AbortView::Bundle(error@))
            },
        },
        (Stage::BackingOff { attempt }, SubmitEvent::Slept) => if attempt < MAX_ATTEMPTS {
            (
                moved(run, Stage::Submitting { attempt: (attempt + 1) as u64 }),
                SubmitActionView::Submit { attempt: (attempt + 1) as u64 },
            )
        } else {
            (moved(run, Stage::Ended), SubmitActionView::GiveUp)
        },
        _ => (moved(run, Stage::Ended), SubmitActionView::GiveUp),
    }
}

impl Submission {
    /// The same submission at another stage.
    fn at(self, stage: Stage) -> (r: Submission)
        ensures
            r@ == moved(self@, stage),
    {
        Submission { stage, ixs: self.ixs, transactions: self.transactions }
    }

    /// Gives the submission up.
    fn abort(self, reason: AbortReason) -> (r: (Submission, SubmitAction))
        ensures
            (r.0@, r.1@) == aborted(self@, reason@),
    {
        (self.at(Stage::Ended), SubmitAction::Abort(reason))
    }
}

/// The tip that an event settles: the fee where the balance is all that was asked for, and the
/// lesser of the cap and the lower quartile plus the fee where the tips were looked up.
pub open spec fn tip_told(miner: Miner, event: SubmitEvent) -> Option<u64> {
    match event {
        SubmitEvent::Balance { .. } => Some(miner.priority_fee),
        SubmitEvent::Tips { tips } => if miner.max_adaptive_tip == 0 {
            Some(miner.priority_fee)
        } else if tips.p25_landed + miner.priority_fee <= miner.max_adaptive_tip {
            Some((tips.p25_landed + miner.priority_fee) as u64)
        } else {
            Some(miner.max_adaptive_tip)
        },
        _ => None,
    }
}

impl Miner {
    /// Completes the instructions with a known tip.
    fn with_tip(&self, order: &Order, run: Submission, tip: u64, choice: usize) -> (r: (
        Submission,
        SubmitAction,
    ))
        requires
            choice < JITO_RECIPIENTS@.len(),
        ensures
            (r.0@, r.1@) == tipped(*self, *order, run@, tip, choice as int),
    {
        let ixs = self.full_instructions(order, tip, choice);
        (
            Submission { stage: Stage::Subscribing, ixs, transactions: run.transactions },
            SubmitAction::Subscribe,
        )
    }

    /// Signs the transaction and sends it for the first time.
    fn sign_and_submit(&self, order: &Order, run: Submission, blockhash: &Blockhash) -> (r: (
        Submission,
        SubmitAction,
    ))
        requires
            run.stage == Stage::FetchingBlockhash,
        ensures
            (r.0@, r.1@) == submit_step(
                *self,
                *order,
                run@,
                SubmitEvent::Blockhash { blockhash: *blockhash },
                0,
            ),
            r.1 is Submit ==> {
                let message = compiled_message(
                    views(run.ixs@),
                    order.keypair.pubkey,
                    *blockhash,
                );
                &&& r.0.transactions@.len() == 1
                &&& r.0.transactions@[0].message@ == message
                &&& r.0.transactions@[0].signatures@.len() == 1
                &&& r.0.transactions@[0].signatures@[0] == ed25519_signature(
                    order.keypair.secret@,
                    order.keypair.pubkey@,
                    message,
                )
            },
    {
        match signed_transaction(&run.ixs, &order.keypair, blockhash) {
            Ok(tx) => {
                let mut transactions: Vec<SignedTransaction> = Vec::new();
                transactions.push(tx);
                let next = Submission {
                    stage: Stage::Submitting { attempt: 1 },
                    ixs: run.ixs,
                    transactions,
                };
                proof {
                    let outcome = signing_outcome(views(run.ixs@), order.keypair, *blockhash);
                    assert(contents(next.transactions@) =~= seq![
                        (outcome->Ok_0.0, seq![outcome->Ok_0.1]),
                    ]);
                }
                (next, SubmitAction::Submit { attempt: 1 })
            },
            Err(error) => run.abort(AbortReason::Signing(error)),
        }
    }

    /// Takes one event of a submission into account and says what to do next, where the tip goes
    /// to the recipient at position `choice`.
    pub fn submit_with_choice(
        &self,
        order: &Order,
        run: Submission,
        event: SubmitEvent,
        choice: usize,
    ) -> (r: (Submission, SubmitAction))
        requires
            run@.well_formed(),
            can_follow(run.stage, event),
            choice < JITO_RECIPIENTS@.len(),
        ensures
            (r.0@, r.1@) == submit_step(*self, *order, run@, event, choice as int),
            r.0@.well_formed(),
            event matches SubmitEvent::BundleEnded { result: Ok(_) } ==> r.0.stage == Stage::Ended
                && r.1 is Finish,
            event matches SubmitEvent::BundleEnded { result: Err(error) } ==> ({
                let again = match error {
                    BundleError::Rejected(
                        BundleRejectionError::WinningBatchBidRejected(_, _),
                    ) => false,
                    BundleError::Rejected(_) => true,
                    BundleError::Status { code: _, message } => message@
                        == "bundle contains an already processed transaction"@,
                };
                &&& again ==> r.0.stage == (Stage::BackingOff {
                    attempt: run.stage->Submitting_attempt,
                }) && (r.1 matches SubmitAction::Sleep { ms } && ms == 400 * (
                run.stage->Submitting_attempt + 1))
                &&& !again ==> r.0.stage == Stage::Ended && (r.1 matches SubmitAction::Abort(
                    AbortReason::Bundle(e),
                ) && e@ == error@)
            }),
            run.stage matches Stage::BackingOff { attempt } ==> (if attempt < 5 {
                &&& r.0.stage matches Stage::Submitting { attempt: next }
                &&& next == attempt + 1
                &&& r.1 matches SubmitAction::Submit { attempt: sent }
                &&& sent == attempt + 1
            } else {
                r.0.stage == Stage::Ended && r.1 is GiveUp
            }),
            event matches SubmitEvent::Balance { lamports: Some(lamports) } ==> (lamports
                <= order.min_balance ==> r.0.stage == Stage::Ended && (r.1 matches SubmitAction::Abort(
                AbortReason::InsufficientBalance { lamports: told },
            ) && told == lamports)),
            event matches SubmitEvent::Balance { lamports } ==> (!(lamports is Some && lamports->0
                <= order.min_balance) ==> if self.max_adaptive_tip > 0 {
                r.0.stage == Stage::ReadingTips && r.1 is ReadTips
            } else {
                r.0.stage == Stage::Subscribing && r.1 is Subscribe
            }),
            event matches SubmitEvent::Tips { tips } ==> (self.max_adaptive_tip > 0 ==> if tips.p25_landed
                + self.priority_fee > u64::MAX {
                r.0.stage == Stage::Ended && r.1 == SubmitAction::Abort(AbortReason::TipOverflow)
            } else {
                r.0.stage == Stage::Subscribing && r.1 is Subscribe
            }),
            r.1 is Subscribe ==> tip_told(*self, event) is Some && views(r.0.ixs@)
                == full_instructions(
                self.priority_fee,
                *order,
                tip_told(*self, event)->0,
                choice as int,
            ),
            event is Subscribed ==> r.0.stage == Stage::AskingLeader && r.1 is AskLeader,
            event matches SubmitEvent::Leader { next_leader_slot, current_slot } ==> (
            if next_leader_slot < current_slot {
                r.0.stage == Stage::Ended && r.1 == SubmitAction::Abort(AbortReason::LeaderPassed)
            } else {
                &&& r.0.stage == (Stage::Pausing { leads: next_leader_slot - current_slot <= 2 })
                &&& r.1 matches SubmitAction::Sleep { ms }
                &&& ms == 500
            }),
            run.stage matches Stage::Pausing { leads } ==> (if leads {
                r.0.stage == Stage::FetchingBlockhash && r.1 is FetchBlockhash
            } else {
                r.0.stage == Stage::AskingLeader && r.1 is AskLeader
            }),
            event matches SubmitEvent::Blockhash { blockhash } ==> (if signing_outcome(
                views(run.ixs@),
                order.keypair,
                blockhash,
            ) is Ok {
                &&& r.0.stage == (Stage::Submitting { attempt: 1 })
                &&& r.1 matches SubmitAction::Submit { attempt }
                &&& attempt == 1
                &&& r.0.transactions@.len() == 1
                &&& r.0.transactions@[0].message@ == compiled_message(
                    views(run.ixs@),
                    order.keypair.pubkey,
                    blockhash,
                )
                &&& r.0.transactions@[0].signatures@.len() == 1
                &&& r.0.transactions@[0].signatures@[0] == ed25519_signature(
                    order.keypair.secret@,
                    order.keypair.pubkey@,
                    compiled_message(views(run.ixs@), order.keypair.pubkey, blockhash),
                )
            } else {
                r.0.stage == Stage::Ended && r.1 == SubmitAction::Abort(
                    AbortReason::Signing(
                        signing_outcome(views(run.ixs@), order.keypair, blockhash)->Err_0,
                    ),
                )
            }),
            !(event is Balance) && !(event is Tips) ==> views(r.0.ixs@) == views(run.ixs@),
            !(event is Blockhash) ==> contents(r.0.transactions@) == contents(run.transactions@),
    {
        match run.stage {
            Stage::CheckingBalance => match event {
                SubmitEvent::Balance { lamports: Some(lamports) } if lamports
                    <= order.min_balance => {
                    run.abort(AbortReason::InsufficientBalance { lamports })
                },
                _ => if self.max_adaptive_tip > 0 {
                    (run.at(Stage::ReadingTips), SubmitAction::ReadTips)
                } else {
                    self.with_tip(order, run, self.priority_fee, choice)
                },
            },
            Stage::ReadingTips => match event {
                SubmitEvent::Tips { tips } => match self.tip(&tips) {
                    Some(tip) => self.with_tip(order, run, tip, choice),
                    None => run.abort(AbortReason::TipOverflow),
                },
                _ => (run.at(Stage::Ended), SubmitAction::GiveUp),
            },
            Stage::Subscribing => (run.at(Stage::AskingLeader), SubmitAction::AskLeader),
            Stage::AskingLeader => match event {
                SubmitEvent::Leader { next_leader_slot, current_slot } => {
                    if next_leader_slot < current_slot {
                        run.abort(AbortReason::LeaderPassed)
                    } else {
                        let num_slots: u64 = next_leader_slot - current_slot;
                        (
                            run.at(Stage::Pausing { leads: num_slots <= LEADER_SLOTS }),
                            SubmitAction::Sleep { ms: LEADER_POLL_MS },
                        )
                    }
                },
                _ => (run.at(Stage::Ended), SubmitAction::GiveUp),
            },
            Stage::Pausing { leads } => if leads {
                (run.at(Stage::FetchingBlockhash), SubmitAction::FetchBlockhash)
            } else {
                (run.at(Stage::AskingLeader), SubmitAction::AskLeader)
            },
            Stage::FetchingBlockhash => match event {
                SubmitEvent::Blockhash { blockhash } => self.sign_and_submit(
                    order,
                    run,
                    &blockhash,
                ),
                _ => (run.at(Stage::Ended), SubmitAction::GiveUp),
            },
            Stage::Submitting { attempt } => match event {
                SubmitEvent::BundleEnded { result: Ok(_) } => (
                    run.at(Stage::Ended),
                    SubmitAction::Finish,
                ),
                SubmitEvent::BundleEnded { result: Err(error) } => {
                    if is_worth_retrying(&error) {
                        let ms: u64 = BACKOFF_MS * (attempt + 1);
                        (run.at(Stage::BackingOff { attempt }), SubmitAction::Sleep { ms })
                    } else {
                        run.abort(AbortReason::Bundle(error))
                    }
                },
                _ => (run.at(Stage::Ended), SubmitAction::GiveUp),
            },
            Stage::BackingOff { attempt } => if attempt < MAX_ATTEMPTS {
                (
                    run.at(Stage::Submitting { attempt: attempt + 1 }),
                    SubmitAction::Submit { attempt: attempt + 1 },
                )
            } else {
                (run.at(Stage::Ended), SubmitAction::GiveUp)
            },
            Stage::Ended => (run.at(Stage::Ended), SubmitAction::GiveUp),
        }
    }

    /// Takes one event of a submission into account and says what to do next. A submission begins
    /// with [`Submission::begin`]. Which recipient is tipped is left to chance.
    pub fn jito_send_and_confirm(&self, order: &Order, run: Submission, event: SubmitEvent) -> (r: (
        Submission,
        SubmitAction,
    ))
        requires
            run@.well_formed(),
            can_follow(run.stage, event),
        ensures
            exists|choice: int|
                0 <= choice < JITO_RECIPIENTS@.len() && (r.0@, r.1@) == #[trigger] submit_step(
                    *self,
                    *order,
                    run@,
                    event,
                    choice,
                ),
            r.0@.well_formed(),
            event matches SubmitEvent::BundleEnded { result: Ok(_) } ==> r.0.stage == Stage::Ended
                && r.1 is Finish,
            event matches SubmitEvent::BundleEnded { result: Err(error) } ==> ({
                let again = match error {
                    BundleError::Rejected(
                        BundleRejectionError::WinningBatchBidRejected(_, _),
                    ) => false,
                    BundleError::Rejected(_) => true,
                    BundleError::Status { code: _, message } => message@
                        == "bundle contains an already processed transaction"@,
                };
                &&& again ==> r.0.stage == (Stage::BackingOff {
                    attempt: run.stage->Submitting_attempt,
                }) && (r.1 matches SubmitAction::Sleep { ms } && ms == 400 * (
                run.stage->Submitting_attempt + 1))
                &&& !again ==> r.0.stage == Stage::Ended && (r.1 matches SubmitAction::Abort(
                    AbortReason::Bundle(e),
                ) && e@ == error@)
            }),
            run.stage matches Stage::BackingOff { attempt } ==> (if attempt < 5 {
                &&& r.0.stage matches Stage::Submitting { attempt: next }
                &&& next == attempt + 1
                &&& r.1 matches SubmitAction::Submit { attempt: sent }
                &&& sent == attempt + 1
            } else {
                r.0.stage == Stage::Ended && r.1 is GiveUp
            }),
            event matches SubmitEvent::Balance { lamports: Some(lamports) } ==> (lamports
                <= order.min_balance ==> r.0.stage == Stage::Ended && (r.1 matches SubmitAction::Abort(
                AbortReason::InsufficientBalance { lamports: told },
            ) && told == lamports)),
            event matches SubmitEvent::Balance { lamports } ==> (!(lamports is Some && lamports->0
                <= order.min_balance) ==> if self.max_adaptive_tip > 0 {
                r.0.stage == Stage::ReadingTips && r.1 is ReadTips
            } else {
                r.0.stage == Stage::Subscribing && r.1 is Subscribe
            }),
            event matches SubmitEvent::Tips { tips } ==> (self.max_adaptive_tip > 0 ==> if tips.p25_landed
                + self.priority_fee > u64::MAX {
                r.0.stage == Stage::Ended && r.1 == SubmitAction::Abort(AbortReason::TipOverflow)
            } else {
                r.0.stage == Stage::Subscribing && r.1 is Subscribe
            }),
            r.1 is Subscribe ==> tip_told(*self, event) is Some && exists|choice: int|
                0 <= choice < JITO_RECIPIENTS@.len() && views(r.0.ixs@)
                    == #[trigger] full_instructions(
                    self.priority_fee,
                    *order,
                    tip_told(*self, event)->0,
                    choice,
                ),
            event is Subscribed ==> r.0.stage == Stage::AskingLeader && r.1 is AskLeader,
            event matches SubmitEvent::Leader { next_leader_slot, current_slot } ==> (
            if next_leader_slot < current_slot {
                r.0.stage == Stage::Ended && r.1 == SubmitAction::Abort(AbortReason::LeaderPassed)
            } else {
                &&& r.0.stage == (Stage::Pausing { leads: next_leader_slot - current_slot <= 2 })
                &&& r.1 matches SubmitAction::Sleep { ms }
                &&& ms == 500
            }),
            run.stage matches Stage::Pausing { leads } ==> (if leads {
                r.0.stage == Stage::FetchingBlockhash && r.1 is FetchBlockhash
            } else {
                r.0.stage == Stage::AskingLeader && r.1 is AskLeader
            }),
            event matches SubmitEvent::Blockhash { blockhash } ==> (if signing_outcome(
                views(run.ixs@),
                order.keypair,
                blockhash,
            ) is Ok {
                &&& r.0.stage == (Stage::Submitting { attempt: 1 })
                &&& r.1 matches SubmitAction::Submit { attempt }
                &&& attempt == 1
                &&& r.0.transactions@.len() == 1
                &&& r.0.transactions@[0].message@ == compiled_message(
                    views(run.ixs@),
                    order.keypair.pubkey,
                    blockhash,
                )
                &&& r.0.transactions@[0].signatures@.len() == 1
                &&& r.0.transactions@[0].signatures@[0] == ed25519_signature(
                    order.keypair.secret@,
                    order.keypair.pubkey@,
                    compiled_message(views(run.ixs@), order.keypair.pubkey, blockhash),
                )
            } else {
                r.0.stage == Stage::Ended && r.1 == SubmitAction::Abort(
                    AbortReason::Signing(
                        signing_outcome(views(run.ixs@), order.keypair, blockhash)->Err_0,
                    ),
                )
            }),
            !(event is Balance) && !(event is Tips) ==> views(r.0.ixs@) == views(run.ixs@),
            !(event is Blockhash) ==> contents(r.0.transactions@) == contents(run.transactions@),
    {
        let choice = random_index(8);
        self.submit_with_choice(order, run, event, choice)
    }
}

/// A submission under way, with what it has cost so far.
#[verifier::ext_equal]
pub struct Tally {
    pub run: SubmissionView,
    /// How often the bundle was sent.
    pub submits: nat,
    /// The milliseconds paused after attempts that came to nothing.
    pub backoff_ms: nat,
}

/// Where a run of events has led, each with the recipient drawn at that time; `None` if one of
/// them could not follow.
pub open spec fn tally_after(
    miner: Miner,
    order: Order,
    events: Seq<(SubmitEvent, int)>,
) -> Option<Tally>
    decreases events.len(),
{
    if events.len() == 0 {
        Some(Tally { run: beginning(), submits: 0, backoff_ms: 0 })
    } else {
        let (event, choice) = events.last();
        match tally_after(miner, order, events.drop_last()) {
            Some(t) if can_follow(t.run.stage, event) && 0 <= choice < JITO_RECIPIENTS@.len() => {
                let (next, action) = submit_step(miner, order, t.run, event, choice);
                Some(
                    Tally {
                        run: next,
                        submits: t.submits + (if action is Submit {
                            1nat
                        } else {
                            0
                        }),
                        backoff_ms: t.backoff_ms + (if next.stage is BackingOff {
                            action->ms as nat
                        } else {
                            0
                        }),
                    },
                )
            },
            _ => None,
        }
    }
}

/// The milliseconds paused in all after `attempts` attempts that came to nothing.
pub open spec fn total_backoff(attempts: nat) -> nat
    decreases attempts,
{
    if attempts == 0 {
        0
    } else {
        total_backoff((attempts - 1) as nat) + backoff_after(attempts as int) as nat
    }
}

/// The cost of a submission tells how far it has come.
pub open spec fn is_consistent(t: Tally) -> bool {
    &&& t.run.well_formed()
    &&& match t.run.stage {
        Stage::Submitting { attempt } => t.submits == attempt && t.backoff_ms == total_backoff(
            (attempt - 1) as nat,
        ),
        Stage::BackingOff { attempt } => t.submits == attempt && t.backoff_ms == total_backoff(
            attempt as nat,
        ),
        Stage::Ended => t.submits <= MAX_ATTEMPTS && t.backoff_ms <= 8000,
        _ => t.submits == 0 && t.backoff_ms == 0,
    }
}

/// The pauses after five failed attempts add up to eight seconds.
proof fn lemma_total_backoff()
    ensures
        total_backoff(0) == 0,
        total_backoff(1) == 800,
        total_backoff(2) == 2000,
        total_backoff(3) == 3600,
        total_backoff(4) == 5600,
        total_backoff(5) == 8000,
{
    reveal_with_fuel(total_backoff, 6);
}

/// In every run, the number of times the bundle was sent is the attempt it is at, and the time
/// spent pausing is what the failed attempts call for.
pub proof fn lemma_cost_matches_stage(
    miner: Miner,
    order: Order,
    events: Seq<(SubmitEvent, int)>,
)
    ensures
        tally_after(miner, order, events) matches Some(t) ==> is_consistent(t),
    decreases events.len(),
{
    lemma_total_backoff();
    if events.len() > 0 {
        lemma_cost_matches_stage(miner, order, events.drop_last());
        if tally_after(miner, order, events) is Some {
            let t = tally_after(miner, order, events.drop_last())->0;
            match t.run.stage {
                Stage::Submitting { attempt } => {
                    assert(total_backoff(attempt as nat) == total_backoff((attempt - 1) as nat)
                        + backoff_after(attempt as int) as nat);
                },
                _ => {},
            }
        }
    }
}

/// However the block engine answers, a bundle is sent at most five times, and at most eight
/// seconds are spent pausing between attempts.
pub proof fn lemma_attempts_are_bounded(
    miner: Miner,
    order: Order,
    events: Seq<(SubmitEvent, int)>,
)
    ensures
        tally_after(miner, order, events) matches Some(t) ==> t.submits <= MAX_ATTEMPTS
            && t.backoff_ms <= 8000,
{
    lemma_cost_matches_stage(miner, order, events);
    lemma_total_backoff();
    if tally_after(miner, order, events) is Some {
        let t = tally_after(miner, order, events)->0;
        match t.run.stage {
            Stage::Submitting { attempt } => {
                assert(attempt == 1 || attempt == 2 || attempt == 3 || attempt == 4 || attempt
                    == 5);
            },
            Stage::BackingOff { attempt } => {
                assert(attempt == 1 || attempt == 2 || attempt == 3 || attempt == 4 || attempt
                    == 5);
            },
            _ => {},
        }
    }
}

/// A submission is given up only after the bundle was sent five times and came to nothing each
/// time.
pub proof fn lemma_gives_up_after_last_attempt(
    miner: Miner,
    order: Order,
    events: Seq<(SubmitEvent, int)>,
    event: SubmitEvent,
    choice: int,
)
    requires
        tally_after(miner, order, events) matches Some(t) && can_follow(t.run.stage, event)
            && submit_step(miner, order, t.run, event, choice).1 is GiveUp,
    ensures
        tally_after(miner, order, events)->0.submits == MAX_ATTEMPTS,
        tally_after(miner, order, events)->0.backoff_ms == 8000,
{
    lemma_cost_matches_stage(miner, order, events);
    lemma_total_backoff();
}

/// A bundle that landed finishes its submission at once, at whichever attempt it landed.
pub proof fn lemma_landed_bundle_finishes(
    miner: Miner,
    order: Order,
    run: SubmissionView,
    choice: int,
)
    requires
        run.stage is Submitting,
    ensures
        ({
            let event = SubmitEvent::BundleEnded { result: Ok(()) };
            let (next, action) = submit_step(miner, order, run, event, choice);
            &&& can_follow(run.stage, event)
            &&& action is Finish
            &&& next.stage == Stage::Ended
        }),
{
}

/// Whatever a bundle failed for, the submission pauses before the next attempt if trying again may
/// help, longer each time, and is broken off with the error if not. It helps unless the bundle lost
/// the global auction or was refused for anything but having landed before.
pub proof fn lemma_failed_bundle_backs_off_or_aborts(
    miner: Miner,
    order: Order,
    run: SubmissionView,
    error: BundleError,
    choice: int,
)
    requires
        run.well_formed(),
        run.stage is Submitting,
    ensures
        ({
            let attempt = run.stage->Submitting_attempt;
            let event = SubmitEvent::BundleEnded { result: Err(error) };
            let (next, action) = submit_step(miner, order, run, event, choice);
            let again = match error@ {
                BundleErrorView::Rejected(rejection) => !(rejection is WinningBatchBidRejected),
                BundleErrorView::Status { code: _, message } => message
                    == "bundle contains an already processed transaction"@,
            };
            &&& can_follow(run.stage, event)
            &&& again ==> {
                &&& next.stage == (Stage::BackingOff { attempt })
                &&& action matches SubmitActionView::Sleep { ms }
                &&& ms == 400 * (attempt + 1)
            }
            &&& !again ==> next.stage == Stage::Ended && action == SubmitActionView::Abort(
                AbortView::Bundle(error@),
            )
        }),
{
}

/// After the pause, the bundle is sent once more, unless that was the fifth attempt: then the
/// submission is given up.
pub proof fn lemma_pause_leads_to_next_attempt(
    miner: Miner,
    order: Order,
    run: SubmissionView,
    attempt: u64,
    choice: int,
)
    requires
        run.stage == (Stage::BackingOff { attempt }),
    ensures
        ({
            let (next, action) = submit_step(miner, order, run, SubmitEvent::Slept, choice);
            &&& can_follow(run.stage, SubmitEvent::Slept)
            &&& attempt < 5 ==> {
                &&& next.stage matches Stage::Submitting { attempt: later }
                &&& later == attempt + 1
                &&& action matches SubmitActionView::Submit { attempt: sent }
                &&& sent == attempt + 1
            }
            &&& attempt >= 5 ==> next.stage == Stage::Ended && action is GiveUp
        }),
{
}

/// Until the bundle is sent, one thing follows on the other: the balance, which only stops a payer
/// who is known to own too little, the tips where there is a cap, the subscription, and the leader,
/// who is asked for again every half second until one is at most two slots away.
pub proof fn lemma_steps_before_sending(
    miner: Miner,
    order: Order,
    run: SubmissionView,
    lamports: Option<u64>,
    tips: JitoTips,
    next_leader_slot: u64,
    current_slot: u64,
    choice: int,
)
    ensures
        run.stage == Stage::CheckingBalance ==> ({
            let event = SubmitEvent::Balance { lamports };
            let (next, action) = submit_step(miner, order, run, event, choice);
            let poor = lamports is Some && lamports->0 <= order.min_balance;
            &&& can_follow(run.stage, event)
            &&& poor ==> next.stage == Stage::Ended && action == SubmitActionView::Abort(
                AbortView::InsufficientBalance { lamports: lamports->0 },
            )
            &&& !poor && miner.max_adaptive_tip > 0 ==> next.stage == Stage::ReadingTips
                && action is ReadTips
            &&& !poor && miner.max_adaptive_tip == 0 ==> {
                &&& next.stage == Stage::Subscribing && action is Subscribe
                &&& next.ixs == full_instructions(
                    miner.priority_fee,
                    order,
                    miner.priority_fee,
                    choice,
                )
            }
        }),
        run.stage == Stage::ReadingTips && miner.max_adaptive_tip > 0 ==> ({
            let event = SubmitEvent::Tips { tips };
            let (next, action) = submit_step(miner, order, run, event, choice);
            let sum = tips.p25_landed + miner.priority_fee;
            &&& can_follow(run.stage, event)
            &&& sum > u64::MAX ==> next.stage == Stage::Ended && action == SubmitActionView::Abort(
                AbortView::TipOverflow,
            )
            &&& sum <= u64::MAX ==> next.stage == Stage::Subscribing && action is Subscribe
            &&& sum <= miner.max_adaptive_tip ==> next.ixs == full_instructions(
                miner.priority_fee,
                order,
                sum as u64,
                choice,
            )
            &&& miner.max_adaptive_tip <= sum <= u64::MAX ==> next.ixs == full_instructions(
                miner.priority_fee,
                order,
                miner.max_adaptive_tip,
                choice,
            )
        }),
        run.stage == Stage::Subscribing ==> ({
            let (next, action) = submit_step(miner, order, run, SubmitEvent::Subscribed, choice);
            &&& can_follow(run.stage, SubmitEvent::Subscribed)
            &&& next.stage == Stage::AskingLeader && action is AskLeader && next.ixs == run.ixs
        }),
        run.stage == Stage::AskingLeader ==> ({
            let event = SubmitEvent::Leader { next_leader_slot, current_slot };
            let (next, action) = submit_step(miner, order, run, event, choice);
            &&& can_follow(run.stage, event)
            &&& next_leader_slot < current_slot ==> next.stage == Stage::Ended && action
                == SubmitActionView::Abort(AbortView::LeaderPassed)
            &&& next_leader_slot >= current_slot ==> {
                &&& next.stage == (Stage::Pausing {
                    leads: next_leader_slot <= current_slot + 2,
                })
                &&& action == (SubmitActionView::Sleep { ms: 500 })
                &&& next.ixs == run.ixs
            }
        }),
        run.stage is Pausing ==> ({
            let (next, action) = submit_step(miner, order, run, SubmitEvent::Slept, choice);
            &&& can_follow(run.stage, SubmitEvent::Slept)
            &&& next.ixs == run.ixs
            &&& run.stage->leads ==> next.stage == Stage::FetchingBlockhash
                && action is FetchBlockhash
            &&& !run.stage->leads ==> next.stage == Stage::AskingLeader && action is AskLeader
        }),
{
}

/// With a blockhash, the transaction is signed and sent for the first time: its message is that of
/// the instructions, the payer and the blockhash, and its one signature the payer's. If it cannot
/// be signed, the submission is broken off.
pub proof fn lemma_first_attempt_sends_signed_order(
    miner: Miner,
    order: Order,
    run: SubmissionView,
    blockhash: Blockhash,
    choice: int,
)
    requires
        run.stage == Stage::FetchingBlockhash,
    ensures
        ({
            let event = SubmitEvent::Blockhash { blockhash };
            let (next, action) = submit_step(miner, order, run, event, choice);
            let message = compiled_message(run.ixs, order.keypair.pubkey, blockhash);
            let outcome = signing_outcome(run.ixs, order.keypair, blockhash);
            &&& can_follow(run.stage, event)
            &&& outcome is Ok ==> {
                &&& next.stage == (Stage::Submitting { attempt: 1 })
                &&& action == (SubmitActionView::Submit { attempt: 1 })
                &&& next.ixs == run.ixs
                &&& next.transactions == seq![
                    (
                        message,
                        seq![
                            ed25519_signature(
                                order.keypair.secret@,
                                order.keypair.pubkey@,
                                message,
                            ),
                        ],
                    ),
                ]
            }
            &&& outcome matches Err(error) ==> next.stage == Stage::Ended && action
                == SubmitActionView::Abort(AbortView::Signing(error))
        }),
{
    lemma_signs_what_was_asked(run.ixs, order.keypair, blockhash);
}

/// The bundle is sent again only because the attempt before came to nothing in a way that trying
/// again may help.
pub proof fn lemma_sent_again_only_after_failure(
    miner: Miner,
    order: Order,
    events: Seq<(SubmitEvent, int)>,
    attempt: u64,
)
    requires
        tally_after(miner, order, events) matches Some(t) && t.run.stage == (Stage::Submitting {
            attempt,
        }),
        attempt > 1,
    ensures
        events.len() >= 2,
        events.last().0 is Slept,
        events[events.len() - 2].0 matches SubmitEvent::BundleEnded { result: Err(error) } && (
        match error@ {
            BundleErrorView::Rejected(rejection) => !(rejection is WinningBatchBidRejected),
            BundleErrorView::Status { code: _, message } => message
                == "bundle contains an already processed transaction"@,
        }),
{
    let shorter = events.drop_last();
    let before = tally_after(miner, order, shorter)->0;
    assert(before.run.stage is BackingOff);
    assert(shorter.len() > 0);
    assert(shorter.last() == events[events.len() - 2]);
}

/// In every run, a bundle that lands ends the run as a success: it was sent as often as the attempt
/// counts, and is not sent again.
pub proof fn lemma_run_ends_when_landed(
    miner: Miner,
    order: Order,
    events: Seq<(SubmitEvent, int)>,
    choice: int,
    later: (SubmitEvent, int),
)
    requires
        tally_after(miner, order, events) matches Some(t) && t.run.stage is Submitting,
        0 <= choice < JITO_RECIPIENTS@.len(),
    ensures
        ({
            let landed = events.push((SubmitEvent::BundleEnded { result: Ok(()) }, choice));
            let before = tally_after(miner, order, events)->0;
            &&& tally_after(miner, order, landed) matches Some(after)
            &&& after.run.stage == Stage::Ended
            &&& after.submits == before.submits
            &&& after.submits == before.run.stage->Submitting_attempt
        }),
        tally_after(
            miner,
            order,
            events.push((SubmitEvent::BundleEnded { result: Ok(()) }, choice)).push(later),
        ) is None,
{
    lemma_cost_matches_stage(miner, order, events);
    let landed = events.push((SubmitEvent::BundleEnded { result: Ok(()) }, choice));
    assert(landed.drop_last() =~= events);
    assert(landed.push(later).drop_last() =~= landed);
}

/// A submission finishes only because its bundle landed.
pub proof fn lemma_finishes_only_when_landed(
    miner: Miner,
    order: Order,
    run: SubmissionView,
    event: SubmitEvent,
    choice: int,
)
    requires
        can_follow(run.stage, event),
        submit_step(miner, order, run, event, choice).1 is Finish,
    ensures
        event matches SubmitEvent::BundleEnded { result } && result is Ok,
{
}

/// A step that follows on an attempt, or on the pause after it, leaves the bundle as it is.
pub proof fn lemma_retries_send_same_bundle(
    miner: Miner,
    order: Order,
    run: SubmissionView,
    event: SubmitEvent,
    choice: int,
)
    requires
        run.stage is Submitting || run.stage is BackingOff,
        can_follow(run.stage, event),
    ensures
        submit_step(miner, order, run, event, choice).0.transactions == run.transactions,
        submit_step(miner, order, run, event, choice).0.ixs == run.ixs,
{
}

/// The tip of a run: the fee if the cap is zero, and otherwise what the tips call for that the run
/// looked up, which it does right after the balance. `None` as long as it is not known.
pub open spec fn tip_of(miner: Miner, events: Seq<(SubmitEvent, int)>) -> Option<u64> {
    if miner.max_adaptive_tip == 0 {
        Some(miner.priority_fee)
    } else if events.len() < 2 {
        None
    } else {
        match events[1].0 {
            SubmitEvent::Tips { tips } => tip_for(
                miner.priority_fee,
                miner.max_adaptive_tip,
                tips.p25_landed,
            ),
            _ => None,
        }
    }
}

/// `ixs` is what was ordered, behind the compute budget and before the one tip of the run.
pub open spec fn is_complete(
    miner: Miner,
    order: Order,
    events: Seq<(SubmitEvent, int)>,
    ixs: Seq<InstructionView>,
) -> bool {
    &&& tip_of(miner, events) is Some
    &&& exists|choice: int|
        {
            &&& 0 <= choice < JITO_RECIPIENTS@.len()
            &&& ixs == #[trigger] full_instructions(
                miner.priority_fee,
                order,
                tip_of(miner, events)->0,
                choice,
            )
        }
}

/// `transactions` is one transaction of `ixs`, signed by the payer alone.
pub open spec fn is_bundle_of(
    ixs: Seq<InstructionView>,
    keypair: Keypair,
    transactions: Seq<(Seq<u8>, Seq<Signature>)>,
) -> bool {
    exists|blockhash: Blockhash|
        {
            let outcome = #[trigger] signing_outcome(ixs, keypair, blockhash);
            &&& outcome is Ok
            &&& transactions == seq![(outcome->Ok_0.0, seq![outcome->Ok_0.1])]
        }
}

/// In every run, what is sent is one transaction that the payer signed, of what was ordered with
/// the compute budget before it and a single tip behind it. The tip is the one that the tips call
/// for which this run looked up.
pub proof fn lemma_bundle_carries_order(
    miner: Miner,
    order: Order,
    events: Seq<(SubmitEvent, int)>,
)
    ensures
        tally_after(miner, order, events) matches Some(t) ==> match t.run.stage {
            Stage::CheckingBalance => events.len() == 0,
            Stage::ReadingTips => events.len() == 1 && miner.max_adaptive_tip > 0,
            Stage::Ended => true,
            Stage::Submitting { .. } | Stage::BackingOff { .. } => is_complete(
                miner,
                order,
                events,
                t.run.ixs,
            ) && is_bundle_of(t.run.ixs, order.keypair, t.run.transactions),
            _ => is_complete(miner, order, events, t.run.ixs),
        },
    decreases events.len(),
{
    if events.len() > 0 && tally_after(miner, order, events) is Some {
        let shorter = events.drop_last();
        lemma_bundle_carries_order(miner, order, shorter);
        let (event, choice) = events.last();
        let before = tally_after(miner, order, shorter)->0.run;
        let after = tally_after(miner, order, events)->0.run;
        if tip_of(miner, shorter) is Some {
            assert(tip_of(miner, events) == tip_of(miner, shorter));
        }
        if after.stage == Stage::Subscribing {
            let tip = tip_of(miner, events)->0;
            assert(after.ixs == full_instructions(miner.priority_fee, order, tip, choice));
        }
        if before.stage == Stage::FetchingBlockhash && after.stage is Submitting {
            let outcome = signing_outcome(before.ixs, order.keypair, event->blockhash);
            assert(outcome is Ok);
        }
    }
}

/// Of two runs, the one that looked up the higher tips pays at least as much.
pub proof fn lemma_run_follows_market(
    miner: Miner,
    order: Order,
    events: Seq<(SubmitEvent, int)>,
    other_order: Order,
    other_events: Seq<(SubmitEvent, int)>,
)
    requires
        miner.max_adaptive_tip > 0,
        tally_after(miner, order, events) matches Some(t) && (t.run.stage is Submitting
            || t.run.stage is BackingOff),
        tally_after(miner, other_order, other_events) matches Some(t) && (t.run.stage is Submitting
            || t.run.stage is BackingOff),
        events[1].0->tips.p25_landed <= other_events[1].0->tips.p25_landed,
    ensures
        is_complete(miner, order, events, tally_after(miner, order, events)->0.run.ixs),
        is_complete(
            miner,
            other_order,
            other_events,
            tally_after(miner, other_order, other_events)->0.run.ixs,
        ),
        tip_of(miner, events)->0 <= tip_of(miner, other_events)->0,
{
    lemma_bundle_carries_order(miner, order, events);
    lemma_bundle_carries_order(miner, other_order, other_events);
}

/// The bundle of a run is signed once: from the first time it is sent to the end, every attempt
/// of the run sends the same transactions.
pub proof fn lemma_all_sends_are_alike(
    miner: Miner,
    order: Order,
    events: Seq<(SubmitEvent, int)>,
    first: int,
    later: int,
)
    requires
        0 <= first <= later <= events.len(),
        tally_after(miner, order, events.take(first)) matches Some(t) && (t.run.stage is Submitting
            || t.run.stage is BackingOff),
        tally_after(miner, order, events.take(later)) is Some,
    ensures
        ({
            let sent = tally_after(miner, order, events.take(first))->0.run;
            let sent_later = tally_after(miner, order, events.take(later))->0.run;
            &&& sent_later.transactions == sent.transactions
            &&& sent_later.ixs == sent.ixs
            &&& sent_later.stage is Submitting || sent_later.stage is BackingOff
                || sent_later.stage is Ended
        }),
    decreases later,
{
    if first < later {
        assert(events.take(later).drop_last() =~= events.take(later - 1));
        lemma_all_sends_are_alike(miner, order, events, first, later - 1);
    }
}

/// No run tips more than the cap, unless it is zero.
pub proof fn lemma_sent_tip_within_cap(
    miner: Miner,
    order: Order,
    events: Seq<(SubmitEvent, int)>,
)
    requires
        miner.max_adaptive_tip > 0,
        tally_after(miner, order, events) matches Some(t) && (t.run.stage is Submitting
            || t.run.stage is BackingOff),
    ensures
        is_complete(miner, order, events, tally_after(miner, order, events)->0.run.ixs),
        tip_of(miner, events)->0 <= miner.max_adaptive_tip,
{
    lemma_bundle_carries_order(miner, order, events);
}

/// A bundle that lost the global auction is never sent again.
pub proof fn lemma_global_auction_is_final(
    miner: Miner,
    order: Order,
    run: SubmissionView,
    error: BundleError,
    choice: int,
)
    requires
        run.stage is Submitting,
        error@ matches BundleErrorView::Rejected(rejection) && rejection is WinningBatchBidRejected,
    ensures
        submit_step(
            miner,
            order,
            run,
            SubmitEvent::BundleEnded { result: Err(error) },
            choice,
        ) == aborted(run, AbortView::Bundle(error@)),
{
}

/// Nothing is signed or sent before a Jito leader is at most two slots away.
pub proof fn lemma_waits_for_leader(miner: Miner, order: Order, events: Seq<(SubmitEvent, int)>)
    requires
        tally_after(miner, order, events) matches Some(t) && t.run.stage is FetchingBlockhash,
    ensures
        events.len() >= 2,
        events[events.len() - 2].0 matches SubmitEvent::Leader { next_leader_slot, current_slot }
            && current_slot <= next_leader_slot <= current_slot + LEADER_SLOTS,
{
    let shorter = events.drop_last();
    let before = tally_after(miner, order, shorter)->0;
    assert(before.run.stage == Stage::Pausing { leads: true });
    assert(shorter.len() > 0);
    assert(shorter.last() == events[events.len() - 2]);
}

/// A payer who owns too little is refused before anything is sent.
pub proof fn lemma_poor_payer_is_refused(
    miner: Miner,
    order: Order,
    lamports: u64,
    choice: int,
)
    requires
        lamports <= order.min_balance,
    ensures
        submit_step(
            miner,
            order,
            beginning(),
            SubmitEvent::Balance { lamports: Some(lamports) },
            choice,
        ) == aborted(beginning(), AbortView::InsufficientBalance { lamports }),
{
}

/// What was ordered stands in the transaction unchanged and in order, behind the compute budget
/// and before the tip.
pub proof fn lemma_order_is_kept(priority_fee: u64, order: Order, tip: u64, choice: int)
    ensures
        ({
            let ixs = full_instructions(priority_fee, order, tip, choice);
            let count = order.ixs@.len() as int;
            &&& ixs.len() == count + 3
            &&& ixs.subrange(2, 2 + count) == views(order.ixs@)
            &&& ixs[0] == unit_limit_instruction(
                match order.compute_budget {
                    ComputeBudget::Dynamic => 1_400_000,
                    ComputeBudget::Fixed(units) => units,
                },
            )
            &&& ixs[1] == unit_price_instruction(priority_fee)
            &&& ixs.last() == transfer_instruction(
                order.keypair.pubkey,
                JITO_RECIPIENTS@[choice],
                tip,
            )
        }),
{
    let ixs = full_instructions(priority_fee, order, tip, choice);
    assert(ixs.subrange(2, 2 + order.ixs@.len() as int) =~= views(order.ixs@));
}

/// Budget and tip call for no further signature: what the payer alone can sign stays so.
pub proof fn lemma_no_further_signer(priority_fee: u64, order: Order, tip: u64, choice: int)
    requires
        sole_signer(views(order.ixs@), order.keypair.pubkey),
    ensures
        sole_signer(
            full_instructions(priority_fee, order, tip, choice),
            order.keypair.pubkey,
        ),
{
    let ordered = views(order.ixs@);
    let ixs = full_instructions(priority_fee, order, tip, choice);
    let payer = order.keypair.pubkey;
    assert forall|key: crate::chain::Pubkey| #[trigger] must_sign(ixs, payer, key) implies key
        == payer by {
        if key != payer {
            let (i, j) = choose|i: int, j: int| #[trigger]
                refers(ixs, key, i, j) && ixs[i].accounts[j].is_signer;
            if 2 <= i < 2 + ordered.len() {
                assert(ixs[i] == ordered[i - 2]);
                assert(refers(ordered, key, i - 2, j));
                assert(must_sign(ordered, payer, key));
            } else if i < 2 {
                assert(ixs[i].accounts.len() == 0);
            } else {
                assert(ixs[i] == transfer_instruction(payer, JITO_RECIPIENTS@[choice], tip));
            }
        }
    }
}

} // verus!
