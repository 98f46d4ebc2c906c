//! The search for the best nonce, and the transactions that submit what was found.

use crate::chain::{
    lemma_budget_reads_back, set_compute_unit_limit, set_compute_unit_price, unit_limit_instruction,
    unit_price_instruction, views, AccountMeta, Instruction, InstructionView, Pubkey,
    COMPUTE_BUDGET_PROGRAM,
};
use crate::miner::Miner;
use crate::transaction::{
    at_most, compiled_message, ed25519_signature, fits_message, holds_all, is_signed,
    keypair_is_valid, lemma_signs_what_was_asked, mentions, must_sign, only_reads, refers,
    short_lists, signed_transaction, signing_outcome, sole_signer, Blockhash, Keypair,
    SignedTransaction, Signature, SigningError,
};
use vstd::bytes::{
    lemma_auto_spec_u32_to_from_le_bytes, lemma_auto_spec_u64_to_from_le_bytes,
    spec_u32_from_le_bytes, spec_u64_from_le_bytes, spec_u64_to_le_bytes, spec_u64_to_le_bytes_open,
    spec_u64_to_le_bytes_to_open,
};
use vstd::arithmetic::power2::{lemma2_to64, pow2};
use vstd::prelude::*;

verus! {

/// What the search reads of a miner's proof account.
#[derive(Clone, Copy, Debug, PartialEq, Eq)]
pub struct Proof {
    /// The challenge that nonces are hashed with.
    pub challenge: [u8; 32],
}

/// The first byte of every proof account.
pub const PROOF_TAG: u8 = 102;

/// The size of every proof account.
pub const PROOF_SIZE: usize = 176;

/// The proof that an account's data holds: behind eight bytes, of which the first is the tag, the
/// miner's address and a balance stands the challenge. `None` where the account is no proof
/// account.
pub fn proof_of(data: &Vec<u8>) -> (r: Option<Proof>)
    ensures
        r is Some <==> data@.len() == PROOF_SIZE && data@[0] == PROOF_TAG,
        r matches Some(proof) ==> proof.challenge@ == data@.subrange(48, 80),
{
    if data.len() != PROOF_SIZE || data[0] != PROOF_TAG {
        return None;
    }
    let mut challenge: [u8; 32] = [0; 32];
    let mut i: usize = 0;
    while i < 32
        invariant
            i <= 32,
            data@.len() == PROOF_SIZE,
            forall|k: int| 0 <= k < i ==> challenge@[k] == data@[48 + k],
        decreases 32 - i,
    {
        challenge[i] = data[48 + i];
        i += 1;
    }
    assert(challenge@ =~= data@.subrange(48, 80));
    Some(Proof { challenge })
}

/// A drillx hash: the puzzle's solution and the hash taken of it.
#[derive(Clone, Copy, Debug, PartialEq, Eq)]
pub struct Hash {
    pub d: [u8; 16],
    pub h: [u8; 32],
}

/// What a miner submits: a digest and the nonce it was found with.
#[derive(Clone, Copy, Debug, PartialEq, Eq)]
pub struct Solution {
    pub d: [u8; 16],
    pub n: [u8; 8],
}

/// Why there was no search.
#[derive(Clone, Copy, Debug, PartialEq, Eq, Structural)]
pub enum MiningError {
    /// The difficulty asked for is not above the least that the contract accepts.
    DifficultyTooLow,
}

/// The number of leading zero bits of a byte.
pub open spec fn byte_zeros(b: u8) -> nat {
    if b >= 128 {
        0
    } else if b >= 64 {
        1
    } else if b >= 32 {
        2
    } else if b >= 16 {
        3
    } else if b >= 8 {
        4
    } else if b >= 4 {
        5
    } else if b >= 2 {
        6
    } else if b >= 1 {
        7
    } else {
        8
    }
}

/// The number of leading zero bits of a row of bytes.
pub open spec fn leading_zeros(bytes: Seq<u8>) -> nat
    decreases bytes.len(),
{
    if bytes.len() == 0 {
        0
    } else if bytes[0] == 0 {
        8 + leading_zeros(bytes.drop_first())
    } else {
        byte_zeros(bytes[0])
    }
}

/// The leading zero bits of a byte tell its size: with `z` of them it is below `2^(8 - z)` and not
/// below half of that.
pub proof fn lemma_byte_zeros_tell_size(b: u8)
    ensures
        b == 0 <==> byte_zeros(b) == 8,
        byte_zeros(b) <= 8,
        b > 0 ==> pow2((7 - byte_zeros(b)) as nat) <= b < pow2((8 - byte_zeros(b)) as nat),
{
    lemma2_to64();
}

/// The leading zero bits of a row of bytes: the bytes that they cover are zero, and the one in
/// which they end holds exactly the rest.
pub proof fn lemma_leading_zeros_end_in_byte(bytes: Seq<u8>)
    ensures
        leading_zeros(bytes) <= 8 * bytes.len(),
        forall|i: int| 0 <= i < leading_zeros(bytes) as int / 8 ==> #[trigger] bytes[i] == 0,
        leading_zeros(bytes) < 8 * bytes.len() ==> {
            let at = leading_zeros(bytes) as int / 8;
            let rest = leading_zeros(bytes) as int % 8;
            pow2((7 - rest) as nat) <= bytes[at] < pow2((8 - rest) as nat)
        },
    decreases bytes.len(),
{
    if bytes.len() > 0 {
        lemma_byte_zeros_tell_size(bytes[0]);
        if bytes[0] == 0 {
            let tail = bytes.drop_first();
            lemma_leading_zeros_end_in_byte(tail);
            assert(leading_zeros(bytes) == 8 + leading_zeros(tail));
            assert forall|i: int| 0 <= i < leading_zeros(bytes) as int / 8 implies
                #[trigger] bytes[i] == 0 by {
                if i > 0 {
                    assert(bytes[i] == tail[i - 1]);
                }
            }
            if leading_zeros(tail) < 8 * tail.len() {
                let at = leading_zeros(tail) as int / 8;
                assert(bytes[at + 1] == tail[at]);
            }
        }
    }
}

/// What drillx makes of a challenge and a nonce; `None` where the puzzle has no solution.
pub uninterp spec fn drill(challenge: Seq<u8>, nonce: Seq<u8>) -> Option<Hash>;

/// Scratch space of the puzzle solver.
#[verifier::external_type_specification]
#[verifier::external_body]
pub struct ExSolverMemory(drillx::equix::SolverMemory);

/// A moment on the monotonic clock.
#[verifier::external_type_specification]
#[verifier::external_body]
pub struct ExInstant(std::time::Instant);

/// `drillx::equix::SolverMemory::new` allocates scratch space. Nothing is claimed of it.
pub assume_specification[ drillx::equix::SolverMemory::new ]() -> (r: drillx::equix::SolverMemory);

/// `std::time::Instant::now` reads the monotonic clock. Nothing is claimed of the reading.
pub assume_specification[ std::time::Instant::now ]() -> (r: std::time::Instant);

/// `std::time::Instant::elapsed` tells the time since a moment. Nothing is claimed of it.
pub assume_specification[ std::time::Instant::elapsed ](timer: &std::time::Instant) -> (r:
    std::time::Duration);

/// `std::time::Duration::as_secs` tells the whole seconds of a duration. Nothing is claimed of
/// them.
pub assume_specification[ std::time::Duration::as_secs ](duration: &std::time::Duration) -> (r:
    u64);

/// The bytes of a number, lowest first.
fn le_bytes(x: u64) -> (r: [u8; 8])
    ensures
        r@ == spec_u64_to_le_bytes(x),
{
    let r: [u8; 8] = [
        (x & 0xff) as u8,
        ((x >> 8) & 0xff) as u8,
        ((x >> 16) & 0xff) as u8,
        ((x >> 24) & 0xff) as u8,
        ((x >> 32) & 0xff) as u8,
        ((x >> 40) & 0xff) as u8,
        ((x >> 48) & 0xff) as u8,
        ((x >> 56) & 0xff) as u8,
    ];
    proof {
        spec_u64_to_le_bytes_to_open(x);
        assert(r@ =~= spec_u64_to_le_bytes_open(x));
    }
    r
}

/// Calls `drillx::hash_with_memory`. Claimed of it: the result depends on the challenge and the
/// nonce alone, and not on what an earlier run left in the scratch space. (drillx sorts the digest
/// as 16-bit words in the machine's byte order before it hashes; the name is for little-endian
/// machines.)
#[verifier::external_body]
fn hash_with_memory(
    memory: &mut drillx::equix::SolverMemory,
    challenge: &[u8; 32],
    nonce: &[u8; 8],
) -> (r: Option<Hash>)
    ensures
        r == drill(challenge@, nonce@),
{
    drillx::hash_with_memory(memory, challenge, nonce).ok().map(|hx| Hash { d: hx.d, h: hx.h })
}

/// Calls `drillx::difficulty`. Claimed of it: it counts the leading zero bits.
#[verifier::external_body]
fn difficulty(h: &[u8; 32]) -> (r: u32)
    ensures
        r == leading_zeros(h@),
{
    drillx::difficulty(*h)
}

/// Reads `ore_api::consts::INITIAL_MIN_DIFFICULTY`. Claimed of it: its value.
#[verifier::external_body]
fn contract_min_difficulty() -> (r: u32)
    ensures
        r == CONTRACT_MIN_DIFFICULTY,
{
    ore_api::consts::INITIAL_MIN_DIFFICULTY
}

/// The least difficulty that the contract starts with.
pub const CONTRACT_MIN_DIFFICULTY: u32 = 1;

/// How good the result of one nonce is: the difficulty of its hash, or zero without one.
pub open spec fn grade(result: Option<Hash>) -> nat {
    match result {
        Some(hash) => leading_zeros(hash.h@),
        None => 0,
    }
}

/// The best result of a search so far.
#[derive(Clone, Copy, Debug, PartialEq, Eq)]
pub struct Best {
    pub nonce: u64,
    pub difficulty: u32,
    pub digest: [u8; 16],
}

/// `best` is the first of the best of `results`, where the result at position `k` is that of
/// nonce `k`. Where no result is worth anything it is nonce zero with a blank digest.
pub open spec fn is_best(results: Seq<Option<Hash>>, best: Best) -> bool {
    &&& forall|k: int| 0 <= k < results.len() ==> grade(#[trigger] results[k]) <= best.difficulty
    &&& if best.difficulty == 0 {
        best.nonce == 0 && best.digest@ == Seq::new(16, |i: int| 0u8)
    } else {
        &&& best.nonce < results.len()
        &&& results[best.nonce as int] is Some
        &&& grade(results[best.nonce as int]) == best.difficulty
        &&& best.digest == results[best.nonce as int]->0.d
        &&& forall|k: int|
            0 <= k < best.nonce ==> grade(#[trigger] results[k]) < best.difficulty
    }
}

impl Best {
    /// Nothing found yet.
    pub fn none() -> (best: Best)
        ensures
            is_best(seq![], best),
            best.nonce == 0,
            best.difficulty == 0,
            forall|i: int| 0 <= i < 16 ==> best.digest@[i] == 0,
    {
        let best = Best { nonce: 0, difficulty: 0, digest: [0; 16] };
        assert(best.digest@ =~= Seq::new(16, |i: int| 0u8));
        best
    }

    /// Takes the result of `nonce` into account: it wins only if it is strictly better.
    pub fn observe(&mut self, nonce: u64, result: &Option<Hash>)
        ensures
            grade(*result) <= old(self).difficulty ==> *final(self) == *old(self),
            grade(*result) > old(self).difficulty ==> {
                &&& final(self).nonce == nonce
                &&& final(self).difficulty == grade(*result)
                &&& final(self).digest == result->0.d
            },
            result is None ==> *final(self) == *old(self),
            result matches Some(hash) ==> (if leading_zeros(hash.h@) > old(self).difficulty {
                &&& final(self).nonce == nonce
                &&& final(self).difficulty == leading_zeros(hash.h@)
                &&& final(self).digest == hash.d
            } else {
                *final(self) == *old(self)
            }),
    {
        if let Some(hash) = result {
            let found = difficulty(&hash.h);
            if found > self.difficulty {
                self.nonce = nonce;
                self.difficulty = found;
                self.digest = hash.d;
            }
        }
    }

    /// Whether the search ends after `nonce`. It looks up only every 128 nonces, and then ends
    /// with a result above `min_difficulty`, or when the time is over.
    pub fn ends_search(
        &self,
        nonce: u64,
        min_difficulty: u32,
        elapsed: u64,
        cutoff_time: u64,
    ) -> (r: bool)
        ensures
            r <==> nonce % 128 == 0 && (self.difficulty > min_difficulty || elapsed
                >= cutoff_time),
    {
        nonce % 128 == 0 && (self.difficulty > min_difficulty || elapsed >= cutoff_time)
    }
}

/// One more result keeps the best the best.
pub proof fn lemma_observe_keeps_best(
    results: Seq<Option<Hash>>,
    before: Best,
    result: Option<Hash>,
    after: Best,
)
    requires
        is_best(results, before),
        results.len() <= u64::MAX,
        grade(result) <= before.difficulty ==> after == before,
        grade(result) > before.difficulty ==> {
            &&& after.nonce == results.len()
            &&& after.difficulty == grade(result)
            &&& after.digest == result->0.d
        },
    ensures
        is_best(results.push(result), after),
{
    let longer = results.push(result);
    assert forall|k: int| 0 <= k < longer.len() implies grade(#[trigger] longer[k])
        <= after.difficulty by {
        if k < results.len() {
            assert(longer[k] == results[k]);
        }
    }
    if after.difficulty > 0 {
        assert(longer[after.nonce as int] == (if grade(result) > before.difficulty {
            result
        } else {
            results[before.nonce as int]
        }));
        assert forall|k: int| 0 <= k < after.nonce implies grade(#[trigger] longer[k])
            < after.difficulty by {
            assert(longer[k] == results[k]);
        }
    }
}

/// A list of results has only one best.
pub proof fn lemma_best_is_unique(results: Seq<Option<Hash>>, a: Best, b: Best)
    requires
        is_best(results, a),
        is_best(results, b),
    ensures
        a.nonce == b.nonce,
        a.difficulty == b.difficulty,
        a.digest@ == b.digest@,
{
    if a.difficulty > 0 {
        assert(grade(results[a.nonce as int]) <= b.difficulty);
    }
    if b.difficulty > 0 {
        assert(grade(results[b.nonce as int]) <= a.difficulty);
    }
}

/// The result of hashing the challenge with a nonce.
pub open spec fn hash_at(challenge: Seq<u8>, nonce: u64) -> Option<Hash> {
    drill(challenge, spec_u64_to_le_bytes(nonce))
}

/// The results of the first `count` nonces.
pub open spec fn results_of(challenge: Seq<u8>, count: nat) -> Seq<Option<Hash>> {
    Seq::new(count, |k: int| hash_at(challenge, k as u64))
}

/// `solution` submits `best`.
pub open spec fn submits(solution: Solution, best: Best) -> bool {
    &&& solution.d == best.digest
    &&& solution.n@ == spec_u64_to_le_bytes(best.nonce)
}

/// No nonce up to `last` beats `min_difficulty`.
pub open spec fn none_above(challenge: Seq<u8>, min_difficulty: u32, last: u64) -> bool {
    forall|k: u64| k <= last ==> #[trigger] grade(hash_at(challenge, k)) <= min_difficulty
}

/// The search is over at the look with this number. It looks up after every 128th nonce, and is
/// over when a nonce tried so far beats `min_difficulty`, or when the clock, which `readings` tells
/// look by look, says that `cutoff_time` seconds have passed.
pub open spec fn is_over(
    challenge: Seq<u8>,
    cutoff_time: u64,
    min_difficulty: u32,
    readings: Seq<u64>,
    look: int,
) -> bool {
    !none_above(challenge, min_difficulty, (128 * look) as u64) || readings[look] >= cutoff_time
}

/// With these readings of the clock, the search ends after nonce `last`: at the first look at
/// which it is over, or when the nonces are used up.
pub open spec fn ends_after(
    challenge: Seq<u8>,
    cutoff_time: u64,
    min_difficulty: u32,
    readings: Seq<u64>,
    last: u64,
) -> bool {
    let final_look = readings.len() - 1;
    &&& final_look >= 0
    &&& forall|look: int|
        0 <= look < final_look ==> !(#[trigger] is_over(
            challenge,
            cutoff_time,
            min_difficulty,
            readings,
            look,
        ))
    &&& if is_over(challenge, cutoff_time, min_difficulty, readings, final_look) {
        last == 128 * final_look
    } else {
        last == u64::MAX && last == 128 * final_look + 127
    }
}

/// `solution` is what a search with these readings of the clock, which ends after nonce `last`,
/// submits: the first of the best of the nonces up to `last`.
pub open spec fn mined(
    challenge: Seq<u8>,
    cutoff_time: u64,
    min_difficulty: u32,
    readings: Seq<u64>,
    last: u64,
    solution: Solution,
) -> bool {
    &&& ends_after(challenge, cutoff_time, min_difficulty, readings, last)
    &&& exists|best: Best| #[trigger]
        is_best(results_of(challenge, last as nat + 1), best) && submits(solution, best)
}

/// `solution` is what a search submits, whatever the clock said.
pub open spec fn is_mined(
    challenge: Seq<u8>,
    cutoff_time: u64,
    min_difficulty: u32,
    solution: Solution,
) -> bool {
    exists|readings: Seq<u64>| #[trigger]
        is_mined_with(challenge, cutoff_time, min_difficulty, readings, solution)
}

/// `solution` is what a search with exactly these readings of the clock submits.
pub open spec fn is_mined_with(
    challenge: Seq<u8>,
    cutoff_time: u64,
    min_difficulty: u32,
    readings: Seq<u64>,
    solution: Solution,
) -> bool {
    exists|last: u64| #[trigger]
        mined(challenge, cutoff_time, min_difficulty, readings, last, solution)
}

/// A clock that runs from the moment it was started, and that remembers what it has told.
pub struct Stopwatch {
    timer: std::time::Instant,
    told: Ghost<Seq<u64>>,
}

impl Stopwatch {
    /// The whole seconds that the clock has told, in order.
    pub closed spec fn readings(self) -> Seq<u64> {
        self.told@
    }

    /// Starts a clock.
    pub fn start() -> (watch: Stopwatch)
        ensures
            watch.readings() == Seq::<u64>::empty(),
    {
        Stopwatch { timer: std::time::Instant::now(), told: Ghost(Seq::empty()) }
    }

    /// The whole seconds since the start.
    pub fn read(&mut self) -> (seconds: u64)
        ensures
            final(self).readings() == old(self).readings().push(seconds),
    {
        let seconds = self.timer.elapsed().as_secs();
        self.told = Ghost(self.told@.push(seconds));
        seconds
    }
}

impl Miner {
    /// Searches for the nonce whose hash has the most leading zero bits, until it beats
    /// `min_difficulty`, `watch` tells at least `cutoff_time` seconds or the nonces are used up.
    pub fn search(
        proof: &Proof,
        cutoff_time: u64,
        min_difficulty: u32,
        watch: &mut Stopwatch,
    ) -> (r: Result<Solution, MiningError>)
        ensures
            r is Err <==> min_difficulty <= CONTRACT_MIN_DIFFICULTY,
            r is Err ==> final(watch).readings() == old(watch).readings(),
            r matches Ok(solution) ==> {
                let before = old(watch).readings();
                let after = final(watch).readings();
                &&& before.is_prefix_of(after)
                &&& is_mined_with(
                    proof.challenge@,
                    cutoff_time,
                    min_difficulty,
                    after.skip(before.len() as int),
                    solution,
                )
            },
            r matches Ok(solution) ==> (drill(proof.challenge@, solution.n@) matches Some(hash) ==> (
            leading_zeros(hash.h@) > 0 ==> solution.d == hash.d)),
    {
        if !(min_difficulty > contract_min_difficulty()) {
            return Err(MiningError::DifficultyTooLow);
        }
        let ghost challenge = proof.challenge@;
        let ghost before_search = watch.readings();
        let ghost mut readings: Seq<u64> = seq![];
        let mut memory = drillx::equix::SolverMemory::new();
        let mut nonce: u64 = 0;
        let mut best = Best::none();
        assert(results_of(challenge, 0) =~= seq![]);
        assert(watch.readings() =~= before_search + readings);
        loop
            invariant_except_break
                is_best(results_of(challenge, nonce as nat), best),
                128 * (readings.len() - 1) < nonce <= 128 * readings.len(),
                forall|look: int|
                    0 <= look < readings.len() ==> !(#[trigger] is_over(
                        challenge,
                        cutoff_time,
                        min_difficulty,
                        readings,
                        look,
                    )),
            invariant
                challenge == proof.challenge@,
                watch.readings() == before_search + readings,
            ensures
                is_best(results_of(challenge, nonce as nat + 1), best),
                ends_after(challenge, cutoff_time, min_difficulty, readings, nonce),
            decreases u64::MAX - nonce,
        {
            let bytes = le_bytes(nonce);
            let result = hash_with_memory(&mut memory, &proof.challenge, &bytes);
            let ghost before = best;
            best.observe(nonce, &result);
            proof {
                let results = results_of(challenge, nonce as nat);
                lemma_observe_keeps_best(results, before, result, best);
                assert(results_of(challenge, nonce as nat + 1) =~= results.push(result));
                lemma_best_tells_difficulty(challenge, min_difficulty, nonce, best);
            }
            if nonce % 128 == 0 {
                let elapsed = watch.read();
                let ghost earlier = readings;
                proof {
                    readings = earlier.push(elapsed);
                    assert(watch.readings() =~= before_search + readings);
                    assert(nonce == 128 * earlier.len());
                    assert forall|look: int| 0 <= look < earlier.len() implies !(
                    #[trigger] is_over(challenge, cutoff_time, min_difficulty, readings, look)) by {
                        assert(!is_over(challenge, cutoff_time, min_difficulty, earlier, look));
                    }
                }
                if best.ends_search(nonce, min_difficulty, elapsed, cutoff_time) {
                    break;
                }
                assert(!is_over(
                    challenge,
                    cutoff_time,
                    min_difficulty,
                    readings,
                    earlier.len() as int,
                ));
            }
            if nonce == u64::MAX {
                break;
            }
            nonce += 1;
        }
        let solution = Solution { d: best.digest, n: le_bytes(best.nonce) };
        proof {
            assert(submits(solution, best));
            assert(mined(challenge, cutoff_time, min_difficulty, readings, nonce, solution));
            assert(watch.readings().skip(before_search.len() as int) =~= readings);
            let first = lemma_solution_is_genuine(
                challenge,
                cutoff_time,
                min_difficulty,
                readings,
                solution,
            );
        }
        Ok(solution)
    }

    /// Searches for the nonce whose hash has the most leading zero bits, until it beats
    /// `min_difficulty`, `cutoff_time` seconds are over or the nonces are used up. What the clock
    /// says is not known beforehand; [`Miner::search`] says what is returned for every reading.
    pub fn single_mine(proof: &Proof, cutoff_time: u64, min_difficulty: u32) -> (r: Result<
        Solution,
        MiningError,
    >)
        ensures
            r is Err <==> min_difficulty <= CONTRACT_MIN_DIFFICULTY,
            r matches Ok(solution) ==> is_mined(
                proof.challenge@,
                cutoff_time,
                min_difficulty,
                solution,
            ),
            r matches Ok(solution) ==> (drill(proof.challenge@, solution.n@) matches Some(hash) ==> (
            leading_zeros(hash.h@) > 0 ==> solution.d == hash.d)),
    {
        let mut watch = Stopwatch::start();
        Miner::search(proof, cutoff_time, min_difficulty, &mut watch)
    }
}

/// The best of the nonces up to `last` beats a difficulty exactly if one of them does.
proof fn lemma_best_tells_difficulty(
    challenge: Seq<u8>,
    min_difficulty: u32,
    last: u64,
    best: Best,
)
    requires
        is_best(results_of(challenge, last as nat + 1), best),
    ensures
        best.difficulty > min_difficulty <==> !none_above(challenge, min_difficulty, last),
{
    let results = results_of(challenge, last as nat + 1);
    if best.difficulty <= min_difficulty {
        assert forall|k: u64| k <= last implies #[trigger] grade(hash_at(challenge, k))
            <= min_difficulty by {
            assert(results[k as int] == hash_at(challenge, k));
        }
    } else {
        assert(results[best.nonce as int] == hash_at(challenge, best.nonce));
    }
}

/// The clock is all that a search depends on besides its arguments: the same readings give the
/// same solution.
pub proof fn lemma_readings_decide(
    challenge: Seq<u8>,
    cutoff_time: u64,
    min_difficulty: u32,
    readings: Seq<u64>,
    last: u64,
    solution: Solution,
    other_last: u64,
    other: Solution,
)
    requires
        mined(challenge, cutoff_time, min_difficulty, readings, last, solution),
        mined(challenge, cutoff_time, min_difficulty, readings, other_last, other),
    ensures
        last == other_last,
        solution.d@ == other.d@,
        solution.n@ == other.n@,
{
    let results = results_of(challenge, last as nat + 1);
    let a = choose|best: Best| #[trigger] is_best(results, best) && submits(solution, best);
    let b = choose|best: Best| #[trigger] is_best(results, best) && submits(other, best);
    lemma_best_is_unique(results, a, b);
}

/// A search without time tries one nonce.
pub proof fn lemma_no_time_means_one_nonce(
    challenge: Seq<u8>,
    min_difficulty: u32,
    readings: Seq<u64>,
    last: u64,
)
    requires
        ends_after(challenge, 0, min_difficulty, readings, last),
    ensures
        last == 0,
{
    assert(is_over(challenge, 0, min_difficulty, readings, 0));
}

/// A search that ends while there is time, and before the nonces are used up, has found what it
/// was asked for.
pub proof fn lemma_ends_early_only_when_satisfied(
    challenge: Seq<u8>,
    cutoff_time: u64,
    min_difficulty: u32,
    readings: Seq<u64>,
    last: u64,
)
    requires
        ends_after(challenge, cutoff_time, min_difficulty, readings, last),
        readings.last() < cutoff_time,
        last < u64::MAX,
    ensures
        exists|found: u64|
            found <= last && #[trigger] grade(hash_at(challenge, found)) > min_difficulty,
{
}

/// A search goes no further than the first look at which something beats the difficulty asked
/// for, whatever the clock says.
pub proof fn lemma_search_stops_when_satisfied(
    challenge: Seq<u8>,
    cutoff_time: u64,
    min_difficulty: u32,
    readings: Seq<u64>,
    last: u64,
    look: u64,
    found: u64,
)
    requires
        ends_after(challenge, cutoff_time, min_difficulty, readings, last),
        look % 128 == 0,
        found <= look,
        grade(hash_at(challenge, found)) > min_difficulty,
    ensures
        last <= look,
{
    let at = look as int / 128;
    assert(128 * at == look);
    if at < readings.len() {
        assert(is_over(challenge, cutoff_time, min_difficulty, readings, at));
    }
}

/// No nonce that a search tried is better than the one it submits, and the digest submitted is
/// the one that this nonce was found with, unless nothing was worth submitting.
pub proof fn lemma_mined_beats_all_tried(
    challenge: Seq<u8>,
    cutoff_time: u64,
    min_difficulty: u32,
    readings: Seq<u64>,
    last: u64,
    solution: Solution,
    tried: u64,
)
    requires
        mined(challenge, cutoff_time, min_difficulty, readings, last, solution),
        tried <= last,
    ensures
        ({
            let nonce = spec_u64_from_le_bytes(solution.n@);
            &&& nonce <= last
            &&& grade(hash_at(challenge, tried)) <= grade(hash_at(challenge, nonce))
            &&& grade(hash_at(challenge, nonce)) > 0 ==> solution.d == hash_at(
                challenge,
                nonce,
            )->0.d
        }),
{
    lemma_auto_spec_u64_to_from_le_bytes();
    let results = results_of(challenge, last as nat + 1);
    let best = choose|best: Best| #[trigger] is_best(results, best) && submits(solution, best);
    assert(spec_u64_from_le_bytes(solution.n@) == best.nonce);
    assert(results[tried as int] == hash_at(challenge, tried));
    assert(results[best.nonce as int] == hash_at(challenge, best.nonce));
}

/// A solution answers the challenge. Its digest is what drillx makes of the challenge and the
/// nonce that is submitted with it; of all nonces that were tried, no other gives more leading
/// zero bits, and no earlier one gives as many. Where no nonce gives any, nonce zero is submitted
/// with a blank digest. The search tried the nonces up to the first look, after every 128th, at
/// which one of them beat the minimum or the clock told `cutoff_time` seconds, or all there are.
pub proof fn lemma_solution_is_genuine(
    challenge: Seq<u8>,
    cutoff_time: u64,
    min_difficulty: u32,
    readings: Seq<u64>,
    solution: Solution,
) -> (last: u64)
    requires
        is_mined_with(challenge, cutoff_time, min_difficulty, readings, solution),
    ensures
        ({
            let nonce = spec_u64_from_le_bytes(solution.n@);
            &&& nonce <= last
            &&& solution.n@ == spec_u64_to_le_bytes(nonce)
        }),
        drill(challenge, solution.n@) matches Some(won) ==> (leading_zeros(won.h@) > 0
            ==> solution.d == won.d),
        forall|k: u64|
            k <= last ==> (#[trigger] drill(challenge, spec_u64_to_le_bytes(k)) matches Some(tried)
                ==> (leading_zeros(tried.h@) > 0 ==> {
                &&& drill(challenge, solution.n@) is Some
                &&& leading_zeros(tried.h@) <= leading_zeros(drill(challenge, solution.n@)->0.h@)
            })),
        forall|k: u64|
            k < spec_u64_from_le_bytes(solution.n@) ==> {
                &&& drill(challenge, solution.n@) is Some
                &&& leading_zeros(drill(challenge, solution.n@)->0.h@) > 0
                &&& (#[trigger] drill(challenge, spec_u64_to_le_bytes(k)) matches Some(tried)
                    ==> leading_zeros(tried.h@) < leading_zeros(
                    drill(challenge, solution.n@)->0.h@,
                ))
            },
        (drill(challenge, solution.n@) is None || leading_zeros(
            drill(challenge, solution.n@)->0.h@,
        ) == 0) ==> {
            &&& spec_u64_from_le_bytes(solution.n@) == 0
            &&& forall|i: int| 0 <= i < 16 ==> solution.d@[i] == 0
        },
        readings.len() > 0,
        last == 128 * (readings.len() - 1) || (last == u64::MAX && last + 1 == 128
            * readings.len()),
        forall|look: int| 0 <= look < readings.len() - 1 ==> #[trigger] readings[look] < cutoff_time,
        forall|k: u64|
            k <= 128 * (readings.len() - 2) ==> (#[trigger] drill(
                challenge,
                spec_u64_to_le_bytes(k),
            ) matches Some(tried) ==> leading_zeros(tried.h@) <= min_difficulty),
        last < u64::MAX ==> readings.last() >= cutoff_time || exists|k: u64|
            k <= last && (#[trigger] drill(challenge, spec_u64_to_le_bytes(k))) is Some
                && leading_zeros(drill(challenge, spec_u64_to_le_bytes(k))->0.h@)
                > min_difficulty,
{
    lemma_auto_spec_u64_to_from_le_bytes();
    let last = choose|last: u64| #[trigger]
        mined(challenge, cutoff_time, min_difficulty, readings, last, solution);
    let results = results_of(challenge, last as nat + 1);
    let best = choose|best: Best| #[trigger] is_best(results, best) && submits(solution, best);
    lemma_submits_best(challenge, last, solution, best);
    assert(results[best.nonce as int] == hash_at(challenge, best.nonce));
    assert forall|k: u64| k <= last implies (#[trigger] drill(
        challenge,
        spec_u64_to_le_bytes(k),
    ) matches Some(tried) ==> (leading_zeros(tried.h@) > 0 ==> {
        &&& drill(challenge, solution.n@) is Some
        &&& leading_zeros(tried.h@) <= leading_zeros(drill(challenge, solution.n@)->0.h@)
    })) by {
        assert(grade(hash_at(challenge, k)) <= best.difficulty);
    }
    assert forall|k: u64| k < spec_u64_from_le_bytes(solution.n@) implies {
        &&& drill(challenge, solution.n@) is Some
        &&& leading_zeros(drill(challenge, solution.n@)->0.h@) > 0
        &&& (#[trigger] drill(challenge, spec_u64_to_le_bytes(k)) matches Some(tried)
            ==> leading_zeros(tried.h@) < leading_zeros(drill(challenge, solution.n@)->0.h@))
    } by {
        assert(grade(hash_at(challenge, k)) < best.difficulty);
    }
    assert forall|look: int| 0 <= look < readings.len() - 1 implies #[trigger] readings[look]
        < cutoff_time by {
        assert(!is_over(challenge, cutoff_time, min_difficulty, readings, look));
    }
    assert forall|k: u64| k <= 128 * (readings.len() - 2) implies (#[trigger] drill(
        challenge,
        spec_u64_to_le_bytes(k),
    ) matches Some(tried) ==> leading_zeros(tried.h@) <= min_difficulty) by {
        let look = readings.len() - 2;
        assert(!is_over(challenge, cutoff_time, min_difficulty, readings, look));
        assert(128 * look <= u64::MAX);
        assert(grade(hash_at(challenge, k)) <= min_difficulty);
    }
    if last < u64::MAX && readings.last() < cutoff_time {
        lemma_ends_early_only_when_satisfied(
            challenge,
            cutoff_time,
            min_difficulty,
            readings,
            last,
        );
        let found = choose|found: u64|
            found <= last && #[trigger] grade(hash_at(challenge, found)) > min_difficulty;
        assert(drill(challenge, spec_u64_to_le_bytes(found)) is Some);
    }
    last
}

/// Whatever the clock said, a solution answers the challenge: its digest is what drillx makes of
/// the challenge and the nonce that is submitted with it, no other nonce that was tried gives more
/// leading zero bits, and no earlier one gives as many.
pub proof fn lemma_any_solution_is_genuine(
    challenge: Seq<u8>,
    cutoff_time: u64,
    min_difficulty: u32,
    solution: Solution,
) -> (last: u64)
    requires
        is_mined(challenge, cutoff_time, min_difficulty, solution),
    ensures
        spec_u64_from_le_bytes(solution.n@) <= last,
        last % 128 == 0 || last == u64::MAX,
        cutoff_time == 0 ==> last == 0,
        drill(challenge, solution.n@) matches Some(won) ==> (leading_zeros(won.h@) > 0
            ==> solution.d == won.d),
        forall|k: u64|
            k <= last ==> (#[trigger] drill(challenge, spec_u64_to_le_bytes(k)) matches Some(tried)
                ==> (leading_zeros(tried.h@) > 0 ==> {
                &&& drill(challenge, solution.n@) is Some
                &&& leading_zeros(tried.h@) <= leading_zeros(drill(challenge, solution.n@)->0.h@)
            })),
        forall|k: u64|
            k < spec_u64_from_le_bytes(solution.n@) ==> (#[trigger] drill(
                challenge,
                spec_u64_to_le_bytes(k),
            ) matches Some(tried) ==> leading_zeros(tried.h@) < leading_zeros(
                drill(challenge, solution.n@)->0.h@,
            )),
{
    let readings = choose|readings: Seq<u64>| #[trigger]
        is_mined_with(challenge, cutoff_time, min_difficulty, readings, solution);
    let last = lemma_solution_is_genuine(
        challenge,
        cutoff_time,
        min_difficulty,
        readings,
        solution,
    );
    if cutoff_time == 0 {
        let ended = choose|ended: u64| #[trigger]
            mined(challenge, cutoff_time, min_difficulty, readings, ended, solution);
        lemma_no_time_means_one_nonce(challenge, min_difficulty, readings, ended);
    }
    last
}

/// The nonce that a search submits is the first of the best of the nonces it tried.
proof fn lemma_submits_best(challenge: Seq<u8>, last: u64, solution: Solution, best: Best)
    requires
        is_best(results_of(challenge, last as nat + 1), best),
        submits(solution, best),
    ensures
        spec_u64_from_le_bytes(solution.n@) == best.nonce,
        best.nonce <= last,
        grade(hash_at(challenge, best.nonce)) == best.difficulty,
        forall|k: u64| k <= last ==> #[trigger] grade(hash_at(challenge, k)) <= best.difficulty,
        forall|k: u64|
            k < best.nonce ==> #[trigger] grade(hash_at(challenge, k)) < best.difficulty,
{
    lemma_auto_spec_u64_to_from_le_bytes();
    let results = results_of(challenge, last as nat + 1);
    assert(results[best.nonce as int] == hash_at(challenge, best.nonce));
    assert forall|k: u64| k <= last implies #[trigger] grade(hash_at(challenge, k))
        <= best.difficulty by {
        assert(results[k as int] == hash_at(challenge, k));
    }
    assert forall|k: u64| k < best.nonce implies #[trigger] grade(hash_at(challenge, k))
        < best.difficulty by {
        assert(results[k as int] == hash_at(challenge, k));
    }
}

/// While there is time, a search with a higher minimum ends no earlier.
proof fn lemma_higher_minimum_ends_no_earlier(
    challenge: Seq<u8>,
    cutoff_time: u64,
    min_difficulty: u32,
    readings: Seq<u64>,
    last: u64,
    other_cutoff: u64,
    higher: u32,
    other_readings: Seq<u64>,
    other_last: u64,
)
    requires
        ends_after(challenge, cutoff_time, min_difficulty, readings, last),
        ends_after(challenge, other_cutoff, higher, other_readings, other_last),
        min_difficulty <= higher,
        other_readings.last() < other_cutoff,
    ensures
        last <= other_last,
{
    if other_last < u64::MAX {
        lemma_ends_early_only_when_satisfied(
            challenge,
            other_cutoff,
            higher,
            other_readings,
            other_last,
        );
        let found = choose|found: u64|
            found <= other_last && #[trigger] grade(hash_at(challenge, found)) > higher;
        lemma_search_stops_when_satisfied(
            challenge,
            cutoff_time,
            min_difficulty,
            readings,
            last,
            other_last,
            found,
        );
    }
}

/// While there is time, every search that ends before the nonces are used up beats its minimum,
/// and of two searches for the same challenge the one with the higher minimum submits a result at
/// least as good, with a nonce at least as large. Equal minimums give equal solutions.
pub proof fn lemma_higher_minimum_is_no_worse(
    challenge: Seq<u8>,
    cutoff_time: u64,
    min_difficulty: u32,
    readings: Seq<u64>,
    last: u64,
    solution: Solution,
    other_cutoff: u64,
    higher: u32,
    other_readings: Seq<u64>,
    other_last: u64,
    other: Solution,
)
    requires
        mined(challenge, cutoff_time, min_difficulty, readings, last, solution),
        mined(challenge, other_cutoff, higher, other_readings, other_last, other),
        min_difficulty <= higher,
        readings.last() < cutoff_time,
        other_readings.last() < other_cutoff,
    ensures
        ({
            let nonce = spec_u64_from_le_bytes(solution.n@);
            let other_nonce = spec_u64_from_le_bytes(other.n@);
            let difficulty = grade(hash_at(challenge, nonce));
            let other_difficulty = grade(hash_at(challenge, other_nonce));
            &&& last < u64::MAX ==> difficulty > min_difficulty
            &&& other_last < u64::MAX ==> other_difficulty > higher
            &&& difficulty <= other_difficulty
            &&& nonce <= other_nonce
            &&& min_difficulty == higher ==> solution.d@ == other.d@ && solution.n@ == other.n@
        }),
{
    let results = results_of(challenge, last as nat + 1);
    let other_results = results_of(challenge, other_last as nat + 1);
    let a = choose|best: Best| #[trigger] is_best(results, best) && submits(solution, best);
    let b = choose|best: Best| #[trigger] is_best(other_results, best) && submits(other, best);
    lemma_submits_best(challenge, last, solution, a);
    lemma_submits_best(challenge, other_last, other, b);
    lemma_best_tells_difficulty(challenge, min_difficulty, last, a);
    lemma_best_tells_difficulty(challenge, higher, other_last, b);
    lemma_higher_minimum_ends_no_earlier(
        challenge,
        cutoff_time,
        min_difficulty,
        readings,
        last,
        other_cutoff,
        higher,
        other_readings,
        other_last,
    );
    assert(grade(hash_at(challenge, a.nonce)) <= b.difficulty);
    if min_difficulty == higher {
        lemma_higher_minimum_ends_no_earlier(
            challenge,
            other_cutoff,
            higher,
            other_readings,
            other_last,
            cutoff_time,
            min_difficulty,
            readings,
            last,
        );
        lemma_best_is_unique(results, a, b);
    }
}

/// The address of the ORE program.
// oreV2ZymfyeXgNgBdqMkumTqqAprVqgBWQfoYkrtKWQ
pub const ORE_PROGRAM: Pubkey = [
    12, 0, 218, 56, 141, 104, 231, 117, 177, 181, 197, 109, 1, 141, 62, 76, 214, 134, 116, 12, 241,
    199, 17, 129, 167, 81, 49, 80, 203, 81, 31, 217,
];

/// The address of the ORE program's configuration.
pub const ORE_CONFIG: Pubkey = [
    18, 182, 59, 106, 229, 86, 186, 133, 185, 54, 107, 226, 145, 180, 78, 105, 87, 152, 157, 18, 49,
    200, 247, 61, 137, 205, 48, 160, 0, 72, 91, 70,
];

/// The address of the first account that the ORE program pays rewards from.
pub const ORE_FIRST_BUS: Pubkey = [
    165, 99, 118, 66, 37, 47, 225, 100, 213, 190, 154, 70, 68, 234, 92, 86, 198, 31, 199, 105, 93,
    130, 23, 55, 250, 43, 16, 137, 152, 69, 44, 187,
];

/// The address of the instructions sysvar.
// Sysvar1nstructions1111111111111111111111111
pub const INSTRUCTIONS_SYSVAR: Pubkey = [
    6, 167, 213, 23, 24, 123, 209, 102, 53, 218, 212, 4, 85, 253, 194, 192, 193, 36, 198, 143, 33,
    86, 117, 165, 219, 186, 203, 95, 8, 0, 0, 0,
];

/// The address of the slot hashes sysvar.
// SysvarS1otHashes111111111111111111111111111
pub const SLOT_HASHES_SYSVAR: Pubkey = [
    6, 167, 213, 23, 25, 47, 10, 175, 198, 242, 101, 227, 251, 119, 204, 122, 218, 130, 197, 41,
    208, 190, 59, 19, 110, 45, 0, 85, 32, 0, 0, 0,
];

/// The address of a miner's proof account, which is derived from the miner's own; `None` where no
/// address can be derived.
pub uninterp spec fn proof_address(authority: Pubkey) -> Option<Pubkey>;

/// An account that is read but does not sign.
pub open spec fn readonly(pubkey: Pubkey) -> AccountMeta {
    AccountMeta { pubkey, is_signer: false, is_writable: false }
}

/// An account that is written to but does not sign.
pub open spec fn writable(pubkey: Pubkey) -> AccountMeta {
    AccountMeta { pubkey, is_signer: false, is_writable: true }
}

/// The instruction that submits `solution` for `signer` and draws the reward from `bus`.
pub open spec fn mine_instruction(
    signer: Pubkey,
    bus: Pubkey,
    proof: Pubkey,
    solution: Solution,
) -> InstructionView {
    InstructionView {
        program_id: ORE_PROGRAM,
        accounts: seq![
            AccountMeta { pubkey: signer, is_signer: true, is_writable: true },
            writable(bus),
            readonly(ORE_CONFIG),
            writable(proof),
            readonly(INSTRUCTIONS_SYSVAR),
            readonly(SLOT_HASHES_SYSVAR),
        ],
        data: seq![2u8] + solution.d@ + solution.n@,
    }
}

/// Calls `solana_program::pubkey::Pubkey::try_find_program_address` with the seeds that
/// `ore_api::state::proof_pda` uses. Claimed of it: the result depends on the miner's address
/// alone.
#[verifier::external_body]
fn find_proof_address(authority: &Pubkey) -> (r: Option<Pubkey>)
    ensures
        r == proof_address(*authority),
{
    let seeds = [ore_api::consts::PROOF, authority.as_slice()];
    let found = solana_program::pubkey::Pubkey::try_find_program_address(&seeds, &ore_api::ID);
    found.map(|(address, _bump)| address.to_bytes())
}

/// The address of a miner's proof account, if one can be derived.
pub fn proof_account(authority: &Pubkey) -> (r: Option<Pubkey>)
    ensures
        r == proof_address(*authority),
{
    find_proof_address(authority)
}

/// Calls `ore_api::sdk::mine` for a miner that submits on its own behalf and without boosts.
/// Claimed of it: the program, the six accounts and their roles, and the data, which is the tag of
/// this request followed by digest and nonce. It panics where no proof address can be derived.
#[verifier::external_body]
fn ore_mine(signer: &Pubkey, bus: &Pubkey, solution: &Solution) -> (r: Instruction)
    requires
        proof_address(*signer) is Some,
    ensures
        r@ == mine_instruction(*signer, *bus, proof_address(*signer)->0, *solution),
{
    let found = drillx::Solution::new(solution.d, solution.n);
    let (miner, bus) = ((*signer).into(), (*bus).into());
    let ix = ore_api::sdk::mine(miner, miner, bus, found, vec![]);
    let metas = ix.accounts.iter().map(|m| AccountMeta {
        pubkey: m.pubkey.to_bytes(),
        is_signer: m.is_signer,
        is_writable: m.is_writable,
    });
    Instruction { program_id: ix.program_id.to_bytes(), accounts: metas.collect(), data: ix.data }
}

/// Reads `ore_api::consts::BUS_ADDRESSES`. Claimed of it: its first entry.
#[verifier::external_body]
fn first_bus() -> (r: Pubkey)
    ensures
        r == ORE_FIRST_BUS,
{
    ore_api::consts::BUS_ADDRESSES[0].to_bytes()
}

/// What one miner found, with the key that signs for it.
pub struct Mined {
    pub keypair: Keypair,
    pub solution: Solution,
}

impl Miner {
    /// Searches for the miner with this key, whose proof account is `proof`. What is found belongs
    /// to this key.
    pub fn mine_for(
        keypair: Keypair,
        proof: &Proof,
        cutoff_time: u64,
        min_difficulty: u32,
    ) -> (r: Result<Mined, MiningError>)
        ensures
            r is Err <==> min_difficulty <= CONTRACT_MIN_DIFFICULTY,
            r matches Ok(mined) ==> mined.keypair == keypair && is_mined(
                proof.challenge@,
                cutoff_time,
                min_difficulty,
                mined.solution,
            ),
            r matches Ok(mined) ==> (drill(proof.challenge@, mined.solution.n@) matches Some(hash)
                ==> (leading_zeros(hash.h@) > 0 ==> mined.solution.d == hash.d)),
    {
        match Miner::single_mine(proof, cutoff_time, min_difficulty) {
            Ok(solution) => Ok(Mined { keypair, solution }),
            Err(e) => Err(e),
        }
    }
}

/// Why something found could not be submitted.
#[derive(Clone, Copy, Debug, PartialEq, Eq, Structural)]
pub enum SubmissionError {
    /// The miner has no proof account.
    NoProofAddress,
    /// The transaction could not be signed.
    Signing(SigningError),
}

/// The compute units that a transaction which submits a solution asks for.
pub const MINE_COMPUTE_UNITS: u32 = 500_000;

/// The instructions of the transaction that submits what was found: the compute budget, priced at
/// the priority fee, and the solution.
pub open spec fn submission(priority_fee: u64, mined: Mined) -> Seq<InstructionView>
    recommends
        proof_address(mined.keypair.pubkey) is Some,
{
    seq![
        unit_limit_instruction(MINE_COMPUTE_UNITS),
        unit_price_instruction(priority_fee),
        mine_instruction(
            mined.keypair.pubkey,
            ORE_FIRST_BUS,
            proof_address(mined.keypair.pubkey)->0,
            mined.solution,
        ),
    ]
}

/// What comes of building and signing the transaction that submits what was found: its message
/// with the one signature, or the first thing that stands in the way.
pub open spec fn submission_outcome(
    priority_fee: u64,
    mined: Mined,
    blockhash: Blockhash,
) -> Result<(Seq<u8>, Signature), SubmissionError> {
    if proof_address(mined.keypair.pubkey) is None {
        Err(SubmissionError::NoProofAddress)
    } else {
        match signing_outcome(submission(priority_fee, mined), mined.keypair, blockhash) {
            Ok(content) => Ok(content),
            Err(e) => Err(SubmissionError::Signing(e)),
        }
    }
}

/// Everything that was found can be submitted.
pub open spec fn all_submit(priority_fee: u64, found: Seq<Mined>, blockhash: Blockhash) -> bool {
    forall|i: int|
        0 <= i < found.len() ==> (#[trigger] submission_outcome(
            priority_fee,
            found[i],
            blockhash,
        )) is Ok
}

/// `error` is what stands in the way of the first thing found that cannot be submitted.
pub open spec fn is_first_error(
    priority_fee: u64,
    found: Seq<Mined>,
    blockhash: Blockhash,
    error: SubmissionError,
) -> bool {
    exists|i: int|
        {
            &&& 0 <= i < found.len()
            &&& #[trigger] submission_outcome(priority_fee, found[i], blockhash) == Err::<
                (Seq<u8>, Signature),
                SubmissionError,
            >(error)
            &&& all_submit(priority_fee, found.take(i), blockhash)
        }
}

/// `tx` submits what was found for the miner who found it: it is the message of the compute limit,
/// the price and the solution, with the miner's signature and no other.
pub open spec fn submits_for(
    priority_fee: u64,
    mined: Mined,
    blockhash: Blockhash,
    tx: SignedTransaction,
) -> bool {
    let message = compiled_message(
        seq![
            unit_limit_instruction(500_000),
            unit_price_instruction(priority_fee),
            mine_instruction(
                mined.keypair.pubkey,
                ORE_FIRST_BUS,
                proof_address(mined.keypair.pubkey)->0,
                mined.solution,
            ),
        ],
        mined.keypair.pubkey,
        blockhash,
    );
    &&& proof_address(mined.keypair.pubkey) is Some
    &&& keypair_is_valid(mined.keypair.secret@, mined.keypair.pubkey@)
    &&& tx.message@ == message
    &&& tx.signatures@ == seq![
        ed25519_signature(mined.keypair.secret@, mined.keypair.pubkey@, message),
    ]
}

impl Miner {
    /// The transactions of a bundle that submits everything that was found, one for each miner
    /// and in the same order, each paying the priority fee, or the first error that was met.
    pub fn bundle_mine(&self, found: &Vec<Mined>, blockhash: &Blockhash) -> (r: Result<
        Vec<SignedTransaction>,
        SubmissionError,
    >)
        ensures
            r is Ok <==> all_submit(self.priority_fee, found@, *blockhash),
            r is Ok ==> r->Ok_0@.len() == found@.len() && forall|i: int|
                0 <= i < found@.len() ==> is_signed(
                    #[trigger] r->Ok_0@[i],
                    submission_outcome(self.priority_fee, found@[i], *blockhash)->Ok_0,
                ),
            r is Err ==> is_first_error(self.priority_fee, found@, *blockhash, r->Err_0),
            r is Ok ==> forall|i: int|
                0 <= i < found@.len() ==> submits_for(
                    self.priority_fee,
                    found@[i],
                    *blockhash,
                    #[trigger] r->Ok_0@[i],
                ),
    {
        let bus = first_bus();
        let mut txs: Vec<SignedTransaction> = Vec::new();
        let mut i: usize = 0;
        while i < found.len()
            invariant
                bus == ORE_FIRST_BUS,
                i <= found@.len(),
                txs@.len() == i,
                forall|k: int|
                    0 <= k < i ==> is_signed(
                        #[trigger] txs@[k],
                        submission_outcome(self.priority_fee, found@[k], *blockhash)->Ok_0,
                    ),
                forall|k: int|
                    0 <= k < i ==> (#[trigger] submission_outcome(self.priority_fee, found@[k], *blockhash)) is Ok,
            decreases found@.len() - i,
        {
            let mined = &found[i];
            let ghost outcome = submission_outcome(self.priority_fee, found@[i as int], *blockhash);
            let signed = match proof_account(&mined.keypair.pubkey) {
                None => Err(SubmissionError::NoProofAddress),
                Some(_) => {
                    let mut ixs: Vec<Instruction> = Vec::new();
                    ixs.push(set_compute_unit_limit(MINE_COMPUTE_UNITS));
                    ixs.push(set_compute_unit_price(self.priority_fee));
                    ixs.push(ore_mine(&mined.keypair.pubkey, &bus, &mined.solution));
                    assert(views(ixs@) =~= submission(self.priority_fee, *mined));
                    match signed_transaction(&ixs, &mined.keypair, blockhash) {
                        Ok(tx) => Ok(tx),
                        Err(e) => Err(SubmissionError::Signing(e)),
                    }
                },
            };
            match signed {
                Ok(tx) => {
                    assert(outcome is Ok && is_signed(tx, outcome->Ok_0));
                    txs.push(tx);
                },
                Err(e) => {
                    assert(outcome == Err::<(Seq<u8>, Signature), SubmissionError>(e));
                    assert(all_submit(self.priority_fee, found@.take(i as int), *blockhash)) by {
                        assert forall|k: int| 0 <= k < i implies (#[trigger] submission_outcome(
                            self.priority_fee,
                            found@.take(i as int)[k],
                            *blockhash,
                        )) is Ok by {
                            assert(submission_outcome(self.priority_fee, found@[k], *blockhash) is Ok);
                        }
                    }
                    return Err(e);
                },
            }
            i += 1;
        }
        proof {
            assert forall|i: int| 0 <= i < found@.len() implies submits_for(
                self.priority_fee,
                found@[i],
                *blockhash,
                #[trigger] txs@[i],
            ) by {
                let mined = found@[i];
                assert(submission_outcome(self.priority_fee, mined, *blockhash) is Ok);
                assert(submission(self.priority_fee, mined) =~= seq![
                    unit_limit_instruction(500_000),
                    unit_price_instruction(self.priority_fee),
                    mine_instruction(
                        mined.keypair.pubkey,
                        ORE_FIRST_BUS,
                        proof_address(mined.keypair.pubkey)->0,
                        mined.solution,
                    ),
                ]);
            }
        }
        Ok(txs)
    }
}

/// The instruction that submits a solution says whose it is and what was found: its data are the
/// digest and the nonce as they are, and it names the miner, who signs, the bus and the proof
/// account, which are written to, and what is only read.
pub proof fn lemma_mine_reads_back(signer: Pubkey, bus: Pubkey, proof: Pubkey, solution: Solution)
    ensures
        ({
            let ix = mine_instruction(signer, bus, proof, solution);
            &&& ix.program_id == ORE_PROGRAM
            &&& ix.data.len() == 25
            &&& ix.data[0] == 2
            &&& ix.data.subrange(1, 17) == solution.d@
            &&& ix.data.subrange(17, 25) == solution.n@
            &&& ix.accounts.len() == 6
            &&& ix.accounts[0].pubkey == signer
            &&& ix.accounts[1].pubkey == bus
            &&& ix.accounts[2].pubkey == ORE_CONFIG
            &&& ix.accounts[3].pubkey == proof
            &&& ix.accounts[4].pubkey == INSTRUCTIONS_SYSVAR
            &&& ix.accounts[5].pubkey == SLOT_HASHES_SYSVAR
            &&& forall|j: int|
                0 <= j < 6 ==> ((#[trigger] ix.accounts[j]).is_signer <==> j == 0) && (
                ix.accounts[j].is_writable <==> j == 0 || j == 1 || j == 3)
        }),
{
    let ix = mine_instruction(signer, bus, proof, solution);
    assert(ix.data.subrange(1, 17) =~= solution.d@);
    assert(ix.data.subrange(17, 25) =~= solution.n@);
}

/// What was found is submitted as it was found: exactly one instruction of the transaction is one
/// of the ORE program, it is the miner's, and behind its tag it carries the digest and then the
/// nonce, byte by byte. Before it stand the compute limit and the price, which is the priority fee.
pub proof fn lemma_submission_carries_solution(priority_fee: u64, mined: Mined)
    requires
        proof_address(mined.keypair.pubkey) is Some,
    ensures
        ({
            let ixs = submission(priority_fee, mined);
            &&& ixs.len() == 3
            &&& forall|i: int|
                0 <= i < 3 ==> ((#[trigger] ixs[i]).program_id == ORE_PROGRAM <==> i == 2)
            &&& ixs[2].data.len() == 25
            &&& forall|b: int| 0 <= b < 16 ==> ixs[2].data[1 + b] == #[trigger] mined.solution.d@[b]
            &&& forall|b: int| 0 <= b < 8 ==> ixs[2].data[17 + b] == #[trigger] mined.solution.n@[b]
            &&& ixs[2].accounts[0].pubkey == mined.keypair.pubkey
            &&& ixs[2].accounts[0].is_signer
            &&& ixs[2].accounts[1].pubkey == ORE_FIRST_BUS
            &&& ixs[2].accounts[3].pubkey == proof_address(mined.keypair.pubkey)->0
            &&& ixs[0].data[0] == 2 && spec_u32_from_le_bytes(ixs[0].data.skip(1)) == 500_000
            &&& ixs[1].data[0] == 3 && spec_u64_from_le_bytes(ixs[1].data.skip(1)) == priority_fee
        }),
{
    let ixs = submission(priority_fee, mined);
    lemma_budget_reads_back(500_000, priority_fee);
    assert(ORE_PROGRAM@[0] != COMPUTE_BUDGET_PROGRAM@[0]);
    assert(ixs[2].data.len() == 25);
}

/// A submission is signed as it stands: the message is that of its instructions, the miner's
/// address and the blockhash, and the signature is the miner's. It fails exactly where there is no
/// proof account, the key is bad, or the signature is blank.
pub proof fn lemma_submission_is_signed_by_miner(
    priority_fee: u64,
    mined: Mined,
    blockhash: Blockhash,
)
    ensures
        ({
            let outcome = submission_outcome(priority_fee, mined, blockhash);
            let message = compiled_message(
                submission(priority_fee, mined),
                mined.keypair.pubkey,
                blockhash,
            );
            let signature = ed25519_signature(mined.keypair.secret@, mined.keypair.pubkey@, message);
            &&& outcome is Ok <==> {
                &&& proof_address(mined.keypair.pubkey) is Some
                &&& keypair_is_valid(mined.keypair.secret@, mined.keypair.pubkey@)
                &&& exists|i: int| 0 <= i < 64 && #[trigger] signature@[i] != 0
            }
            &&& outcome is Ok ==> outcome->Ok_0.0 == message && outcome->Ok_0.1 == signature
            &&& outcome is Err ==> (outcome->Err_0 == SubmissionError::NoProofAddress
                <==> proof_address(mined.keypair.pubkey) is None)
            &&& outcome is Err && proof_address(mined.keypair.pubkey) is Some ==> (
            outcome->Err_0 == SubmissionError::Signing(SigningError::InvalidKeypair)
                <==> !keypair_is_valid(mined.keypair.secret@, mined.keypair.pubkey@))
        }),
{
    if proof_address(mined.keypair.pubkey) is Some {
        lemma_submission_can_be_signed(priority_fee, mined);
        lemma_signs_what_was_asked(submission(priority_fee, mined), mined.keypair, blockhash);
    }
}

/// The error of a bundle is that of the first thing found that cannot be submitted.
pub proof fn lemma_first_error_is_first(
    priority_fee: u64,
    found: Seq<Mined>,
    blockhash: Blockhash,
    error: SubmissionError,
) -> (at: int)
    requires
        is_first_error(priority_fee, found, blockhash, error),
    ensures
        0 <= at < found.len(),
        submission_outcome(priority_fee, found[at], blockhash) matches Err(e) && e == error,
        forall|k: int|
            0 <= k < at ==> (#[trigger] submission_outcome(
                priority_fee,
                found[k],
                blockhash,
            )) is Ok,
        !all_submit(priority_fee, found, blockhash),
{
    let at = choose|i: int|
        {
            &&& 0 <= i < found.len()
            &&& #[trigger] submission_outcome(priority_fee, found[i], blockhash) == Err::<
                (Seq<u8>, Signature),
                SubmissionError,
            >(error)
            &&& all_submit(priority_fee, found.take(i), blockhash)
        };
    assert forall|k: int| 0 <= k < at implies (#[trigger] submission_outcome(
        priority_fee,
        found[k],
        blockhash,
    )) is Ok by {
        assert(found.take(at)[k] == found[k]);
        assert(submission_outcome(priority_fee, found.take(at)[k], blockhash) is Ok);
    }
    at
}

/// Everything can be submitted exactly if each thing found can.
pub proof fn lemma_all_submit_means_each(
    priority_fee: u64,
    found: Seq<Mined>,
    blockhash: Blockhash,
)
    ensures
        all_submit(priority_fee, found, blockhash) <==> forall|i: int|
            0 <= i < found.len() ==> (#[trigger] submission_outcome(
                priority_fee,
                found[i],
                blockhash,
            )) is Ok,
{
}

/// A submission always fits into a transaction, and nobody but the miner has to sign it: only a
/// missing proof account or a bad key can stand in its way.
pub proof fn lemma_submission_can_be_signed(priority_fee: u64, mined: Mined)
    requires
        proof_address(mined.keypair.pubkey) is Some,
    ensures
        fits_message(submission(priority_fee, mined), mined.keypair.pubkey),
        sole_signer(submission(priority_fee, mined), mined.keypair.pubkey),
{
    lemma_auto_spec_u32_to_from_le_bytes();
    lemma_auto_spec_u64_to_from_le_bytes();
    let ixs = submission(priority_fee, mined);
    let payer = mined.keypair.pubkey;
    let keys = seq![
        payer,
        ORE_PROGRAM,
        ORE_FIRST_BUS,
        ORE_CONFIG,
        proof_address(payer)->0,
        INSTRUCTIONS_SYSVAR,
        SLOT_HASHES_SYSVAR,
        COMPUTE_BUDGET_PROGRAM,
    ];
    assert forall|key: Pubkey| mentions(ixs, payer, key) implies #[trigger] keys.contains(key) by {
        assert(keys[0] == payer);
        assert(keys[1] == ORE_PROGRAM);
        assert(keys[2] == ORE_FIRST_BUS);
        assert(keys[3] == ORE_CONFIG);
        assert(keys[4] == proof_address(payer)->0);
        assert(keys[5] == INSTRUCTIONS_SYSVAR);
        assert(keys[6] == SLOT_HASHES_SYSVAR);
        assert(keys[7] == COMPUTE_BUDGET_PROGRAM);
        if exists|i: int, j: int| #[trigger] refers(ixs, key, i, j) {
            let (i, j) = choose|i: int, j: int| #[trigger] refers(ixs, key, i, j);
            assert(ixs[i].accounts[j].pubkey == key);
        }
    }
    assert(holds_all(keys, |key: Pubkey| mentions(ixs, payer, key)));
    assert(holds_all(keys, |key: Pubkey| only_reads(ixs, payer, key)));
    assert forall|key: Pubkey| must_sign(ixs, payer, key) implies #[trigger] keys.contains(key) by {
        assert(mentions(ixs, payer, key));
    }
    assert(holds_all(keys, |key: Pubkey| must_sign(ixs, payer, key)));
    assert(short_lists(ixs));
    assert(at_most(|key: Pubkey| must_sign(ixs, payer, key), 255));
    assert(at_most(|key: Pubkey| only_reads(ixs, payer, key), 255));
    assert(at_most(|key: Pubkey| mentions(ixs, payer, key), 65535));
}

} // verus!
