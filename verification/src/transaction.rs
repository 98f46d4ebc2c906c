//! Signed transactions: which lists of instructions fit into one, and how it is signed.

use crate::chain::{views, AccountMeta, Instruction, InstructionView, Pubkey};
use solana_sdk::instruction::{AccountMeta as SdkAccountMeta, Instruction as SdkInstruction};
use solana_sdk::signature::{Keypair as SdkKeypair, Signer};
use solana_sdk::transaction::Transaction;
use vstd::prelude::*;
use vstd::set_lib::lemma_len_subset;

verus! {

/// A recent block's hash, which dates a transaction.
pub type Blockhash = [u8; 32];

/// An Ed25519 signature.
pub type Signature = [u8; 64];

/// A signing key with the address that belongs to it.
pub struct Keypair {
    pub secret: [u8; 32],
    pub pubkey: Pubkey,
}

/// A transaction with all its signatures.
#[derive(Debug, PartialEq, Eq)]
pub struct SignedTransaction {
    /// The signatures, the payer's first.
    pub signatures: Vec<Signature>,
    /// The bytes that were signed.
    pub message: Vec<u8>,
}

/// Why a transaction could not be signed.
#[derive(Clone, Copy, Debug, PartialEq, Eq, Structural)]
pub enum SigningError {
    /// The instructions refer to more accounts, or hold longer lists, than a message can.
    MessageTooLarge,
    /// The address is not the one that belongs to the secret key.
    InvalidKeypair,
    /// An account other than the payer has to sign.
    NotEnoughSigners,
}

/// The account at position `j` of instruction `i` has address `key`.
pub open spec fn refers(ixs: Seq<InstructionView>, key: Pubkey, i: int, j: int) -> bool {
    &&& 0 <= i < ixs.len()
    &&& 0 <= j < ixs[i].accounts.len()
    &&& ixs[i].accounts[j].pubkey == key
}

/// A transaction of `ixs` paid by `payer` mentions `key`.
pub open spec fn mentions(ixs: Seq<InstructionView>, payer: Pubkey, key: Pubkey) -> bool {
    ||| key == payer
    ||| exists|i: int| 0 <= i < ixs.len() && #[trigger] ixs[i].program_id == key
    ||| exists|i: int, j: int| #[trigger] refers(ixs, key, i, j)
}

/// A transaction of `ixs` paid by `payer` has to be signed by `key`.
pub open spec fn must_sign(ixs: Seq<InstructionView>, payer: Pubkey, key: Pubkey) -> bool {
    ||| key == payer
    ||| exists|i: int, j: int| #[trigger] refers(ixs, key, i, j) && ixs[i].accounts[j].is_signer
}

/// A transaction of `ixs` paid by `payer` may write to `key`.
pub open spec fn may_write(ixs: Seq<InstructionView>, payer: Pubkey, key: Pubkey) -> bool {
    ||| key == payer
    ||| exists|i: int, j: int| #[trigger] refers(ixs, key, i, j) && ixs[i].accounts[j].is_writable
}

/// The transaction only reads `key`, and `key` does not sign it.
pub open spec fn only_reads(ixs: Seq<InstructionView>, payer: Pubkey, key: Pubkey) -> bool {
    &&& mentions(ixs, payer, key)
    &&& !must_sign(ixs, payer, key)
    &&& !may_write(ixs, payer, key)
}

/// At most `limit` addresses have the property `p`: some list of that length holds them all.
pub open spec fn at_most(p: spec_fn(Pubkey) -> bool, limit: nat) -> bool {
    exists|keys: Seq<Pubkey>| #[trigger] holds_all(keys, p) && keys.len() <= limit
}

/// Every address with the property `p` is in `keys`.
pub open spec fn holds_all(keys: Seq<Pubkey>, p: spec_fn(Pubkey) -> bool) -> bool {
    forall|key: Pubkey| p(key) ==> #[trigger] keys.contains(key)
}

/// The lists of every instruction are short enough for their lengths to be written down.
pub open spec fn short_lists(ixs: Seq<InstructionView>) -> bool {
    &&& ixs.len() <= 65535
    &&& forall|i: int|
        0 <= i < ixs.len() ==> (#[trigger] ixs[i]).accounts.len() <= 65535 && ixs[i].data.len()
            <= 65535
}

/// The instructions fit into one transaction message that `payer` pays for: its header counts
/// signers and read-only accounts in one byte each, and its lists are at most 65535 long.
pub open spec fn fits_message(ixs: Seq<InstructionView>, payer: Pubkey) -> bool {
    &&& short_lists(ixs)
    &&& at_most(|key: Pubkey| must_sign(ixs, payer, key), 255)
    &&& at_most(|key: Pubkey| only_reads(ixs, payer, key), 255)
    &&& at_most(|key: Pubkey| mentions(ixs, payer, key), 65535)
}

/// The payer is the only one who has to sign.
pub open spec fn sole_signer(ixs: Seq<InstructionView>, payer: Pubkey) -> bool {
    forall|key: Pubkey| #[trigger] must_sign(ixs, payer, key) ==> key == payer
}

/// A list without repetitions that holds exactly the addresses with property `p` shows whether
/// there are at most `limit` of them.
proof fn lemma_at_most(keys: Seq<Pubkey>, p: spec_fn(Pubkey) -> bool, limit: nat)
    requires
        keys.no_duplicates(),
        forall|key: Pubkey| p(key) <==> #[trigger] keys.contains(key),
    ensures
        at_most(p, limit) <==> keys.len() <= limit,
{
    assert(holds_all(keys, p));
    if at_most(p, limit) {
        let other = choose|other: Seq<Pubkey>| #[trigger]
            holds_all(other, p) && other.len() <= limit;
        keys.unique_seq_to_set();
        other.lemma_cardinality_of_set();
        assert(keys.to_set().subset_of(other.to_set())) by {
            assert forall|key: Pubkey| keys.to_set().contains(key) implies other.to_set().contains(
                key,
            ) by {
                assert(keys.contains(key));
                assert(other.contains(key));
            }
        }
        vstd::seq_lib::seq_to_set_is_finite(other);
        lemma_len_subset(keys.to_set(), other.to_set());
    }
}

/// Whether two addresses are the same.
pub fn same_key(a: &Pubkey, b: &Pubkey) -> (r: bool)
    ensures
        r == (*a == *b),
{
    let mut i: usize = 0;
    while i < 32
        invariant
            i <= 32,
            forall|k: int| 0 <= k < i ==> a@[k] == b@[k],
        decreases 32 - i,
    {
        if a[i] != b[i] {
            return false;
        }
        i += 1;
    }
    assert(*a =~= *b);
    true
}

/// Whether `keys` holds `key`.
fn holds_key(keys: &Vec<Pubkey>, key: &Pubkey) -> (r: bool)
    ensures
        r == keys@.contains(*key),
{
    let mut i: usize = 0;
    while i < keys.len()
        invariant
            i <= keys@.len(),
            forall|k: int| 0 <= k < i ==> keys@[k] != *key,
        decreases keys@.len() - i,
    {
        if same_key(&keys[i], key) {
            return true;
        }
        i += 1;
    }
    false
}

/// Puts `key` at the end of `keys` unless it is there already.
fn add_key(keys: &mut Vec<Pubkey>, key: &Pubkey)
    requires
        old(keys)@.no_duplicates(),
    ensures
        final(keys)@.no_duplicates(),
        forall|k: Pubkey| #[trigger]
            final(keys)@.contains(k) <==> old(keys)@.contains(k) || k == *key,
{
    if !holds_key(keys, key) {
        let ghost before = keys@;
        keys.push(*key);
        proof {
            assert forall|k: Pubkey| #[trigger] keys@.contains(k) <==> before.contains(k) || k
                == *key by {
                if before.contains(k) {
                    let at = choose|at: int| 0 <= at < before.len() && before[at] == k;
                    assert(keys@[at] == k);
                }
                assert(keys@[before.len() as int] == *key);
            }
        }
    }
}

/// Position `(a, b)` comes before position `(i, j)` in reading order.
spec fn earlier(a: int, b: int, i: int, j: int) -> bool {
    a < i || (a == i && b < j)
}

/// `key` is mentioned by the payer, one of the first `programs` program addresses, or an account
/// before position `(i, j)`.
spec fn seen(
    ixs: Seq<InstructionView>,
    payer: Pubkey,
    key: Pubkey,
    programs: int,
    i: int,
    j: int,
) -> bool {
    ||| key == payer
    ||| exists|a: int| 0 <= a < programs && #[trigger] ixs[a].program_id == key
    ||| exists|a: int, b: int| #[trigger] refers(ixs, key, a, b) && earlier(a, b, i, j)
}

/// Every address that the transaction mentions, once each.
fn mentioned_keys(ixs: &Vec<Instruction>, payer: &Pubkey) -> (keys: Vec<Pubkey>)
    ensures
        keys@.no_duplicates(),
        forall|key: Pubkey| mentions(views(ixs@), *payer, key) <==> #[trigger] keys@.contains(key),
{
    let ghost vs = views(ixs@);
    let mut keys: Vec<Pubkey> = Vec::new();
    add_key(&mut keys, payer);
    let mut i: usize = 0;
    while i < ixs.len()
        invariant
            vs == views(ixs@),
            i <= ixs@.len(),
            keys@.no_duplicates(),
            forall|key: Pubkey| seen(vs, *payer, key, i as int, i as int, 0) <==> #[trigger]
                keys@.contains(key),
        decreases ixs@.len() - i,
    {
        let ix = &ixs[i];
        assert(vs[i as int] == ix@);
        let ghost before = keys@;
        add_key(&mut keys, &ix.program_id);
        proof {
            assert forall|key: Pubkey| seen(vs, *payer, key, i + 1, i as int, 0) <==> #[trigger]
                keys@.contains(key) by {
                assert(seen(vs, *payer, key, i as int, i as int, 0) <==> before.contains(key));
                assert(vs[i as int].program_id == ix.program_id);
            }
        }
        let mut j: usize = 0;
        while j < ix.accounts.len()
            invariant
                vs == views(ixs@),
                i < ixs@.len(),
                *ix == ixs@[i as int],
                vs[i as int] == ix@,
                j <= ix.accounts@.len(),
                keys@.no_duplicates(),
                forall|key: Pubkey| seen(vs, *payer, key, i + 1, i as int, j as int) <==> #[trigger]
                    keys@.contains(key),
            decreases ix.accounts@.len() - j,
        {
            let ghost before = keys@;
            add_key(&mut keys, &ix.accounts[j].pubkey);
            proof {
                assert(refers(vs, ix.accounts@[j as int].pubkey, i as int, j as int));
                assert forall|key: Pubkey| seen(vs, *payer, key, i + 1, i as int, j + 1)
                    <==> #[trigger] keys@.contains(key) by {
                    assert(seen(vs, *payer, key, i + 1, i as int, j as int) <==> before.contains(
                        key,
                    ));
                }
            }
            j += 1;
        }
        proof {
            assert forall|key: Pubkey| seen(vs, *payer, key, i + 1, i + 1, 0) <==> #[trigger]
                keys@.contains(key) by {
                assert(seen(vs, *payer, key, i + 1, i as int, j as int) <==> keys@.contains(key));
            }
        }
        i += 1;
    }
    keys
}

/// `key` has to sign, as far as the accounts before position `(i, j)` tell.
spec fn signs_before(
    ixs: Seq<InstructionView>,
    payer: Pubkey,
    key: Pubkey,
    i: int,
    j: int,
) -> bool {
    ||| key == payer
    ||| exists|a: int, b: int| #[trigger]
        refers(ixs, key, a, b) && ixs[a].accounts[b].is_signer && earlier(a, b, i, j)
}

/// `key` may be written to, as far as the accounts before position `(i, j)` tell.
spec fn writes_before(
    ixs: Seq<InstructionView>,
    payer: Pubkey,
    key: Pubkey,
    i: int,
    j: int,
) -> bool {
    ||| key == payer
    ||| exists|a: int, b: int| #[trigger]
        refers(ixs, key, a, b) && ixs[a].accounts[b].is_writable && earlier(a, b, i, j)
}

/// Whether `key` has to sign the transaction, and whether the transaction may write to it.
fn roles_of(ixs: &Vec<Instruction>, payer: &Pubkey, key: &Pubkey) -> (r: (bool, bool))
    ensures
        r.0 == must_sign(views(ixs@), *payer, *key),
        r.1 == may_write(views(ixs@), *payer, *key),
{
    let ghost vs = views(ixs@);
    let paying = same_key(key, payer);
    let mut signs = paying;
    let mut writes = paying;
    let mut i: usize = 0;
    while i < ixs.len()
        invariant
            vs == views(ixs@),
            i <= ixs@.len(),
            signs == signs_before(vs, *payer, *key, i as int, 0),
            writes == writes_before(vs, *payer, *key, i as int, 0),
        decreases ixs@.len() - i,
    {
        let ix = &ixs[i];
        assert(vs[i as int] == ix@);
        let mut j: usize = 0;
        while j < ix.accounts.len()
            invariant
                vs == views(ixs@),
                i < ixs@.len(),
                *ix == ixs@[i as int],
                vs[i as int] == ix@,
                j <= ix.accounts@.len(),
                signs == signs_before(vs, *payer, *key, i as int, j as int),
                writes == writes_before(vs, *payer, *key, i as int, j as int),
            decreases ix.accounts@.len() - j,
        {
            let account = &ix.accounts[j];
            let same = same_key(&account.pubkey, key);
            assert(same == refers(vs, *key, i as int, j as int));
            if same && account.is_signer {
                signs = true;
            }
            if same && account.is_writable {
                writes = true;
            }
            j += 1;
        }
        i += 1;
    }
    (signs, writes)
}

/// Whether the instructions fit into one message that `payer` pays for.
pub fn message_fits(ixs: &Vec<Instruction>, payer: &Pubkey) -> (r: bool)
    ensures
        r == fits_message(views(ixs@), *payer),
{
    let ghost vs = views(ixs@);
    if ixs.len() > 65535 {
        return false;
    }
    let mut i: usize = 0;
    while i < ixs.len()
        invariant
            vs == views(ixs@),
            ixs@.len() <= 65535,
            i <= ixs@.len(),
            forall|k: int|
                0 <= k < i ==> (#[trigger] vs[k]).accounts.len() <= 65535 && vs[k].data.len()
                    <= 65535,
        decreases ixs@.len() - i,
    {
        assert(vs[i as int] == ixs@[i as int]@);
        if ixs[i].accounts.len() > 65535 || ixs[i].data.len() > 65535 {
            return false;
        }
        i += 1;
    }
    let ghost sign = |key: Pubkey| must_sign(vs, *payer, key);
    let ghost read = |key: Pubkey| only_reads(vs, *payer, key);
    let ghost mention = |key: Pubkey| mentions(vs, *payer, key);
    let keys = mentioned_keys(ixs, payer);
    let mut signers: Vec<Pubkey> = Vec::new();
    let mut readers: Vec<Pubkey> = Vec::new();
    let mut k: usize = 0;
    while k < keys.len()
        invariant
            vs == views(ixs@),
            k <= keys@.len(),
            keys@.no_duplicates(),
            signers@.no_duplicates(),
            readers@.no_duplicates(),
            forall|key: Pubkey| mentions(vs, *payer, key) <==> #[trigger] keys@.contains(key),
            forall|key: Pubkey| #[trigger] signers@.contains(key) <==> must_sign(vs, *payer, key)
                && keys@.take(k as int).contains(key),
            forall|key: Pubkey| #[trigger] readers@.contains(key) <==> only_reads(vs, *payer, key)
                && keys@.take(k as int).contains(key),
        decreases keys@.len() - k,
    {
        let (signs, writes) = roles_of(ixs, payer, &keys[k]);
        proof {
            let now = keys@[k as int];
            assert(keys@.contains(now));
            assert(keys@.take(k + 1) =~= keys@.take(k as int).push(now));
            assert forall|key: Pubkey| #[trigger] keys@.take(k + 1).contains(key)
                <==> keys@.take(k as int).contains(key) || key == now by {
                if keys@.take(k as int).contains(key) {
                    let at = choose|at: int|
                        0 <= at < k && keys@.take(k as int)[at] == key;
                    assert(keys@.take(k + 1)[at] == key);
                }
                assert(keys@.take(k + 1)[k as int] == now);
            }
        }
        if signs {
            add_key(&mut signers, &keys[k]);
        } else if !writes {
            add_key(&mut readers, &keys[k]);
        }
        k += 1;
    }
    proof {
        assert(keys@.take(k as int) =~= keys@);
        assert forall|key: Pubkey| sign(key) <==> #[trigger] signers@.contains(key) by {
            if sign(key) {
                assert(mentions(vs, *payer, key));
                assert(keys@.contains(key));
            }
        }
        assert forall|key: Pubkey| read(key) <==> #[trigger] readers@.contains(key) by {
            if read(key) {
                assert(keys@.contains(key));
            }
        }
        assert forall|key: Pubkey| mention(key) <==> #[trigger] keys@.contains(key) by {
        }
        lemma_at_most(signers@, sign, 255);
        lemma_at_most(readers@, read, 255);
        lemma_at_most(keys@, mention, 65535);
    }
    signers.len() <= 255 && readers.len() <= 255 && keys.len() <= 65535
}

/// Whether `solana_sdk::signature::Keypair::from_bytes` accepts a secret key with an address.
pub uninterp spec fn keypair_is_valid(secret: Seq<u8>, pubkey: Seq<u8>) -> bool;

/// The bytes of the legacy message that Solana compiles from instructions, payer and blockhash.
pub uninterp spec fn compiled_message(
    ixs: Seq<InstructionView>,
    payer: Pubkey,
    blockhash: Blockhash,
) -> Seq<u8>;

/// The Ed25519 signature that a keypair puts under a message.
pub uninterp spec fn ed25519_signature(
    secret: Seq<u8>,
    pubkey: Seq<u8>,
    message: Seq<u8>,
) -> Signature;

/// A signature of zeros, which Solana takes for a missing one.
pub open spec fn is_blank(signature: Signature) -> bool {
    forall|i: int| 0 <= i < 64 ==> signature@[i] == 0
}

/// Calls `solana_sdk::signature::Keypair::from_bytes`. Claimed of it: whether it accepts a keypair
/// depends on the two halves alone.
#[verifier::external_body]
fn keypair_is_accepted(keypair: &Keypair) -> (r: bool)
    ensures
        r == keypair_is_valid(keypair.secret@, keypair.pubkey@),
{
    let halves = [keypair.secret, keypair.pubkey].concat();
    SdkKeypair::from_bytes(&halves).is_ok()
}

/// Calls `solana_sdk::transaction::Transaction::new_with_payer` and `Transaction::try_sign`, with
/// the key read by `Keypair::from_bytes`. Claimed of them: the message depends on the
/// instructions, the payer and the blockhash alone; signing succeeds exactly when no account but
/// the payer has to sign and the payer's signature is not the blank one; and a signed transaction
/// carries the payer's signature of the message and no other.
#[verifier::external_body]
fn try_sign(
    ixs: &Vec<Instruction>,
    keypair: &Keypair,
    blockhash: &Blockhash,
) -> (r: Option<SignedTransaction>)
    requires
        fits_message(views(ixs@), keypair.pubkey),
        keypair_is_valid(keypair.secret@, keypair.pubkey@),
    ensures
        (r is Some) == (sole_signer(views(ixs@), keypair.pubkey) && !is_blank(
            ed25519_signature(
                keypair.secret@,
                keypair.pubkey@,
                compiled_message(views(ixs@), keypair.pubkey, *blockhash),
            ),
        )),
        r is Some ==> r->0.message@ == compiled_message(views(ixs@), keypair.pubkey, *blockhash),
        r is Some ==> r->0.signatures@ == seq![
            ed25519_signature(
                keypair.secret@,
                keypair.pubkey@,
                compiled_message(views(ixs@), keypair.pubkey, *blockhash),
            ),
        ],
{
    let signer = SdkKeypair::from_bytes(&[keypair.secret, keypair.pubkey].concat()).ok()?;
    let ixs: Vec<_> = ixs.iter().map(|ix| {
        let metas = ix.accounts.iter().map(|&AccountMeta { pubkey, is_signer, is_writable }|
            SdkAccountMeta { pubkey: pubkey.into(), is_signer, is_writable });
        SdkInstruction::new_with_bytes(ix.program_id.into(), &ix.data, metas.collect())
    }).collect();
    let mut tx = Transaction::new_with_payer(&ixs, Some(&signer.pubkey()));
    tx.try_sign(&[&signer], (*blockhash).into()).ok()?;
    Some(SignedTransaction {
        message: tx.message_data(),
        signatures: tx.signatures.into_iter().map(Into::into).collect(),
    })
}

/// The payer's signature of a transaction of `ixs`.
pub open spec fn payer_signature(
    ixs: Seq<InstructionView>,
    keypair: Keypair,
    blockhash: Blockhash,
) -> Signature {
    ed25519_signature(
        keypair.secret@,
        keypair.pubkey@,
        compiled_message(ixs, keypair.pubkey, blockhash),
    )
}

/// What comes of signing `ixs` with the payer's key alone: the message and its one signature, or
/// the first thing that stands in the way.
pub open spec fn signing_outcome(
    ixs: Seq<InstructionView>,
    keypair: Keypair,
    blockhash: Blockhash,
) -> Result<(Seq<u8>, Signature), SigningError> {
    let signature = payer_signature(ixs, keypair, blockhash);
    if !fits_message(ixs, keypair.pubkey) {
        Err(SigningError::MessageTooLarge)
    } else if !keypair_is_valid(keypair.secret@, keypair.pubkey@) {
        Err(SigningError::InvalidKeypair)
    } else if !sole_signer(ixs, keypair.pubkey) || is_blank(signature) {
        Err(SigningError::NotEnoughSigners)
    } else {
        Ok((compiled_message(ixs, keypair.pubkey, blockhash), signature))
    }
}

/// `tx` is a message with its one signature.
pub open spec fn is_signed(tx: SignedTransaction, content: (Seq<u8>, Signature)) -> bool {
    &&& tx.message@ == content.0
    &&& tx.signatures@ == seq![content.1]
}

/// `r` is what signing came to.
pub open spec fn is_signing_outcome(
    r: Result<SignedTransaction, SigningError>,
    outcome: Result<(Seq<u8>, Signature), SigningError>,
) -> bool {
    match r {
        Ok(tx) => outcome is Ok && is_signed(tx, outcome->Ok_0),
        Err(e) => outcome == Err::<(Seq<u8>, Signature), SigningError>(e),
    }
}

/// What is signed is the message of exactly these instructions, this payer and this blockhash,
/// and the signature is the payer's. Something stands in the way only if the instructions do not
/// fit, the key is bad, somebody else has to sign, or the signature is blank.
pub proof fn lemma_signs_what_was_asked(
    ixs: Seq<InstructionView>,
    keypair: Keypair,
    blockhash: Blockhash,
)
    ensures
        ({
            let message = compiled_message(ixs, keypair.pubkey, blockhash);
            let signature = ed25519_signature(keypair.secret@, keypair.pubkey@, message);
            let outcome = signing_outcome(ixs, keypair, blockhash);
            &&& outcome is Ok <==> {
                &&& fits_message(ixs, keypair.pubkey)
                &&& keypair_is_valid(keypair.secret@, keypair.pubkey@)
                &&& sole_signer(ixs, keypair.pubkey)
                &&& exists|i: int| 0 <= i < 64 && #[trigger] signature@[i] != 0
            }
            &&& outcome is Ok ==> outcome->Ok_0.0 == message && outcome->Ok_0.1 == signature
            &&& outcome is Err ==> (outcome->Err_0 == SigningError::MessageTooLarge
                <==> !fits_message(ixs, keypair.pubkey))
            &&& outcome is Err ==> (outcome->Err_0 == SigningError::InvalidKeypair <==> fits_message(
                ixs,
                keypair.pubkey,
            ) && !keypair_is_valid(keypair.secret@, keypair.pubkey@))
        }),
{
}

/// The payer alone has to sign exactly if every account that an instruction names as a signer is
/// the payer's.
pub proof fn lemma_sole_signer_is_payer(ixs: Seq<InstructionView>, payer: Pubkey)
    ensures
        sole_signer(ixs, payer) <==> forall|i: int, j: int|
            0 <= i < ixs.len() && 0 <= j < ixs[i].accounts.len() && (
            #[trigger] ixs[i].accounts[j]).is_signer ==> ixs[i].accounts[j].pubkey == payer,
{
    if sole_signer(ixs, payer) {
        assert forall|i: int, j: int|
            0 <= i < ixs.len() && 0 <= j < ixs[i].accounts.len() && (
            #[trigger] ixs[i].accounts[j]).is_signer implies ixs[i].accounts[j].pubkey == payer by {
            let key = ixs[i].accounts[j].pubkey;
            assert(refers(ixs, key, i, j));
            assert(must_sign(ixs, payer, key));
        }
    }
    if forall|i: int, j: int|
        0 <= i < ixs.len() && 0 <= j < ixs[i].accounts.len() && (
        #[trigger] ixs[i].accounts[j]).is_signer ==> ixs[i].accounts[j].pubkey == payer {
        assert forall|key: Pubkey| #[trigger] must_sign(ixs, payer, key) implies key == payer by {
            if key != payer {
                let (i, j) = choose|i: int, j: int| #[trigger]
                    refers(ixs, key, i, j) && ixs[i].accounts[j].is_signer;
                assert(ixs[i].accounts[j].pubkey == payer);
            }
        }
    }
}

/// Whether instructions fit is a matter of counting. Given the signers, the accounts that are only
/// read and all addresses, each once, they fit exactly if there are at most 255, 255 and 65535 of
/// them, and no list is longer than 65535.
pub proof fn lemma_fits_by_count(
    ixs: Seq<InstructionView>,
    payer: Pubkey,
    signers: Seq<Pubkey>,
    readers: Seq<Pubkey>,
    all: Seq<Pubkey>,
)
    requires
        signers.no_duplicates(),
        readers.no_duplicates(),
        all.no_duplicates(),
        forall|key: Pubkey| #[trigger]
            signers.contains(key) <==> key == payer || exists|i: int, j: int|
                0 <= i < ixs.len() && 0 <= j < ixs[i].accounts.len() && (
                #[trigger] ixs[i].accounts[j]).pubkey == key && ixs[i].accounts[j].is_signer,
        forall|key: Pubkey| #[trigger]
            all.contains(key) <==> {
                ||| key == payer
                ||| exists|i: int| 0 <= i < ixs.len() && #[trigger] ixs[i].program_id == key
                ||| exists|i: int, j: int|
                    0 <= i < ixs.len() && 0 <= j < ixs[i].accounts.len() && (
                    #[trigger] ixs[i].accounts[j]).pubkey == key
            },
        forall|key: Pubkey| #[trigger]
            readers.contains(key) <==> {
                &&& all.contains(key)
                &&& !signers.contains(key)
                &&& forall|i: int, j: int|
                    0 <= i < ixs.len() && 0 <= j < ixs[i].accounts.len() && (
                    #[trigger] ixs[i].accounts[j]).pubkey == key
                        ==> !ixs[i].accounts[j].is_writable
            },
    ensures
        fits_message(ixs, payer) <==> {
            &&& ixs.len() <= 65535
            &&& forall|i: int|
                0 <= i < ixs.len() ==> (#[trigger] ixs[i]).accounts.len() <= 65535
                    && ixs[i].data.len() <= 65535
            &&& signers.len() <= 255
            &&& readers.len() <= 255
            &&& all.len() <= 65535
        },
{
    let sign = |key: Pubkey| must_sign(ixs, payer, key);
    let read = |key: Pubkey| only_reads(ixs, payer, key);
    let mention = |key: Pubkey| mentions(ixs, payer, key);
    assert forall|key: Pubkey| sign(key) <==> #[trigger] signers.contains(key) by {
        if signers.contains(key) && key != payer {
            let (i, j) = choose|i: int, j: int|
                0 <= i < ixs.len() && 0 <= j < ixs[i].accounts.len() && (
                #[trigger] ixs[i].accounts[j]).pubkey == key && ixs[i].accounts[j].is_signer;
            assert(refers(ixs, key, i, j));
        }
        if must_sign(ixs, payer, key) && key != payer {
            let (i, j) = choose|i: int, j: int| #[trigger]
                refers(ixs, key, i, j) && ixs[i].accounts[j].is_signer;
            assert(ixs[i].accounts[j].pubkey == key);
        }
    }
    assert forall|key: Pubkey| mention(key) <==> #[trigger] all.contains(key) by {
        if exists|i: int, j: int|
            0 <= i < ixs.len() && 0 <= j < ixs[i].accounts.len() && (
            #[trigger] ixs[i].accounts[j]).pubkey == key {
            let (i, j) = choose|i: int, j: int|
                0 <= i < ixs.len() && 0 <= j < ixs[i].accounts.len() && (
                #[trigger] ixs[i].accounts[j]).pubkey == key;
            assert(refers(ixs, key, i, j));
        }
        if exists|i: int, j: int| #[trigger] refers(ixs, key, i, j) {
            let (i, j) = choose|i: int, j: int| #[trigger] refers(ixs, key, i, j);
            assert(ixs[i].accounts[j].pubkey == key);
        }
    }
    assert forall|key: Pubkey| read(key) <==> #[trigger] readers.contains(key) by {
        assert(sign(key) <==> signers.contains(key));
        assert(mention(key) <==> all.contains(key));
        if may_write(ixs, payer, key) && key != payer {
            let (i, j) = choose|i: int, j: int| #[trigger]
                refers(ixs, key, i, j) && ixs[i].accounts[j].is_writable;
            assert(ixs[i].accounts[j].pubkey == key);
        }
        if !may_write(ixs, payer, key) {
            assert forall|i: int, j: int|
                0 <= i < ixs.len() && 0 <= j < ixs[i].accounts.len() && (
                #[trigger] ixs[i].accounts[j]).pubkey == key
                implies !ixs[i].accounts[j].is_writable by {
                assert(refers(ixs, key, i, j));
            }
        }
    }
    lemma_at_most(signers, sign, 255);
    lemma_at_most(readers, read, 255);
    lemma_at_most(all, mention, 65535);
}

/// Builds the transaction of `ixs`, paid and signed by `keypair` and dated by `blockhash`.
pub fn signed_transaction(
    ixs: &Vec<Instruction>,
    keypair: &Keypair,
    blockhash: &Blockhash,
) -> (r: Result<SignedTransaction, SigningError>)
    ensures
        is_signing_outcome(r, signing_outcome(views(ixs@), *keypair, *blockhash)),
        r matches Ok(tx) ==> {
            &&& tx.message@ == compiled_message(views(ixs@), keypair.pubkey, *blockhash)
            &&& tx.signatures@.len() == 1
            &&& tx.signatures@[0] == ed25519_signature(
                keypair.secret@,
                keypair.pubkey@,
                compiled_message(views(ixs@), keypair.pubkey, *blockhash),
            )
        },
        r is Ok <==> {
            &&& fits_message(views(ixs@), keypair.pubkey)
            &&& keypair_is_valid(keypair.secret@, keypair.pubkey@)
            &&& sole_signer(views(ixs@), keypair.pubkey)
            &&& !is_blank(
                ed25519_signature(
                    keypair.secret@,
                    keypair.pubkey@,
                    compiled_message(views(ixs@), keypair.pubkey, *blockhash),
                ),
            )
        },
        r matches Err(e) ==> (e == SigningError::MessageTooLarge <==> !fits_message(
            views(ixs@),
            keypair.pubkey,
        )),
        r matches Err(e) ==> (e == SigningError::InvalidKeypair <==> fits_message(
            views(ixs@),
            keypair.pubkey,
        ) && !keypair_is_valid(keypair.secret@, keypair.pubkey@)),
{
    if !message_fits(ixs, &keypair.pubkey) {
        return Err(SigningError::MessageTooLarge);
    }
    if !keypair_is_accepted(keypair) {
        return Err(SigningError::InvalidKeypair);
    }
    match try_sign(ixs, keypair, blockhash) {
        Some(tx) => Ok(tx),
        None => Err(SigningError::NotEnoughSigners),
    }
}

} // verus!
