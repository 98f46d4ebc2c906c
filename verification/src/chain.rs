//! Solana values as the miner handles them: addresses, instructions, and the instructions that
//! Solana's own crates build.

use vstd::bytes::{
    lemma_auto_spec_u32_to_from_le_bytes, lemma_auto_spec_u64_to_from_le_bytes,
    spec_u32_from_le_bytes, spec_u32_to_le_bytes, spec_u64_from_le_bytes, spec_u64_to_le_bytes,
};
use vstd::prelude::*;

verus! {

/// An account address.
pub type Pubkey = [u8; 32];

/// An account that an instruction refers to, and how the instruction may use it.
#[derive(Clone, Copy, Debug, PartialEq, Eq)]
pub struct AccountMeta {
    pub pubkey: Pubkey,
    pub is_signer: bool,
    pub is_writable: bool,
}

/// A call of an on-chain program.
#[derive(Debug, PartialEq, Eq)]
pub struct Instruction {
    pub program_id: Pubkey,
    pub accounts: Vec<AccountMeta>,
    pub data: Vec<u8>,
}

/// What an [`Instruction`] says, as a mathematical value.
#[verifier::ext_equal]
pub struct InstructionView {
    pub program_id: Pubkey,
    pub accounts: Seq<AccountMeta>,
    pub data: Seq<u8>,
}

impl View for Instruction {
    type V = InstructionView;

    open spec fn view(&self) -> InstructionView {
        InstructionView {
            program_id: self.program_id,
            accounts: self.accounts@,
            data: self.data@,
        }
    }
}

impl Instruction {
    /// A second instruction that says the same.
    pub fn duplicate(&self) -> (r: Instruction)
        ensures
            r@ == self@,
            r.program_id == self.program_id,
            r.accounts@ == self.accounts@,
            r.data@ == self.data@,
    {
        let accounts = self.accounts.clone();
        let data = self.data.clone();
        assert(accounts@ =~= self.accounts@);
        assert(data@ =~= self.data@);
        Instruction { program_id: self.program_id, accounts, data }
    }
}

/// What a list of instructions says.
pub open spec fn views(ixs: Seq<Instruction>) -> Seq<InstructionView> {
    ixs.map_values(|ix: Instruction| ix@)
}

/// The addresses that Jito's validators collect tips at.
pub const JITO_RECIPIENTS: [Pubkey; 8] = [
    // 96gYZGLnJYVFmbjzopPSU6QiEV5fGqZNyN9nmNhvrZU5
    [
        120, 82, 28, 177, 121, 206, 187, 133, 137, 181, 86, 162, 213, 236, 148, 210, 73, 134,
        130, 253, 249, 187, 42, 245, 173, 100, 228, 145, 204, 65, 83, 218,
    ],
    // HFqU5x63VTqvQss8hp11i4wVV8bD44PvwucfZ2bU7gRe
    [
        241, 135, 236, 135, 209, 247, 69, 203, 58, 3, 56, 74, 38, 166, 158, 218, 12, 162, 209,
        170, 15, 65, 228, 36, 22, 55, 126, 145, 255, 91, 93, 49,
    ],
    // Cw8CFyM9FkoMi7K7Crf6HNQqf4uEMzpKw6QNghXLvLkY
    [
        177, 78, 13, 229, 94, 159, 186, 134, 57, 110, 191, 213, 72, 207, 248, 201, 32, 17, 234,
        199, 183, 91, 170, 155, 45, 156, 106, 134, 245, 161, 113, 65,
    ],
    // ADaUMid9yfUytqMBgopwjb2DTLSokTSzL1zt6iGPaS49
    [
        136, 241, 255, 163, 162, 223, 230, 23, 189, 196, 227, 87, 50, 81, 163, 34, 227, 252,
        174, 129, 229, 164, 87, 57, 14, 100, 117, 28, 0, 164, 101, 226,
    ],
    // DfXygSm4jCyNCybVYYK6DwvWqjKee8pbDmJGcLWNDXjh
    [
        188, 43, 87, 6, 94, 241, 221, 102, 84, 48, 190, 96, 107, 166, 89, 108, 2, 149, 48, 27,
        173, 239, 139, 90, 252, 65, 1, 65, 80, 244, 18, 116,
    ],
    // ADuUkR4vqLUMWXxW9gh6D6L8pMSawimctcNZ5pGwDcEt
    [
        137, 7, 125, 85, 165, 187, 19, 48, 118, 62, 183, 103, 245, 94, 192, 119, 180, 26, 13, 7,
        95, 125, 225, 215, 63, 186, 202, 60, 99, 213, 84, 113,
    ],
    // DttWaMuVvTiduZRnguLF7jNxTgiMBZ1hyAumKUiL2KRL
    [
        191, 151, 27, 89, 16, 139, 91, 133, 160, 79, 176, 147, 241, 226, 27, 78, 63, 212, 196,
        200, 244, 135, 221, 9, 185, 87, 82, 118, 159, 13, 216, 195,
    ],
    // 3AVi9Tg9Uo68tJfuvoKvqKNWKkC5wPdSSdeBnizKZ6jT
    [
        32, 38, 16, 30, 194, 3, 40, 150, 74, 50, 171, 171, 19, 108, 84, 5, 185, 31, 58, 227,
        142, 228, 246, 76, 182, 189, 232, 121, 184, 104, 56, 210,
    ],
];

/// The address of the system program.
pub const SYSTEM_PROGRAM: Pubkey = [
    0, 0, 0, 0, 0, 0, 0, 0, 0, 0, 0, 0, 0, 0, 0, 0, 0, 0, 0, 0, 0, 0, 0, 0, 0, 0, 0, 0, 0, 0, 0, 0,
];

/// The address of the compute budget program.
// ComputeBudget111111111111111111111111111111
pub const COMPUTE_BUDGET_PROGRAM: Pubkey = [
    3, 6, 70, 111, 229, 33, 23, 50, 255, 236, 173, 186, 114, 195, 155, 231, 188, 140, 229, 187, 197,
    247, 18, 107, 44, 67, 155, 58, 64, 0, 0, 0,
];

/// The instruction that moves `lamports` from one account to another, signed by the first.
pub open spec fn transfer_instruction(from: Pubkey, to: Pubkey, lamports: u64) -> InstructionView {
    InstructionView {
        program_id: SYSTEM_PROGRAM,
        accounts: seq![
            AccountMeta { pubkey: from, is_signer: true, is_writable: true },
            AccountMeta { pubkey: to, is_signer: false, is_writable: true },
        ],
        data: seq![2u8, 0, 0, 0] + spec_u64_to_le_bytes(lamports),
    }
}

/// The instruction that caps a transaction's compute units.
pub open spec fn unit_limit_instruction(units: u32) -> InstructionView {
    InstructionView {
        program_id: COMPUTE_BUDGET_PROGRAM,
        accounts: seq![],
        data: seq![2u8] + spec_u32_to_le_bytes(units),
    }
}

/// The instruction that sets the price of a compute unit, in micro-lamports.
pub open spec fn unit_price_instruction(micro_lamports: u64) -> InstructionView {
    InstructionView {
        program_id: COMPUTE_BUDGET_PROGRAM,
        accounts: seq![],
        data: seq![3u8] + spec_u64_to_le_bytes(micro_lamports),
    }
}

/// Calls `solana_sdk::system_instruction::transfer`. Claimed of it: the instruction it returns
/// is one of the system program, names the payer as a writable signer and the recipient as
/// writable, and carries the transfer tag followed by the amount in little-endian order.
#[verifier::external_body]
fn system_transfer(from: &Pubkey, to: &Pubkey, lamports: u64) -> (r: Instruction)
    ensures
        r@ == transfer_instruction(*from, *to, lamports),
{
    let ix = solana_sdk::system_instruction::transfer(&(*from).into(), &(*to).into(), lamports);
    let metas = ix.accounts.iter().map(|m| AccountMeta {
        pubkey: m.pubkey.to_bytes(),
        is_signer: m.is_signer,
        is_writable: m.is_writable,
    });
    Instruction { program_id: ix.program_id.to_bytes(), accounts: metas.collect(), data: ix.data }
}

/// Calls `solana_sdk::compute_budget::ComputeBudgetInstruction::set_compute_unit_limit`. Claimed
/// of it: the instruction is one of the compute budget program, refers to no account, and carries
/// the tag of this request followed by the limit in little-endian order.
#[verifier::external_body]
pub(crate) fn set_compute_unit_limit(units: u32) -> (r: Instruction)
    ensures
        r@ == unit_limit_instruction(units),
{
    let ix = solana_sdk::compute_budget::ComputeBudgetInstruction::set_compute_unit_limit(units);
    let metas = ix.accounts.iter().map(|m| AccountMeta {
        pubkey: m.pubkey.to_bytes(),
        is_signer: m.is_signer,
        is_writable: m.is_writable,
    });
    Instruction { program_id: ix.program_id.to_bytes(), accounts: metas.collect(), data: ix.data }
}

/// Calls `solana_sdk::compute_budget::ComputeBudgetInstruction::set_compute_unit_price`. Claimed
/// of it: the instruction is one of the compute budget program, refers to no account, and carries
/// the tag of this request followed by the price in little-endian order.
#[verifier::external_body]
pub(crate) fn set_compute_unit_price(micro_lamports: u64) -> (r: Instruction)
    ensures
        r@ == unit_price_instruction(micro_lamports),
{
    let price = micro_lamports;
    let ix = solana_sdk::compute_budget::ComputeBudgetInstruction::set_compute_unit_price(price);
    let metas = ix.accounts.iter().map(|m| AccountMeta {
        pubkey: m.pubkey.to_bytes(),
        is_signer: m.is_signer,
        is_writable: m.is_writable,
    });
    Instruction { program_id: ix.program_id.to_bytes(), accounts: metas.collect(), data: ix.data }
}

/// Calls `rand::Rng::gen_range` on `rand::thread_rng()`. Claimed of it: the number drawn lies
/// below `bound`. Which one it is rests on chance, and nothing more is said of it.
#[verifier::external_body]
pub(crate) fn random_index(bound: usize) -> (r: usize)
    requires
        bound > 0,
    ensures
        r < bound,
{
    rand::Rng::gen_range(&mut rand::thread_rng(), 0..bound)
}

/// The tip that pays `value` lamports from `pubkey` to the recipient at position `choice`.
pub fn bribe_ix_to(pubkey: &Pubkey, value: u64, choice: usize) -> (ix: Instruction)
    requires
        choice < JITO_RECIPIENTS@.len(),
    ensures
        ix@ == transfer_instruction(*pubkey, JITO_RECIPIENTS@[choice as int], value),
{
    let recipients = JITO_RECIPIENTS;
    system_transfer(pubkey, &recipients[choice], value)
}

/// `ix` pays `value` lamports from `pubkey` to one of Jito's recipients.
pub open spec fn is_bribe(ix: InstructionView, pubkey: Pubkey, value: u64) -> bool {
    exists|choice: int|
        0 <= choice < JITO_RECIPIENTS@.len() && ix == #[trigger] transfer_instruction(
            pubkey,
            JITO_RECIPIENTS@[choice],
            value,
        )
}

/// The tip that pays `value` lamports from `pubkey` to a recipient drawn at random.
pub fn build_bribe_ix(pubkey: &Pubkey, value: u64) -> (ix: Instruction)
    ensures
        is_bribe(ix@, *pubkey, value),
{
    let choice = random_index(8);
    bribe_ix_to(pubkey, value, choice)
}

/// Two tips are the same instruction only if payer, recipient and amount agree: the amount that
/// was asked for is the amount that the instruction moves.
pub proof fn lemma_transfers_differ(
    from: Pubkey,
    to: Pubkey,
    lamports: u64,
    other_from: Pubkey,
    other_to: Pubkey,
    other_lamports: u64,
)
    ensures
        transfer_instruction(from, to, lamports) == transfer_instruction(
            other_from,
            other_to,
            other_lamports,
        ) <==> from == other_from && to == other_to && lamports == other_lamports,
{
    lemma_auto_spec_u64_to_from_le_bytes();
    let a = transfer_instruction(from, to, lamports);
    let b = transfer_instruction(other_from, other_to, other_lamports);
    if a == b {
        assert(a.accounts[0] == b.accounts[0]);
        assert(a.accounts[1] == b.accounts[1]);
        assert(a.data.subrange(4, 12) =~= spec_u64_to_le_bytes(lamports));
        assert(b.data.subrange(4, 12) =~= spec_u64_to_le_bytes(other_lamports));
    }
}

/// A list of instructions says what each of them says, in the same order.
pub proof fn lemma_views_say_the_same(ixs: Seq<Instruction>, i: int)
    requires
        0 <= i < ixs.len(),
    ensures
        views(ixs).len() == ixs.len(),
        views(ixs)[i].program_id == ixs[i].program_id,
        views(ixs)[i].accounts == ixs[i].accounts@,
        views(ixs)[i].data == ixs[i].data@,
{
}

/// A transfer is one of the system program, is signed by the payer, names payer and recipient in
/// this order as writable and nobody else, and its amount reads back from its data.
pub proof fn lemma_transfer_reads_back(from: Pubkey, to: Pubkey, lamports: u64)
    ensures
        ({
            let ix = transfer_instruction(from, to, lamports);
            &&& forall|i: int| 0 <= i < 32 ==> ix.program_id@[i] == 0
            &&& ix.accounts.len() == 2
            &&& ix.accounts[0].pubkey == from && ix.accounts[0].is_signer
                && ix.accounts[0].is_writable
            &&& ix.accounts[1].pubkey == to && !ix.accounts[1].is_signer
                && ix.accounts[1].is_writable
            &&& ix.data.len() == 12
            &&& ix.data.take(4) == seq![2u8, 0, 0, 0]
            &&& spec_u64_from_le_bytes(ix.data.skip(4)) == lamports
        }),
{
    lemma_auto_spec_u64_to_from_le_bytes();
    let ix = transfer_instruction(from, to, lamports);
    assert(ix.data.take(4) =~= seq![2u8, 0, 0, 0]);
    assert(ix.data.skip(4) =~= spec_u64_to_le_bytes(lamports));
}

/// A compute budget instruction refers to no account, and the limit or the price reads back from
/// its data, behind a tag that tells the two apart.
pub proof fn lemma_budget_reads_back(units: u32, micro_lamports: u64)
    ensures
        ({
            let limit = unit_limit_instruction(units);
            let price = unit_price_instruction(micro_lamports);
            &&& limit.program_id == COMPUTE_BUDGET_PROGRAM && price.program_id
                == COMPUTE_BUDGET_PROGRAM
            &&& limit.accounts.len() == 0 && price.accounts.len() == 0
            &&& limit.data.len() == 5 && limit.data[0] == 2
            &&& price.data.len() == 9 && price.data[0] == 3
            &&& spec_u32_from_le_bytes(limit.data.skip(1)) == units
            &&& spec_u64_from_le_bytes(price.data.skip(1)) == micro_lamports
        }),
{
    lemma_auto_spec_u32_to_from_le_bytes();
    lemma_auto_spec_u64_to_from_le_bytes();
    let limit = unit_limit_instruction(units);
    let price = unit_price_instruction(micro_lamports);
    assert(limit.data.skip(1) =~= spec_u32_to_le_bytes(units));
    assert(price.data.skip(1) =~= spec_u64_to_le_bytes(micro_lamports));
}

/// A tip is paid by the payer, to one of Jito's recipients, and moves exactly what was asked for.
pub proof fn lemma_bribe_pays_recipient(ix: InstructionView, pubkey: Pubkey, value: u64)
    requires
        is_bribe(ix, pubkey, value),
    ensures
        ix.accounts.len() == 2,
        ix.accounts[0].pubkey == pubkey,
        JITO_RECIPIENTS@.contains(ix.accounts[1].pubkey),
        spec_u64_from_le_bytes(ix.data.skip(4)) == value,
{
    let choice = choose|choice: int|
        0 <= choice < JITO_RECIPIENTS@.len() && ix == #[trigger] transfer_instruction(
            pubkey,
            JITO_RECIPIENTS@[choice],
            value,
        );
    lemma_transfer_reads_back(pubkey, JITO_RECIPIENTS@[choice], value);
    assert(JITO_RECIPIENTS@[choice] == ix.accounts[1].pubkey);
}

} // verus!
