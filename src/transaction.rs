use vstd::prelude::*;
use crate::address::Address;
use crate::instruction::{
    account, accounts_of, create_ata_instruction, derived_ata, is_address, le_bytes,
    native_transfer_instruction, system_create_account, spl_initialize_mint, token_transfer_instruction,
    ata_address, BuildError, Ix, ATA_PROGRAM_ID, SYSTEM_PROGRAM_ID, TOKEN_PROGRAM_ID,
};

verus! {

/// Bytes of ledger storage that a token mint occupies.
pub const MINT_LEN: u64 = 82;

/// A transaction ready to be signed: its instructions, the account that pays
/// the fees, every account that must sign (the payer first) and the recent
/// ledger reference that stamps it.
#[derive(Clone, Debug)]
pub struct TxPlan {
    pub instructions: Vec<Ix>,
    pub payer: Address,
    pub signers: Vec<Address>,
    pub freshness: [u8; 32],
}

/// A plan of one instruction that only `payer` signs.
pub open spec fn single_signer(plan: TxPlan, payer: Address, freshness: [u8; 32]) -> bool {
    &&& plan.instructions@.len() == 1
    &&& plan.payer == payer
    &&& plan.signers@ == seq![payer]
    &&& plan.freshness == freshness
}

pub open spec fn native_transfer_plan(plan: TxPlan, sender: Address, receiver: Address, lamports: u64, freshness: [u8; 32]) -> bool {
    let ix = plan.instructions@[0];
    &&& single_signer(plan, sender, freshness)
    &&& is_address(ix.program_id, SYSTEM_PROGRAM_ID)
    &&& accounts_of(ix) == seq![account(sender, true, true), account(receiver, false, true)]
    &&& ix.data@ == seq![2u8, 0, 0, 0] + le_bytes(lamports as nat, 8)
}

pub open spec fn create_ata_plan(plan: TxPlan, payer: Address, owner: Address, mint: Address, token_program: Address, freshness: [u8; 32]) -> bool {
    let ix = plan.instructions@[0];
    &&& single_signer(plan, payer, freshness)
    &&& is_address(ix.program_id, ATA_PROGRAM_ID)
    &&& accounts_of(ix).len() == 6
    &&& accounts_of(ix)[0] == account(payer, true, true)
    &&& accounts_of(ix)[1].address.bytes@ == derived_ata(owner.bytes@, mint.bytes@, token_program.bytes@)
    &&& accounts_of(ix)[2] == account(owner, false, false)
    &&& accounts_of(ix)[3] == account(mint, false, false)
    &&& accounts_of(ix)[5] == account(token_program, false, false)
    &&& ix.data@ == seq![0u8]
}

pub open spec fn token_transfer_plan(plan: TxPlan, token_program: Address, owner: Address, receiver: Address, mint: Address, amount: u64, freshness: [u8; 32]) -> bool {
    let ix = plan.instructions@[0];
    &&& single_signer(plan, owner, freshness)
    &&& ix.program_id == token_program
    &&& accounts_of(ix).len() == 3
    &&& accounts_of(ix)[0].address.bytes@ == derived_ata(owner.bytes@, mint.bytes@, token_program.bytes@)
    &&& accounts_of(ix)[1].address.bytes@ == derived_ata(receiver.bytes@, mint.bytes@, token_program.bytes@)
    &&& accounts_of(ix)[2] == account(owner, true, false)
    &&& ix.data@ == seq![3u8] + le_bytes(amount as nat, 8)
}

fn single(ix: Ix, payer: &Address, freshness: [u8; 32]) -> (r: TxPlan)
    ensures
        single_signer(r, *payer, freshness),
        r.instructions@[0] == ix,
{
    let mut instructions = Vec::new();
    instructions.push(ix);
    let mut signers = Vec::new();
    signers.push(*payer);
    TxPlan { instructions, payer: *payer, signers, freshness }
}

/// A native transfer of `lamports` from `sender`, who signs and pays.
pub fn plan_native_transfer(sender: &Address, receiver: &Address, lamports: u64, freshness: [u8; 32]) -> (r: TxPlan)
    ensures
        native_transfer_plan(r, *sender, *receiver, lamports, freshness),
{
    single(native_transfer_instruction(sender, receiver, lamports), sender, freshness)
}

/// A transfer of `amount` tokens of `mint` from `owner`'s token account to
/// `receiver`'s, authorised by `owner`, who also pays.
pub fn plan_token_transfer(
    token_program: &Address,
    owner: &Address,
    receiver: &Address,
    mint: &Address,
    amount: u64,
    freshness: [u8; 32],
) -> (r: Result<TxPlan, BuildError>)
    ensures
        !is_address(*token_program, TOKEN_PROGRAM_ID) ==> r == Err::<TxPlan, BuildError>(BuildError::IncorrectProgramId),
        is_address(*token_program, TOKEN_PROGRAM_ID) ==> (r matches Ok(plan)
            && token_transfer_plan(plan, *token_program, *owner, *receiver, *mint, amount, freshness)),
{
    let source = ata_address(owner, mint, token_program);
    let destination = ata_address(receiver, mint, token_program);
    match token_transfer_instruction(token_program, &source, &destination, owner, amount) {
        Ok(ix) => Ok(single(ix, owner, freshness)),
        Err(e) => Err(e),
    }
}

/// The creation of `owner`'s token account for `mint`, paid and signed by
/// `payer`.
pub fn plan_create_ata(
    payer: &Address,
    owner: &Address,
    mint: &Address,
    token_program: &Address,
    freshness: [u8; 32],
) -> (r: TxPlan)
    ensures
        create_ata_plan(r, *payer, *owner, *mint, *token_program, freshness),
{
    single(create_ata_instruction(payer, owner, mint, token_program), payer, freshness)
}

/// A new token mint at `mint` with `decimals` places and `payer` as its
/// authority: the account is allocated with `lamports` for `MINT_LEN` bytes
/// and owned by the token program, then initialised. The payer and the new
/// mint both sign.
pub fn plan_create_mint(
    payer: &Address,
    mint: &Address,
    token_program: &Address,
    lamports: u64,
    decimals: u8,
    freshness: [u8; 32],
) -> (r: Result<TxPlan, BuildError>)
    ensures
        !is_address(*token_program, TOKEN_PROGRAM_ID) ==> r == Err::<TxPlan, BuildError>(BuildError::IncorrectProgramId),
        is_address(*token_program, TOKEN_PROGRAM_ID) ==> (r matches Ok(plan) && {
            let create = plan.instructions@[0];
            let init = plan.instructions@[1];
            &&& plan.instructions@.len() == 2
            &&& plan.payer == *payer
            &&& plan.signers@ == seq![*payer, *mint]
            &&& plan.freshness == freshness
            &&& is_address(create.program_id, SYSTEM_PROGRAM_ID)
            &&& accounts_of(create) == seq![account(*payer, true, true), account(*mint, true, true)]
            &&& create.data@ == seq![0u8, 0, 0, 0] + le_bytes(lamports as nat, 8) + le_bytes(MINT_LEN as nat, 8)
                + token_program.bytes@
            &&& init.program_id == *token_program
            &&& accounts_of(init)[0] == account(*mint, false, true)
            &&& init.data@ == seq![0u8, decimals] + payer.bytes@ + seq![0u8]
        }),
{
    let init = match spl_initialize_mint(token_program, mint, payer, decimals) {
        Ok(ix) => ix,
        Err(_) => return Err(BuildError::IncorrectProgramId),
    };
    let create = system_create_account(payer, mint, lamports, MINT_LEN, token_program);
    let mut instructions = Vec::new();
    instructions.push(create);
    instructions.push(init);
    let mut signers = Vec::new();
    signers.push(*payer);
    signers.push(*mint);
    Ok(TxPlan { instructions, payer: *payer, signers, freshness })
}

} // verus!
