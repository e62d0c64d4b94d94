use vstd::prelude::*;
use crate::address::Address;

verus! {

/// The token program's address (`TokenkegQfeZyiNwAJbNbGKPFXCWuBvf9Ss623VQ5DA`).
pub const TOKEN_PROGRAM_ID: [u8; 32] = [
    6, 221, 246, 225, 215, 101, 161, 147, 217, 203, 225, 70, 206, 235, 121, 172,
    28, 180, 133, 237, 95, 91, 55, 145, 58, 140, 245, 133, 126, 255, 0, 169,
];

/// The associated token account program's address
/// (`ATokenGPvbdGVxr1b2hvZbsiqW5xWH25efTNsLJA8knL`).
pub const ATA_PROGRAM_ID: [u8; 32] = [
    140, 151, 37, 143, 78, 36, 137, 241, 187, 61, 16, 41, 20, 142, 13, 131,
    11, 90, 19, 153, 218, 255, 16, 132, 4, 142, 123, 216, 219, 233, 248, 89,
];

/// The rent sysvar's address (`SysvarRent111111111111111111111111111111111`).
pub const RENT_SYSVAR_ID: [u8; 32] = [
    6, 167, 213, 23, 25, 44, 92, 81, 33, 140, 201, 76, 61, 74, 241, 127,
    88, 218, 238, 8, 155, 161, 253, 68, 227, 219, 217, 138, 0, 0, 0, 0,
];

/// The system program's address: 32 zero bytes.
pub const SYSTEM_PROGRAM_ID: [u8; 32] = [
    0, 0, 0, 0, 0, 0, 0, 0, 0, 0, 0, 0, 0, 0, 0, 0,
    0, 0, 0, 0, 0, 0, 0, 0, 0, 0, 0, 0, 0, 0, 0, 0,
];

/// One account that an instruction reads or writes.
#[derive(Clone, Copy, Debug)]
pub struct AccountRef {
    pub address: Address,
    pub is_signer: bool,
    pub is_writable: bool,
}

/// An instruction as plain values: the program that runs it, the accounts it
/// touches, in order, and its encoded arguments.
#[derive(Clone, Debug)]
pub struct Ix {
    pub program_id: Address,
    pub accounts: Vec<AccountRef>,
    pub data: Vec<u8>,
}

/// Why an instruction could not be built.
#[derive(Clone, Copy, Debug, PartialEq, Eq, Structural)]
pub enum BuildError {
    /// The program named as the token program is not the token program.
    IncorrectProgramId,
}

#[verifier::external_type_specification]
#[verifier::external_body]
pub struct ExInstruction(solana_program::instruction::Instruction);

#[verifier::external_type_specification]
#[verifier::external_body]
pub struct ExProgramError(solana_program::program_error::ProgramError);

pub open spec fn account(address: Address, is_signer: bool, is_writable: bool) -> AccountRef {
    AccountRef { address, is_signer, is_writable }
}

/// The `n` low bytes of `v`, least significant first.
pub open spec fn le_bytes(v: nat, n: nat) -> Seq<u8>
    decreases n,
{
    if n == 0 {
        seq![]
    } else {
        seq![(v % 256) as u8] + le_bytes(v / 256, (n - 1) as nat)
    }
}

pub open spec fn is_address(a: Address, id: [u8; 32]) -> bool {
    a.bytes@ == id@
}

/// The accounts of an instruction as a sequence of plain values.
pub open spec fn accounts_of(ix: Ix) -> Seq<AccountRef> {
    ix.accounts@
}

/// The address of the token account that holds `owner`'s balance of `mint`
/// under `token_program`.
pub uninterp spec fn derived_ata(owner: Seq<u8>, mint: Seq<u8>, token_program: Seq<u8>) -> Seq<u8>;

/// Converts a ledger instruction into plain values, field by field.
#[verifier::external_body]
fn ix_from(ix: solana_program::instruction::Instruction) -> Ix {
    Ix {
        program_id: Address { bytes: ix.program_id.to_bytes() },
        accounts: ix.accounts.iter().map(
            |m| AccountRef { address: Address { bytes: m.pubkey.to_bytes() }, is_signer: m.is_signer, is_writable: m.is_writable },
        ).collect(),
        data: ix.data,
    }
}

/// Relies on `system_instruction::transfer`: a system-program instruction
/// over the payer (signer, writable) and the receiver (writable) whose data is
/// the bincode form of `Transfer { lamports }`: tag 2 as four bytes, then the
/// amount in eight little-endian bytes.
#[verifier::external_body]
fn system_transfer(from: &Address, to: &Address, lamports: u64) -> (r: Ix)
    ensures
        is_address(r.program_id, SYSTEM_PROGRAM_ID),
        accounts_of(r) == seq![account(*from, true, true), account(*to, false, true)],
        r.data@ == seq![2u8, 0, 0, 0] + le_bytes(lamports as nat, 8),
{
    let from = solana_program::pubkey::Pubkey::new_from_array(from.bytes);
    let to = solana_program::pubkey::Pubkey::new_from_array(to.bytes);
    ix_from(solana_program::system_instruction::transfer(&from, &to, lamports))
}

/// Relies on `system_instruction::create_account`: a system-program
/// instruction over the payer and the new account (both signers, writable)
/// whose data is the bincode form of `CreateAccount { lamports, space, owner }`:
/// tag 0 as four bytes, the two amounts in eight little-endian bytes each,
/// then the owner's 32 bytes.
#[verifier::external_body]
pub(crate) fn system_create_account(from: &Address, to: &Address, lamports: u64, space: u64, owner: &Address) -> (r: Ix)
    ensures
        is_address(r.program_id, SYSTEM_PROGRAM_ID),
        accounts_of(r) == seq![account(*from, true, true), account(*to, true, true)],
        r.data@ == seq![0u8, 0, 0, 0] + le_bytes(lamports as nat, 8) + le_bytes(space as nat, 8)
            + owner.bytes@,
{
    let from = solana_program::pubkey::Pubkey::new_from_array(from.bytes);
    let to = solana_program::pubkey::Pubkey::new_from_array(to.bytes);
    let owner = solana_program::pubkey::Pubkey::new_from_array(owner.bytes);
    ix_from(solana_program::system_instruction::create_account(&from, &to, lamports, space, &owner))
}

/// Relies on `spl_token::instruction::transfer` with no multisignature
/// signers: it fails exactly when `program` is not the token program, and
/// otherwise returns an instruction of that program over the source and
/// destination (writable) and the authority (signer), whose data is tag 3 and
/// the amount in eight little-endian bytes.
#[verifier::external_body]
fn spl_transfer(program: &Address, source: &Address, destination: &Address, authority: &Address, amount: u64) -> (r: Result<Ix, solana_program::program_error::ProgramError>)
    ensures
        r is Ok <==> is_address(*program, TOKEN_PROGRAM_ID),
        r matches Ok(ix) ==> {
            &&& ix.program_id == *program
            &&& accounts_of(ix) == seq![account(*source, false, true), account(*destination, false, true), account(*authority, true, false)]
            &&& ix.data@ == seq![3u8] + le_bytes(amount as nat, 8)
        },
{
    let p = solana_program::pubkey::Pubkey::new_from_array(program.bytes);
    let s = solana_program::pubkey::Pubkey::new_from_array(source.bytes);
    let d = solana_program::pubkey::Pubkey::new_from_array(destination.bytes);
    let a = solana_program::pubkey::Pubkey::new_from_array(authority.bytes);
    spl_token::instruction::transfer(&p, &s, &d, &a, &[], amount).map(ix_from)
}

/// Relies on `spl_token::instruction::initialize_mint` with no freeze
/// authority: it fails exactly when `program` is not the token program, and
/// otherwise returns an instruction of that program over the mint (writable)
/// and the rent sysvar, whose data is tag 0, the decimals, the authority's 32
/// bytes and a 0 for the absent freeze authority.
#[verifier::external_body]
pub(crate) fn spl_initialize_mint(program: &Address, mint: &Address, authority: &Address, decimals: u8) -> (r: Result<Ix, solana_program::program_error::ProgramError>)
    ensures
        r is Ok <==> is_address(*program, TOKEN_PROGRAM_ID),
        r matches Ok(ix) ==> {
            &&& ix.program_id == *program
            &&& accounts_of(ix).len() == 2
            &&& accounts_of(ix)[0] == account(*mint, false, true)
            &&& is_address(accounts_of(ix)[1].address, RENT_SYSVAR_ID)
            &&& !accounts_of(ix)[1].is_signer && !accounts_of(ix)[1].is_writable
            &&& ix.data@ == seq![0u8, decimals] + authority.bytes@ + seq![0u8]
        },
{
    let p = solana_program::pubkey::Pubkey::new_from_array(program.bytes);
    let m = solana_program::pubkey::Pubkey::new_from_array(mint.bytes);
    let a = solana_program::pubkey::Pubkey::new_from_array(authority.bytes);
    spl_token::instruction::initialize_mint(&p, &m, &a, None, decimals).map(ix_from)
}

/// Relies on `get_associated_token_address_with_program_id`: the address
/// depends on the three inputs alone. (The derivation panics only if no bump
/// seed is found, which the ledger's design makes practically impossible.)
#[verifier::external_body]
fn derive_ata(owner: &Address, mint: &Address, token_program: &Address) -> (r: Address)
    ensures
        r.bytes@ == derived_ata(owner.bytes@, mint.bytes@, token_program.bytes@),
{
    let o = solana_program::pubkey::Pubkey::new_from_array(owner.bytes);
    let m = solana_program::pubkey::Pubkey::new_from_array(mint.bytes);
    let t = solana_program::pubkey::Pubkey::new_from_array(token_program.bytes);
    let k = spl_associated_token_account::get_associated_token_address_with_program_id(&o, &m, &t);
    Address { bytes: k.to_bytes() }
}

/// Relies on `create_associated_token_account`: an instruction of the
/// associated token account program over the payer (signer, writable), the
/// derived account (writable), the owner, the mint, the system program and the
/// token program, whose data is the one-byte `Create` tag 0.
#[verifier::external_body]
fn ata_create(payer: &Address, owner: &Address, mint: &Address, token_program: &Address) -> (r: Ix)
    ensures
        is_address(r.program_id, ATA_PROGRAM_ID),
        accounts_of(r).len() == 6,
        accounts_of(r)[0] == account(*payer, true, true),
        accounts_of(r)[1].address.bytes@ == derived_ata(owner.bytes@, mint.bytes@, token_program.bytes@),
        !accounts_of(r)[1].is_signer && accounts_of(r)[1].is_writable,
        accounts_of(r)[2] == account(*owner, false, false),
        accounts_of(r)[3] == account(*mint, false, false),
        is_address(accounts_of(r)[4].address, SYSTEM_PROGRAM_ID),
        !accounts_of(r)[4].is_signer && !accounts_of(r)[4].is_writable,
        accounts_of(r)[5] == account(*token_program, false, false),
        r.data@ == seq![0u8],
{
    let p = solana_program::pubkey::Pubkey::new_from_array(payer.bytes);
    let o = solana_program::pubkey::Pubkey::new_from_array(owner.bytes);
    let m = solana_program::pubkey::Pubkey::new_from_array(mint.bytes);
    let t = solana_program::pubkey::Pubkey::new_from_array(token_program.bytes);
    ix_from(spl_associated_token_account::instruction::create_associated_token_account(&p, &o, &m, &t))
}

/// A native transfer of `lamports` from `from`, which signs and pays, to `to`.
pub fn native_transfer_instruction(from: &Address, to: &Address, lamports: u64) -> (r: Ix)
    ensures
        is_address(r.program_id, SYSTEM_PROGRAM_ID),
        accounts_of(r) == seq![account(*from, true, true), account(*to, false, true)],
        r.data@ == seq![2u8, 0, 0, 0] + le_bytes(lamports as nat, 8),
{
    system_transfer(from, to, lamports)
}

/// A token transfer of `amount` (in the token's own atomic units) from
/// `source` to `destination`, authorised by `owner`. A zero amount is valid.
pub fn token_transfer_instruction(
    token_program: &Address,
    source: &Address,
    destination: &Address,
    owner: &Address,
    amount: u64,
) -> (r: Result<Ix, BuildError>)
    ensures
        !is_address(*token_program, TOKEN_PROGRAM_ID) ==> r == Err::<Ix, BuildError>(BuildError::IncorrectProgramId),
        is_address(*token_program, TOKEN_PROGRAM_ID) ==> (r matches Ok(ix) && {
            &&& ix.program_id == *token_program
            &&& accounts_of(ix) == seq![account(*source, false, true), account(*destination, false, true), account(*owner, true, false)]
            &&& ix.data@ == seq![3u8] + le_bytes(amount as nat, 8)
        }),
{
    match spl_transfer(token_program, source, destination, owner, amount) {
        Ok(ix) => Ok(ix),
        Err(_) => Err(BuildError::IncorrectProgramId),
    }
}

/// The address of the account holding `owner`'s balance of `mint`.
pub fn ata_address(owner: &Address, mint: &Address, token_program: &Address) -> (r: Address)
    ensures
        r.bytes@ == derived_ata(owner.bytes@, mint.bytes@, token_program.bytes@),
{
    derive_ata(owner, mint, token_program)
}

/// The creation of `owner`'s account for `mint`, paid and signed by `payer`.
/// It is emitted whether or not the account exists already.
pub fn create_ata_instruction(payer: &Address, owner: &Address, mint: &Address, token_program: &Address) -> (r: Ix)
    ensures
        is_address(r.program_id, ATA_PROGRAM_ID),
        accounts_of(r).len() == 6,
        accounts_of(r)[0] == account(*payer, true, true),
        accounts_of(r)[1].address.bytes@ == derived_ata(owner.bytes@, mint.bytes@, token_program.bytes@),
        !accounts_of(r)[1].is_signer && accounts_of(r)[1].is_writable,
        accounts_of(r)[2] == account(*owner, false, false),
        accounts_of(r)[3] == account(*mint, false, false),
        is_address(accounts_of(r)[4].address, SYSTEM_PROGRAM_ID),
        !accounts_of(r)[4].is_signer && !accounts_of(r)[4].is_writable,
        accounts_of(r)[5] == account(*token_program, false, false),
        r.data@ == seq![0u8],
{
    ata_create(payer, owner, mint, token_program)
}

} // verus!
