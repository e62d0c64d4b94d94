//! Transaction orchestration for a token ledger: exact amount parsing,
//! instruction and transaction assembly, a bounded confirmation poller and
//! a per-row batch state machine with failure isolation.

mod address;
mod amount;
mod batch;
mod instruction;
mod poller;
mod transaction;

pub use amount::{parse_amount, AmountError, LAMPORTS_PER_SOL};
pub use address::{parse_address, Address, AddressError};
pub use instruction::{
    ata_address, create_ata_instruction, native_transfer_instruction, token_transfer_instruction,
    ATA_PROGRAM_ID, RENT_SYSVAR_ID, SYSTEM_PROGRAM_ID, TOKEN_PROGRAM_ID,
    AccountRef, BuildError, Ix,
};
pub use poller::{lemma_finalized_only_after_true, PollStatus, Poller};
pub use transaction::{plan_create_ata, plan_create_mint, plan_native_transfer, plan_token_transfer, TxPlan, MINT_LEN};
pub use batch::{
    advance, begin_row, classify_failure, parse_row, plan_step, BatchConfig, LedgerFailure, Rejection,
    RowFailure, RowState, Step, SubmitOutcome, TransferRow,
};
pub use batch::{lemma_existing_account_is_success, lemma_row_failure_isolated, BatchReport, RowInput};
