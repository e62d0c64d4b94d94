use vstd::prelude::*;
use vstd::string::StringSliceAdditionalSpecFns;
use crate::address::{decoded_address, parse_address, Address, AddressError};
use crate::amount::{amount_of, parse_amount, AmountError};
use crate::instruction::{is_address, BuildError, TOKEN_PROGRAM_ID};
use crate::transaction::{
    create_ata_plan, native_transfer_plan, plan_create_ata, plan_native_transfer, plan_token_transfer,
    token_transfer_plan, TxPlan,
};

verus! {

/// How the ledger refused a well-formed transaction.
#[derive(Clone, Copy, Debug, PartialEq, Eq, Structural)]
pub enum Rejection {
    InsufficientFunds,
    AccountAlreadyExists,
    StaleReference,
    Other,
}

/// What came of submitting one transaction.
#[derive(Clone, Copy, Debug, PartialEq, Eq, Structural)]
pub enum SubmitOutcome {
    Confirmed,
    RpcFailure,
    Rejected(Rejection),
}

/// A failed submission as the ledger client reports it.
#[derive(Clone, Copy, Debug, PartialEq, Eq, Structural)]
pub enum LedgerFailure {
    /// The request did not get an answer.
    Transport,
    /// The recent reference the transaction carries has expired.
    BlockhashNotFound,
    /// The fee payer cannot pay the fee.
    InsufficientFundsForFee,
    /// An instruction found an account owned by another program than it
    /// expected; account creation reports this for an account that exists.
    IllegalOwner,
    /// A program's own error code.
    Custom(u32),
    /// Any other refusal.
    OtherRejection,
}

/// One operation of a row, in the order they run.
#[derive(Clone, Copy, Debug, PartialEq, Eq, Structural)]
pub enum Step {
    NativeTransfer,
    SenderAta,
    ReceiverAta,
    TokenTransfer,
}

/// Why a row failed.
#[derive(Clone, Copy, Debug, PartialEq, Eq, Structural)]
pub enum RowFailure {
    Amount(AmountError),
    Receiver(AddressError),
    Token(AddressError),
    Build(BuildError),
    Submit(Step, SubmitOutcome),
}

/// Where a row stands: running a step (after `retries` resubmissions on an
/// expired reference), or finished.
#[derive(Clone, Copy, Debug, PartialEq, Eq, Structural)]
pub enum RowState {
    Running { step: Step, retries: u32 },
    Succeeded,
    Failed(RowFailure),
}

/// Which operations a batch runs.
#[derive(Clone, Copy, Debug)]
pub struct BatchConfig {
    /// Send each row's amount in the native currency.
    pub native_transfer: bool,
    /// Make sure both token accounts exist, then send tokens.
    pub token_transfer: bool,
    /// The token amount of every row, or `None` for the row's own amount.
    pub token_amount: Option<u64>,
    /// How often one step is rebuilt on a fresh reference after the ledger
    /// refused an expired one.
    pub max_stale_retries: u32,
}

/// One parsed row: the token's mint, the receiver and the amount in atomic
/// units.
#[derive(Clone, Copy, Debug)]
pub struct TransferRow {
    pub token: Address,
    pub receiver: Address,
    pub amount: u64,
}

pub open spec fn outcome_of(f: LedgerFailure) -> SubmitOutcome {
    match f {
        LedgerFailure::Transport => SubmitOutcome::RpcFailure,
        LedgerFailure::BlockhashNotFound => SubmitOutcome::Rejected(Rejection::StaleReference),
        LedgerFailure::InsufficientFundsForFee => SubmitOutcome::Rejected(Rejection::InsufficientFunds),
        LedgerFailure::Custom(code) => if code == 1 {
            SubmitOutcome::Rejected(Rejection::InsufficientFunds)
        } else {
            SubmitOutcome::Rejected(Rejection::Other)
        },
        LedgerFailure::IllegalOwner => SubmitOutcome::Rejected(Rejection::AccountAlreadyExists),
        LedgerFailure::OtherRejection => SubmitOutcome::Rejected(Rejection::Other),
    }
}

/// Sorts a ledger failure into the outcomes that the batch tells apart.
/// Code 1 is the token and system programs' "insufficient funds".
pub fn classify_failure(f: LedgerFailure) -> (r: SubmitOutcome)
    ensures
        r == outcome_of(f),
{
    match f {
        LedgerFailure::Transport => SubmitOutcome::RpcFailure,
        LedgerFailure::BlockhashNotFound => SubmitOutcome::Rejected(Rejection::StaleReference),
        LedgerFailure::InsufficientFundsForFee => SubmitOutcome::Rejected(Rejection::InsufficientFunds),
        LedgerFailure::Custom(code) => if code == 1 {
            SubmitOutcome::Rejected(Rejection::InsufficientFunds)
        } else {
            SubmitOutcome::Rejected(Rejection::Other)
        },
        LedgerFailure::IllegalOwner => SubmitOutcome::Rejected(Rejection::AccountAlreadyExists),
        LedgerFailure::OtherRejection => SubmitOutcome::Rejected(Rejection::Other),
    }
}

pub open spec fn is_ata_step(step: Step) -> bool {
    step == Step::SenderAta || step == Step::ReceiverAta
}

/// A step is done when its transaction was confirmed, or, for an account
/// creation, when the account exists already.
pub open spec fn accepts(step: Step, outcome: SubmitOutcome) -> bool {
    outcome == SubmitOutcome::Confirmed || (is_ata_step(step) && outcome == SubmitOutcome::Rejected(
        Rejection::AccountAlreadyExists,
    ))
}

pub open spec fn first_step(cfg: BatchConfig) -> Option<Step> {
    if cfg.native_transfer {
        Some(Step::NativeTransfer)
    } else if cfg.token_transfer {
        Some(Step::SenderAta)
    } else {
        None
    }
}

pub open spec fn next_step(cfg: BatchConfig, step: Step) -> Option<Step> {
    match step {
        Step::NativeTransfer => if cfg.token_transfer { Some(Step::SenderAta) } else { None },
        Step::SenderAta => Some(Step::ReceiverAta),
        Step::ReceiverAta => Some(Step::TokenTransfer),
        Step::TokenTransfer => None,
    }
}

pub open spec fn enter(s: Option<Step>) -> RowState {
    match s {
        Some(step) => RowState::Running { step, retries: 0 },
        None => RowState::Succeeded,
    }
}

/// The first state of a row that parsed, or failed to parse with `failure`.
pub open spec fn begin_spec(cfg: BatchConfig, failure: Option<RowFailure>) -> RowState {
    match failure {
        Some(f) => RowState::Failed(f),
        None => enter(first_step(cfg)),
    }
}

/// The state of a row after its current step's submission came to `outcome`.
pub open spec fn advance_spec(cfg: BatchConfig, st: RowState, outcome: SubmitOutcome) -> RowState {
    match st {
        RowState::Succeeded | RowState::Failed(_) => st,
        RowState::Running { step, retries } => if accepts(step, outcome) {
            enter(next_step(cfg, step))
        } else if outcome == SubmitOutcome::Rejected(Rejection::StaleReference) && retries
            < cfg.max_stale_retries {
            RowState::Running { step, retries: (retries + 1) as u32 }
        } else {
            RowState::Failed(RowFailure::Submit(step, outcome))
        },
    }
}

/// How the texts of a row fail to parse, if they do: the amount is read
/// first, then the receiver, then the token.
pub open spec fn row_failure(token: Seq<char>, receiver: Seq<char>, amount: Seq<u8>) -> Option<RowFailure> {
    match amount_of(amount) {
        Err(e) => Some(RowFailure::Amount(e)),
        Ok(_) => if decoded_address(receiver) is None {
            Some(RowFailure::Receiver(AddressError::Invalid))
        } else if decoded_address(token) is None {
            Some(RowFailure::Token(AddressError::Invalid))
        } else {
            None
        },
    }
}

pub open spec fn failure_of(parsed: Result<TransferRow, RowFailure>) -> Option<RowFailure> {
    match parsed {
        Ok(_) => None,
        Err(f) => Some(f),
    }
}

/// Reads a row from its three texts, already trimmed: the token's address,
/// the receiver's address and the human amount.
pub fn parse_row(token: &str, receiver: &str, amount: &str) -> (r: Result<TransferRow, RowFailure>)
    ensures
        failure_of(r) == row_failure(token@, receiver@, amount.spec_bytes()),
        r matches Ok(row) ==> {
            &&& amount_of(amount.spec_bytes()) == Ok::<u64, AmountError>(row.amount)
            &&& decoded_address(receiver@) == Some(row.receiver.bytes@)
            &&& decoded_address(token@) == Some(row.token.bytes@)
        },
{
    let amount = match parse_amount(amount) {
        Ok(v) => v,
        Err(e) => return Err(RowFailure::Amount(e)),
    };
    let receiver = match parse_address(receiver) {
        Ok(a) => a,
        Err(e) => return Err(RowFailure::Receiver(e)),
    };
    let token = match parse_address(token) {
        Ok(a) => a,
        Err(e) => return Err(RowFailure::Token(e)),
    };
    Ok(TransferRow { token, receiver, amount })
}

fn enter_exec(s: Option<Step>) -> (r: RowState)
    ensures
        r == enter(s),
{
    match s {
        Some(step) => RowState::Running { step, retries: 0 },
        None => RowState::Succeeded,
    }
}

fn next_step_exec(cfg: &BatchConfig, step: Step) -> (r: Option<Step>)
    ensures
        r == next_step(*cfg, step),
{
    match step {
        Step::NativeTransfer => if cfg.token_transfer { Some(Step::SenderAta) } else { None },
        Step::SenderAta => Some(Step::ReceiverAta),
        Step::ReceiverAta => Some(Step::TokenTransfer),
        Step::TokenTransfer => None,
    }
}

/// The first state of a row: failed at once if it did not parse, else at its
/// first enabled step. Nothing of earlier rows enters it.
pub fn begin_row(cfg: &BatchConfig, parsed: &Result<TransferRow, RowFailure>) -> (r: RowState)
    ensures
        r == begin_spec(*cfg, failure_of(*parsed)),
{
    match parsed {
        Err(f) => RowState::Failed(*f),
        Ok(_) => {
            let first = if cfg.native_transfer {
                Some(Step::NativeTransfer)
            } else if cfg.token_transfer {
                Some(Step::SenderAta)
            } else {
                None
            };
            enter_exec(first)
        },
    }
}

/// Moves a row on after its current step's submission came to `outcome`.
pub fn advance(cfg: &BatchConfig, st: RowState, outcome: SubmitOutcome) -> (r: RowState)
    ensures
        r == advance_spec(*cfg, st, outcome),
{
    match st {
        RowState::Succeeded | RowState::Failed(_) => st,
        RowState::Running { step, retries } => {
            let ata = step == Step::SenderAta || step == Step::ReceiverAta;
            let exists = outcome == SubmitOutcome::Rejected(Rejection::AccountAlreadyExists);
            if outcome == SubmitOutcome::Confirmed || (ata && exists) {
                enter_exec(next_step_exec(cfg, step))
            } else if outcome == SubmitOutcome::Rejected(Rejection::StaleReference) && retries
                < cfg.max_stale_retries {
                RowState::Running { step, retries: retries + 1 }
            } else {
                RowState::Failed(RowFailure::Submit(step, outcome))
            }
        },
    }
}

/// The transaction of one step of a row sent by `sender`, on a freshly
/// fetched reference.
pub fn plan_step(
    cfg: &BatchConfig,
    sender: &Address,
    token_program: &Address,
    row: &TransferRow,
    step: Step,
    freshness: [u8; 32],
) -> (r: Result<TxPlan, BuildError>)
    ensures
        step == Step::NativeTransfer ==> (r matches Ok(plan)
            && native_transfer_plan(plan, *sender, row.receiver, row.amount, freshness)),
        step == Step::SenderAta ==> (r matches Ok(plan)
            && create_ata_plan(plan, *sender, *sender, row.token, *token_program, freshness)),
        step == Step::ReceiverAta ==> (r matches Ok(plan)
            && create_ata_plan(plan, *sender, row.receiver, row.token, *token_program, freshness)),
        step == Step::TokenTransfer && !is_address(*token_program, TOKEN_PROGRAM_ID)
            ==> r == Err::<TxPlan, BuildError>(BuildError::IncorrectProgramId),
        step == Step::TokenTransfer && is_address(*token_program, TOKEN_PROGRAM_ID) ==> (r matches Ok(plan)
            && token_transfer_plan(plan, *token_program, *sender, row.receiver, row.token,
                match cfg.token_amount { Some(k) => k, None => row.amount }, freshness)),
{
    match step {
        Step::NativeTransfer => Ok(plan_native_transfer(sender, &row.receiver, row.amount, freshness)),
        Step::SenderAta => Ok(plan_create_ata(sender, sender, &row.token, token_program, freshness)),
        Step::ReceiverAta => Ok(plan_create_ata(sender, &row.receiver, &row.token, token_program, freshness)),
        Step::TokenTransfer => {
            let amount = match cfg.token_amount {
                Some(k) => k,
                None => row.amount,
            };
            plan_token_transfer(token_program, sender, &row.receiver, &row.token, amount, freshness)
        },
    }
}

pub open spec fn is_finished(st: RowState) -> bool {
    st is Succeeded || st is Failed
}

/// How many of `s` succeeded.
pub open spec fn count_succeeded(s: Seq<RowState>) -> nat
    decreases s.len(),
{
    if s.len() == 0 {
        0
    } else {
        count_succeeded(s.drop_last()) + if s.last() is Succeeded { 1nat } else { 0nat }
    }
}

/// The finished rows of a batch, in input order, with a running tally.
#[derive(Clone, Debug)]
pub struct BatchReport {
    pub results: Vec<RowState>,
    pub succeeded: u64,
    pub failed: u64,
}

impl BatchReport {
    pub open spec fn wf(self) -> bool {
        &&& forall|i: int| 0 <= i < self.results@.len() ==> is_finished(#[trigger] self.results@[i])
        &&& self.succeeded == count_succeeded(self.results@)
        &&& self.succeeded + self.failed == self.results@.len()
    }

    pub fn new() -> (r: BatchReport)
        ensures
            r.wf(),
            r.results@ == Seq::<RowState>::empty(),
    {
        BatchReport { results: Vec::new(), succeeded: 0, failed: 0 }
    }

    /// Adds the final state of the next row; earlier rows are left as they are.
    pub fn record(&mut self, st: RowState)
        requires
            old(self).wf(),
            is_finished(st),
            old(self).results@.len() < u64::MAX,
        ensures
            final(self).wf(),
            final(self).results@ == old(self).results@.push(st),
    {
        let ghost before = self.results@;
        let ok = match st {
            RowState::Succeeded => true,
            _ => false,
        };
        self.results.push(st);
        proof {
            assert(self.results@.drop_last() =~= before);
        }
        if ok {
            self.succeeded = self.succeeded + 1;
        } else {
            self.failed = self.failed + 1;
        }
    }
}

/// The state of a row after its submissions came to `events`, in order.
pub open spec fn replay(cfg: BatchConfig, st: RowState, events: Seq<SubmitOutcome>) -> RowState
    decreases events.len(),
{
    if events.len() == 0 {
        st
    } else {
        replay(cfg, advance_spec(cfg, st, events[0]), events.drop_first())
    }
}

/// The texts of a row and the outcomes its submissions would meet.
pub struct RowInput {
    pub token: Seq<char>,
    pub receiver: Seq<char>,
    pub amount: Seq<u8>,
    pub events: Seq<SubmitOutcome>,
}

pub open spec fn row_outcome(cfg: BatchConfig, row: RowInput) -> RowState {
    replay(cfg, begin_spec(cfg, row_failure(row.token, row.receiver, row.amount)), row.events)
}

/// The final states of a batch's rows, each run on its own from its first state.
pub open spec fn batch_outcomes(cfg: BatchConfig, rows: Seq<RowInput>) -> Seq<RowState> {
    Seq::new(rows.len(), |i: int| row_outcome(cfg, rows[i]))
}

proof fn lemma_replay_finished(cfg: BatchConfig, st: RowState, events: Seq<SubmitOutcome>)
    requires
        is_finished(st),
    ensures
        replay(cfg, st, events) == st,
    decreases events.len(),
{
    if events.len() > 0 {
        lemma_replay_finished(cfg, st, events.drop_first());
    }
}

/// A row whose amount does not parse fails with that error and makes no
/// submission, and whatever stands in that row, every other row ends as it
/// would on its own.
pub proof fn lemma_row_failure_isolated(cfg: BatchConfig, rows: Seq<RowInput>, k: int, replacement: RowInput)
    requires
        0 <= k < rows.len(),
        amount_of(rows[k].amount) is Err,
    ensures
        batch_outcomes(cfg, rows)[k] == RowState::Failed(RowFailure::Amount(amount_of(rows[k].amount)->Err_0)),
        forall|i: int| 0 <= i < rows.len() && i != k ==> #[trigger] batch_outcomes(cfg, rows.update(k, replacement))[i]
            == batch_outcomes(cfg, rows)[i],
        forall|i: int| 0 <= i < rows.len() ==> #[trigger] batch_outcomes(cfg, rows)[i] == row_outcome(cfg, rows[i]),
{
    let st = begin_spec(cfg, row_failure(rows[k].token, rows[k].receiver, rows[k].amount));
    lemma_replay_finished(cfg, st, rows[k].events);
}

/// Creating a token account that exists already is as good as creating it:
/// the row goes on exactly as after a confirmed creation and does not fail.
pub proof fn lemma_existing_account_is_success(cfg: BatchConfig, step: Step, retries: u32)
    requires
        is_ata_step(step),
    ensures
        advance_spec(cfg, RowState::Running { step, retries }, SubmitOutcome::Rejected(Rejection::AccountAlreadyExists))
            == advance_spec(cfg, RowState::Running { step, retries }, SubmitOutcome::Confirmed),
        !(advance_spec(cfg, RowState::Running { step, retries }, SubmitOutcome::Rejected(Rejection::AccountAlreadyExists)) is Failed),
{
}

} // verus!
