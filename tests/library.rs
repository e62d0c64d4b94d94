use rust_client::{
    advance, ata_address, begin_row, classify_failure, create_ata_instruction, native_transfer_instruction,
    parse_address, parse_amount, parse_row, plan_create_ata, plan_create_mint, plan_native_transfer, plan_step,
    plan_token_transfer, token_transfer_instruction, Address, AddressError, AmountError, BatchConfig, BatchReport,
    BuildError, LedgerFailure, PollStatus, Poller, Rejection, RowFailure, RowState, Step, SubmitOutcome,
    TransferRow, ATA_PROGRAM_ID, LAMPORTS_PER_SOL, MINT_LEN, RENT_SYSVAR_ID, SYSTEM_PROGRAM_ID,
    TOKEN_PROGRAM_ID,
};

const TOKEN_PROGRAM_TEXT: &str = "TokenkegQfeZyiNwAJbNbGKPFXCWuBvf9Ss623VQ5DA";

fn addr(b: u8) -> Address {
    Address { bytes: [b; 32] }
}

fn token_program() -> Address {
    Address { bytes: TOKEN_PROGRAM_ID }
}

fn cfg_token() -> BatchConfig {
    BatchConfig { native_transfer: false, token_transfer: true, token_amount: Some(0), max_stale_retries: 1 }
}

fn row() -> TransferRow {
    TransferRow { token: addr(3), receiver: addr(2), amount: 500_000_000 }
}

#[test]
fn amount_half_unit() {
    assert_eq!(parse_amount("0.5"), Ok(500_000_000));
}

#[test]
fn amount_whole_units() {
    assert_eq!(parse_amount("1.0"), Ok(LAMPORTS_PER_SOL));
    assert_eq!(parse_amount("1"), Ok(1_000_000_000));
    assert_eq!(parse_amount("5."), Ok(5_000_000_000));
    assert_eq!(parse_amount(".25"), Ok(250_000_000));
    assert_eq!(parse_amount("0"), Ok(0));
    assert_eq!(parse_amount("007.000000001"), Ok(7_000_000_001));
}

#[test]
fn amount_truncates_past_nine_places() {
    assert_eq!(parse_amount("0.123456789999"), Ok(123_456_789));
    assert_eq!(parse_amount("0.0000000009"), Ok(0));
}

#[test]
fn amount_malformed() {
    for t in ["", ".", "-1", "1e9", "1.2.3", " 1", "abc", "1,5", "+2"] {
        assert_eq!(parse_amount(t), Err(AmountError::Malformed), "{}", t);
    }
}

#[test]
fn amount_largest_and_too_large() {
    assert_eq!(parse_amount("18446744073.709551615"), Ok(u64::MAX));
    assert_eq!(parse_amount("18446744073.709551616"), Err(AmountError::TooLarge));
    assert_eq!(parse_amount("99999999999999999999999999999999"), Err(AmountError::TooLarge));
}

#[test]
fn funding_then_half_transfer_accounting() {
    let funded = parse_amount("1.0").unwrap();
    let sent = parse_amount("0.5").unwrap();
    assert_eq!(funded, 1_000_000_000);
    assert_eq!(funded - sent, 500_000_000);
    assert_eq!(sent, 500_000_000);
    let plan = plan_native_transfer(&addr(1), &addr(2), sent, [9; 32]);
    assert_eq!(plan.instructions[0].data, vec![2, 0, 0, 0, 0x00, 0x65, 0xcd, 0x1d, 0, 0, 0, 0]);
}

#[test]
fn address_from_base58() {
    let a = parse_address(TOKEN_PROGRAM_TEXT).unwrap();
    assert_eq!(a.bytes, TOKEN_PROGRAM_ID);
    let s = parse_address("11111111111111111111111111111111").unwrap();
    assert_eq!(s.bytes, SYSTEM_PROGRAM_ID);
}

#[test]
fn address_refused() {
    assert_eq!(parse_address("0OIl").unwrap_err(), AddressError::Invalid);
    assert_eq!(parse_address("abc").unwrap_err(), AddressError::Invalid);
    assert_eq!(parse_address("").unwrap_err(), AddressError::Invalid);
}

#[test]
fn native_transfer_layout() {
    let ix = native_transfer_instruction(&addr(1), &addr(2), 258);
    assert_eq!(ix.program_id.bytes, SYSTEM_PROGRAM_ID);
    assert_eq!(ix.accounts.len(), 2);
    assert_eq!(ix.accounts[0].address.bytes, [1; 32]);
    assert!(ix.accounts[0].is_signer && ix.accounts[0].is_writable);
    assert_eq!(ix.accounts[1].address.bytes, [2; 32]);
    assert!(!ix.accounts[1].is_signer && ix.accounts[1].is_writable);
    assert_eq!(ix.data, vec![2, 0, 0, 0, 2, 1, 0, 0, 0, 0, 0, 0]);
}

#[test]
fn token_transfer_needs_token_program() {
    let r = token_transfer_instruction(&addr(7), &addr(1), &addr(2), &addr(3), 5);
    assert_eq!(r.unwrap_err(), BuildError::IncorrectProgramId);
}

#[test]
fn zero_token_transfer_is_built() {
    let ix = token_transfer_instruction(&token_program(), &addr(1), &addr(2), &addr(3), 0).unwrap();
    assert_eq!(ix.program_id.bytes, TOKEN_PROGRAM_ID);
    assert_eq!(ix.data, vec![3, 0, 0, 0, 0, 0, 0, 0, 0]);
    assert_eq!(ix.accounts.len(), 3);
    assert_eq!(ix.accounts[2].address.bytes, [3; 32]);
    assert!(ix.accounts[2].is_signer && !ix.accounts[2].is_writable);
    assert!(ix.accounts[0].is_writable && ix.accounts[1].is_writable);
}

#[test]
fn token_transfer_plan_uses_derived_accounts() {
    let owner = addr(1);
    let receiver = addr(2);
    let mint = addr(3);
    let plan = plan_token_transfer(&token_program(), &owner, &receiver, &mint, 7, [4; 32]).unwrap();
    let ix = &plan.instructions[0];
    assert_eq!(ix.accounts[0].address.bytes, ata_address(&owner, &mint, &token_program()).bytes);
    assert_eq!(ix.accounts[1].address.bytes, ata_address(&receiver, &mint, &token_program()).bytes);
    assert_eq!(ix.data, vec![3, 7, 0, 0, 0, 0, 0, 0, 0]);
    assert_eq!(plan.payer.bytes, owner.bytes);
    assert_eq!(plan.signers.len(), 1);
    assert_eq!(plan.freshness, [4; 32]);
}

#[test]
fn ata_address_is_derived() {
    let a = ata_address(&addr(1), &addr(3), &token_program());
    let b = ata_address(&addr(1), &addr(3), &token_program());
    let c = ata_address(&addr(2), &addr(3), &token_program());
    assert_eq!(a.bytes, b.bytes);
    assert_ne!(a.bytes, c.bytes);
    assert_ne!(a.bytes, [1; 32]);
}

#[test]
fn create_ata_layout() {
    let ix = create_ata_instruction(&addr(1), &addr(2), &addr(3), &token_program());
    assert_eq!(ix.program_id.bytes, ATA_PROGRAM_ID);
    assert_eq!(ix.accounts.len(), 6);
    assert_eq!(ix.accounts[1].address.bytes, ata_address(&addr(2), &addr(3), &token_program()).bytes);
    assert_eq!(ix.accounts[4].address.bytes, SYSTEM_PROGRAM_ID);
    assert_eq!(ix.accounts[5].address.bytes, TOKEN_PROGRAM_ID);
    assert_eq!(ix.data, vec![0]);
    let plan = plan_create_ata(&addr(1), &addr(2), &addr(3), &token_program(), [0; 32]);
    assert_eq!(plan.payer.bytes, [1; 32]);
    assert_eq!(plan.signers.len(), 1);
}

#[test]
fn mint_creation_layout() {
    let plan = plan_create_mint(&addr(1), &addr(5), &token_program(), 1_000, 9, [6; 32]).unwrap();
    assert_eq!(plan.instructions.len(), 2);
    assert_eq!(plan.signers.len(), 2);
    assert_eq!(plan.signers[1].bytes, [5; 32]);
    let create = &plan.instructions[0];
    let mut data = vec![0, 0, 0, 0, 0xe8, 3, 0, 0, 0, 0, 0, 0, MINT_LEN as u8, 0, 0, 0, 0, 0, 0, 0];
    data.extend_from_slice(&TOKEN_PROGRAM_ID);
    assert_eq!(create.data, data);
    let init = &plan.instructions[1];
    assert_eq!(init.accounts[1].address.bytes, RENT_SYSVAR_ID);
    let mut data = vec![0, 9];
    data.extend_from_slice(&[1; 32]);
    data.push(0);
    assert_eq!(init.data, data);
    assert_eq!(plan_create_mint(&addr(1), &addr(5), &addr(8), 1_000, 9, [6; 32]).unwrap_err(), BuildError::IncorrectProgramId);
}

#[test]
fn poller_finalizes_on_true() {
    let mut p = Poller::new(3, 10);
    assert!(p.is_pending());
    p.observe(false);
    assert_eq!(p.status, PollStatus::Pending);
    p.observe(true);
    assert_eq!(p.status, PollStatus::Finalized);
    assert_eq!(p.attempts, 2);
}

#[test]
fn poller_times_out() {
    let mut p = Poller::new(2, 0);
    p.observe(false);
    p.observe(false);
    assert_eq!(p.status, PollStatus::TimedOut);
    assert!(!p.is_pending());
    assert_eq!(Poller::new(0, 0).status, PollStatus::TimedOut);
}

#[test]
fn classify_ledger_failures() {
    assert_eq!(classify_failure(LedgerFailure::Transport), SubmitOutcome::RpcFailure);
    assert_eq!(classify_failure(LedgerFailure::BlockhashNotFound), SubmitOutcome::Rejected(Rejection::StaleReference));
    assert_eq!(classify_failure(LedgerFailure::IllegalOwner), SubmitOutcome::Rejected(Rejection::AccountAlreadyExists));
    assert_eq!(classify_failure(LedgerFailure::Custom(1)), SubmitOutcome::Rejected(Rejection::InsufficientFunds));
    assert_eq!(classify_failure(LedgerFailure::InsufficientFundsForFee), SubmitOutcome::Rejected(Rejection::InsufficientFunds));
    assert_eq!(classify_failure(LedgerFailure::Custom(4)), SubmitOutcome::Rejected(Rejection::Other));
    assert_eq!(classify_failure(LedgerFailure::OtherRejection), SubmitOutcome::Rejected(Rejection::Other));
}

#[test]
fn existing_account_counts_as_success() {
    let cfg = cfg_token();
    let st = RowState::Running { step: Step::SenderAta, retries: 0 };
    let exists = SubmitOutcome::Rejected(Rejection::AccountAlreadyExists);
    let next = advance(&cfg, st, exists);
    assert_eq!(next, RowState::Running { step: Step::ReceiverAta, retries: 0 });
    assert_eq!(next, advance(&cfg, st, SubmitOutcome::Confirmed));
    let next = advance(&cfg, next, exists);
    assert_eq!(next, RowState::Running { step: Step::TokenTransfer, retries: 0 });
    let done = advance(&cfg, next, SubmitOutcome::Confirmed);
    assert_eq!(done, RowState::Succeeded);
    let mut report = BatchReport::new();
    report.record(done);
    assert_eq!(report.succeeded, 1);
    assert_eq!(report.failed, 0);
}

#[test]
fn existing_account_is_failure_for_transfers() {
    let cfg = cfg_token();
    let st = RowState::Running { step: Step::TokenTransfer, retries: 0 };
    let exists = SubmitOutcome::Rejected(Rejection::AccountAlreadyExists);
    assert_eq!(advance(&cfg, st, exists), RowState::Failed(RowFailure::Submit(Step::TokenTransfer, exists)));
}

#[test]
fn stale_reference_is_retried_on_fresh_handle() {
    let cfg = cfg_token();
    let st = RowState::Running { step: Step::TokenTransfer, retries: 0 };
    let stale = SubmitOutcome::Rejected(Rejection::StaleReference);
    let again = advance(&cfg, st, stale);
    assert_eq!(again, RowState::Running { step: Step::TokenTransfer, retries: 1 });
    let plan = plan_step(&cfg, &addr(1), &token_program(), &row(), Step::TokenTransfer, [8; 32]).unwrap();
    assert_eq!(plan.freshness, [8; 32]);
    assert_eq!(advance(&cfg, again, SubmitOutcome::Confirmed), RowState::Succeeded);
    assert_eq!(advance(&cfg, again, stale), RowState::Failed(RowFailure::Submit(Step::TokenTransfer, stale)));
}

#[test]
fn rows_fail_in_isolation() {
    let cfg = cfg_token();
    let texts = [
        (TOKEN_PROGRAM_TEXT, "11111111111111111111111111111111", "1.5"),
        (TOKEN_PROGRAM_TEXT, "11111111111111111111111111111111", "not a number"),
        (TOKEN_PROGRAM_TEXT, "11111111111111111111111111111111", "0.25"),
    ];
    let mut report = BatchReport::new();
    let mut starts = Vec::new();
    for (t, r, a) in texts {
        let parsed = parse_row(t, r, a);
        let st = begin_row(&cfg, &parsed);
        starts.push(st);
        let mut st = st;
        while let RowState::Running { .. } = st {
            st = advance(&cfg, st, SubmitOutcome::Confirmed);
        }
        report.record(st);
    }
    assert_eq!(starts[1], RowState::Failed(RowFailure::Amount(AmountError::Malformed)));
    assert_eq!(starts[0], RowState::Running { step: Step::SenderAta, retries: 0 });
    assert_eq!(starts[2], starts[0]);
    assert_eq!(report.results, vec![RowState::Succeeded, starts[1], RowState::Succeeded]);
    assert_eq!(report.succeeded, 2);
    assert_eq!(report.failed, 1);
}

#[test]
fn parse_row_reports_first_bad_field() {
    let good = "11111111111111111111111111111111";
    assert_eq!(parse_row(good, good, "x").unwrap_err(), RowFailure::Amount(AmountError::Malformed));
    assert_eq!(parse_row(good, "bad!", "1").unwrap_err(), RowFailure::Receiver(AddressError::Invalid));
    assert_eq!(parse_row("bad!", good, "1").unwrap_err(), RowFailure::Token(AddressError::Invalid));
    let r = parse_row(TOKEN_PROGRAM_TEXT, good, "2.5").unwrap();
    assert_eq!(r.amount, 2_500_000_000);
    assert_eq!(r.token.bytes, TOKEN_PROGRAM_ID);
}

#[test]
fn native_variant_runs_native_step_first() {
    let cfg = BatchConfig { native_transfer: true, token_transfer: false, token_amount: None, max_stale_retries: 0 };
    let st = begin_row(&cfg, &Ok(row()));
    assert_eq!(st, RowState::Running { step: Step::NativeTransfer, retries: 0 });
    let plan = plan_step(&cfg, &addr(1), &token_program(), &row(), Step::NativeTransfer, [1; 32]).unwrap();
    assert_eq!(plan.instructions[0].data, vec![2, 0, 0, 0, 0x00, 0x65, 0xcd, 0x1d, 0, 0, 0, 0]);
    assert_eq!(advance(&cfg, st, SubmitOutcome::Confirmed), RowState::Succeeded);
    let failed = advance(&cfg, st, SubmitOutcome::RpcFailure);
    assert_eq!(failed, RowState::Failed(RowFailure::Submit(Step::NativeTransfer, SubmitOutcome::RpcFailure)));
}

#[test]
fn token_step_uses_row_amount_when_unset() {
    let cfg = BatchConfig { native_transfer: false, token_transfer: true, token_amount: None, max_stale_retries: 0 };
    let plan = plan_step(&cfg, &addr(1), &token_program(), &row(), Step::TokenTransfer, [1; 32]).unwrap();
    assert_eq!(plan.instructions[0].data, vec![3, 0x00, 0x65, 0xcd, 0x1d, 0, 0, 0, 0]);
    let err = plan_step(&cfg, &addr(1), &addr(9), &row(), Step::TokenTransfer, [1; 32]).unwrap_err();
    assert_eq!(err, BuildError::IncorrectProgramId);
}
