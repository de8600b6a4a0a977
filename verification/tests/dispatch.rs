use solana_rpc_transactions::dispatch::{
    build_transaction, check_transaction_status, plan_batch, ConfirmFailure, DispatchUnit,
    FinalizationOutcome, SubmitFailure, TransactionOutcome, TransferRequest, TransferResult,
    UnitAction, UnitEvent, UnitPhase,
};
use solana_rpc_transactions::report::BatchReport;
use solana_rpc_transactions::transaction::{
    send_sol, Address, BlockReference, BuildError, Signature, SignedTransaction,
};
use solana_rpc_transactions::wallet::{ReceiverAddress, SenderIdentity, WalletSet};
use solana_sdk::signature::Keypair;
use solana_sdk::signer::Signer;

fn address(label: &str) -> Address {
    let mut bytes = [0u8; 32];
    bytes[..label.len()].copy_from_slice(label.as_bytes());
    Address { bytes }
}

fn signature(label: &str) -> Signature {
    let mut bytes = [0u8; 64];
    bytes[..label.len()].copy_from_slice(label.as_bytes());
    Signature { bytes }
}

fn request(sender_index: usize, receiver_index: usize, sender: &str, receiver: &str) -> TransferRequest {
    TransferRequest {
        sender_index,
        receiver_index,
        sender: address(sender),
        receiver: address(receiver),
        amount: 2_000_000,
    }
}

fn some_transaction() -> SignedTransaction {
    let pair = Keypair::new_from_array([11u8; 32]);
    let sender = SenderIdentity {
        signing_key: pair.to_bytes().to_vec(),
        address: Address { bytes: pair.pubkey().to_bytes() },
    };
    let receiver = ReceiverAddress { address: address("anyone") };
    send_sol(&sender, &receiver, 1, &BlockReference { hash: [1u8; 32] }).unwrap()
}

fn wallets_of(senders: usize, receivers: usize) -> WalletSet {
    WalletSet {
        senders: (0..senders)
            .map(|i| {
                let pair = Keypair::new_from_array([i as u8 + 1; 32]);
                SenderIdentity {
                    signing_key: pair.to_bytes().to_vec(),
                    address: Address { bytes: pair.pubkey().to_bytes() },
                }
            })
            .collect(),
        receivers: (0..receivers)
            .map(|j| ReceiverAddress { address: Address { bytes: [200 + j as u8; 32] } })
            .collect(),
    }
}

/// What a scripted ledger answers to one unit: whether the block reference
/// can be fetched, what the submission gives, what the status poll gives, and
/// how long each of the three calls takes.
struct Script {
    block_reference: Result<BlockReference, String>,
    submission: Result<Signature, String>,
    status: Result<FinalizationOutcome, String>,
    fetch_takes: u64,
    submit_takes: u64,
    poll_takes: u64,
}

fn healthy(label: &str) -> Script {
    Script {
        block_reference: Ok(BlockReference { hash: [9u8; 32] }),
        submission: Ok(signature(label)),
        status: Ok(FinalizationOutcome::Succeeded),
        fetch_takes: 0,
        submit_takes: 0,
        poll_takes: 0,
    }
}

/// Drives one unit against a scripted ledger and counts the calls made.
fn drive(unit: &mut DispatchUnit, script: Script, calls: &mut [usize; 3]) -> Option<TransactionOutcome> {
    let mut clock: u64 = 1_000;
    let mut block_reference = Some(script.block_reference);
    let mut submission = Some(script.submission);
    let mut status = Some(script.status);
    let mut action = unit.step(UnitEvent::Started { now: clock });
    loop {
        let event = match action {
            UnitAction::FetchBlockReference => {
                calls[0] += 1;
                clock += script.fetch_takes;
                UnitEvent::BlockReferenceFetched(block_reference.take().unwrap())
            }
            UnitAction::Build { .. } => UnitEvent::Built(Ok(some_transaction())),
            UnitAction::Submit { .. } => {
                calls[1] += 1;
                clock += script.submit_takes;
                UnitEvent::SubmissionReturned { reply: submission.take().unwrap(), now: clock }
            }
            UnitAction::PollFinalization { .. } => {
                calls[2] += 1;
                clock += script.poll_takes;
                UnitEvent::StatusPolled(status.take().unwrap())
            }
            UnitAction::Report { outcome } => return Some(outcome),
            UnitAction::Ignore => return None,
        };
        action = unit.step(event);
    }
}

#[test]
fn plans_one_unit_for_each_pair() {
    let wallets = wallets_of(3, 2);
    let units = plan_batch(&wallets, 2_000_000);
    assert_eq!(units.len(), 6);
    for (k, unit) in units.iter().enumerate() {
        assert_eq!(unit.phase, UnitPhase::Created);
        assert_eq!(unit.request.sender_index, k / 2);
        assert_eq!(unit.request.receiver_index, k % 2);
        assert_eq!(unit.request.sender, wallets.senders[k / 2].address);
        assert_eq!(unit.request.receiver, wallets.receivers[k % 2].address);
        assert_eq!(unit.request.amount, 2_000_000);
    }
}

#[test]
fn plans_nothing_without_senders_or_receivers() {
    assert!(plan_batch(&wallets_of(0, 0), 1).is_empty());
    assert!(plan_batch(&wallets_of(0, 4), 1).is_empty());
    assert!(plan_batch(&wallets_of(4, 0), 1).is_empty());
    let report = BatchReport::new(0, 4).unwrap();
    assert!(report.is_complete());
    assert!(report.outcomes().is_empty());
}

#[test]
fn plans_a_transfer_from_a_sender_to_itself() {
    let mut wallets = wallets_of(1, 1);
    wallets.receivers[0].address = wallets.senders[0].address;
    let units = plan_batch(&wallets, 5);
    assert_eq!(units.len(), 1);
    assert_eq!(units[0].request.sender, units[0].request.receiver);
}

#[test]
fn reports_every_pair_of_a_batch_once() {
    for (senders, receivers) in [(0usize, 0usize), (1, 1), (1, 4), (3, 1), (3, 5)] {
        let wallets = wallets_of(senders, receivers);
        let units = plan_batch(&wallets, 1);
        assert_eq!(units.len(), senders * receivers);
        let mut report = BatchReport::new(senders, receivers).unwrap();
        let mut calls = [0usize; 3];
        for mut unit in units.into_iter().rev() {
            let outcome = drive(&mut unit, healthy("S"), &mut calls).unwrap();
            assert!(report.record(outcome));
        }
        assert!(report.is_complete());
        assert_eq!(report.len(), senders * receivers);
        assert_eq!(calls, [senders * receivers; 3]);
        for i in 0..senders {
            for j in 0..receivers {
                let found = report
                    .outcomes()
                    .iter()
                    .filter(|o| o.request.sender_index == i && o.request.receiver_index == j)
                    .count();
                assert_eq!(found, 1);
            }
        }
    }
}

#[test]
fn walks_through_the_phases_of_an_accepted_transfer() {
    let wanted = request(0, 0, "Sa", "Ra");
    let mut unit = DispatchUnit::new(wanted);
    assert_eq!(unit.phase, UnitPhase::Created);
    assert!(!unit.is_finished());
    assert!(matches!(unit.step(UnitEvent::Started { now: 10 }), UnitAction::FetchBlockReference));
    assert_eq!(unit.phase, UnitPhase::FetchingBlockReference { started_at: 10 });
    let block = BlockReference { hash: [4u8; 32] };
    match unit.step(UnitEvent::BlockReferenceFetched(Ok(block))) {
        UnitAction::Build { block_reference } => assert_eq!(block_reference, block),
        other => panic!("{:?}", other),
    }
    assert_eq!(unit.phase, UnitPhase::Building { started_at: 10 });
    let built = some_transaction();
    let built_signature = built.signature();
    match unit.step(UnitEvent::Built(Ok(built))) {
        UnitAction::Submit { transaction } => assert_eq!(transaction.signature(), built_signature),
        other => panic!("{:?}", other),
    }
    assert_eq!(unit.phase, UnitPhase::Submitting { started_at: 10 });
    match unit.step(UnitEvent::SubmissionReturned { reply: Ok(signature("SIG")), now: 25 }) {
        UnitAction::PollFinalization { signature: polled } => assert_eq!(polled, signature("SIG")),
        other => panic!("{:?}", other),
    }
    assert_eq!(unit.phase, UnitPhase::Confirming { signature: signature("SIG"), elapsed: 15 });
    match unit.step(UnitEvent::StatusPolled(Ok(FinalizationOutcome::Succeeded))) {
        UnitAction::Report { outcome } => assert_eq!(
            outcome,
            TransactionOutcome {
                request: wanted,
                result: TransferResult::Submitted(signature("SIG"), 15)
            }
        ),
        other => panic!("{:?}", other),
    }
    assert!(unit.is_finished());
}

#[test]
fn round_trip_with_a_fixed_signature() {
    let mut wallets = wallets_of(1, 1);
    wallets.senders[0].address = address("Sx");
    wallets.receivers[0].address = address("Ry");
    let mut units = plan_batch(&wallets, 2_000_000);
    assert_eq!(units.len(), 1);
    let mut report = BatchReport::new(1, 1).unwrap();
    let mut calls = [0usize; 3];
    let outcome = drive(&mut units[0], healthy("SIG123"), &mut calls).unwrap();
    assert!(report.record(outcome));
    assert!(report.is_complete());
    assert_eq!(report.outcomes().len(), 1);
    let only = &report.outcomes()[0];
    assert_eq!(only.request.sender, address("Sx"));
    assert_eq!(only.request.receiver, address("Ry"));
    assert!(matches!(only.result, TransferResult::Submitted(found, _) if found == signature("SIG123")));
    assert!(only.result.is_submitted());
}

#[test]
fn refused_submission_fails_without_a_status_poll() {
    let wanted = request(0, 0, "Sa", "Ra");
    let mut unit = DispatchUnit::new(wanted);
    let mut calls = [0usize; 3];
    let script = Script { submission: Err("insufficient funds".to_string()), ..healthy("S") };
    let outcome = drive(&mut unit, script, &mut calls).unwrap();
    assert_eq!(
        outcome,
        TransactionOutcome {
            request: wanted,
            result: TransferResult::SubmitFailed(SubmitFailure::Rejected(
                "insufficient funds".to_string()
            ))
        }
    );
    assert!(!outcome.result.is_submitted());
    assert_eq!(calls, [1, 1, 0]);
    assert!(unit.is_finished());
    assert!(matches!(
        unit.step(UnitEvent::StatusPolled(Ok(FinalizationOutcome::Succeeded))),
        UnitAction::Ignore
    ));
    assert!(matches!(
        unit.step(UnitEvent::SubmissionReturned { reply: Ok(signature("late")), now: 9 }),
        UnitAction::Ignore
    ));
    assert!(unit.is_finished());
}

#[test]
fn finalized_failure_carries_the_signature_of_the_acceptance() {
    let wanted = request(2, 1, "Sa", "Ra");
    let mut unit = DispatchUnit::new(wanted);
    let mut calls = [0usize; 3];
    let script = Script {
        status: Ok(FinalizationOutcome::Failed("custom program error".to_string())),
        ..healthy("SIGNED")
    };
    let outcome = drive(&mut unit, script, &mut calls).unwrap();
    assert_eq!(
        outcome,
        TransactionOutcome {
            request: wanted,
            result: TransferResult::ConfirmFailed(
                signature("SIGNED"),
                ConfirmFailure::Finalized("custom program error".to_string())
            )
        }
    );
    assert_eq!(calls, [1, 1, 1]);
}

#[test]
fn failed_status_check_counts_as_failed_confirmation() {
    let mut unit = DispatchUnit::new(request(0, 0, "Sa", "Ra"));
    let mut calls = [0usize; 3];
    let script = Script { status: Err("connection reset".to_string()), ..healthy("SIGNED") };
    let outcome = drive(&mut unit, script, &mut calls).unwrap();
    assert_eq!(
        outcome.result,
        TransferResult::ConfirmFailed(
            signature("SIGNED"),
            ConfirmFailure::StatusCheck("connection reset".to_string())
        )
    );
}

#[test]
fn pending_status_counts_as_submitted() {
    let mut unit = DispatchUnit::new(request(0, 0, "Sa", "Ra"));
    let mut calls = [0usize; 3];
    let script = Script { status: Ok(FinalizationOutcome::Pending), ..healthy("SIGNED") };
    let outcome = drive(&mut unit, script, &mut calls).unwrap();
    assert_eq!(outcome.result, TransferResult::Submitted(signature("SIGNED"), 0));
    assert_eq!(calls, [1, 1, 1]);
}

#[test]
fn failed_fetch_ends_the_unit_before_any_submission() {
    let mut unit = DispatchUnit::new(request(0, 0, "Sa", "Ra"));
    let mut calls = [0usize; 3];
    let script = Script { block_reference: Err("timed out".to_string()), ..healthy("S") };
    let outcome = drive(&mut unit, script, &mut calls).unwrap();
    assert_eq!(
        outcome.result,
        TransferResult::SubmitFailed(SubmitFailure::BlockReference("timed out".to_string()))
    );
    assert_eq!(calls, [1, 0, 0]);
}

#[test]
fn failed_build_ends_the_unit_before_any_submission() {
    let wanted = request(0, 0, "Sa", "Ra");
    let mut unit = DispatchUnit::new(wanted);
    unit.step(UnitEvent::Started { now: 0 });
    unit.step(UnitEvent::BlockReferenceFetched(Ok(BlockReference { hash: [0u8; 32] })));
    match unit.step(UnitEvent::Built(Err(BuildError::MalformedKey))) {
        UnitAction::Report { outcome } => assert_eq!(
            outcome,
            TransactionOutcome {
                request: wanted,
                result: TransferResult::SubmitFailed(SubmitFailure::Build(BuildError::MalformedKey))
            }
        ),
        other => panic!("{:?}", other),
    }
    assert!(unit.is_finished());
}

#[test]
fn one_failing_sender_leaves_the_others_untouched() {
    let senders = 5usize;
    let failing = 2usize;
    let wallets = wallets_of(senders, 1);
    let units = plan_batch(&wallets, 1);
    let mut report = BatchReport::new(senders, 1).unwrap();
    let mut calls = [0usize; 3];
    for mut unit in units {
        let script = if unit.request.sender_index == failing {
            Script { submission: Err("network unreachable".to_string()), ..healthy("S") }
        } else {
            healthy("S")
        };
        let outcome = drive(&mut unit, script, &mut calls).unwrap();
        assert!(report.record(outcome));
    }
    assert!(report.is_complete());
    let submitted = report.outcomes().iter().filter(|o| o.result.is_submitted()).count();
    let failed: Vec<&TransactionOutcome> = report
        .outcomes()
        .iter()
        .filter(|o| matches!(o.result, TransferResult::SubmitFailed(_)))
        .collect();
    assert_eq!(submitted, senders - 1);
    assert_eq!(failed.len(), 1);
    assert_eq!(failed[0].request.sender_index, failing);
    assert_eq!(calls, [senders, senders, senders - 1]);
}

#[test]
fn outcome_of_a_unit_is_the_same_beside_a_failing_one() {
    let wallets = wallets_of(2, 1);
    let mut calls = [0usize; 3];
    let mut alone = plan_batch(&wallets, 1);
    let first_alone = drive(&mut alone[0], healthy("A"), &mut calls).unwrap();
    let mut beside = plan_batch(&wallets, 1);
    let broken = Script { block_reference: Err("down".to_string()), ..healthy("B") };
    let second = drive(&mut beside[1], broken, &mut calls).unwrap();
    let first_beside = drive(&mut beside[0], healthy("A"), &mut calls).unwrap();
    assert_eq!(first_alone, first_beside);
    assert!(matches!(second.result, TransferResult::SubmitFailed(_)));
}

#[test]
fn elapsed_time_ends_at_the_acceptance() {
    let mut calls = [0usize; 3];
    let mut unit = DispatchUnit::new(request(0, 0, "Sa", "Ra"));
    let script = Script { fetch_takes: 0, submit_takes: 70, poll_takes: 900, ..healthy("S") };
    let outcome = drive(&mut unit, script, &mut calls).unwrap();
    assert_eq!(outcome.result, TransferResult::Submitted(signature("S"), 70));
    let mut slow = DispatchUnit::new(request(0, 0, "Sa", "Ra"));
    let script = Script { fetch_takes: 0, submit_takes: 70, poll_takes: 90_000, ..healthy("S") };
    assert_eq!(
        drive(&mut slow, script, &mut calls).unwrap().result,
        TransferResult::Submitted(signature("S"), 70)
    );
}

#[test]
fn elapsed_time_starts_with_the_unit() {
    let mut calls = [0usize; 3];
    let mut unit = DispatchUnit::new(request(0, 0, "Sa", "Ra"));
    let script = Script { fetch_takes: 5, submit_takes: 2, poll_takes: 900, ..healthy("S") };
    let outcome = drive(&mut unit, script, &mut calls).unwrap();
    assert_eq!(outcome.result, TransferResult::Submitted(signature("S"), 7));
}

#[test]
fn elapsed_time_is_zero_where_the_clock_ran_backwards() {
    let mut unit = DispatchUnit::new(request(0, 0, "Sa", "Ra"));
    unit.step(UnitEvent::Started { now: 50 });
    unit.step(UnitEvent::BlockReferenceFetched(Ok(BlockReference { hash: [0u8; 32] })));
    unit.step(UnitEvent::Built(Ok(some_transaction())));
    unit.step(UnitEvent::SubmissionReturned { reply: Ok(signature("S")), now: 40 });
    assert_eq!(unit.phase, UnitPhase::Confirming { signature: signature("S"), elapsed: 0 });
    let mut late = DispatchUnit::new(request(0, 0, "Sa", "Ra"));
    late.step(UnitEvent::Started { now: 0 });
    late.step(UnitEvent::BlockReferenceFetched(Ok(BlockReference { hash: [0u8; 32] })));
    late.step(UnitEvent::Built(Ok(some_transaction())));
    late.step(UnitEvent::SubmissionReturned { reply: Ok(signature("S")), now: u64::MAX });
    assert_eq!(late.phase, UnitPhase::Confirming { signature: signature("S"), elapsed: u64::MAX });
}

#[test]
fn ignores_an_event_out_of_turn() {
    let mut unit = DispatchUnit::new(request(0, 0, "Sa", "Ra"));
    assert!(matches!(
        unit.step(UnitEvent::StatusPolled(Ok(FinalizationOutcome::Succeeded))),
        UnitAction::Ignore
    ));
    assert!(matches!(unit.step(UnitEvent::Built(Ok(some_transaction()))), UnitAction::Ignore));
    assert_eq!(unit.phase, UnitPhase::Created);
    unit.step(UnitEvent::Started { now: 3 });
    assert!(matches!(unit.step(UnitEvent::Started { now: 4 }), UnitAction::Ignore));
    assert_eq!(unit.phase, UnitPhase::FetchingBlockReference { started_at: 3 });
    assert!(matches!(
        unit.step(UnitEvent::SubmissionReturned { reply: Err("x".to_string()), now: 4 }),
        UnitAction::Ignore
    ));
    assert_eq!(unit.phase, UnitPhase::FetchingBlockReference { started_at: 3 });
}

#[test]
fn reads_the_status_of_a_transaction() {
    assert_eq!(check_transaction_status(Ok(FinalizationOutcome::Pending)), Ok(()));
    assert_eq!(check_transaction_status(Ok(FinalizationOutcome::Succeeded)), Ok(()));
    assert_eq!(
        check_transaction_status(Ok(FinalizationOutcome::Failed("bad".to_string()))),
        Err(ConfirmFailure::Finalized("bad".to_string()))
    );
    assert_eq!(
        check_transaction_status(Err("gone".to_string())),
        Err(ConfirmFailure::StatusCheck("gone".to_string()))
    );
}

#[test]
fn builds_the_transaction_of_a_planned_unit() {
    let wallets = wallets_of(2, 2);
    let units = plan_batch(&wallets, 42);
    let block = BlockReference { hash: [8u8; 32] };
    match build_transaction(&wallets, &units[3].request, &block) {
        UnitEvent::Built(Ok(transaction)) => {
            assert_eq!(transaction.block_reference(), block);
            assert_eq!(transaction.instruction().accounts[0].address, wallets.senders[1].address);
            assert_eq!(transaction.instruction().accounts[1].address, wallets.receivers[1].address);
            assert_eq!(transaction.instruction().data[4], 42);
            let (signature, message) = transaction.into_transaction();
            let outside = solana_sdk::signature::Signature::from(signature.bytes);
            assert!(outside.verify(&wallets.senders[1].address.bytes, &message));
        }
        other => panic!("{:?}", other),
    }
}

#[test]
fn builds_nothing_for_a_wallet_that_the_set_lacks() {
    let wallets = wallets_of(1, 1);
    let block = BlockReference { hash: [8u8; 32] };
    let beyond = request(1, 0, "Sa", "Ra");
    assert!(matches!(
        build_transaction(&wallets, &beyond, &block),
        UnitEvent::Built(Err(BuildError::UnknownWallet))
    ));
    let beyond = request(0, 1, "Sa", "Ra");
    assert!(matches!(
        build_transaction(&wallets, &beyond, &block),
        UnitEvent::Built(Err(BuildError::UnknownWallet))
    ));
}

#[test]
fn builds_nothing_with_a_broken_key() {
    let mut wallets = wallets_of(1, 1);
    wallets.senders[0].signing_key.truncate(63);
    let units = plan_batch(&wallets, 1);
    let block = BlockReference { hash: [8u8; 32] };
    assert!(matches!(
        build_transaction(&wallets, &units[0].request, &block),
        UnitEvent::Built(Err(BuildError::MalformedKey))
    ));
}
