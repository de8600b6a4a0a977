//! The dispatcher: one unit of work for each pair of a sender and a receiver.
//!
//! A unit is a state machine. Whoever drives it performs the action that the
//! unit asks for (a call to the ledger, the building of the transaction) and
//! hands the result back as the next event. Units share nothing, so any
//! number of them can be driven at the same time.

use crate::transaction::{
    send_sol, signed_transfer, Address, BlockReference, BuildError, Signature, SignedTransaction,
    SignedTransactionView,
};
use crate::wallet::WalletSet;
use vstd::prelude::*;

verus! {

/// One transfer of a batch: the places of its sender and receiver in the
/// wallet set, their addresses, and the amount in base units.
#[derive(Clone, Copy, Debug, PartialEq, Eq)]
pub struct TransferRequest {
    pub sender_index: usize,
    pub receiver_index: usize,
    pub sender: Address,
    pub receiver: Address,
    pub amount: u64,
}

/// Why a transfer was not accepted by the ledger.
#[derive(Clone, Debug, PartialEq, Eq)]
pub enum SubmitFailure {
    /// No block reference could be fetched.
    BlockReference(String),
    /// No transaction could be built.
    Build(BuildError),
    /// The ledger did not accept the transaction.
    Rejected(String),
}

/// Why an accepted transfer counts as failed.
#[derive(Clone, Debug, PartialEq, Eq)]
pub enum ConfirmFailure {
    /// The ledger could not be asked for the transaction's status.
    StatusCheck(String),
    /// The ledger finalized the transaction as failed.
    Finalized(String),
}

/// How a transfer ended.
#[derive(Clone, Debug, PartialEq, Eq)]
pub enum TransferResult {
    /// The ledger accepted the transaction under the signature given. The
    /// number is the time from the start of the unit to the acceptance, in
    /// the ticks of the driver's clock.
    Submitted(Signature, u64),
    /// The transfer was not accepted, for the reason given.
    SubmitFailed(SubmitFailure),
    /// The transfer was accepted under the signature given, and failed
    /// afterwards.
    ConfirmFailed(Signature, ConfirmFailure),
}

impl TransferResult {
    /// Whether the ledger accepted the transfer and nothing failed after.
    pub fn is_submitted(&self) -> (yes: bool)
        ensures
            yes == (self is Submitted),
    {
        match self {
            TransferResult::Submitted(_, _) => true,
            _ => false,
        }
    }
}

/// The outcome of one unit: the transfer it stood for and how it ended.
#[derive(Clone, Debug, PartialEq, Eq)]
pub struct TransactionOutcome {
    pub request: TransferRequest,
    pub result: TransferResult,
}

/// What the ledger says of a transaction at one moment.
#[derive(Clone, Debug, PartialEq, Eq)]
pub enum FinalizationOutcome {
    /// The ledger does not know the transaction yet.
    Pending,
    Succeeded,
    Failed(String),
}

/// What a driver hands to a unit.
#[derive(Debug)]
pub enum UnitEvent {
    /// The unit may start; `now` is the driver's clock.
    Started { now: u64 },
    /// The answer to [`UnitAction::FetchBlockReference`].
    BlockReferenceFetched(Result<BlockReference, String>),
    /// The answer to [`UnitAction::Build`].
    Built(Result<SignedTransaction, BuildError>),
    /// The answer to [`UnitAction::Submit`]: the signature of the accepted
    /// transaction or the ledger's refusal, and the driver's clock.
    SubmissionReturned { reply: Result<Signature, String>, now: u64 },
    /// The answer to [`UnitAction::PollFinalization`].
    StatusPolled(Result<FinalizationOutcome, String>),
}

/// What a unit asks of its driver.
#[derive(Debug)]
pub enum UnitAction {
    /// Fetch a fresh block reference from the ledger.
    FetchBlockReference,
    /// Build the unit's transaction with this block reference.
    Build { block_reference: BlockReference },
    /// Submit the transaction and wait until the ledger accepts or refuses it.
    Submit { transaction: SignedTransaction },
    /// Ask the ledger once for the status of the transaction.
    PollFinalization { signature: Signature },
    /// The unit is done: hand the outcome to the batch report.
    Report { outcome: TransactionOutcome },
    /// The event did not answer what the unit had asked; nothing changed.
    Ignore,
}

/// How far a unit has come.
#[derive(Clone, Copy, Debug, PartialEq, Eq)]
pub enum UnitPhase {
    Created,
    FetchingBlockReference { started_at: u64 },
    Building { started_at: u64 },
    Submitting { started_at: u64 },
    Confirming { signature: Signature, elapsed: u64 },
    Finished,
}

/// The unit of work for one transfer.
#[derive(Clone, Copy, Debug, PartialEq, Eq)]
pub struct DispatchUnit {
    pub request: TransferRequest,
    pub phase: UnitPhase,
}

pub ghost enum SubmitFailureView {
    BlockReference(Seq<char>),
    Build(BuildError),
    Rejected(Seq<char>),
}

pub ghost enum ConfirmFailureView {
    StatusCheck(Seq<char>),
    Finalized(Seq<char>),
}

pub ghost enum TransferResultView {
    Submitted(Signature, u64),
    SubmitFailed(SubmitFailureView),
    ConfirmFailed(Signature, ConfirmFailureView),
}

pub ghost struct TransactionOutcomeView {
    pub request: TransferRequest,
    pub result: TransferResultView,
}

pub ghost enum FinalizationOutcomeView {
    Pending,
    Succeeded,
    Failed(Seq<char>),
}

pub ghost enum UnitEventView {
    Started { now: u64 },
    BlockReferenceFetched(Result<BlockReference, Seq<char>>),
    Built(Result<SignedTransactionView, BuildError>),
    SubmissionReturned { reply: Result<Signature, Seq<char>>, now: u64 },
    StatusPolled(Result<FinalizationOutcomeView, Seq<char>>),
}

pub ghost enum UnitActionView {
    FetchBlockReference,
    Build { block_reference: BlockReference },
    Submit { transaction: SignedTransactionView },
    PollFinalization { signature: Signature },
    Report { outcome: TransactionOutcomeView },
    Ignore,
}

impl View for SubmitFailure {
    type V = SubmitFailureView;

    open spec fn view(&self) -> SubmitFailureView {
        match *self {
            SubmitFailure::BlockReference(text) => SubmitFailureView::BlockReference(text@),
            SubmitFailure::Build(e) => SubmitFailureView::Build(e),
            SubmitFailure::Rejected(text) => SubmitFailureView::Rejected(text@),
        }
    }
}

impl View for ConfirmFailure {
    type V = ConfirmFailureView;

    open spec fn view(&self) -> ConfirmFailureView {
        match *self {
            ConfirmFailure::StatusCheck(text) => ConfirmFailureView::StatusCheck(text@),
            ConfirmFailure::Finalized(text) => ConfirmFailureView::Finalized(text@),
        }
    }
}

impl View for TransferResult {
    type V = TransferResultView;

    open spec fn view(&self) -> TransferResultView {
        match *self {
            TransferResult::Submitted(signature, elapsed) => TransferResultView::Submitted(
                signature,
                elapsed,
            ),
            TransferResult::SubmitFailed(reason) => TransferResultView::SubmitFailed(reason@),
            TransferResult::ConfirmFailed(signature, reason) => TransferResultView::ConfirmFailed(
                signature,
                reason@,
            ),
        }
    }
}

impl View for TransactionOutcome {
    type V = TransactionOutcomeView;

    open spec fn view(&self) -> TransactionOutcomeView {
        TransactionOutcomeView { request: self.request, result: self.result@ }
    }
}

impl View for FinalizationOutcome {
    type V = FinalizationOutcomeView;

    open spec fn view(&self) -> FinalizationOutcomeView {
        match *self {
            FinalizationOutcome::Pending => FinalizationOutcomeView::Pending,
            FinalizationOutcome::Succeeded => FinalizationOutcomeView::Succeeded,
            FinalizationOutcome::Failed(text) => FinalizationOutcomeView::Failed(text@),
        }
    }
}

/// The answer of a ledger call with its error as plain text.
pub open spec fn reply_view<T>(reply: Result<T, String>) -> Result<T, Seq<char>> {
    match reply {
        Ok(value) => Ok(value),
        Err(text) => Err(text@),
    }
}

/// The answer of a status poll as plain values.
pub open spec fn status_view(reply: Result<FinalizationOutcome, String>) -> Result<
    FinalizationOutcomeView,
    Seq<char>,
> {
    match reply {
        Ok(outcome) => Ok(outcome@),
        Err(text) => Err(text@),
    }
}

/// The result of a build as plain values.
pub open spec fn built_view(result: Result<SignedTransaction, BuildError>) -> Result<
    SignedTransactionView,
    BuildError,
> {
    match result {
        Ok(transaction) => Ok(transaction@),
        Err(e) => Err(e),
    }
}

impl View for UnitEvent {
    type V = UnitEventView;

    open spec fn view(&self) -> UnitEventView {
        match *self {
            UnitEvent::Started { now } => UnitEventView::Started { now },
            UnitEvent::BlockReferenceFetched(reply) => UnitEventView::BlockReferenceFetched(
                reply_view(reply),
            ),
            UnitEvent::Built(result) => UnitEventView::Built(built_view(result)),
            UnitEvent::SubmissionReturned { reply, now } => UnitEventView::SubmissionReturned {
                reply: reply_view(reply),
                now,
            },
            UnitEvent::StatusPolled(reply) => UnitEventView::StatusPolled(status_view(reply)),
        }
    }
}

impl View for UnitAction {
    type V = UnitActionView;

    open spec fn view(&self) -> UnitActionView {
        match *self {
            UnitAction::FetchBlockReference => UnitActionView::FetchBlockReference,
            UnitAction::Build { block_reference } => UnitActionView::Build { block_reference },
            UnitAction::Submit { transaction } => UnitActionView::Submit {
                transaction: transaction@,
            },
            UnitAction::PollFinalization { signature } => UnitActionView::PollFinalization {
                signature,
            },
            UnitAction::Report { outcome } => UnitActionView::Report { outcome: outcome@ },
            UnitAction::Ignore => UnitActionView::Ignore,
        }
    }
}

/// The time from `started_at` to `now`, and zero where the clock ran
/// backwards.
pub open spec fn elapsed_between(started_at: u64, now: u64) -> u64 {
    if now >= started_at {
        (now - started_at) as u64
    } else {
        0
    }
}

/// What a status poll means for an accepted transaction: nothing where the
/// ledger does not know it yet or finalized it with success, else the
/// failure.
pub open spec fn confirmation(reply: Result<FinalizationOutcomeView, Seq<char>>) -> Option<
    ConfirmFailureView,
> {
    match reply {
        Ok(FinalizationOutcomeView::Pending) => None,
        Ok(FinalizationOutcomeView::Succeeded) => None,
        Ok(FinalizationOutcomeView::Failed(reason)) => Some(ConfirmFailureView::Finalized(reason)),
        Err(reason) => Some(ConfirmFailureView::StatusCheck(reason)),
    }
}

/// The report of the result `result` for the transfer `request`.
pub open spec fn report(request: TransferRequest, result: TransferResultView) -> UnitActionView {
    UnitActionView::Report { outcome: TransactionOutcomeView { request, result } }
}

/// One step of a unit: the unit after the event, and what it asks of its
/// driver.
///
/// A unit starts, fetches a block reference, has its transaction built, has
/// it submitted, and polls the status once. It ends with a report: after the
/// first failure, or after the poll. An event that does not answer what the
/// unit asked for is ignored, and so is every event after the report.
pub open spec fn unit_step(unit: DispatchUnit, event: UnitEventView) -> (
    DispatchUnit,
    UnitActionView,
) {
    let request = unit.request;
    let finished = DispatchUnit { request, phase: UnitPhase::Finished };
    match (unit.phase, event) {
        (UnitPhase::Created, UnitEventView::Started { now }) => (
            DispatchUnit { request, phase: UnitPhase::FetchingBlockReference { started_at: now } },
            UnitActionView::FetchBlockReference,
        ),
        (
            UnitPhase::FetchingBlockReference { started_at },
            UnitEventView::BlockReferenceFetched(reply),
        ) => match reply {
            Ok(block_reference) => (
                DispatchUnit { request, phase: UnitPhase::Building { started_at } },
                UnitActionView::Build { block_reference },
            ),
            Err(reason) => (
                finished,
                report(
                    request,
                    TransferResultView::SubmitFailed(SubmitFailureView::BlockReference(reason)),
                ),
            ),
        },
        (UnitPhase::Building { started_at }, UnitEventView::Built(result)) => match result {
            Ok(transaction) => (
                DispatchUnit { request, phase: UnitPhase::Submitting { started_at } },
                UnitActionView::Submit { transaction },
            ),
            Err(e) => (
                finished,
                report(request, TransferResultView::SubmitFailed(SubmitFailureView::Build(e))),
            ),
        },
        (
            UnitPhase::Submitting { started_at },
            UnitEventView::SubmissionReturned { reply, now },
        ) => match reply {
            Ok(signature) => (
                DispatchUnit {
                    request,
                    phase: UnitPhase::Confirming {
                        signature,
                        elapsed: elapsed_between(started_at, now),
                    },
                },
                UnitActionView::PollFinalization { signature },
            ),
            Err(reason) => (
                finished,
                report(
                    request,
                    TransferResultView::SubmitFailed(SubmitFailureView::Rejected(reason)),
                ),
            ),
        },
        (
            UnitPhase::Confirming { signature, elapsed },
            UnitEventView::StatusPolled(reply),
        ) => match confirmation(reply) {
            None => (finished, report(request, TransferResultView::Submitted(signature, elapsed))),
            Some(reason) => (
                finished,
                report(request, TransferResultView::ConfirmFailed(signature, reason)),
            ),
        },
        _ => (unit, UnitActionView::Ignore),
    }
}

/// Reads the answer of a status poll for an accepted transaction. A
/// transaction that the ledger does not know yet counts as well as one that
/// it finalized with success: the poll is made once and not waited on.
pub fn check_transaction_status(reply: Result<FinalizationOutcome, String>) -> (result: Result<
    (),
    ConfirmFailure,
>)
    ensures
        match result {
            Ok(_) => confirmation(status_view(reply)) is None,
            Err(failure) => confirmation(status_view(reply)) == Some(failure@),
        },
{
    match reply {
        Ok(FinalizationOutcome::Pending) => Ok(()),
        Ok(FinalizationOutcome::Succeeded) => Ok(()),
        Ok(FinalizationOutcome::Failed(reason)) => Err(ConfirmFailure::Finalized(reason)),
        Err(reason) => Err(ConfirmFailure::StatusCheck(reason)),
    }
}

impl DispatchUnit {
    /// A unit for `request` that has not started.
    pub fn new(request: TransferRequest) -> (unit: DispatchUnit)
        ensures
            unit == (DispatchUnit { request, phase: UnitPhase::Created }),
    {
        DispatchUnit { request, phase: UnitPhase::Created }
    }

    /// Whether the unit has reported its outcome.
    pub fn is_finished(&self) -> (done: bool)
        ensures
            done == (self.phase == UnitPhase::Finished),
    {
        match self.phase {
            UnitPhase::Finished => true,
            _ => false,
        }
    }

    /// The unit's result as a report for its driver, after which the unit is
    /// finished.
    fn finish(&mut self, result: TransferResult) -> (action: UnitAction)
        ensures
            *final(self) == (DispatchUnit { request: old(self).request, phase: UnitPhase::Finished }),
            action@ == report(old(self).request, result@),
    {
        self.phase = UnitPhase::Finished;
        UnitAction::Report { outcome: TransactionOutcome { request: self.request, result } }
    }

    /// Takes the unit one step on: see [`unit_step`].
    pub fn step(&mut self, event: UnitEvent) -> (action: UnitAction)
        ensures
            (*final(self), action@) == unit_step(*old(self), event@),
    {
        let phase = self.phase;
        match event {
            UnitEvent::Started { now } => match phase {
                UnitPhase::Created => {
                    self.phase = UnitPhase::FetchingBlockReference { started_at: now };
                    UnitAction::FetchBlockReference
                },
                _ => UnitAction::Ignore,
            },
            UnitEvent::BlockReferenceFetched(reply) => match phase {
                UnitPhase::FetchingBlockReference { started_at } => match reply {
                    Ok(block_reference) => {
                        self.phase = UnitPhase::Building { started_at };
                        UnitAction::Build { block_reference }
                    },
                    Err(reason) => self.finish(
                        TransferResult::SubmitFailed(SubmitFailure::BlockReference(reason)),
                    ),
                },
                _ => UnitAction::Ignore,
            },
            UnitEvent::Built(result) => match phase {
                UnitPhase::Building { started_at } => match result {
                    Ok(transaction) => {
                        self.phase = UnitPhase::Submitting { started_at };
                        UnitAction::Submit { transaction }
                    },
                    Err(e) => self.finish(TransferResult::SubmitFailed(SubmitFailure::Build(e))),
                },
                _ => UnitAction::Ignore,
            },
            UnitEvent::SubmissionReturned { reply, now } => match phase {
                UnitPhase::Submitting { started_at } => match reply {
                    Ok(signature) => {
                        let elapsed: u64 = if now >= started_at {
                            now - started_at
                        } else {
                            0
                        };
                        self.phase = UnitPhase::Confirming { signature, elapsed };
                        UnitAction::PollFinalization { signature }
                    },
                    Err(reason) => self.finish(
                        TransferResult::SubmitFailed(SubmitFailure::Rejected(reason)),
                    ),
                },
                _ => UnitAction::Ignore,
            },
            UnitEvent::StatusPolled(reply) => match phase {
                UnitPhase::Confirming { signature, elapsed } => match check_transaction_status(
                    reply,
                ) {
                    Ok(_) => self.finish(TransferResult::Submitted(signature, elapsed)),
                    Err(reason) => self.finish(TransferResult::ConfirmFailed(signature, reason)),
                },
                _ => UnitAction::Ignore,
            },
        }
    }
}

/// The unit at place `k` of the plan for `wallets`: the units of the first
/// sender come first, one for each receiver in order, then those of the
/// second sender, and so on.
pub open spec fn planned_unit(wallets: WalletSet, amount: u64, k: int) -> DispatchUnit {
    let receivers = wallets.receivers@.len() as int;
    DispatchUnit {
        request: TransferRequest {
            sender_index: (k / receivers) as usize,
            receiver_index: (k % receivers) as usize,
            sender: wallets.senders@[k / receivers].address,
            receiver: wallets.receivers@[k % receivers].address,
            amount,
        },
        phase: UnitPhase::Created,
    }
}

/// The plan of a batch: one unit for each pair of a sender and a receiver.
pub open spec fn planned(wallets: WalletSet, amount: u64) -> Seq<DispatchUnit> {
    Seq::new(
        (wallets.senders@.len() * wallets.receivers@.len()) as nat,
        |k: int| planned_unit(wallets, amount, k),
    )
}

/// Plans a batch: one unit, not yet started, for every pair of a sender and a
/// receiver of `wallets`, each for a transfer of `amount` base units. With no
/// sender or no receiver the plan is empty. A sender that is also a receiver
/// gets a unit for the transfer to itself like any other.
pub fn plan_batch(wallets: &WalletSet, amount: u64) -> (units: Vec<DispatchUnit>)
    ensures
        units@ == planned(*wallets, amount),
        units@.len() == wallets.senders@.len() * wallets.receivers@.len(),
{
    let senders = wallets.senders.len();
    let receivers = wallets.receivers.len();
    let mut units: Vec<DispatchUnit> = Vec::new();
    let mut i: usize = 0;
    while i < senders
        invariant
            i <= senders,
            senders == wallets.senders@.len(),
            receivers == wallets.receivers@.len(),
            units@.len() == i * receivers,
            forall|k: int| 0 <= k < units@.len() ==> units@[k] == planned_unit(*wallets, amount, k),
        decreases senders - i,
    {
        let mut j: usize = 0;
        while j < receivers
            invariant
                i < senders,
                j <= receivers,
                senders == wallets.senders@.len(),
                receivers == wallets.receivers@.len(),
                units@.len() == i * receivers + j,
                forall|k: int|
                    0 <= k < units@.len() ==> units@[k] == planned_unit(*wallets, amount, k),
            decreases receivers - j,
        {
            proof {
                vstd::arithmetic::div_mod::lemma_fundamental_div_mod_converse(
                    i * receivers + j,
                    receivers as int,
                    i as int,
                    j as int,
                );
            }
            units.push(
                DispatchUnit::new(
                    TransferRequest {
                        sender_index: i,
                        receiver_index: j,
                        sender: wallets.senders[i].address,
                        receiver: wallets.receivers[j].address,
                        amount,
                    },
                ),
            );
            j = j + 1;
        }
        assert((i + 1) * receivers == i * receivers + receivers) by (nonlinear_arith);
        i = i + 1;
    }
    assert(units@ =~= planned(*wallets, amount));
    units
}

/// What the building of the transaction of `request` gives with the keys and
/// addresses of `wallets`.
pub open spec fn built_for(
    wallets: WalletSet,
    request: TransferRequest,
    block_reference: BlockReference,
) -> Result<SignedTransactionView, BuildError> {
    if request.sender_index < wallets.senders@.len() && request.receiver_index
        < wallets.receivers@.len() {
        signed_transfer(
            wallets.senders@[request.sender_index as int].signing_key@,
            wallets.senders@[request.sender_index as int].address@,
            wallets.receivers@[request.receiver_index as int].address@,
            request.amount,
            block_reference@,
        )
    } else {
        Err(BuildError::UnknownWallet)
    }
}

/// Performs [`UnitAction::Build`] for the unit of `request`: builds and signs
/// the transfer with the sender and the receiver that the request names in
/// `wallets`, and gives the event that answers the action.
pub fn build_transaction(
    wallets: &WalletSet,
    request: &TransferRequest,
    block_reference: &BlockReference,
) -> (event: UnitEvent)
    ensures
        event@ == UnitEventView::Built(built_for(*wallets, *request, *block_reference)),
{
    if request.sender_index < wallets.senders.len() && request.receiver_index
        < wallets.receivers.len() {
        let result = send_sol(
            &wallets.senders[request.sender_index],
            &wallets.receivers[request.receiver_index],
            request.amount,
            block_reference,
        );
        UnitEvent::Built(result)
    } else {
        UnitEvent::Built(Err(BuildError::UnknownWallet))
    }
}

/// What a unit asks of its driver, step by step, as it is handed `events` in
/// order.
pub open spec fn run(unit: DispatchUnit, events: Seq<UnitEventView>) -> Seq<UnitActionView>
    decreases events.len(),
{
    if events.len() == 0 {
        Seq::empty()
    } else {
        let (next, action) = unit_step(unit, events[0]);
        seq![action] + run(next, events.drop_first())
    }
}

/// What the units of a batch ask of their drivers, where unit `k` is handed
/// the events `scripts[k]`.
pub open spec fn run_batch(units: Seq<DispatchUnit>, scripts: Seq<Seq<UnitEventView>>) -> Seq<
    Seq<UnitActionView>,
> {
    Seq::new(units.len(), |k: int| run(units[k], scripts[k]))
}

/// A run has as many actions as events.
pub proof fn lemma_run_len(unit: DispatchUnit, events: Seq<UnitEventView>)
    ensures
        run(unit, events).len() == events.len(),
    decreases events.len(),
{
    if events.len() > 0 {
        lemma_run_len(unit_step(unit, events[0]).0, events.drop_first());
    }
}

/// A unit that has reported ignores whatever it is handed.
pub proof fn lemma_finished_unit_ignores(unit: DispatchUnit, events: Seq<UnitEventView>)
    requires
        unit.phase == UnitPhase::Finished,
    ensures
        run(unit, events).len() == events.len(),
        forall|k: int| 0 <= k < events.len() ==> run(unit, events)[k] == UnitActionView::Ignore,
    decreases events.len(),
{
    if events.len() > 0 {
        let rest = events.drop_first();
        lemma_finished_unit_ignores(unit, rest);
        assert forall|k: int| 0 <= k < events.len() implies run(unit, events)[k]
            == UnitActionView::Ignore by {
            if k > 0 {
                assert(run(unit, events)[k] == run(unit, rest)[k - 1]);
            }
        }
    }
}

/// A unit whose submission the ledger refuses reports that the submission
/// failed, with the ledger's reason, and never asks for a status poll:
/// whatever it is handed afterwards, it ignores.
pub proof fn refused_submission_is_never_polled(
    unit: DispatchUnit,
    events: Seq<UnitEventView>,
    reason: Seq<char>,
    now: u64,
)
    requires
        unit.phase is Submitting,
        events.len() > 0,
        events[0] == (UnitEventView::SubmissionReturned { reply: Err(reason), now }),
    ensures
        run(unit, events).len() == events.len(),
        run(unit, events)[0] == report(
            unit.request,
            TransferResultView::SubmitFailed(SubmitFailureView::Rejected(reason)),
        ),
        forall|k: int| 0 <= k < events.len() ==> !(run(unit, events)[k] is PollFinalization),
{
    let next = unit_step(unit, events[0]).0;
    let rest = events.drop_first();
    lemma_finished_unit_ignores(next, rest);
    assert forall|k: int| 0 <= k < events.len() implies !(run(unit, events)[k]
        is PollFinalization) by {
        if k > 0 {
            assert(run(unit, events)[k] == run(next, rest)[k - 1]);
        }
    }
}

/// A unit whose transaction the ledger accepts and then finalizes as failed
/// reports that the confirmation failed, under the signature that the
/// acceptance gave.
pub proof fn finalized_failure_keeps_signature(
    unit: DispatchUnit,
    signature: Signature,
    now: u64,
    reason: Seq<char>,
)
    requires
        unit.phase is Submitting,
    ensures
        run(
            unit,
            seq![
                UnitEventView::SubmissionReturned { reply: Ok(signature), now },
                UnitEventView::StatusPolled(Ok(FinalizationOutcomeView::Failed(reason))),
            ],
        ) == seq![
            UnitActionView::PollFinalization { signature },
            report(
                unit.request,
                TransferResultView::ConfirmFailed(signature, ConfirmFailureView::Finalized(reason)),
            ),
        ],
{
    let first = UnitEventView::SubmissionReturned { reply: Ok(signature), now };
    let second = UnitEventView::StatusPolled(Ok(FinalizationOutcomeView::Failed(reason)));
    let events = seq![first, second];
    let next = unit_step(unit, first).0;
    assert(events.drop_first() =~= seq![second]);
    assert(seq![second].drop_first() =~= Seq::<UnitEventView>::empty());
    reveal_with_fuel(run, 3);
    assert(run(unit, events) =~= seq![
        UnitActionView::PollFinalization { signature },
        report(
            unit.request,
            TransferResultView::ConfirmFailed(signature, ConfirmFailureView::Finalized(reason)),
        ),
    ]);
}

/// What one unit asks and reports depends on nothing but its own events: two
/// batches that hand unit `k` the same events see the same of it, whatever
/// the other units are handed.
pub proof fn units_are_isolated(
    units: Seq<DispatchUnit>,
    scripts: Seq<Seq<UnitEventView>>,
    others: Seq<Seq<UnitEventView>>,
    k: int,
)
    requires
        0 <= k < units.len(),
        scripts[k] == others[k],
    ensures
        run_batch(units, scripts)[k] == run_batch(units, others)[k],
{
}

/// The events of a unit that starts at `started_at`, gets its block
/// reference and its transaction, is accepted at `accepted_at` under
/// `signature`, and polls `status`.
pub open spec fn accepted_script(
    started_at: u64,
    block_reference: BlockReference,
    transaction: SignedTransactionView,
    signature: Signature,
    accepted_at: u64,
    status: Result<FinalizationOutcomeView, Seq<char>>,
) -> Seq<UnitEventView> {
    seq![
        UnitEventView::Started { now: started_at },
        UnitEventView::BlockReferenceFetched(Ok(block_reference)),
        UnitEventView::Built(Ok(transaction)),
        UnitEventView::SubmissionReturned { reply: Ok(signature), now: accepted_at },
        UnitEventView::StatusPolled(status),
    ]
}

/// The time that a unit reports runs from its start to the acceptance of its
/// transaction: the status poll, which comes after, adds nothing to it.
pub proof fn elapsed_ends_at_acceptance(
    unit: DispatchUnit,
    started_at: u64,
    block_reference: BlockReference,
    transaction: SignedTransactionView,
    signature: Signature,
    accepted_at: u64,
    status: Result<FinalizationOutcomeView, Seq<char>>,
)
    requires
        unit.phase == UnitPhase::Created,
        confirmation(status) is None,
    ensures
        run(
            unit,
            accepted_script(
                started_at,
                block_reference,
                transaction,
                signature,
                accepted_at,
                status,
            ),
        )[4] == report(
            unit.request,
            TransferResultView::Submitted(signature, elapsed_between(started_at, accepted_at)),
        ),
{
    let events = accepted_script(
        started_at,
        block_reference,
        transaction,
        signature,
        accepted_at,
        status,
    );
    let e1 = events.drop_first();
    let e2 = e1.drop_first();
    let e3 = e2.drop_first();
    let e4 = e3.drop_first();
    let u1 = unit_step(unit, events[0]).0;
    let u2 = unit_step(u1, e1[0]).0;
    let u3 = unit_step(u2, e2[0]).0;
    let u4 = unit_step(u3, e3[0]).0;
    lemma_run_len(u1, e1);
    lemma_run_len(u2, e2);
    lemma_run_len(u3, e3);
    lemma_run_len(u4, e4);
    assert(run(unit, events)[4] == run(u1, e1)[3]);
    assert(run(u1, e1)[3] == run(u2, e2)[2]);
    assert(run(u2, e2)[2] == run(u3, e3)[1]);
    assert(run(u3, e3)[1] == run(u4, e4)[0]);
}

/// Where the block reference arrives at the moment the unit starts, at
/// `fetched_at`, the time that the unit reports is the time from the arrival
/// of the block reference to the acceptance of the transaction.
pub proof fn elapsed_is_submission_time(
    unit: DispatchUnit,
    fetched_at: u64,
    block_reference: BlockReference,
    transaction: SignedTransactionView,
    signature: Signature,
    accepted_at: u64,
    status: Result<FinalizationOutcomeView, Seq<char>>,
)
    requires
        unit.phase == UnitPhase::Created,
        fetched_at <= accepted_at,
        confirmation(status) is None,
    ensures
        run(
            unit,
            accepted_script(
                fetched_at,
                block_reference,
                transaction,
                signature,
                accepted_at,
                status,
            ),
        )[4] == report(
            unit.request,
            TransferResultView::Submitted(signature, (accepted_at - fetched_at) as u64),
        ),
{
    elapsed_ends_at_acceptance(
        unit,
        fetched_at,
        block_reference,
        transaction,
        signature,
        accepted_at,
        status,
    );
}

/// How far a phase is along the way of a unit.
pub open spec fn rank(phase: UnitPhase) -> int {
    match phase {
        UnitPhase::Created => 0,
        UnitPhase::FetchingBlockReference { .. } => 1,
        UnitPhase::Building { .. } => 2,
        UnitPhase::Submitting { .. } => 3,
        UnitPhase::Confirming { .. } => 4,
        UnitPhase::Finished => 5,
    }
}

/// The kind of an action: the four things that a unit asks for in turn, its
/// report, and the answer to an event that it ignores.
pub open spec fn kind(action: UnitActionView) -> int {
    match action {
        UnitActionView::FetchBlockReference => 0,
        UnitActionView::Build { .. } => 1,
        UnitActionView::Submit { .. } => 2,
        UnitActionView::PollFinalization { .. } => 3,
        UnitActionView::Report { .. } => 4,
        UnitActionView::Ignore => 5,
    }
}

/// Whatever a unit asks for lies at or beyond the place that it has reached.
proof fn lemma_actions_lie_ahead(unit: DispatchUnit, events: Seq<UnitEventView>, k: int)
    requires
        0 <= k < events.len(),
        kind(run(unit, events)[k]) != 5,
    ensures
        kind(run(unit, events)[k]) >= rank(unit.phase),
    decreases events.len(),
{
    let next = unit_step(unit, events[0]).0;
    let rest = events.drop_first();
    lemma_run_len(next, rest);
    if k > 0 {
        assert(run(unit, events)[k] == run(next, rest)[k - 1]);
        lemma_actions_lie_ahead(next, rest, k - 1);
    }
}

/// A unit asks for each thing at most once: it fetches one block reference,
/// has one transaction built, submits it once, polls the status once, and
/// reports once. Two steps of a run give the same kind of action only where
/// the unit ignored both events.
pub proof fn unit_asks_once(unit: DispatchUnit, events: Seq<UnitEventView>, a: int, b: int)
    requires
        0 <= a < b < events.len(),
        kind(run(unit, events)[a]) == kind(run(unit, events)[b]),
    ensures
        run(unit, events)[a] == UnitActionView::Ignore,
        run(unit, events)[b] == UnitActionView::Ignore,
    decreases events.len(),
{
    let next = unit_step(unit, events[0]).0;
    let rest = events.drop_first();
    lemma_run_len(unit, events);
    lemma_run_len(next, rest);
    assert(run(unit, events)[b] == run(next, rest)[b - 1]);
    if a == 0 {
        if kind(run(unit, events)[0]) != 5 {
            lemma_actions_lie_ahead(next, rest, b - 1);
        }
    } else {
        assert(run(unit, events)[a] == run(next, rest)[a - 1]);
        unit_asks_once(next, rest, a - 1, b - 1);
    }
}

/// The outcome that a unit reports as it is handed `events` in order, if it
/// comes to report.
pub open spec fn reported_by(unit: DispatchUnit, events: Seq<UnitEventView>) -> Option<
    TransactionOutcomeView,
>
    decreases events.len(),
{
    if events.len() == 0 {
        None
    } else {
        let (next, action) = unit_step(unit, events[0]);
        match action {
            UnitActionView::Report { outcome } => Some(outcome),
            _ => reported_by(next, events.drop_first()),
        }
    }
}

/// The outcome that a unit reports is that of its own transfer.
pub proof fn unit_reports_its_own_transfer(unit: DispatchUnit, events: Seq<UnitEventView>)
    ensures
        reported_by(unit, events) matches Some(outcome) ==> outcome.request == unit.request,
    decreases events.len(),
{
    if events.len() > 0 {
        unit_reports_its_own_transfer(unit_step(unit, events[0]).0, events.drop_first());
    }
}

} // verus!
