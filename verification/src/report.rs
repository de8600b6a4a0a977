//! The batch report: the outcomes of the units of a batch, gathered in the
//! order in which they arrive.

use crate::dispatch::{
    planned, reported_by, unit_reports_its_own_transfer, TransactionOutcome,
    TransactionOutcomeView, TransferRequest, UnitEventView,
};
use crate::wallet::WalletSet;
use vstd::prelude::*;

verus! {

/// Whether `request` names a pair of a batch of `senders` senders and
/// `receivers` receivers.
pub open spec fn fits(request: TransferRequest, senders: nat, receivers: nat) -> bool {
    request.sender_index < senders && request.receiver_index < receivers
}

/// Whether two requests stand for the same pair of a sender and a receiver.
pub open spec fn same_pair(a: TransferRequest, b: TransferRequest) -> bool {
    a.sender_index == b.sender_index && a.receiver_index == b.receiver_index
}

/// A batch report as plain values.
pub ghost struct BatchReportView {
    pub senders: nat,
    pub receivers: nat,
    pub outcomes: Seq<TransactionOutcomeView>,
}

impl BatchReportView {
    /// Every outcome belongs to a pair of the batch, and no pair has two.
    pub open spec fn well_formed(self) -> bool {
        &&& forall|k: int|
            0 <= k < self.outcomes.len() ==> fits(
                (#[trigger] self.outcomes[k]).request,
                self.senders,
                self.receivers,
            )
        &&& forall|a: int, b: int|
            0 <= a < b < self.outcomes.len() ==> !same_pair(
                (#[trigger] self.outcomes[a]).request,
                (#[trigger] self.outcomes[b]).request,
            )
    }

    /// Whether some outcome stands for the pair of `request`.
    pub open spec fn holds_pair(self, request: TransferRequest) -> bool {
        exists|k: int|
            0 <= k < self.outcomes.len() && same_pair(
                (#[trigger] self.outcomes[k]).request,
                request,
            )
    }

    /// Whether every unit of the batch has reported.
    pub open spec fn is_complete(self) -> bool {
        self.outcomes.len() == self.senders * self.receivers
    }
}

/// The empty report of a batch of `senders` senders and `receivers`
/// receivers.
pub open spec fn empty_report(senders: nat, receivers: nat) -> BatchReportView {
    BatchReportView { senders, receivers, outcomes: Seq::empty() }
}

/// The report after it was offered `outcome`: the outcome stands at the end
/// where it is of a pair of the batch that had none; else nothing changed.
pub open spec fn recorded(report: BatchReportView, outcome: TransactionOutcomeView) -> BatchReportView {
    if fits(outcome.request, report.senders, report.receivers) && !report.holds_pair(
        outcome.request,
    ) {
        BatchReportView { outcomes: report.outcomes.push(outcome), ..report }
    } else {
        report
    }
}

/// The report after it was offered `arrivals`, one after the other.
pub open spec fn gathered(report: BatchReportView, arrivals: Seq<TransactionOutcomeView>) -> BatchReportView
    decreases arrivals.len(),
{
    if arrivals.len() == 0 {
        report
    } else {
        recorded(gathered(report, arrivals.drop_last()), arrivals.last())
    }
}

/// The outcomes of `outcomes` as plain values.
pub open spec fn outcome_views(outcomes: Seq<TransactionOutcome>) -> Seq<TransactionOutcomeView> {
    Seq::new(outcomes.len(), |k: int| outcomes[k]@)
}

/// The outcomes of a batch. It takes one outcome for each pair of a sender
/// and a receiver, in any order, and is complete when it has them all.
#[derive(Debug)]
pub struct BatchReport {
    senders: usize,
    receivers: usize,
    outcomes: Vec<TransactionOutcome>,
    /// For each pair, whether it has reported: pair `(i, j)` stands at place
    /// `i * receivers + j`.
    reported: Vec<bool>,
}

impl View for BatchReport {
    type V = BatchReportView;

    closed spec fn view(&self) -> BatchReportView {
        BatchReportView {
            senders: self.senders as nat,
            receivers: self.receivers as nat,
            outcomes: Seq::new(self.outcomes@.len(), |k: int| self.outcomes@[k]@),
        }
    }
}

/// The place of a pair in the table of pairs that have reported.
spec fn cell(request: TransferRequest, receivers: int) -> int {
    request.sender_index * receivers + request.receiver_index
}

proof fn lemma_cell_bounds(request: TransferRequest, senders: nat, receivers: nat)
    requires
        fits(request, senders, receivers),
    ensures
        0 <= cell(request, receivers as int) < senders * receivers,
{
    let i = request.sender_index as int;
    let j = request.receiver_index as int;
    let s = senders as int;
    let r = receivers as int;
    assert(0 <= i * r + j < s * r) by (nonlinear_arith)
        requires
            0 <= i < s,
            0 <= j < r,
    ;
}

proof fn lemma_cell_injective(a: TransferRequest, b: TransferRequest, receivers: int)
    requires
        a.receiver_index < receivers,
        b.receiver_index < receivers,
        cell(a, receivers) == cell(b, receivers),
    ensures
        same_pair(a, b),
{
    vstd::arithmetic::div_mod::lemma_fundamental_div_mod_converse(
        cell(a, receivers),
        receivers,
        a.sender_index as int,
        a.receiver_index as int,
    );
    vstd::arithmetic::div_mod::lemma_fundamental_div_mod_converse(
        cell(b, receivers),
        receivers,
        b.sender_index as int,
        b.receiver_index as int,
    );
}

impl BatchReport {
    /// What holds of every report: its view is well formed, and the table of
    /// pairs says of each pair whether an outcome stands for it.
    pub closed spec fn wf(&self) -> bool {
        &&& self@.well_formed()
        &&& self.reported@.len() == self.senders * self.receivers
        &&& forall|c: int|
            0 <= c < self.reported@.len() ==> (#[trigger] self.reported@[c] <==> exists|k: int|
                0 <= k < self.outcomes@.len() && cell(
                    (#[trigger] self.outcomes@[k]).request,
                    self.receivers as int,
                ) == c)
    }

    /// Every report that the library hands out is well formed in its view.
    pub proof fn lemma_view_is_well_formed(&self)
        requires
            self.wf(),
        ensures
            self@.well_formed(),
    {
    }

    /// An empty report for a batch of `senders` senders and `receivers`
    /// receivers, or `None` where the number of their pairs is beyond what
    /// the machine can count.
    pub fn new(senders: usize, receivers: usize) -> (result: Option<BatchReport>)
        ensures
            result is Some <==> senders * receivers <= usize::MAX,
            result matches Some(report) ==> {
                &&& report.wf()
                &&& report@ == (BatchReportView {
                    senders: senders as nat,
                    receivers: receivers as nat,
                    outcomes: Seq::empty(),
                })
            },
    {
        let total: usize = match senders.checked_mul(receivers) {
            Some(total) => total,
            None => {
                return None;
            },
        };
        let mut reported: Vec<bool> = Vec::new();
        let mut c: usize = 0;
        while c < total
            invariant
                c <= total,
                reported@.len() == c,
                forall|k: int| 0 <= k < c ==> !reported@[k],
            decreases total - c,
        {
            reported.push(false);
            c = c + 1;
        }
        let report = BatchReport { senders, receivers, outcomes: Vec::new(), reported };
        assert(report@.outcomes =~= Seq::empty());
        Some(report)
    }

    /// The number of outcomes that the report holds.
    pub fn len(&self) -> (n: usize)
        ensures
            n == self@.outcomes.len(),
    {
        self.outcomes.len()
    }

    /// The number of outcomes of the complete report: one for each pair.
    pub fn expected(&self) -> (n: usize)
        requires
            self.wf(),
        ensures
            n == self@.senders * self@.receivers,
    {
        self.reported.len()
    }

    /// Whether every unit of the batch has reported.
    pub fn is_complete(&self) -> (done: bool)
        requires
            self.wf(),
        ensures
            done == self@.is_complete(),
    {
        self.outcomes.len() == self.reported.len()
    }

    /// The outcomes, in the order in which they arrived.
    pub fn outcomes(&self) -> (outcomes: &Vec<TransactionOutcome>)
        ensures
            outcomes@.len() == self@.outcomes.len(),
            forall|k: int| 0 <= k < outcomes@.len() ==> (#[trigger] outcomes@[k])@ == self@.outcomes[k],
    {
        &self.outcomes
    }

    /// Takes the outcome of one unit.
    ///
    /// The outcome is added at the end, and the answer is `true`, where it
    /// stands for a pair of the batch that has not reported yet. Else the
    /// report stays as it is and the answer is `false`: no pair is counted
    /// twice.
    pub fn record(&mut self, outcome: TransactionOutcome) -> (taken: bool)
        requires
            old(self).wf(),
        ensures
            final(self).wf(),
            taken <==> fits(outcome.request, old(self)@.senders, old(self)@.receivers) && !old(
                self,
            )@.holds_pair(outcome.request),
            taken ==> final(self)@ == (BatchReportView {
                outcomes: old(self)@.outcomes.push(outcome@),
                ..old(self)@
            }),
            !taken ==> final(self)@ == old(self)@,
            final(self)@ == recorded(old(self)@, outcome@),
    {
        let request = outcome.request;
        if !(request.sender_index < self.senders && request.receiver_index < self.receivers) {
            return false;
        }
        let total: usize = self.reported.len();
        proof {
            lemma_cell_bounds(request, self.senders as nat, self.receivers as nat);
            assert(total == self.senders * self.receivers);
            assert(0 <= request.sender_index * self.receivers) by (nonlinear_arith);
        }
        let c: usize = request.sender_index * self.receivers + request.receiver_index;
        if self.reported[c] {
            proof {
                let k = choose|k: int|
                    0 <= k < self.outcomes@.len() && cell(
                        (#[trigger] self.outcomes@[k]).request,
                        self.receivers as int,
                    ) == c;
                lemma_cell_injective(self.outcomes@[k].request, request, self.receivers as int);
                assert(same_pair(self@.outcomes[k].request, request));
            }
            return false;
        }
        proof {
            if old(self)@.holds_pair(request) {
                let k = choose|k: int|
                    0 <= k < old(self)@.outcomes.len() && same_pair(
                        (#[trigger] old(self)@.outcomes[k]).request,
                        request,
                    );
                assert(cell(self.outcomes@[k].request, self.receivers as int) == c);
            }
        }
        self.reported.set(c, true);
        self.outcomes.push(outcome);
        proof {
            let n = old(self).outcomes@.len() as int;
            assert(final(self)@.outcomes =~= old(self)@.outcomes.push(outcome@));
            assert forall|a: int, b: int| 0 <= a < b < self@.outcomes.len() implies !same_pair(
                (#[trigger] self@.outcomes[a]).request,
                (#[trigger] self@.outcomes[b]).request,
            ) by {
                if b == n {
                    assert(same_pair(old(self)@.outcomes[a].request, request) ==> old(
                        self,
                    )@.holds_pair(request));
                } else {
                    assert(self@.outcomes[a] == old(self)@.outcomes[a]);
                    assert(self@.outcomes[b] == old(self)@.outcomes[b]);
                }
            }
            assert forall|d: int| 0 <= d < self.reported@.len() implies (
            #[trigger] self.reported@[d] <==> exists|k: int|
                0 <= k < self.outcomes@.len() && cell(
                    (#[trigger] self.outcomes@[k]).request,
                    self.receivers as int,
                ) == d) by {
                if d == c {
                    assert(cell(self.outcomes@[n].request, self.receivers as int) == c);
                } else {
                    if old(self).reported@[d] {
                        let k = choose|k: int|
                            0 <= k < old(self).outcomes@.len() && cell(
                                (#[trigger] old(self).outcomes@[k]).request,
                                self.receivers as int,
                            ) == d;
                        assert(self.outcomes@[k] == old(self).outcomes@[k]);
                    } else {
                        if exists|k: int|
                            0 <= k < self.outcomes@.len() && cell(
                                (#[trigger] self.outcomes@[k]).request,
                                self.receivers as int,
                            ) == d {
                            let k = choose|k: int|
                                0 <= k < self.outcomes@.len() && cell(
                                    (#[trigger] self.outcomes@[k]).request,
                                    self.receivers as int,
                                ) == d;
                            assert(k < n);
                            assert(self.outcomes@[k] == old(self).outcomes@[k]);
                        }
                    }
                }
            }
        }
        true
    }

    /// Gathers the outcomes of a batch of `senders` senders and `receivers`
    /// receivers into its report: each outcome is offered to the report in
    /// the order of `outcomes`, as [`BatchReport::record`] takes it. The
    /// result is `None` where the number of pairs is beyond what the machine
    /// can count.
    pub fn gather(senders: usize, receivers: usize, outcomes: Vec<TransactionOutcome>) -> (result:
        Option<BatchReport>)
        ensures
            result is Some <==> senders * receivers <= usize::MAX,
            result matches Some(report) ==> {
                &&& report.wf()
                &&& report@ == gathered(
                    empty_report(senders as nat, receivers as nat),
                    outcome_views(outcomes@),
                )
            },
    {
        let mut report = match BatchReport::new(senders, receivers) {
            Some(report) => report,
            None => {
                return None;
            },
        };
        let ghost all = outcome_views(outcomes@);
        let ghost start = empty_report(senders as nat, receivers as nat);
        assert(all.take(0) =~= Seq::empty());
        for outcome in iter: outcomes
            invariant
                report.wf(),
                all == outcome_views(iter.seq()),
                start == empty_report(senders as nat, receivers as nat),
                report@ == gathered(start, all.take(iter.index() as int)),
        {
            proof {
                let next = all.take(iter.index() + 1);
                assert(next.drop_last() =~= all.take(iter.index() as int));
                assert(next.last() == outcome@);
            }
            report.record(outcome);
        }
        assert(all.take(all.len() as int) =~= all);
        Some(report)
    }
}

/// The places of the outcomes of a report in its table of pairs. In a well
/// formed report they are all different and all within the table.
spec fn cells(report: BatchReportView) -> Seq<int> {
    Seq::new(
        report.outcomes.len(),
        |k: int| cell(report.outcomes[k].request, report.receivers as int),
    )
}

proof fn lemma_cells_fit(report: BatchReportView)
    requires
        report.well_formed(),
    ensures
        cells(report).no_duplicates(),
        cells(report).to_set().len() == report.outcomes.len(),
        cells(report).to_set().subset_of(
            vstd::set_lib::set_int_range(0, (report.senders * report.receivers) as int),
        ),
        vstd::set_lib::set_int_range(0, (report.senders * report.receivers) as int).finite(),
        vstd::set_lib::set_int_range(0, (report.senders * report.receivers) as int).len()
            == report.senders * report.receivers,
{
    let receivers = report.receivers as int;
    let total = report.senders * report.receivers;
    let places = cells(report);
    assert forall|a: int, b: int|
        0 <= a < places.len() && 0 <= b < places.len() && a != b implies places[a]
        != places[b] by {
        if places[a] == places[b] {
            lemma_cell_injective(report.outcomes[a].request, report.outcomes[b].request, receivers);
            if a < b {
                assert(!same_pair(report.outcomes[a].request, report.outcomes[b].request));
            } else {
                assert(!same_pair(report.outcomes[b].request, report.outcomes[a].request));
            }
        }
    }
    places.unique_seq_to_set();
    let range = vstd::set_lib::set_int_range(0, total as int);
    vstd::set_lib::lemma_int_range(0, total as int);
    assert forall|c: int| places.to_set().contains(c) implies range.contains(c) by {
        let k = choose|k: int| 0 <= k < places.len() && places[k] == c;
        lemma_cell_bounds(report.outcomes[k].request, report.senders, report.receivers);
    }
}

/// A report never holds more outcomes than the batch has pairs.
pub proof fn report_is_bounded(report: BatchReportView)
    requires
        report.well_formed(),
    ensures
        report.outcomes.len() <= report.senders * report.receivers,
{
    lemma_cells_fit(report);
    vstd::set_lib::lemma_len_subset(
        cells(report).to_set(),
        vstd::set_lib::set_int_range(0, (report.senders * report.receivers) as int),
    );
}

/// In a complete report every pair of a sender and a receiver has an outcome,
/// and no more than one: the pairs of the batch are covered exactly once.
pub proof fn complete_report_covers_each_pair_once(
    report: BatchReportView,
    sender_index: usize,
    receiver_index: usize,
)
    requires
        report.well_formed(),
        report.is_complete(),
        sender_index < report.senders,
        receiver_index < report.receivers,
    ensures
        exists|k: int|
            0 <= k < report.outcomes.len() && (#[trigger] report.outcomes[k]).request.sender_index
                == sender_index && report.outcomes[k].request.receiver_index == receiver_index,
        forall|a: int, b: int|
            0 <= a < report.outcomes.len() && 0 <= b < report.outcomes.len() && (
            #[trigger] report.outcomes[a]).request.sender_index == sender_index
                && report.outcomes[a].request.receiver_index == receiver_index && (
            #[trigger] report.outcomes[b]).request.sender_index == sender_index
                && report.outcomes[b].request.receiver_index == receiver_index ==> a == b,
{
    let receivers = report.receivers as int;
    let places = cells(report);
    let range = vstd::set_lib::set_int_range(0, (report.senders * report.receivers) as int);
    lemma_cells_fit(report);
    vstd::set_lib::lemma_len_subset(places.to_set(), range);
    vstd::set_lib::lemma_subset_equality(places.to_set(), range);
    let wanted = TransferRequest {
        sender_index,
        receiver_index,
        sender: report.outcomes[0].request.sender,
        receiver: report.outcomes[0].request.receiver,
        amount: 0,
    };
    lemma_cell_bounds(wanted, report.senders, report.receivers);
    let c = cell(wanted, receivers);
    assert(range.contains(c));
    assert(places.to_set().contains(c));
    let k = choose|k: int| 0 <= k < places.len() && places[k] == c;
    lemma_cell_injective(report.outcomes[k].request, wanted, receivers);
    assert(report.outcomes[k].request.sender_index == sender_index);
    assert forall|a: int, b: int|
        0 <= a < report.outcomes.len() && 0 <= b < report.outcomes.len() && (
        #[trigger] report.outcomes[a]).request.sender_index == sender_index
            && report.outcomes[a].request.receiver_index == receiver_index && (
        #[trigger] report.outcomes[b]).request.sender_index == sender_index
            && report.outcomes[b].request.receiver_index == receiver_index implies a == b by {
        if a < b {
            assert(!same_pair(report.outcomes[a].request, report.outcomes[b].request));
        } else if b < a {
            assert(!same_pair(report.outcomes[b].request, report.outcomes[a].request));
        }
    }
}

/// Whether `order` names each of `count` units once: the order in which the
/// units of a batch report.
pub open spec fn is_order_of(order: Seq<int>, count: int) -> bool {
    &&& order.len() == count
    &&& forall|k: int| 0 <= k < order.len() ==> 0 <= #[trigger] order[k] < count
    &&& forall|a: int, b: int|
        0 <= a < b < order.len() ==> #[trigger] order[a] != #[trigger] order[b]
}

/// Whether every unit of the plan comes to report when unit `u` is handed
/// the events `scripts[u]`.
pub open spec fn all_report(wallets: WalletSet, amount: u64, scripts: Seq<Seq<UnitEventView>>) -> bool {
    &&& scripts.len() == planned(wallets, amount).len()
    &&& forall|u: int|
        0 <= u < scripts.len() ==> (#[trigger] reported_by(
            planned(wallets, amount)[u],
            scripts[u],
        )) is Some
}

/// The outcomes of a run of a batch in the order of their arrival: the units
/// of the plan are handed the events of `scripts`, and report in the order
/// `order`.
pub open spec fn arrivals(
    wallets: WalletSet,
    amount: u64,
    scripts: Seq<Seq<UnitEventView>>,
    order: Seq<int>,
) -> Seq<TransactionOutcomeView> {
    Seq::new(
        order.len(),
        |k: int| reported_by(planned(wallets, amount)[order[k]], scripts[order[k]])->0,
    )
}

/// The report of a run of a batch: the empty report, offered the outcomes of
/// the run in the order of their arrival.
pub open spec fn run_report(
    wallets: WalletSet,
    amount: u64,
    scripts: Seq<Seq<UnitEventView>>,
    order: Seq<int>,
) -> BatchReportView {
    gathered(
        empty_report(wallets.senders@.len(), wallets.receivers@.len()),
        arrivals(wallets, amount, scripts, order),
    )
}

proof fn lemma_planned_pairs(wallets: WalletSet, amount: u64, u: int, v: int)
    requires
        0 <= u < planned(wallets, amount).len(),
        0 <= v < planned(wallets, amount).len(),
    ensures
        fits(planned(wallets, amount)[u].request, wallets.senders@.len(), wallets.receivers@.len()),
        same_pair(planned(wallets, amount)[u].request, planned(wallets, amount)[v].request) ==> u
            == v,
        planned(wallets, amount)[u].request.sender == wallets.senders@[planned(
            wallets,
            amount,
        )[u].request.sender_index as int].address,
        planned(wallets, amount)[u].request.receiver == wallets.receivers@[planned(
            wallets,
            amount,
        )[u].request.receiver_index as int].address,
{
    let s = wallets.senders@.len() as int;
    let r = wallets.receivers@.len() as int;
    assert(wallets.senders.len() == s && wallets.receivers.len() == r);
    assert(r > 0 && 0 <= u / r < s && 0 <= u % r < r) by (nonlinear_arith)
        requires
            0 <= u < s * r,
            0 <= s,
            0 <= r,
    ;
    assert(0 <= v / r < s && 0 <= v % r < r) by (nonlinear_arith)
        requires
            0 <= v < s * r,
            0 <= s,
            r > 0,
    ;
    vstd::arithmetic::div_mod::lemma_fundamental_div_mod(u, r);
    vstd::arithmetic::div_mod::lemma_fundamental_div_mod(v, r);
}

proof fn lemma_run_prefix(
    wallets: WalletSet,
    amount: u64,
    scripts: Seq<Seq<UnitEventView>>,
    order: Seq<int>,
    k: int,
)
    requires
        all_report(wallets, amount, scripts),
        is_order_of(order, planned(wallets, amount).len() as int),
        0 <= k <= order.len(),
    ensures
        gathered(
            empty_report(wallets.senders@.len(), wallets.receivers@.len()),
            arrivals(wallets, amount, scripts, order).take(k),
        ) == (BatchReportView {
            senders: wallets.senders@.len(),
            receivers: wallets.receivers@.len(),
            outcomes: arrivals(wallets, amount, scripts, order).take(k),
        }),
    decreases k,
{
    let all = arrivals(wallets, amount, scripts, order);
    let start = empty_report(wallets.senders@.len(), wallets.receivers@.len());
    if k == 0 {
        assert(all.take(0) =~= Seq::empty());
    } else {
        lemma_run_prefix(wallets, amount, scripts, order, k - 1);
        let before = all.take(k - 1);
        let now = all.take(k);
        assert(now.drop_last() =~= before);
        assert(now.last() == all[k - 1]);
        let held = gathered(start, before);
        let units = planned(wallets, amount);
        let u = order[k - 1];
        unit_reports_its_own_transfer(units[u], scripts[u]);
        assert(reported_by(units[u], scripts[u]) is Some);
        assert(all[k - 1].request == units[u].request);
        lemma_planned_pairs(wallets, amount, u, u);
        if held.holds_pair(all[k - 1].request) {
            let j = choose|j: int|
                0 <= j < held.outcomes.len() && same_pair(
                    (#[trigger] held.outcomes[j]).request,
                    all[k - 1].request,
                );
            let v = order[j];
            assert(held.outcomes[j] == all[j]);
            unit_reports_its_own_transfer(units[v], scripts[v]);
            assert(reported_by(units[v], scripts[v]) is Some);
            lemma_planned_pairs(wallets, amount, v, u);
            assert(order[j] != order[k - 1]);
        }
        assert(before.push(all[k - 1]) =~= now);
    }
}

/// The report of a run of a batch in which every unit comes to report holds
/// the outcome of every unit: as many outcomes as there are senders times
/// receivers, in the order of their arrival, none refused and none twice. It
/// is complete; without senders or without receivers it is empty.
pub proof fn run_report_holds_every_outcome(
    wallets: WalletSet,
    amount: u64,
    scripts: Seq<Seq<UnitEventView>>,
    order: Seq<int>,
)
    requires
        all_report(wallets, amount, scripts),
        is_order_of(order, planned(wallets, amount).len() as int),
    ensures
        run_report(wallets, amount, scripts, order).outcomes == arrivals(
            wallets,
            amount,
            scripts,
            order,
        ),
        run_report(wallets, amount, scripts, order).outcomes.len() == wallets.senders@.len()
            * wallets.receivers@.len(),
        run_report(wallets, amount, scripts, order).is_complete(),
        run_report(wallets, amount, scripts, order).senders == wallets.senders@.len(),
        run_report(wallets, amount, scripts, order).receivers == wallets.receivers@.len(),
        forall|k: int|
            0 <= k < order.len() ==> (#[trigger] run_report(
                wallets,
                amount,
                scripts,
                order,
            ).outcomes[k]).request == planned(wallets, amount)[order[k]].request,
        wallets.senders@.len() == 0 || wallets.receivers@.len() == 0 ==> run_report(
            wallets,
            amount,
            scripts,
            order,
        ).outcomes.len() == 0,
{
    let all = arrivals(wallets, amount, scripts, order);
    lemma_run_prefix(wallets, amount, scripts, order, order.len() as int);
    assert(all.take(order.len() as int) =~= all);
    let s = wallets.senders@.len() as int;
    let r = wallets.receivers@.len() as int;
    assert(s == 0 || r == 0 ==> s * r == 0) by (nonlinear_arith);
    assert forall|k: int| 0 <= k < order.len() implies (#[trigger] all[k]).request == planned(
        wallets,
        amount,
    )[order[k]].request by {
        let u = order[k];
        unit_reports_its_own_transfer(planned(wallets, amount)[u], scripts[u]);
        assert(reported_by(planned(wallets, amount)[u], scripts[u]) is Some);
    }
}

/// Whether no two senders and no two receivers of `wallets` share an
/// address.
pub open spec fn addresses_differ(wallets: WalletSet) -> bool {
    &&& forall|i: int, j: int|
        0 <= i < j < wallets.senders@.len() ==> (#[trigger] wallets.senders@[i]).address@ != (
        #[trigger] wallets.senders@[j]).address@
    &&& forall|i: int, j: int|
        0 <= i < j < wallets.receivers@.len() ==> (#[trigger] wallets.receivers@[i]).address@ != (
        #[trigger] wallets.receivers@[j]).address@
}

/// Whether two requests name the same sender's and the same receiver's
/// address.
pub open spec fn same_addresses(a: TransferRequest, b: TransferRequest) -> bool {
    a.sender@ == b.sender@ && a.receiver@ == b.receiver@
}

/// Where no two senders and no two receivers share an address, the report of
/// a run holds no pair of a sender's and a receiver's address twice, and it
/// holds the outcome of the pair of every sender and every receiver, here
/// those at the places `sender` and `receiver`.
pub proof fn run_report_holds_each_address_pair_once(
    wallets: WalletSet,
    amount: u64,
    scripts: Seq<Seq<UnitEventView>>,
    order: Seq<int>,
    sender: int,
    receiver: int,
)
    requires
        all_report(wallets, amount, scripts),
        is_order_of(order, planned(wallets, amount).len() as int),
        addresses_differ(wallets),
        0 <= sender < wallets.senders@.len(),
        0 <= receiver < wallets.receivers@.len(),
    ensures
        forall|a: int, b: int|
            0 <= a < b < run_report(wallets, amount, scripts, order).outcomes.len()
                ==> !#[trigger] same_addresses(
                run_report(wallets, amount, scripts, order).outcomes[a].request,
                run_report(wallets, amount, scripts, order).outcomes[b].request,
            ),
        exists|k: int|
            0 <= k < run_report(wallets, amount, scripts, order).outcomes.len() && (
            #[trigger] run_report(wallets, amount, scripts, order).outcomes[k]).request.sender@
                == wallets.senders@[sender].address@ && run_report(
                wallets,
                amount,
                scripts,
                order,
            ).outcomes[k].request.receiver@ == wallets.receivers@[receiver].address@,
{
    let report = run_report(wallets, amount, scripts, order);
    let units = planned(wallets, amount);
    let s = wallets.senders@.len() as int;
    let r = wallets.receivers@.len() as int;
    run_report_holds_every_outcome(wallets, amount, scripts, order);
    assert forall|a: int, b: int| 0 <= a < b < report.outcomes.len() implies !#[trigger] same_addresses(
        report.outcomes[a].request,
        report.outcomes[b].request,
    ) by {
        let u = order[a];
        let v = order[b];
        lemma_planned_pairs(wallets, amount, u, v);
        lemma_planned_pairs(wallets, amount, v, u);
        let first = units[u].request;
        let second = units[v].request;
        assert(report.outcomes[a].request == first);
        assert(report.outcomes[b].request == second);
        if first.sender_index != second.sender_index {
            if first.sender_index < second.sender_index {
                assert(wallets.senders@[first.sender_index as int].address@
                    != wallets.senders@[second.sender_index as int].address@);
            } else {
                assert(wallets.senders@[second.sender_index as int].address@
                    != wallets.senders@[first.sender_index as int].address@);
            }
        } else {
            assert(first.receiver_index != second.receiver_index);
            if first.receiver_index < second.receiver_index {
                assert(wallets.receivers@[first.receiver_index as int].address@
                    != wallets.receivers@[second.receiver_index as int].address@);
            } else {
                assert(wallets.receivers@[second.receiver_index as int].address@
                    != wallets.receivers@[first.receiver_index as int].address@);
            }
        }
    }
    assert(0 <= sender * r + receiver < s * r) by (nonlinear_arith)
        requires
            0 <= sender < s,
            0 <= receiver < r,
    ;
    let u = sender * r + receiver;
    vstd::arithmetic::div_mod::lemma_fundamental_div_mod_converse(u, r, sender, receiver);
    lemma_order_reaches(order, s * r, u);
    let k = choose|k: int| 0 <= k < order.len() && order[k] == u;
    assert(report.outcomes[k].request == units[u].request);
}

/// An order of `count` units names every unit.
proof fn lemma_order_reaches(order: Seq<int>, count: int, u: int)
    requires
        is_order_of(order, count),
        0 <= u < count,
    ensures
        exists|k: int| 0 <= k < order.len() && order[k] == u,
{
    assert(order.no_duplicates());
    order.unique_seq_to_set();
    let range = vstd::set_lib::set_int_range(0, count);
    vstd::set_lib::lemma_int_range(0, count);
    assert forall|c: int| order.to_set().contains(c) implies range.contains(c) by {
        let k = choose|k: int| 0 <= k < order.len() && order[k] == c;
    }
    vstd::set_lib::lemma_len_subset(order.to_set(), range);
    vstd::set_lib::lemma_subset_equality(order.to_set(), range);
    assert(range.contains(u));
    assert(order.to_set().contains(u));
}

/// In the complete report of a batch every unit of the plan has its outcome,
/// and one only.
pub proof fn complete_report_answers_each_unit(
    wallets: WalletSet,
    amount: u64,
    report: BatchReportView,
    unit: int,
)
    requires
        report.senders == wallets.senders@.len(),
        report.receivers == wallets.receivers@.len(),
        report.well_formed(),
        report.is_complete(),
        0 <= unit < planned(wallets, amount).len(),
    ensures
        exists|k: int|
            0 <= k < report.outcomes.len() && same_pair(
                (#[trigger] report.outcomes[k]).request,
                planned(wallets, amount)[unit].request,
            ),
        forall|a: int, b: int|
            0 <= a < report.outcomes.len() && 0 <= b < report.outcomes.len() && same_pair(
                (#[trigger] report.outcomes[a]).request,
                planned(wallets, amount)[unit].request,
            ) && same_pair(
                (#[trigger] report.outcomes[b]).request,
                planned(wallets, amount)[unit].request,
            ) ==> a == b,
{
    let s = wallets.senders@.len() as int;
    let r = wallets.receivers@.len() as int;
    assert(r > 0 && 0 <= unit / r < s && 0 <= unit % r < r) by (nonlinear_arith)
        requires
            0 <= unit < s * r,
            0 <= s,
            0 <= r,
    ;
    let wanted = planned(wallets, amount)[unit].request;
    complete_report_covers_each_pair_once(report, wanted.sender_index, wanted.receiver_index);
    let k = choose|k: int|
        0 <= k < report.outcomes.len() && (#[trigger] report.outcomes[k]).request.sender_index
            == wanted.sender_index && report.outcomes[k].request.receiver_index
            == wanted.receiver_index;
    assert(same_pair(report.outcomes[k].request, wanted));
}

} // verus!
