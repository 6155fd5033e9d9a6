//! The course of one pruning pass: oldest groups first, until the limit holds.

use vstd::prelude::*;
use crate::media::reconcile::report;
use crate::text;
use super::groups::{Candidate, CandidateView};

verus! {

/// Aggregate result of one active-media pruning pass.
#[derive(Debug, Clone, Copy, PartialEq, Eq, Structural)]
pub struct PruneReport {
    /// Eligible media bytes present before pruning.
    pub total_before_bytes: u64,
    /// Eligible media bytes remaining after pruning.
    pub total_after_bytes: u64,
    /// Number of original files successfully removed.
    pub removed_files: u64,
    /// Total bytes successfully removed.
    pub removed_bytes: u64,
    /// Number of candidates skipped after a failure.
    pub skipped_files: u64,
}

/// The report of a pass that did nothing.
pub open spec fn idle_report() -> PruneReport {
    PruneReport {
        total_before_bytes: 0,
        total_after_bytes: 0,
        removed_files: 0,
        removed_bytes: 0,
        skipped_files: 0,
    }
}

impl Default for PruneReport {
    fn default() -> (r: Self)
        ensures
            r == idle_report(),
    {
        PruneReport {
            total_before_bytes: 0,
            total_after_bytes: 0,
            removed_files: 0,
            removed_bytes: 0,
            skipped_files: 0,
        }
    }
}

/// Filesystem work completed while replaying one prune intent.
#[derive(Debug, Clone, Copy, PartialEq, Eq, Structural)]
pub struct OriginalPruneFinalizeReport {
    /// Files newly removed during this replay pass.
    pub removed_files: u64,
    /// Planned bytes represented by newly removed files.
    pub removed_bytes: u64,
}

impl Default for OriginalPruneFinalizeReport {
    fn default() -> (r: Self)
        ensures
            r.removed_files == 0 && r.removed_bytes == 0,
    {
        OriginalPruneFinalizeReport { removed_files: 0, removed_bytes: 0 }
    }
}

/// The first of a group's post identifiers.
pub open spec fn first_id(c: CandidateView) -> i64 {
    if c.post_ids.len() > 0 {
        c.post_ids[0]
    } else {
        i64::MAX
    }
}

/// Whether a group is pruned no later than another: by its oldest post, then by
/// its first identifier.
pub open spec fn not_after(a: CandidateView, b: CandidateView) -> bool {
    a.created_at < b.created_at || (a.created_at == b.created_at && first_id(a) <= first_id(b))
}

/// The groups in pruning order with one more in its place, behind those that
/// rank the same.
pub open spec fn ranked(list: Seq<CandidateView>, c: CandidateView) -> Seq<CandidateView>
    decreases list.len(),
{
    if list.len() == 0 || not_after(list.last(), c) {
        list.push(c)
    } else {
        ranked(list.drop_last(), c).push(list.last())
    }
}

/// The groups in pruning order.
pub open spec fn oldest_first(list: Seq<CandidateView>) -> Seq<CandidateView>
    decreases list.len(),
{
    if list.len() == 0 {
        Seq::empty()
    } else {
        ranked(oldest_first(list.drop_last()), list.last())
    }
}

/// Whether the groups are in pruning order.
pub open spec fn in_order(list: Seq<CandidateView>) -> bool {
    forall|i: int, j: int|
        0 <= i < j < list.len() ==> not_after(#[trigger] list[i], #[trigger] list[j])
}

proof fn lemma_ranked(list: Seq<CandidateView>, c: CandidateView)
    requires
        in_order(list),
    ensures
        in_order(ranked(list, c)),
        ranked(list, c).to_multiset() =~= list.to_multiset().insert(c),
        ranked(list, c).len() == list.len() + 1,
        forall|k: int|
            0 <= k < ranked(list, c).len() ==> (#[trigger] ranked(list, c)[k]) == c
                || list.contains(ranked(list, c)[k]),
    decreases list.len(),
{
    broadcast use vstd::seq_lib::group_to_multiset_ensures;

    let r = ranked(list, c);
    if list.len() == 0 || not_after(list.last(), c) {
        assert forall|i: int, j: int| 0 <= i < j < r.len() implies not_after(
            #[trigger] r[i],
            #[trigger] r[j],
        ) by {
            if j == list.len() && i < list.len() - 1 {
                assert(not_after(list[i], list[list.len() - 1]));
            }
        }
        assert forall|k: int| 0 <= k < r.len() implies (#[trigger] r[k]) == c || list.contains(
            r[k],
        ) by {
            if k < list.len() {
                assert(list[k] == r[k]);
            }
        }
    } else {
        let rest = list.drop_last();
        lemma_ranked(rest, c);
        let inner = ranked(rest, c);
        assert(list =~= rest.push(list.last()));
        assert forall|i: int, j: int| 0 <= i < j < r.len() implies not_after(
            #[trigger] r[i],
            #[trigger] r[j],
        ) by {
            if j == r.len() - 1 {
                assert(r[i] == inner[i]);
                if inner[i] != c {
                    let k = rest.index_of(inner[i]);
                    assert(list[k] == inner[i]);
                    assert(not_after(list[k], list[list.len() - 1]));
                }
            } else {
                assert(r[i] == inner[i] && r[j] == inner[j]);
            }
        }
        assert forall|k: int| 0 <= k < r.len() implies (#[trigger] r[k]) == c || list.contains(
            r[k],
        ) by {
            if k < inner.len() {
                if inner[k] != c {
                    let x = rest.index_of(inner[k]);
                    assert(list[x] == inner[k]);
                }
            } else {
                assert(list[list.len() - 1] == r[k]);
            }
        }
    }
}

/// Ordering the groups loses and adds none, and puts the oldest first.
pub proof fn law_pruning_order(list: Seq<CandidateView>)
    ensures
        in_order(oldest_first(list)),
        oldest_first(list).to_multiset() =~= list.to_multiset(),
    decreases list.len(),
{
    broadcast use vstd::seq_lib::group_to_multiset_ensures;

    if list.len() > 0 {
        law_pruning_order(list.drop_last());
        lemma_ranked(oldest_first(list.drop_last()), list.last());
        assert(list =~= list.drop_last().push(list.last()));
    }
}

/// The size of groups, held at the largest 64-bit value.
pub open spec fn sum_of(list: Seq<CandidateView>) -> u64
    decreases list.len(),
{
    if list.len() == 0 {
        0
    } else if sum_of(list.drop_last()) + list.last().size > u64::MAX {
        u64::MAX
    } else {
        (sum_of(list.drop_last()) + list.last().size) as u64
    }
}

fn comes_no_later(a: &Candidate, b: &Candidate) -> (r: bool)
    ensures
        r == not_after(a@, b@),
{
    let x: i64 = if a.post_ids.len() > 0 {
        a.post_ids[0]
    } else {
        i64::MAX
    };
    let y: i64 = if b.post_ids.len() > 0 {
        b.post_ids[0]
    } else {
        i64::MAX
    };
    a.created_at < b.created_at || (a.created_at == b.created_at && x <= y)
}

fn rank_candidate(list: &mut Vec<Candidate>, c: Candidate)
    ensures
        text::views(final(list)@) == ranked(text::views(old(list)@), c@),
{
    broadcast use text::group_views;

    let ghost all = text::views(list@);
    let ghost added = c@;
    let mut n: usize = list.len();
    assert(all.take(n as int) =~= all);
    assert(ranked(all, added) =~= ranked(all.take(n as int), added) + all.skip(n as int));
    while n > 0 && !comes_no_later(&list[n - 1], &c)
        invariant
            n <= list@.len(),
            all == text::views(list@),
            added == c@,
            ranked(all, added) == ranked(all.take(n as int), added) + all.skip(n as int),
        decreases n,
    {
        assert(all.take(n as int).last() == list@[n - 1]@);
        assert(all.take(n as int).drop_last() =~= all.take(n as int - 1));
        assert(ranked(all.take(n as int - 1), added).push(all[n - 1]) + all.skip(n as int)
            =~= ranked(all.take(n as int - 1), added) + all.skip(n as int - 1));
        n = n - 1;
    }
    assert(n > 0 ==> all.take(n as int).last() == list@[n - 1]@);
    assert(ranked(all.take(n as int), added) == all.take(n as int).push(added));
    list.insert(n, c);
    assert(text::views(list@) =~= all.take(n as int).push(added) + all.skip(n as int));
}

/// Puts the groups into pruning order.
pub fn order_candidates(candidates: Vec<Candidate>) -> (r: Vec<Candidate>)
    ensures
        text::views(r@) == oldest_first(text::views(candidates@)),
{
    broadcast use text::group_views;

    let ghost all = text::views(candidates@);
    let mut rest = candidates;
    let mut queue: Vec<Candidate> = Vec::new();
    // Reversed first, so that taking from the end yields the groups in order.
    while rest.len() > 0
        invariant
            all == text::views(rest@) + text::views(queue@).reverse(),
        decreases rest@.len(),
    {
        broadcast use text::group_views;

        let ghost left = text::views(rest@);
        let ghost moved = text::views(queue@);
        match rest.pop() {
            Some(c) => {
                let ghost view = c@;
                queue.push(c);
                assert(left =~= text::views(rest@).push(view));
                assert(text::views(queue@).reverse() =~= seq![view] + moved.reverse());
                assert(all =~= text::views(rest@) + text::views(queue@).reverse());
            },
            None => {},
        }
    }
    assert(all =~= text::views(queue@).reverse());
    let mut sorted: Vec<Candidate> = Vec::new();
    let ghost total = all.len();
    assert(all.take(0) =~= Seq::<CandidateView>::empty());
    while queue.len() > 0
        invariant
            total == all.len(),
            queue@.len() <= total,
            text::views(queue@).reverse() == all.skip(total - queue@.len()),
            text::views(sorted@) == oldest_first(all.take(total - queue@.len())),
        decreases queue@.len(),
    {
        broadcast use text::group_views;

        let ghost n = queue@.len() as int;
        let ghost before = text::views(queue@);
        let ghost now = all.take(total - n + 1);
        match queue.pop() {
            Some(c) => {
                let ghost view = c@;
                assert(before.reverse()[0] == before[n - 1]);
                assert(all.skip(total - n)[0] == view);
                assert(now.drop_last() =~= all.take(total - n));
                assert(now.last() == view);
                rank_candidate(&mut sorted, c);
                assert(text::views(queue@).reverse() =~= before.reverse().skip(1));
                assert(all.skip(total - n).skip(1) =~= all.skip(total - n + 1));
            },
            None => {},
        }
    }
    assert(all.take(total as int) =~= all);
    sorted
}

/// What came of pruning one group.
#[derive(Debug, Clone, Copy, PartialEq, Eq, Structural)]
pub enum PruneOutcome {
    /// The durable intent could not be persisted, or could not be carried out.
    Skipped,
    /// The originals are gone.
    Removed(OriginalPruneFinalizeReport),
}

/// One pruning pass.
#[derive(Debug)]
pub struct PrunePass {
    pub candidates: Vec<Candidate>,
    pub next: usize,
    pub remaining: u64,
    pub max_bytes: u64,
    pub report: PruneReport,
}

/// The model of a pruning pass.
#[verifier::ext_equal]
pub struct PassView {
    pub candidates: Seq<CandidateView>,
    pub next: int,
    pub remaining: u64,
    pub max_bytes: u64,
    pub report: PruneReport,
}

impl View for PrunePass {
    type V = PassView;

    open spec fn view(&self) -> PassView {
        PassView {
            candidates: text::views(self.candidates@),
            next: self.next as int,
            remaining: self.remaining,
            max_bytes: self.max_bytes,
            report: self.report,
        }
    }
}

impl PassView {
    /// The pass before any group has been pruned.
    pub open spec fn begun(groups: Seq<CandidateView>, max_bytes: u64) -> PassView {
        let candidates = oldest_first(groups);
        let total = sum_of(candidates);
        PassView {
            candidates,
            next: 0,
            remaining: total,
            max_bytes,
            report: PruneReport { total_before_bytes: total, ..idle_report() },
        }
    }

    /// Whether another group has to be pruned: the limit is exceeded and a group
    /// is left.
    pub open spec fn continues(self) -> bool {
        self.remaining > self.max_bytes && self.next < self.candidates.len()
    }

    /// The pass after the next group.
    pub open spec fn settled(self, outcome: PruneOutcome) -> PassView {
        let size = self.candidates[self.next].size;
        match outcome {
            PruneOutcome::Skipped => PassView {
                next: self.next + 1,
                report: PruneReport {
                    skipped_files: report::saturated(
                        self.report.skipped_files as int,
                        1,
                    ),
                    ..self.report
                },
                ..self
            },
            PruneOutcome::Removed(done) => PassView {
                next: self.next + 1,
                remaining: if self.remaining >= size {
                    (self.remaining - size) as u64
                } else {
                    0
                },
                report: PruneReport {
                    removed_files: report::saturated(
                        self.report.removed_files as int,
                        done.removed_files as int,
                    ),
                    removed_bytes: report::saturated(
                        self.report.removed_bytes as int,
                        done.removed_bytes as int,
                    ),
                    ..self.report
                },
                ..self
            },
        }
    }

    /// The pass after the outcomes of the first `n` groups.
    pub open spec fn after(self, outcomes: Seq<PruneOutcome>, n: nat) -> PassView
        decreases n,
    {
        if n == 0 {
            self
        } else {
            let before = self.after(outcomes, (n - 1) as nat);
            if before.continues() {
                before.settled(outcomes[n - 1])
            } else {
                before
            }
        }
    }
}

fn sum_candidates(list: &Vec<Candidate>) -> (r: u64)
    ensures
        r == sum_of(text::views(list@)),
{
    let ghost all = text::views(list@);
    let mut sum: u64 = 0;
    let mut i: usize = 0;
    assert(all.take(0) =~= Seq::<CandidateView>::empty());
    while i < list.len()
        invariant
            i <= list@.len(),
            all == text::views(list@),
            sum == sum_of(all.take(i as int)),
        decreases list@.len() - i,
    {
        assert(all.take(i as int + 1).drop_last() =~= all.take(i as int));
        assert(all.take(i as int + 1).last() == list@[i as int]@);
        sum = sum.saturating_add(list[i].size);
        i = i + 1;
    }
    assert(all.take(all.len() as int) =~= all);
    sum
}

impl PrunePass {
    /// Begins a pass over the groups.
    pub fn begin(groups: Vec<Candidate>, max_bytes: u64) -> (r: Self)
        ensures
            r@ == PassView::begun(text::views(groups@), max_bytes),
    {
        let candidates = order_candidates(groups);
        let total: u64 = sum_candidates(&candidates);
        PrunePass {
            candidates,
            next: 0,
            remaining: total,
            max_bytes,
            report: PruneReport {
                total_before_bytes: total,
                total_after_bytes: 0,
                removed_files: 0,
                removed_bytes: 0,
                skipped_files: 0,
            },
        }
    }

    /// The group to be pruned next, while the limit is exceeded.
    pub fn next_candidate(&self) -> (r: Option<&Candidate>)
        ensures
            match r {
                Some(c) => self@.continues() && c@ == self@.candidates[self@.next],
                None => !self@.continues(),
            },
    {
        if self.remaining <= self.max_bytes || self.next >= self.candidates.len() {
            return None;
        }
        assert(self@.candidates[self.next as int] == self.candidates@[self.next as int]@);
        Some(&self.candidates[self.next])
    }

    /// Takes in what came of the next group.
    pub fn settle(&mut self, outcome: PruneOutcome)
        requires
            old(self)@.continues(),
        ensures
            final(self)@ == old(self)@.settled(outcome),
    {
        assert(self@.candidates[self.next as int] == self.candidates@[self.next as int]@);
        let count: usize = self.candidates.len();
        let size: u64 = self.candidates[self.next].size;
        assert(self.next < count);
        self.next = self.next + 1;
        match outcome {
            PruneOutcome::Skipped => {
                self.report.skipped_files = self.report.skipped_files.saturating_add(1);
            },
            PruneOutcome::Removed(done) => {
                self.remaining = self.remaining.saturating_sub(size);
                self.report.removed_files = self.report.removed_files.saturating_add(
                    done.removed_files,
                );
                self.report.removed_bytes = self.report.removed_bytes.saturating_add(
                    done.removed_bytes,
                );
            },
        }
    }

    /// The report of the pass.
    pub fn finish(self) -> (r: PruneReport)
        ensures
            r == (PruneReport { total_after_bytes: self@.remaining, ..self@.report }),
    {
        let mut report = self.report;
        report.total_after_bytes = self.remaining;
        report
    }
}

/// The report of a whole pass, given what came of each group that was tried.
pub open spec fn pruned(groups: Seq<CandidateView>, max_bytes: u64, outcomes: Seq<PruneOutcome>) -> PruneReport {
    let end = PassView::begun(groups, max_bytes).after(outcomes, outcomes.len());
    PruneReport { total_after_bytes: end.remaining, ..end.report }
}

/// Prunes the oldest eligible groups until active media is within `max_bytes`.
/// The outcomes are those of the groups in the order in which they are tried.
pub fn prune_to_limit(groups: Vec<Candidate>, max_bytes: u64, outcomes: &Vec<PruneOutcome>) -> (r:
    PruneReport)
    ensures
        r == pruned(text::views(groups@), max_bytes, outcomes@),
{
    let ghost start = PassView::begun(text::views(groups@), max_bytes);
    let mut pass = PrunePass::begin(groups, max_bytes);
    let mut i: usize = 0;
    while i < outcomes.len()
        invariant
            i <= outcomes@.len(),
            pass@ == start.after(outcomes@, i as nat),
        decreases outcomes@.len() - i,
    {
        if pass.next_candidate().is_some() {
            pass.settle(outcomes[i]);
        }
        i = i + 1;
    }
    pass.finish()
}

/// What the administrator has configured about pruning decides whether a pass
/// runs, and with which limit.
pub fn run_configured_prune(enabled: bool, max_bytes: u64) -> (r: Option<u64>)
    ensures
        r == (if enabled && max_bytes != 0 {
            Some(max_bytes)
        } else {
            None
        }),
{
    if enabled && max_bytes != 0 {
        Some(max_bytes)
    } else {
        None
    }
}

/// A pass within its limit prunes nothing.
pub proof fn law_nothing_is_pruned_within_the_limit(
    groups: Seq<CandidateView>,
    max_bytes: u64,
    outcomes: Seq<PruneOutcome>,
)
    requires
        sum_of(oldest_first(groups)) <= max_bytes,
    ensures
        pruned(groups, max_bytes, outcomes) == (PruneReport {
            total_before_bytes: sum_of(oldest_first(groups)),
            total_after_bytes: sum_of(oldest_first(groups)),
            ..idle_report()
        }),
{
    lemma_stopped_pass_stays(PassView::begun(groups, max_bytes), outcomes, outcomes.len());
}

proof fn lemma_stopped_pass_stays(pass: PassView, outcomes: Seq<PruneOutcome>, n: nat)
    requires
        !pass.continues(),
    ensures
        pass.after(outcomes, n) == pass,
    decreases n,
{
    if n > 0 {
        lemma_stopped_pass_stays(pass, outcomes, (n - 1) as nat);
    }
}

/// Where every group that is tried can be removed, the pass ends within its
/// limit.
pub proof fn law_successful_passes_meet_the_limit(
    groups: Seq<CandidateView>,
    max_bytes: u64,
    outcomes: Seq<PruneOutcome>,
)
    requires
        forall|i: int| 0 <= i < outcomes.len() ==> (#[trigger] outcomes[i]) is Removed,
        outcomes.len() >= groups.len(),
        sum_exact(oldest_first(groups)) <= u64::MAX,
    ensures
        pruned(groups, max_bytes, outcomes).total_after_bytes <= max_bytes,
{
    let start = PassView::begun(groups, max_bytes);
    lemma_sum_is_exact(start.candidates);
    lemma_order_keeps_length(groups);
    lemma_remaining_is_rest(start, outcomes, outcomes.len());
    let end = start.after(outcomes, outcomes.len());
    if end.continues() {
        lemma_every_outcome_counts(start, outcomes, outcomes.len());
    }
    if end.next == end.candidates.len() {
        assert(end.candidates.skip(end.next) =~= Seq::<CandidateView>::empty());
    }
}

/// The exact size of groups.
pub open spec fn sum_exact(list: Seq<CandidateView>) -> nat
    decreases list.len(),
{
    if list.len() == 0 {
        0
    } else {
        sum_exact(list.drop_last()) + list.last().size as nat
    }
}

proof fn lemma_sum_is_exact(list: Seq<CandidateView>)
    ensures
        sum_exact(list) <= u64::MAX ==> sum_of(list) == sum_exact(list),
    decreases list.len(),
{
    if list.len() > 0 {
        lemma_sum_is_exact(list.drop_last());
    }
}

proof fn lemma_order_keeps_length(list: Seq<CandidateView>)
    ensures
        oldest_first(list).len() == list.len(),
    decreases list.len(),
{
    if list.len() > 0 {
        lemma_order_keeps_length(list.drop_last());
        law_pruning_order(list.drop_last());
        lemma_ranked(oldest_first(list.drop_last()), list.last());
    }
}

proof fn lemma_sum_splits(list: Seq<CandidateView>, n: int)
    requires
        0 <= n < list.len(),
    ensures
        sum_exact(list.skip(n)) == list[n].size + sum_exact(list.skip(n + 1)),
    decreases list.len() - n,
{
    let s = list.skip(n);
    if s.len() == 1 {
        assert(s.drop_last() =~= Seq::<CandidateView>::empty());
        assert(list.skip(n + 1) =~= Seq::<CandidateView>::empty());
        assert(sum_exact(s.drop_last()) == 0);
    } else {
        let shorter = list.drop_last();
        lemma_sum_splits(shorter, n);
        assert(s.drop_last() =~= shorter.skip(n));
        assert(list.skip(n + 1).drop_last() =~= shorter.skip(n + 1));
        assert(s.last() == list.last());
        assert(list.skip(n + 1).last() == list.last());
    }
}

proof fn lemma_remaining_is_rest(start: PassView, outcomes: Seq<PruneOutcome>, n: nat)
    requires
        start.next == 0,
        start.remaining == sum_exact(start.candidates),
        n <= outcomes.len(),
        forall|i: int| 0 <= i < outcomes.len() ==> (#[trigger] outcomes[i]) is Removed,
    ensures
        ({
            let p = start.after(outcomes, n);
            &&& p.candidates == start.candidates
            &&& p.max_bytes == start.max_bytes
            &&& 0 <= p.next <= p.candidates.len()
            &&& p.remaining == sum_exact(p.candidates.skip(p.next))
        }),
    decreases n,
{
    if n == 0 {
        assert(start.candidates.skip(0) =~= start.candidates);
    } else {
        lemma_remaining_is_rest(start, outcomes, (n - 1) as nat);
        let p = start.after(outcomes, (n - 1) as nat);
        if p.continues() {
            lemma_sum_splits(p.candidates, p.next);
            assert(outcomes[n - 1] is Removed);
        }
    }
}

proof fn lemma_every_outcome_counts(start: PassView, outcomes: Seq<PruneOutcome>, n: nat)
    requires
        start.next == 0,
        start.after(outcomes, n).continues(),
    ensures
        start.after(outcomes, n).next == n,
        start.after(outcomes, n).candidates == start.candidates,
    decreases n,
{
    if n > 0 {
        let p = start.after(outcomes, (n - 1) as nat);
        assert(p.continues());
        lemma_every_outcome_counts(start, outcomes, (n - 1) as nat);
    }
}

proof fn lemma_pass_keeps_its_plan(pass: PassView, outcomes: Seq<PruneOutcome>, n: nat)
    ensures
        pass.after(outcomes, n).candidates == pass.candidates,
        pass.after(outcomes, n).max_bytes == pass.max_bytes,
        pass.after(outcomes, n).next >= pass.next,
    decreases n,
{
    if n > 0 {
        lemma_pass_keeps_its_plan(pass, outcomes, (n - 1) as nat);
    }
}

/// The oldest originals go first. However far a pass has come, its groups are those
/// that were given, creation times never decrease in the order in which they are tried,
/// and groups of one time are tried by their first post.
pub proof fn law_oldest_originals_go_first(
    groups: Seq<CandidateView>,
    max_bytes: u64,
    outcomes: Seq<PruneOutcome>,
    n: nat,
)
    ensures
        ({
            let tried = PassView::begun(groups, max_bytes).after(outcomes, n).candidates;
            &&& tried.len() == groups.len()
            &&& tried.to_multiset() == groups.to_multiset()
            &&& forall|i: int, j: int|
                0 <= i < j < tried.len() ==> (#[trigger] tried[i]).created_at <= (
                #[trigger] tried[j]).created_at
            &&& forall|i: int, j: int|
                0 <= i < j < tried.len() && (#[trigger] tried[i]).created_at == (
                #[trigger] tried[j]).created_at && tried[i].post_ids.len() > 0
                    && tried[j].post_ids.len() > 0 ==> tried[i].post_ids[0] <= tried[j].post_ids[0]
        }),
{
    let start = PassView::begun(groups, max_bytes);
    lemma_pass_keeps_its_plan(start, outcomes, n);
    law_pruning_order(groups);
    lemma_order_keeps_length(groups);
    let tried = start.candidates;
    assert forall|i: int, j: int| 0 <= i < j < tried.len() implies (
    #[trigger] tried[i]).created_at <= (#[trigger] tried[j]).created_at by {
        assert(not_after(tried[i], tried[j]));
    }
    assert forall|i: int, j: int|
        0 <= i < j < tried.len() && (#[trigger] tried[i]).created_at == (
        #[trigger] tried[j]).created_at && tried[i].post_ids.len() > 0 && tried[j].post_ids.len()
            > 0 implies tried[i].post_ids[0] <= tried[j].post_ids[0] by {
        assert(not_after(tried[i], tried[j]));
    }
}

/// What a pass has removed is not newer than what it leaves: every group before the one
/// that is tried next is at least as old as every group from there on.
pub proof fn law_removed_originals_are_not_newer(
    groups: Seq<CandidateView>,
    max_bytes: u64,
    outcomes: Seq<PruneOutcome>,
    n: nat,
    gone: int,
    left: int,
)
    requires
        ({
            let pass = PassView::begun(groups, max_bytes).after(outcomes, n);
            0 <= gone < pass.next <= left < pass.candidates.len()
        }),
    ensures
        ({
            let pass = PassView::begun(groups, max_bytes).after(outcomes, n);
            pass.candidates[gone].created_at <= pass.candidates[left].created_at
        }),
{
    law_oldest_originals_go_first(groups, max_bytes, outcomes, n);
}

proof fn lemma_ranked_sum(list: Seq<CandidateView>, c: CandidateView)
    ensures
        sum_exact(ranked(list, c)) == sum_exact(list) + c.size,
    decreases list.len(),
{
    if list.len() == 0 || not_after(list.last(), c) {
        assert(list.push(c).drop_last() =~= list);
    } else {
        lemma_ranked_sum(list.drop_last(), c);
        let inner = ranked(list.drop_last(), c);
        assert(inner.push(list.last()).drop_last() =~= inner);
    }
}

proof fn lemma_ordered_sum(list: Seq<CandidateView>)
    ensures
        sum_exact(oldest_first(list)) == sum_exact(list),
    decreases list.len(),
{
    if list.len() > 0 {
        lemma_ordered_sum(list.drop_last());
        lemma_ranked_sum(oldest_first(list.drop_last()), list.last());
    }
}

/// A pass starts with the first group and with the size of all groups, and goes on one
/// group at a time exactly while the limit is exceeded: a group that was removed takes
/// its size off what remains, one that was skipped takes nothing off.
pub proof fn law_passes_go_on_while_the_limit_is_exceeded(
    groups: Seq<CandidateView>,
    max_bytes: u64,
    outcomes: Seq<PruneOutcome>,
    n: nat,
)
    requires
        n < outcomes.len(),
    ensures
        ({
            let start = PassView::begun(groups, max_bytes);
            let now = start.after(outcomes, n);
            let then = start.after(outcomes, n + 1);
            &&& start.next == 0
            &&& sum_exact(groups) <= u64::MAX ==> start.remaining == sum_exact(groups)
            &&& start.report.total_before_bytes == start.remaining
            &&& now.remaining <= max_bytes || now.next >= groups.len() ==> then == now
            &&& now.remaining > max_bytes && now.next < groups.len() ==> {
                &&& then.next == now.next + 1
                &&& outcomes[n as int] is Skipped ==> then.remaining == now.remaining
                    && then.report.removed_files == now.report.removed_files
                    && then.report.removed_bytes == now.report.removed_bytes
                &&& outcomes[n as int] is Skipped && now.report.skipped_files < u64::MAX
                    ==> then.report.skipped_files == now.report.skipped_files + 1
                &&& outcomes[n as int] is Removed && now.candidates[now.next].size <= now.remaining
                    ==> then.remaining == now.remaining - now.candidates[now.next].size
                &&& outcomes[n as int] is Removed && now.candidates[now.next].size > now.remaining
                    ==> then.remaining == 0
                &&& outcomes[n as int] matches PruneOutcome::Removed(done) ==> {
                    &&& then.report.skipped_files == now.report.skipped_files
                    &&& now.report.removed_files + done.removed_files <= u64::MAX
                        ==> then.report.removed_files == now.report.removed_files
                        + done.removed_files
                    &&& now.report.removed_bytes + done.removed_bytes <= u64::MAX
                        ==> then.report.removed_bytes == now.report.removed_bytes
                        + done.removed_bytes
                }
            }
        }),
{
    let start = PassView::begun(groups, max_bytes);
    lemma_pass_keeps_its_plan(start, outcomes, n);
    lemma_order_keeps_length(groups);
    lemma_ordered_sum(groups);
    lemma_sum_is_exact(start.candidates);
}

/// The report of a pass tells what remained at its end, and what came of the groups
/// that were tried.
pub proof fn law_reports_tell_how_passes_end(
    groups: Seq<CandidateView>,
    max_bytes: u64,
    outcomes: Seq<PruneOutcome>,
)
    ensures
        ({
            let end = PassView::begun(groups, max_bytes).after(outcomes, outcomes.len());
            let report = pruned(groups, max_bytes, outcomes);
            &&& report.total_after_bytes == end.remaining
            &&& report.total_before_bytes == end.report.total_before_bytes
            &&& report.removed_files == end.report.removed_files
            &&& report.removed_bytes == end.report.removed_bytes
            &&& report.skipped_files == end.report.skipped_files
            &&& sum_exact(groups) <= u64::MAX ==> report.total_before_bytes == sum_exact(groups)
        }),
{
    let start = PassView::begun(groups, max_bytes);
    lemma_ordered_sum(groups);
    lemma_sum_is_exact(start.candidates);
    lemma_total_stays(start, outcomes, outcomes.len());
}

proof fn lemma_total_stays(pass: PassView, outcomes: Seq<PruneOutcome>, n: nat)
    ensures
        pass.after(outcomes, n).report.total_before_bytes == pass.report.total_before_bytes,
    decreases n,
{
    if n > 0 {
        lemma_total_stays(pass, outcomes, (n - 1) as nat);
    }
}

/// What all originals come to is their sum, as far as that can be counted.
pub proof fn law_sizes_are_summed_up(list: Seq<CandidateView>)
    ensures
        sum_exact(list) <= u64::MAX ==> sum_of(list) == sum_exact(list),
        sum_exact(list) > u64::MAX ==> sum_of(list) == u64::MAX,
    decreases list.len(),
{
    if list.len() > 0 {
        law_sizes_are_summed_up(list.drop_last());
    }
}

} // verus!
