//! Batches of transfers in which one failure does not stop the others.
//!
//! A batch walks through an account book. For every line with something on it, the line
//! is cleared first and the transfer tried then; if the transfer fails, the line is
//! restored, so that it can be tried again later. The book and the totals change only
//! by what really moved.

use vstd::prelude::*;

use crate::book::{
    book_wf, lemma_line_within_total, lemma_total_nonneg, lemma_total_update, total, Entry,
};
use crate::campaign::CampaignView;
use crate::env::{
    bump_persistent, extend_instance_ttl, persistent_bump, publication, Effect, Env, EnvView,
};
use crate::milestone_release::{cleared, lemma_refund_keeps_schedule};
use crate::types::{outcome, Address, ContractError, CrowdfundContract, DataKey, Status};
use crate::withdraw_event_emission::{
    emit_cancelled, emit_refunded, emit_transfer_skipped, Event,
};

verus! {

/// The operations that settle a whole account book transfer by transfer.
#[derive(Clone, Copy, Debug, PartialEq, Eq, Structural)]
pub enum BatchKind {
    /// Pledges move from the pledgers to the contract.
    CollectPledges,
    /// Contributions move back to the contributors, as less than the goal is raised.
    Refund,
    /// Contributions move back to the contributors because the creator gives up.
    Cancel,
}

impl BatchKind {
    /// The name under which a skipped transfer reports the operation.
    pub open spec fn spec_context(self) -> Seq<char> {
        match self {
            BatchKind::CollectPledges => "collect_pledges"@,
            BatchKind::Refund => "refund"@,
            BatchKind::Cancel => "cancel"@,
        }
    }

    /// Returns the name under which a skipped transfer reports the operation.
    pub fn context(self) -> (r: &'static str)
        ensures
            r@ == self.spec_context(),
    {
        match self {
            BatchKind::CollectPledges => "collect_pledges",
            BatchKind::Refund => "refund",
            BatchKind::Cancel => "cancel",
        }
    }
}

/// The account book that an operation settles.
pub open spec fn ledger(kind: BatchKind, c: CampaignView) -> Seq<Entry> {
    match kind {
        BatchKind::CollectPledges => c.pledges,
        _ => c.contributions,
    }
}

/// The stored state with that account book replaced.
pub open spec fn with_ledger(kind: BatchKind, c: CampaignView, s: Seq<Entry>) -> CampaignView {
    match kind {
        BatchKind::CollectPledges => CampaignView { pledges: s, ..c },
        _ => CampaignView { contributions: s, ..c },
    }
}

/// The storage key of a participant's line.
pub open spec fn line_key(kind: BatchKind, who: Address) -> DataKey {
    match kind {
        BatchKind::CollectPledges => DataKey::Pledge(who),
        _ => DataKey::Contribution(who),
    }
}

/// The transfer that settles a line.
pub open spec fn attempt(kind: BatchKind, e: EnvView, line: Entry) -> Effect<Seq<u8>> {
    match kind {
        BatchKind::CollectPledges => Effect::TryTransfer {
            token: e.campaign.token,
            from: line.who,
            to: e.contract,
            amount: line.amount,
        },
        _ => Effect::TryTransfer {
            token: e.campaign.token,
            from: e.contract,
            to: line.who,
            amount: line.amount,
        },
    }
}

/// What follows once it is known whether the transfer went through.
pub open spec fn reply_effects(kind: BatchKind, line: Entry, delivered: bool) -> Seq<
    Effect<Seq<u8>>,
> {
    let bump = persistent_bump(line_key(kind, line.who));
    if !delivered {
        seq![
            bump,
            publication(
                Event::TransferSkipped {
                    participant: line.who,
                    amount: line.amount,
                    context: kind,
                },
            ),
        ]
    } else if kind is CollectPledges {
        seq![bump]
    } else {
        seq![bump, publication(Event::Refunded { backer: line.who, amount: line.amount })]
    }
}

/// A line after its turn.
pub open spec fn settled_line(line: Entry, delivered: bool) -> Entry {
    if line.amount > 0 && delivered {
        Entry { who: line.who, amount: 0 }
    } else {
        line
    }
}

/// The book after the first `k` lines had their turn. `delivered[i]` says whether the
/// token let the transfer for line `i` through.
pub open spec fn settled(s: Seq<Entry>, delivered: Seq<bool>, k: int) -> Seq<Entry> {
    Seq::new(
        s.len(),
        |i: int|
            if i < k {
                settled_line(s[i], delivered[i])
            } else {
                s[i]
            },
    )
}

/// What the first `k` transfers moved.
pub open spec fn moved(s: Seq<Entry>, delivered: Seq<bool>, k: int) -> int
    decreases k,
{
    if k <= 0 {
        0
    } else if s[k - 1].amount > 0 && delivered[k - 1] {
        moved(s, delivered, k - 1) + s[k - 1].amount
    } else {
        moved(s, delivered, k - 1)
    }
}

/// How many of the first `k` lines owe something that could not be moved.
pub open spec fn skipped(s: Seq<Entry>, delivered: Seq<bool>, k: int) -> int
    decreases k,
{
    if k <= 0 {
        0
    } else if s[k - 1].amount > 0 && !delivered[k - 1] {
        skipped(s, delivered, k - 1) + 1
    } else {
        skipped(s, delivered, k - 1)
    }
}

/// What the first `k` lines ask of the host, in order.
pub open spec fn walk_effects(
    kind: BatchKind,
    e: EnvView,
    s: Seq<Entry>,
    delivered: Seq<bool>,
    k: int,
) -> Seq<Effect<Seq<u8>>>
    decreases k,
{
    if k <= 0 {
        Seq::empty()
    } else if s[k - 1].amount > 0 {
        walk_effects(kind, e, s, delivered, k - 1).push(attempt(kind, e, s[k - 1]))
            + reply_effects(kind, s[k - 1], delivered[k - 1])
    } else {
        walk_effects(kind, e, s, delivered, k - 1)
    }
}

/// The invocation after the books are closed: the totals follow what moved, and only a
/// batch that skipped nobody ends the campaign.
pub open spec fn closed(kind: BatchKind, e: EnvView, amount: int, skips: int) -> EnvView {
    let c = e.campaign;
    match kind {
        BatchKind::CollectPledges => e.with_campaign(
            CampaignView {
                total_raised: c.total_raised + amount,
                total_pledged: c.total_pledged - amount,
                ..c
            },
        ).send(publication(Event::PledgesCollected { collected_total: amount as i128 })),
        BatchKind::Refund => e.with_campaign(
            CampaignView {
                total_raised: c.total_raised - amount,
                status: if skips == 0 {
                    Status::Refunded
                } else {
                    c.status
                },
                ..c
            },
        ),
        BatchKind::Cancel => {
            let paid = CampaignView { total_raised: c.total_raised - amount, ..c };
            if skips == 0 {
                e.with_campaign(CampaignView { status: Status::Cancelled, ..paid }).send(
                    publication(Event::Cancelled),
                )
            } else {
                e.with_campaign(paid)
            }
        },
    }
}

/// The invocation after the first `k` lines had their turn.
pub open spec fn walked(kind: BatchKind, e: EnvView, delivered: Seq<bool>, k: int) -> EnvView {
    let s = ledger(kind, e.campaign);
    e.with_campaign(with_ledger(kind, e.campaign, settled(s, delivered, k))).send_all(
        walk_effects(kind, e, s, delivered, k),
    )
}

/// The invocation after the whole batch.
pub open spec fn batch_result(kind: BatchKind, e: EnvView, delivered: Seq<bool>) -> EnvView {
    let s = ledger(kind, e.campaign);
    let n = s.len() as int;
    closed(kind, walked(kind, e, delivered, n), moved(s, delivered, n), skipped(s, delivered, n))
}

/// Why collecting the pledges is refused before the totals are looked at, if it is.
pub open spec fn collection_guard(e: EnvView) -> Option<ContractError> {
    let c = e.campaign;
    if c.status !is Active {
        Some(ContractError::CampaignNotActive)
    } else if c.milestones.len() > 0 {
        Some(ContractError::MilestoneModeActive)
    } else if e.now <= c.deadline {
        Some(ContractError::CampaignStillActive)
    } else {
        None
    }
}

/// Whether adding up what is raised and pledged stays within its type.
pub open spec fn collection_in_range(e: EnvView) -> bool {
    collection_guard(e) is None ==> e.campaign.total_raised + e.campaign.total_pledged
        <= i128::MAX
}

/// Whether there is one outcome for every line of a batch.
pub open spec fn outcomes_fit(kind: BatchKind, e: EnvView, delivered: Seq<bool>) -> bool {
    delivered.len() == ledger(kind, e.campaign).len()
}

/// Why collecting the pledges is refused, if it is.
pub open spec fn collect_refusal(e: EnvView) -> Option<ContractError> {
    if collection_guard(e) is Some {
        collection_guard(e)
    } else if e.campaign.total_raised + e.campaign.total_pledged < e.campaign.goal {
        Some(ContractError::GoalNotReached)
    } else {
        None
    }
}

/// Why a refund to everybody is refused, if it is.
pub open spec fn refund_refusal(e: EnvView) -> Option<ContractError> {
    let c = e.campaign;
    if c.status !is Active {
        Some(ContractError::CampaignNotActive)
    } else if e.now <= c.deadline {
        Some(ContractError::CampaignStillActive)
    } else if c.total_raised >= c.goal {
        Some(ContractError::GoalReached)
    } else {
        None
    }
}

/// Why cancelling is refused, if it is.
pub open spec fn cancel_refusal(e: EnvView) -> Option<ContractError> {
    let c = e.campaign;
    if c.status !is Active {
        Some(ContractError::CampaignNotActive)
    } else if c.milestones.len() > 0 {
        Some(ContractError::MilestoneModeActive)
    } else {
        None
    }
}

/// The invocation after a call that collects the pledges.
pub open spec fn collected(e: EnvView, delivered: Seq<bool>) -> EnvView {
    if collect_refusal(e) is Some {
        e
    } else {
        batch_result(BatchKind::CollectPledges, e.extended(), delivered)
    }
}

/// The invocation after a call that refunds everybody.
pub open spec fn refunded(e: EnvView, delivered: Seq<bool>) -> EnvView {
    if refund_refusal(e) is Some {
        e
    } else {
        batch_result(BatchKind::Refund, e.extended(), delivered)
    }
}

/// The invocation after a call that cancels.
pub open spec fn cancelled(e: EnvView, delivered: Seq<bool>) -> EnvView {
    if cancel_refusal(e) is Some {
        e
    } else {
        batch_result(BatchKind::Cancel, e.extended().demand(e.campaign.creator), delivered)
    }
}

/// What one step of a batch came to.
#[derive(Clone, Copy, Debug, PartialEq, Eq, Structural)]
pub enum BatchStep {
    /// A `TryTransfer` is the last thing in the outbox; its outcome is awaited.
    Sent,
    /// The line had nothing on it and was passed over.
    NothingOwed,
    /// Every line has had its turn.
    Finished,
}

/// A batch under way.
pub struct Batch {
    pub kind: BatchKind,
    /// The line whose turn it is.
    pub next: usize,
    /// What that line held before it was cleared for a transfer that is under way; 0
    /// while none is.
    pub outstanding: i128,
    /// What moved so far.
    pub moved: i128,
    /// How many transfers failed so far.
    pub skipped: u32,
}

impl Batch {
    /// The batch fits the invocation it runs in, and its sum stays within its type.
    pub open spec fn fits(self, e: EnvView) -> bool {
        let s = ledger(self.kind, e.campaign);
        &&& book_wf(s)
        &&& s.len() <= u32::MAX
        &&& self.next <= s.len()
        &&& self.skipped <= self.next
        &&& self.moved >= 0
        &&& self.outstanding >= 0
        &&& self.outstanding > 0 ==> self.next < s.len() && s[self.next as int].amount == 0
        &&& self.moved + self.outstanding <= i128::MAX
    }

    /// A batch that has not begun.
    pub open spec fn spec_new(kind: BatchKind) -> Batch {
        Batch { kind, next: 0, outstanding: 0, moved: 0, skipped: 0 }
    }

    fn new(kind: BatchKind) -> (b: Batch)
        ensures
            b == Batch::spec_new(kind),
    {
        Batch { kind, next: 0, outstanding: 0, moved: 0, skipped: 0 }
    }

    /// Takes the next line: clears it and sends out its transfer, or passes over it.
    pub fn advance(&mut self, env: &mut Env) -> (r: BatchStep)
        requires
            old(self).fits(old(env)@),
            old(self).outstanding == 0,
            ({
                let s = ledger(old(self).kind, old(env)@.campaign);
                old(self).next < s.len() ==> old(self).moved + s[old(self).next as int].amount
                    <= i128::MAX
            }),
        ensures
            final(self).fits(final(env)@),
            ({
                let s = ledger(old(self).kind, old(env)@.campaign);
                let i = old(self).next as int;
                if i == s.len() {
                    &&& r is Finished
                    &&& *final(self) == *old(self)
                    &&& final(env)@ == old(env)@
                } else if s[i].amount <= 0 {
                    &&& r is NothingOwed
                    &&& *final(self) == Batch { next: (i + 1) as usize, ..*old(self) }
                    &&& final(env)@ == old(env)@
                } else {
                    &&& r is Sent
                    &&& *final(self) == Batch { outstanding: s[i].amount, ..*old(self) }
                    &&& final(env)@ == old(env)@.with_campaign(
                        with_ledger(
                            old(self).kind,
                            old(env)@.campaign,
                            s.update(i, Entry { who: s[i].who, amount: 0 }),
                        ),
                    ).send(attempt(old(self).kind, old(env)@, s[i]))
                }
            }),
    {
        let ghost e0 = env@;
        let ghost s = ledger(self.kind, env@.campaign);
        let token = env.campaign.token;
        let contract = env.contract;
        let i: usize = self.next;
        match self.kind {
            BatchKind::CollectPledges => {
                if i >= env.campaign.pledges.entries.len() {
                    return BatchStep::Finished;
                }
                let line = env.campaign.pledges.entries[i];
                if line.amount <= 0 {
                    self.next = i + 1;
                    return BatchStep::NothingOwed;
                }
                self.outstanding = line.amount;
                env.campaign.pledges.entries.set(i, Entry { who: line.who, amount: 0 });
                env.record(
                    Effect::TryTransfer {
                        token,
                        from: line.who,
                        to: contract,
                        amount: line.amount,
                    },
                );
            },
            _ => {
                if i >= env.campaign.contributions.entries.len() {
                    return BatchStep::Finished;
                }
                let line = env.campaign.contributions.entries[i];
                if line.amount <= 0 {
                    self.next = i + 1;
                    return BatchStep::NothingOwed;
                }
                self.outstanding = line.amount;
                env.campaign.contributions.entries.set(i, Entry { who: line.who, amount: 0 });
                env.record(
                    Effect::TryTransfer {
                        token,
                        from: contract,
                        to: line.who,
                        amount: line.amount,
                    },
                );
            },
        }
        proof {
            assert(env@ =~= e0.with_campaign(
                with_ledger(
                    self.kind,
                    e0.campaign,
                    s.update(i as int, Entry { who: s[i as int].who, amount: 0 }),
                ),
            ).send(attempt(self.kind, e0, s[i as int])));
        }
        BatchStep::Sent
    }

    /// Takes note of whether the transfer that is under way went through. If it did not,
    /// the line is restored.
    pub fn reply(&mut self, env: &mut Env, delivered: bool)
        requires
            old(self).fits(old(env)@),
            old(self).outstanding > 0,
        ensures
            final(self).fits(final(env)@),
            ({
                let s = ledger(old(self).kind, old(env)@.campaign);
                let i = old(self).next as int;
                let line = Entry { who: s[i].who, amount: old(self).outstanding };
                let done = Batch { next: (i + 1) as usize, outstanding: 0, ..*old(self) };
                if delivered {
                    &&& *final(self) == Batch {
                        moved: (old(self).moved + line.amount) as i128,
                        ..done
                    }
                    &&& final(env)@ == old(env)@.send_all(
                        reply_effects(old(self).kind, line, true),
                    )
                } else {
                    &&& *final(self) == Batch { skipped: (old(self).skipped + 1) as u32, ..done }
                    &&& final(env)@ == old(env)@.with_campaign(
                        with_ledger(old(self).kind, old(env)@.campaign, s.update(i, line)),
                    ).send_all(reply_effects(old(self).kind, line, false))
                }
            }),
    {
        let ghost e0 = env@;
        let ghost s = ledger(self.kind, env@.campaign);
        let i: usize = self.next;
        let kind = self.kind;
        let amount: i128 = self.outstanding;
        let who: Address;
        let key: DataKey;
        match kind {
            BatchKind::CollectPledges => {
                who = env.campaign.pledges.entries[i].who;
                key = DataKey::Pledge(who);
            },
            _ => {
                who = env.campaign.contributions.entries[i].who;
                key = DataKey::Contribution(who);
            },
        }
        let ghost line = Entry { who, amount };
        self.next = i + 1;
        self.outstanding = 0;
        if delivered {
            bump_persistent(env, key);
            self.moved = self.moved + amount;
            if kind != BatchKind::CollectPledges {
                emit_refunded(env, who, amount);
            }
            assert(env@ =~= e0.send_all(reply_effects(kind, line, true)));
        } else {
            match kind {
                BatchKind::CollectPledges => {
                    env.campaign.pledges.entries.set(i, Entry { who, amount });
                },
                _ => {
                    env.campaign.contributions.entries.set(i, Entry { who, amount });
                },
            }
            bump_persistent(env, key);
            self.skipped = self.skipped + 1;
            emit_transfer_skipped(env, who, amount, kind);
            assert(env@ =~= e0.with_campaign(
                with_ledger(kind, e0.campaign, s.update(i as int, line)),
            ).send_all(reply_effects(kind, line, false)));
        }
    }

    /// Closes the books of a batch in which every line has had its turn.
    pub fn finish(self, env: &mut Env)
        requires
            self.fits(old(env)@),
            self.outstanding == 0,
            self.next == ledger(self.kind, old(env)@.campaign).len(),
            self.kind is CollectPledges ==> {
                &&& old(env)@.campaign.total_raised + self.moved <= i128::MAX
                &&& old(env)@.campaign.total_pledged - self.moved >= i128::MIN
            },
            self.kind !is CollectPledges ==> old(env)@.campaign.total_raised - self.moved
                >= i128::MIN,
        ensures
            final(env)@ == closed(self.kind, old(env)@, self.moved as int, self.skipped as int),
    {
        match self.kind {
            BatchKind::CollectPledges => {
                env.campaign.total_raised = env.campaign.total_raised + self.moved;
                env.campaign.total_pledged = env.campaign.total_pledged - self.moved;
                env.record(
                    Effect::Publish {
                        event: Event::PledgesCollected { collected_total: self.moved },
                    },
                );
            },
            BatchKind::Refund => {
                env.campaign.total_raised = env.campaign.total_raised - self.moved;
                if self.skipped == 0 {
                    env.campaign.status = Status::Refunded;
                }
            },
            BatchKind::Cancel => {
                env.campaign.total_raised = env.campaign.total_raised - self.moved;
                if self.skipped == 0 {
                    env.campaign.status = Status::Cancelled;
                    emit_cancelled(env);
                }
            },
        }
    }
}

/// A batch takes off the book exactly what it moves, and leaves it well-formed.
pub proof fn lemma_settled(s: Seq<Entry>, delivered: Seq<bool>, k: int)
    requires
        book_wf(s),
        0 <= k <= s.len(),
        s.len() <= delivered.len(),
    ensures
        book_wf(settled(s, delivered, k)),
        total(settled(s, delivered, k)) == total(s) - moved(s, delivered, k),
        0 <= moved(s, delivered, k) <= total(s),
        0 <= skipped(s, delivered, k) <= k,
    decreases k,
{
    if k == 0 {
        assert(settled(s, delivered, 0) =~= s);
        lemma_total_nonneg(s);
    } else {
        let i = k - 1;
        lemma_settled(s, delivered, i);
        let before = settled(s, delivered, i);
        let after = settled(s, delivered, k);
        assert(after =~= before.update(i, settled_line(s[i], delivered[i])));
        lemma_total_update(before, i, settled_line(s[i], delivered[i]));
        assert(book_wf(after));
        lemma_total_nonneg(after);
    }
}

/// A whole batch keeps a campaign well-formed.
pub proof fn lemma_batch_wf(kind: BatchKind, e: EnvView, delivered: Seq<bool>)
    requires
        e.campaign.wf(),
        e.campaign.status is Active,
        kind is Refund || e.campaign.milestones.len() == 0,
        ledger(kind, e.campaign).len() <= delivered.len(),
    ensures
        batch_result(kind, e, delivered).campaign.wf(),
        kind is Refund ==> batch_result(kind, e, delivered).campaign.total_raised
            >= -e.campaign.milestone_basis,
{
    let s = ledger(kind, e.campaign);
    let t = settled(s, delivered, s.len() as int);
    lemma_settled(s, delivered, s.len() as int);
    lemma_total_nonneg(t);
    if e.campaign.milestones.len() > 0 {
        assert(cleared(s, t));
        lemma_refund_keeps_schedule(e.campaign, batch_result(kind, e, delivered).campaign);
    }
}

/// Runs a fresh batch over all lines with the given outcomes of its transfers.
fn run_batch(fresh: Batch, env: &mut Env, delivered: &Vec<bool>)
    requires
        fresh == Batch::spec_new(fresh.kind),
        old(env)@.campaign.wf(),
        old(env)@.campaign.status is Active,
        fresh.kind is Refund || old(env)@.campaign.milestones.len() == 0,
        ledger(fresh.kind, old(env)@.campaign).len() == delivered@.len(),
        fresh.kind is CollectPledges ==> old(env)@.campaign.total_raised
            + old(env)@.campaign.total_pledged <= i128::MAX,
    ensures
        final(env)@ == batch_result(fresh.kind, old(env)@, delivered@),
        final(env)@.campaign.wf(),
{
    let ghost e0 = env@;
    let ghost kind = fresh.kind;
    let ghost s = ledger(kind, env@.campaign);
    let ghost n = s.len() as int;
    let ghost d = delivered@;
    let mut batch = fresh;
    proof {
        assert(settled(s, d, 0) =~= s);
        assert(env@ =~= walked(kind, e0, d, 0));
        assert(total(s) <= i128::MAX);
    }
    while batch.next < delivered.len()
        invariant
            batch.kind == kind,
            batch.outstanding == 0,
            batch.fits(env@),
            d == delivered@,
            s == ledger(kind, e0.campaign),
            book_wf(s),
            total(s) <= i128::MAX,
            s.len() == d.len(),
            n == s.len(),
            batch.next <= n,
            env@ == walked(kind, e0, d, batch.next as int),
            batch.moved == moved(s, d, batch.next as int),
            batch.skipped == skipped(s, d, batch.next as int),
        decreases n - batch.next,
    {
        let i: usize = batch.next;
        let ghost k = i as int;
        let ghost w = env@;
        assert(settled(s, d, k)[k] == s[k]);
        proof {
            lemma_settled(s, d, k);
            lemma_line_within_total(settled(s, d, k), k);
        }
        assert(settled(s, d, k + 1) =~= settled(s, d, k).update(k, settled_line(s[k], d[k])));
        match batch.advance(env) {
            BatchStep::Sent => {
                let went_through: bool = delivered[i];
                batch.reply(env, went_through);
                assert(settled(s, d, k).update(k, Entry { who: s[k].who, amount: 0 }).update(
                    k,
                    s[k],
                ) =~= settled(s, d, k));
                assert(env@.outbox =~= w.outbox.push(attempt(kind, e0, s[k])) + reply_effects(
                    kind,
                    s[k],
                    d[k],
                ));
                assert(env@ =~= walked(kind, e0, d, k + 1));
            },
            _ => {
                assert(settled(s, d, k + 1) =~= settled(s, d, k));
                assert(env@ =~= walked(kind, e0, d, k + 1));
            },
        }
    }
    proof {
        lemma_settled(s, d, n);
        lemma_total_nonneg(settled(s, d, n));
        lemma_batch_wf(kind, e0, d);
    }
    batch.finish(env);
}

impl CrowdfundContract {
    /// Checks whether it is time to collect the pledges, before the totals are looked at.
    pub fn admit_collection(env: &Env) -> (r: Result<(), ContractError>)
        ensures
            r == outcome(collection_guard(env@)),
    {
        if env.campaign.status != Status::Active {
            return Err(ContractError::CampaignNotActive);
        }
        if env.campaign.milestones.len() > 0 {
            return Err(ContractError::MilestoneModeActive);
        }
        if env.now <= env.campaign.deadline {
            return Err(ContractError::CampaignStillActive);
        }
        Ok(())
    }

    /// Opens the collection of pledges. The host carries out its transfers step by step
    /// (`Batch::advance`, `Batch::reply`) and closes it (`Batch::finish`).
    pub fn begin_collect_pledges(env: &mut Env) -> (r: Result<Batch, ContractError>)
        requires
            old(env)@.campaign.wf(),
            collection_in_range(old(env)@),
        ensures
            r == (match collect_refusal(old(env)@) {
                Some(error) => Err(error),
                None => Ok(Batch::spec_new(BatchKind::CollectPledges)),
            }),
            r is Err ==> final(env)@ == old(env)@,
            r is Ok ==> final(env)@ == old(env)@.extended(),
            r matches Ok(b) ==> b.fits(final(env)@),
    {
        match CrowdfundContract::admit_collection(env) {
            Err(error) => {
                return Err(error);
            },
            Ok(()) => {},
        }
        proof {
            lemma_total_nonneg(env@.campaign.pledges);
        }
        if env.campaign.total_raised + env.campaign.total_pledged < env.campaign.goal {
            return Err(ContractError::GoalNotReached);
        }
        extend_instance_ttl(env);
        Ok(Batch::new(BatchKind::CollectPledges))
    }

    /// Collects all pledges after the deadline when contributions and pledges together
    /// meet the goal. `delivered[i]` says whether the token let the transfer from the
    /// `i`-th pledger through (it plays no part for one who owes nothing).
    pub fn collect_pledges(env: &mut Env, delivered: &Vec<bool>) -> (r: Result<(), ContractError>)
        requires
            old(env)@.campaign.wf(),
            collection_in_range(old(env)@),
            collect_refusal(old(env)@) is None ==> outcomes_fit(
                BatchKind::CollectPledges,
                old(env)@,
                delivered@,
            ),
        ensures
            r == outcome(collect_refusal(old(env)@)),
            final(env)@.campaign.wf(),
            final(env)@ == collected(old(env)@, delivered@),
    {
        match CrowdfundContract::begin_collect_pledges(env) {
            Err(error) => Err(error),
            Ok(batch) => {
                run_batch(batch, env, delivered);
                Ok(())
            },
        }
    }

    /// Checks whether a refund to everybody is due.
    pub fn admit_refund(env: &Env) -> (r: Result<(), ContractError>)
        ensures
            r == outcome(refund_refusal(env@)),
    {
        if env.campaign.status != Status::Active {
            return Err(ContractError::CampaignNotActive);
        }
        if env.now <= env.campaign.deadline {
            return Err(ContractError::CampaignStillActive);
        }
        if env.campaign.total_raised >= env.campaign.goal {
            return Err(ContractError::GoalReached);
        }
        Ok(())
    }

    /// Opens the refund to everybody; see `begin_collect_pledges`.
    pub fn begin_refund(env: &mut Env) -> (r: Result<Batch, ContractError>)
        requires
            old(env)@.campaign.wf(),
            refund_refusal(old(env)@) is None ==> old(env)@.campaign.contributors_stored,
        ensures
            r == (match refund_refusal(old(env)@) {
                Some(error) => Err(error),
                None => Ok(Batch::spec_new(BatchKind::Refund)),
            }),
            r is Err ==> final(env)@ == old(env)@,
            r is Ok ==> final(env)@ == old(env)@.extended(),
            r matches Ok(b) ==> b.fits(final(env)@),
    {
        match CrowdfundContract::admit_refund(env) {
            Err(error) => {
                return Err(error);
            },
            Ok(()) => {},
        }
        extend_instance_ttl(env);
        Ok(Batch::new(BatchKind::Refund))
    }

    /// Refunds all contributors in a single batch after the deadline when less than the goal
    /// is raised. Deprecated in favour of `refund_single`, with which every contributor
    /// decides when to claim. `delivered[i]` says whether the token let the transfer to the `i`-th
    /// contributor through (it plays no part for one who is owed nothing).
    pub fn refund(env: &mut Env, delivered: &Vec<bool>) -> (r: Result<(), ContractError>)
        requires
            old(env)@.campaign.wf(),
            refund_refusal(old(env)@) is None ==> {
                &&& old(env)@.campaign.contributors_stored
                &&& outcomes_fit(BatchKind::Refund, old(env)@, delivered@)
            },
        ensures
            r == outcome(refund_refusal(old(env)@)),
            final(env)@.campaign.wf(),
            final(env)@ == refunded(old(env)@, delivered@),
    {
        match CrowdfundContract::begin_refund(env) {
            Err(error) => Err(error),
            Ok(batch) => {
                run_batch(batch, env, delivered);
                Ok(())
            },
        }
    }

    /// Opens the cancellation; see `begin_collect_pledges`. The creator must have signed.
    pub fn begin_cancel(env: &mut Env) -> (r: Result<Batch, ContractError>)
        requires
            old(env)@.campaign.wf(),
        ensures
            r == (match cancel_refusal(old(env)@) {
                Some(error) => Err(error),
                None => Ok(Batch::spec_new(BatchKind::Cancel)),
            }),
            r is Err ==> final(env)@ == old(env)@,
            r is Ok ==> final(env)@ == old(env)@.extended().demand(old(env)@.campaign.creator),
            r matches Ok(b) ==> b.fits(final(env)@),
    {
        if env.campaign.status != Status::Active {
            return Err(ContractError::CampaignNotActive);
        }
        if env.campaign.milestones.len() > 0 {
            return Err(ContractError::MilestoneModeActive);
        }
        let creator = env.campaign.creator;
        env.require_auth(creator);
        extend_instance_ttl(env);
        Ok(Batch::new(BatchKind::Cancel))
    }

    /// Cancels the campaign and refunds all contributors. The creator must have signed.
    /// `delivered[i]` says whether the token let the transfer to the `i`-th contributor
    /// through (it plays no part for one who is owed nothing).
    pub fn cancel(env: &mut Env, delivered: &Vec<bool>) -> (r: Result<(), ContractError>)
        requires
            old(env)@.campaign.wf(),
            cancel_refusal(old(env)@) is None ==> outcomes_fit(
                BatchKind::Cancel,
                old(env)@,
                delivered@,
            ),
        ensures
            r == outcome(cancel_refusal(old(env)@)),
            final(env)@.campaign.wf(),
            final(env)@ == cancelled(old(env)@, delivered@),
    {
        match CrowdfundContract::begin_cancel(env) {
            Err(error) => Err(error),
            Ok(batch) => {
                run_batch(batch, env, delivered);
                Ok(())
            },
        }
    }
}

} // verus!
