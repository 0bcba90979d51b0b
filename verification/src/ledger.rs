//! Tip ledger: the append-only collection of recorded transfers. The external
//! transaction signature is the idempotency key: the ledger accepts a given
//! signature exactly once, and reports a repeat as a duplicate rather than
//! recording a second row. Rows are kept ordered by creation time, the order
//! in which the most-recent queries read them back.
use crate::creator::{has_creator, opt_view, CreatorModel, Registry};
use vstd::prelude::*;

verus! {

/// One recorded, externally-originated transfer attributed to a creator.
pub struct Tip {
    pub id: u64,
    pub creator_id: u64,
    pub sender_wallet: String,
    pub amount: i64,
    pub message: Option<String>,
    pub signature: String,
    pub created_at: u64,
}

/// Mathematical image of a `Tip`. The amount is a count of minimal currency
/// units; the signature is the external transaction's unique signature text.
pub struct TipModel {
    pub id: u64,
    pub creator_id: u64,
    pub sender_wallet: Seq<char>,
    pub amount: i64,
    pub message: Option<Seq<char>>,
    pub signature: Seq<char>,
    pub created_at: u64,
}

impl View for Tip {
    type V = TipModel;

    open spec fn view(&self) -> TipModel {
        TipModel {
            id: self.id,
            creator_id: self.creator_id,
            sender_wallet: self.sender_wallet@,
            amount: self.amount,
            message: opt_view(self.message),
            signature: self.signature@,
            created_at: self.created_at,
        }
    }
}

/// A client- or webhook-supplied report of a transfer. `amount` is a count of
/// minimal currency units.
pub struct CreateTipInput {
    pub creator_id: u64,
    pub sender_wallet: String,
    pub amount: i64,
    pub message: Option<String>,
    pub signature: String,
}

#[derive(PartialEq, Eq, Structural, Clone, Copy, Debug)]
pub enum TipError {
    InvalidAmount,
    CreatorNotFound,
    DuplicateSignature,
}

/// What a successful insert hands back: the assigned id and timestamp.
#[derive(PartialEq, Eq, Structural, Clone, Copy, Debug)]
pub struct TipReceipt {
    pub id: u64,
    pub created_at: u64,
}

/// The terminal state of one reported tip: accepted into the ledger, a
/// duplicate of an already-recorded signature, or rejected outright.
#[derive(PartialEq, Eq, Structural, Clone, Copy, Debug)]
pub enum TipOutcome {
    Accepted(TipReceipt),
    Duplicate,
    Rejected(TipError),
}

/// True when some recorded tip carries `sig`.
pub open spec fn sig_present(s: Seq<TipModel>, sig: Seq<char>) -> bool {
    exists|i: int| 0 <= i < s.len() && s[i].signature == sig
}

/// How many recorded tips carry `sig`.
pub open spec fn sig_count(s: Seq<TipModel>, sig: Seq<char>) -> int
    decreases s.len(),
{
    if s.len() == 0 {
        0
    } else {
        sig_count(s.drop_last(), sig) + if s.last().signature == sig {
            1int
        } else {
            0int
        }
    }
}

/// True when some recorded tip references creator `creator_id`.
pub open spec fn has_tip_for(s: Seq<TipModel>, creator_id: u64) -> bool {
    exists|i: int| 0 <= i < s.len() && s[i].creator_id == creator_id
}

/// Rows are ordered by creation time, oldest first.
pub open spec fn time_sorted(s: Seq<TipModel>) -> bool {
    forall|i: int, j: int| 0 <= i < j < s.len() ==> s[i].created_at <= s[j].created_at
}

/// The row produced by a successful insert.
pub open spec fn fresh_tip(input: CreateTipInput, id: u64, now: u64) -> TipModel {
    TipModel {
        id: id,
        creator_id: input.creator_id,
        sender_wallet: input.sender_wallet@,
        amount: input.amount,
        message: opt_view(input.message),
        signature: input.signature@,
        created_at: now,
    }
}

/// Insert a row into a time-sorted ledger, after every row that is not newer
/// than it.
pub open spec fn ledger_insert(s: Seq<TipModel>, t: TipModel) -> Seq<TipModel>
    decreases s.len(),
{
    if s.len() == 0 || s.last().created_at <= t.created_at {
        s.push(t)
    } else {
        ledger_insert(s.drop_last(), t).push(s.last())
    }
}

/// A report is accepted exactly when the amount is positive, the creator
/// exists and the signature has not been recorded before.
pub open spec fn tip_accepted(
    reg: Seq<CreatorModel>,
    tips: Seq<TipModel>,
    input: CreateTipInput,
) -> bool {
    input.amount > 0 && has_creator(reg, input.creator_id) && !sig_present(
        tips,
        input.signature@,
    )
}

/// Which error a refused report draws, checked in this order: amount first,
/// then the creator reference, then the idempotency key.
pub open spec fn record_error(
    reg: Seq<CreatorModel>,
    tips: Seq<TipModel>,
    input: CreateTipInput,
) -> TipError {
    if input.amount <= 0 {
        TipError::InvalidAmount
    } else if !has_creator(reg, input.creator_id) {
        TipError::CreatorNotFound
    } else {
        TipError::DuplicateSignature
    }
}

/// The tips of one creator, newest first.
pub open spec fn tips_for_creator_desc(s: Seq<TipModel>, creator_id: u64) -> Seq<TipModel>
    decreases s.len(),
{
    if s.len() == 0 {
        Seq::empty()
    } else {
        let rest = tips_for_creator_desc(s.skip(1), creator_id);
        if s[0].creator_id == creator_id {
            rest.push(s[0])
        } else {
            rest
        }
    }
}

/// The newest `limit` rows across all creators, newest first.
pub open spec fn recent_tips(s: Seq<TipModel>, limit: nat) -> Seq<TipModel> {
    Seq::new(
        if s.len() <= limit {
            s.len()
        } else {
            limit
        },
        |j: int| s[s.len() - 1 - j],
    )
}

/// The view a sequence of rows presents.
pub open spec fn views_of(s: Seq<Tip>) -> Seq<TipModel> {
    Seq::new(s.len(), |i: int| s[i]@)
}

/// The ledger. `next_id` is the surrogate id the next accepted row receives.
pub struct TipLedger {
    pub tips: Vec<Tip>,
    pub next_id: u64,
}

impl View for TipLedger {
    type V = Seq<TipModel>;

    open spec fn view(&self) -> Seq<TipModel> {
        views_of(self.tips@)
    }
}

impl TipLedger {
    /// Rows are time-sorted; signatures and ids are unique, ids below
    /// `next_id`.
    pub open spec fn wf(self) -> bool {
        &&& time_sorted(self@)
        &&& forall|i: int, j: int|
            0 <= i < j < self@.len() ==> self@[i].signature != self@[j].signature
        &&& forall|i: int, j: int| 0 <= i < j < self@.len() ==> self@[i].id != self@[j].id
        &&& forall|i: int| 0 <= i < self@.len() ==> self@[i].id < self.next_id
    }

    /// An empty ledger; ids are assigned from 1 upward.
    pub fn new() -> (r: TipLedger)
        ensures
            r@ =~= Seq::<TipModel>::empty(),
            r.wf(),
            r.next_id == 1,
    {
        TipLedger { tips: Vec::new(), next_id: 1 }
    }

    /// True when some recorded tip references this creator.
    #[verifier::loop_isolation(false)]
    pub fn has_tips_for_creator(&self, creator_id: u64) -> (r: bool)
        ensures
            r == has_tip_for(self@, creator_id),
    {
        let n = self.tips.len();
        for i in 0..n
            invariant
                n == self.tips.len(),
                forall|j: int| 0 <= j < i ==> self@[j].creator_id != creator_id,
        {
            if self.tips[i].creator_id == creator_id {
                assert(self@[i as int].creator_id == creator_id);
                return true;
            }
        }
        false
    }

    /// Record a reported transfer at most once per signature. A positive
    /// amount and an existing creator are required for acceptance; a
    /// signature already in the ledger is reported as a duplicate and writes
    /// nothing. The refused branches leave the ledger exactly as it was.
    #[verifier::loop_isolation(false)]
    pub fn record_tip(
        &mut self,
        registry: &Registry,
        input: CreateTipInput,
        now: u64,
    ) -> (r: Result<TipReceipt, TipError>)
        requires
            old(self).wf(),
            registry.wf(),
            old(self).next_id < u64::MAX,
        ensures
            final(self).wf(),
            tip_accepted(registry@, old(self)@, input) ==> {
                &&& r == Ok::<TipReceipt, TipError>(
                    TipReceipt { id: old(self).next_id, created_at: now },
                )
                &&& final(self)@ == ledger_insert(
                    old(self)@,
                    fresh_tip(input, old(self).next_id, now),
                )
                &&& final(self).next_id == old(self).next_id + 1
            },
            !tip_accepted(registry@, old(self)@, input) ==> {
                &&& r == Err::<TipReceipt, TipError>(record_error(registry@, old(self)@, input))
                &&& final(self)@ == old(self)@
                &&& final(self).next_id == old(self).next_id
            },
    {
        if input.amount <= 0 {
            return Err(TipError::InvalidAmount);
        }
        if registry.get_creator(input.creator_id).is_none() {
            return Err(TipError::CreatorNotFound);
        }
        let n = self.tips.len();
        for i in 0..n
            invariant
                n == self.tips.len(),
                forall|j: int| 0 <= j < i ==> self@[j].signature != input.signature@,
        {
            if self.tips[i].signature == input.signature {
                assert(self@[i as int].signature == input.signature@);
                return Err(TipError::DuplicateSignature);
            }
        }
        let ghost pre = self@;
        let mut pos: usize = n;
        while pos > 0 && self.tips[pos - 1].created_at > now
            invariant
                pos <= n,
                n == self.tips.len(),
                self@ == pre,
                forall|j: int| pos <= j < n ==> self@[j].created_at > now,
            decreases pos,
        {
            pos = pos - 1;
        }
        let id = self.next_id;
        let tip = Tip {
            id,
            creator_id: input.creator_id,
            sender_wallet: input.sender_wallet,
            amount: input.amount,
            message: input.message,
            signature: input.signature,
            created_at: now,
        };
        assert(tip@ == fresh_tip(input, id, now));
        proof {
            lemma_ledger_insert_at(pre, fresh_tip(input, id, now), pos as int);
        }
        self.tips.insert(pos, tip);
        self.next_id = id + 1;
        assert(self@ =~= pre.insert(pos as int, fresh_tip(input, id, now)));
        assert(self.wf()) by {
            let p = pos as int;
            let t = fresh_tip(input, id, now);
            assert forall|a: int, b: int| 0 <= a < b < self@.len() implies self@[a].created_at
                <= self@[b].created_at && self@[a].signature != self@[b].signature && self@[a].id
                != self@[b].id by {
                if a < p && b < p {
                    assert(self@[a] == pre[a]);
                    assert(self@[b] == pre[b]);
                } else if a < p && b == p {
                    assert(self@[a] == pre[a]);
                    assert(self@[b] == t);
                    assert(pre[p - 1].created_at <= now);
                    assert(pre[a].created_at <= pre[p - 1].created_at);
                } else if a < p && b > p {
                    assert(self@[a] == pre[a]);
                    assert(self@[b] == pre[b - 1]);
                } else if a == p {
                    assert(self@[a] == t);
                    assert(self@[b] == pre[b - 1]);
                    assert(pre[b - 1].created_at > now);
                } else {
                    assert(self@[a] == pre[a - 1]);
                    assert(self@[b] == pre[b - 1]);
                }
            }
            assert forall|a: int| 0 <= a < self@.len() implies self@[a].id < self.next_id by {
                if a < p {
                    assert(self@[a] == pre[a]);
                } else if a > p {
                    assert(self@[a] == pre[a - 1]);
                } else {
                    assert(self@[a] == t);
                }
            }
        }
        Ok(TipReceipt { id, created_at: now })
    }

    /// The single funnel both ingestion entry points end in: the direct
    /// client report and the webhook report normalise to the same input shape
    /// and share this outcome mapping, so neither can bypass the idempotency
    /// guarantee. A duplicate is a recognised, non-fatal outcome, reported
    /// distinctly from a fresh accept.
    pub fn ingest_tip(
        &mut self,
        registry: &Registry,
        input: CreateTipInput,
        now: u64,
    ) -> (r: TipOutcome)
        requires
            old(self).wf(),
            registry.wf(),
            old(self).next_id < u64::MAX,
        ensures
            final(self).wf(),
            tip_accepted(registry@, old(self)@, input) ==> {
                &&& r == TipOutcome::Accepted(
                    TipReceipt { id: old(self).next_id, created_at: now },
                )
                &&& final(self)@ == ledger_insert(
                    old(self)@,
                    fresh_tip(input, old(self).next_id, now),
                )
                &&& final(self).next_id == old(self).next_id + 1
            },
            !tip_accepted(registry@, old(self)@, input) ==> {
                &&& final(self)@ == old(self)@
                &&& final(self).next_id == old(self).next_id
                &&& record_error(registry@, old(self)@, input) == TipError::DuplicateSignature
                    ==> r == TipOutcome::Duplicate
                &&& record_error(registry@, old(self)@, input) != TipError::DuplicateSignature
                    ==> r == TipOutcome::Rejected(record_error(registry@, old(self)@, input))
            },
    {
        match self.record_tip(registry, input, now) {
            Ok(receipt) => TipOutcome::Accepted(receipt),
            Err(TipError::DuplicateSignature) => TipOutcome::Duplicate,
            Err(e) => TipOutcome::Rejected(e),
        }
    }

    /// The tips recorded for one creator, newest first.
    #[verifier::loop_isolation(false)]
    pub fn get_tips_for_creator(&self, creator_id: u64) -> (r: Vec<Tip>)
        ensures
            views_of(r@) == tips_for_creator_desc(self@, creator_id),
    {
        let n = self.tips.len();
        let mut out: Vec<Tip> = Vec::new();
        let mut i = n;
        while i > 0
            invariant
                i <= n,
                n == self.tips.len(),
                views_of(out@) == tips_for_creator_desc(
                    self@.subrange(i as int, n as int),
                    creator_id,
                ),
            decreases i,
        {
            i = i - 1;
            let ghost before = self@.subrange(i + 1, n as int);
            let ghost here = self@.subrange(i as int, n as int);
            assert(here.skip(1) =~= before);
            assert(here[0] == self@[i as int]);
            if self.tips[i].creator_id == creator_id {
                out.push(clone_tip(&self.tips[i]));
                assert(views_of(out@) =~= tips_for_creator_desc(before, creator_id).push(
                    self@[i as int],
                ));
            }
        }
        assert(self@.subrange(0, n as int) =~= self@);
        out
    }

    /// The newest `limit` tips across all creators, newest first.
    #[verifier::loop_isolation(false)]
    pub fn get_recent_tips(&self, limit: usize) -> (r: Vec<Tip>)
        ensures
            views_of(r@) == recent_tips(self@, limit as nat),
    {
        let n = self.tips.len();
        let m = if limit < n {
            limit
        } else {
            n
        };
        let mut out: Vec<Tip> = Vec::new();
        let mut k: usize = 0;
        while k < m
            invariant
                k <= m,
                m <= n,
                n == self.tips.len(),
                m == if limit < n {
                    limit as int
                } else {
                    n as int
                },
                out@.len() == k,
                forall|j: int| 0 <= j < k ==> out@[j]@ == self.tips@[n - 1 - j]@,
            decreases m - k,
        {
            out.push(clone_tip(&self.tips[n - 1 - k]));
            k = k + 1;
        }
        assert(views_of(out@) =~= recent_tips(self@, limit as nat)) by {
            assert forall|j: int| 0 <= j < m implies views_of(out@)[j] == recent_tips(
                self@,
                limit as nat,
            )[j] by {
                assert(out@[j]@ == self.tips@[n - 1 - j]@);
                assert(self@[n - 1 - j] == self.tips@[n - 1 - j]@);
            }
        }
        out
    }
}

/// An owned copy of a row, field for field.
fn clone_tip(t: &Tip) -> (r: Tip)
    ensures
        r@ == t@,
{
    Tip {
        id: t.id,
        creator_id: t.creator_id,
        sender_wallet: t.sender_wallet.clone(),
        amount: t.amount,
        message: clone_opt_string(&t.message),
        signature: t.signature.clone(),
        created_at: t.created_at,
    }
}

fn clone_opt_string(s: &Option<String>) -> (r: Option<String>)
    ensures
        opt_view(r) == opt_view(*s),
{
    match s {
        Some(v) => Some(v.clone()),
        None => None,
    }
}

/// Where a time-sorted ledger places a new row: at `pos`, the first index
/// whose row is newer than the new one.
pub proof fn lemma_ledger_insert_at(s: Seq<TipModel>, t: TipModel, pos: int)
    requires
        time_sorted(s),
        0 <= pos <= s.len(),
        forall|j: int| pos <= j < s.len() ==> s[j].created_at > t.created_at,
        pos > 0 ==> s[pos - 1].created_at <= t.created_at,
    ensures
        ledger_insert(s, t) == s.insert(pos, t),
    decreases s.len(),
{
    if s.len() == 0 {
        assert(ledger_insert(s, t) =~= s.insert(pos, t));
    } else if s.last().created_at <= t.created_at {
        assert(pos == s.len());
        assert(ledger_insert(s, t) =~= s.insert(pos, t));
    } else {
        assert(pos < s.len());
        lemma_ledger_insert_at(s.drop_last(), t, pos);
        assert(ledger_insert(s, t) == s.drop_last().insert(pos, t).push(s.last()));
        assert(s.drop_last().insert(pos, t).push(s.last()) =~= s.insert(pos, t));
    }
}

/// Inserting a row adds exactly one occurrence of its signature and leaves
/// every other signature's count unchanged.
pub proof fn lemma_ledger_insert_count(s: Seq<TipModel>, t: TipModel, sig: Seq<char>)
    ensures
        sig_count(ledger_insert(s, t), sig) == sig_count(s, sig) + if t.signature == sig {
            1int
        } else {
            0int
        },
    decreases s.len(),
{
    if s.len() == 0 || s.last().created_at <= t.created_at {
        assert(s.push(t).drop_last() =~= s);
        assert(s.push(t).last() == t);
    } else {
        lemma_ledger_insert_count(s.drop_last(), t, sig);
        let rec = ledger_insert(s.drop_last(), t);
        assert(rec.push(s.last()).drop_last() =~= rec);
        assert(rec.push(s.last()).last() == s.last());
    }
}

/// The set of signatures the ledger has recorded.
pub open spec fn signatures_of(s: Seq<TipModel>) -> Set<Seq<char>> {
    Set::new(|sig: Seq<char>| sig_present(s, sig))
}

/// Law: a tip is accepted exactly once per signature. Once a report with a
/// fresh signature has landed, a later report carrying the same signature —
/// whatever its other fields — is refused as a duplicate, and the ledger
/// holds exactly one row for that signature.
pub proof fn lemma_record_exactly_once(
    reg: Seq<CreatorModel>,
    tips: Seq<TipModel>,
    first: CreateTipInput,
    second: CreateTipInput,
    id: u64,
    now: u64,
)
    requires
        tip_accepted(reg, tips, first),
        second.signature@ == first.signature@,
    ensures
        !tip_accepted(reg, ledger_insert(tips, fresh_tip(first, id, now)), second),
        record_error(reg, ledger_insert(tips, fresh_tip(first, id, now)), second)
            == TipError::DuplicateSignature || second.amount <= 0 || !has_creator(
            reg,
            second.creator_id,
        ),
        sig_count(ledger_insert(tips, fresh_tip(first, id, now)), first.signature@) == 1,
{
    let t = fresh_tip(first, id, now);
    lemma_ledger_insert_count(tips, t, first.signature@);
    lemma_sig_present_count(tips, first.signature@);
    lemma_sig_present_count(ledger_insert(tips, t), first.signature@);
}

/// The decision a serialised `record_tip` takes for each of a sequence of
/// calls, in the order the store serialises them: true where the call is
/// accepted, over the set of signatures recorded so far.
pub open spec fn accept_decisions(
    reg: Seq<CreatorModel>,
    sigs: Set<Seq<char>>,
    calls: Seq<CreateTipInput>,
) -> Seq<bool>
    decreases calls.len(),
{
    if calls.len() == 0 {
        Seq::empty()
    } else {
        let accepted = calls[0].amount > 0 && has_creator(reg, calls[0].creator_id)
            && !sigs.contains(calls[0].signature@);
        let next = if accepted {
            sigs.insert(calls[0].signature@)
        } else {
            sigs
        };
        seq![accepted] + accept_decisions(reg, next, calls.skip(1))
    }
}

/// How many of a sequence of decisions are accepts.
pub open spec fn count_true(s: Seq<bool>) -> int
    decreases s.len(),
{
    if s.len() == 0 {
        0
    } else {
        (if s[0] {
            1int
        } else {
            0int
        }) + count_true(s.skip(1))
    }
}

/// The per-call decision of `accept_decisions` is exactly `tip_accepted` at
/// the ledger whose recorded signatures are `signatures_of(tips)`.
pub proof fn lemma_decision_matches_ledger(
    reg: Seq<CreatorModel>,
    tips: Seq<TipModel>,
    input: CreateTipInput,
)
    ensures
        tip_accepted(reg, tips, input) == (input.amount > 0 && has_creator(reg, input.creator_id)
            && !signatures_of(tips).contains(input.signature@)),
{
}

/// An accepted insert grows the recorded signatures by exactly the new row's
/// signature.
pub proof fn lemma_insert_signatures(s: Seq<TipModel>, t: TipModel)
    ensures
        signatures_of(ledger_insert(s, t)) == signatures_of(s).insert(t.signature),
{
    assert forall|g: Seq<char>|
        signatures_of(ledger_insert(s, t)).contains(g) == signatures_of(s).insert(
            t.signature,
        ).contains(g) by {
        lemma_ledger_insert_count(s, t, g);
        lemma_sig_present_count(s, g);
        lemma_sig_present_count(ledger_insert(s, t), g);
    }
    assert(signatures_of(ledger_insert(s, t)) =~= signatures_of(s).insert(t.signature));
}

/// Once a signature is among the recorded ones, no call carrying it is ever
/// accepted, however many calls follow.
proof fn lemma_no_accept_when_present(
    reg: Seq<CreatorModel>,
    sigs: Set<Seq<char>>,
    calls: Seq<CreateTipInput>,
    sig: Seq<char>,
)
    requires
        forall|i: int| 0 <= i < calls.len() ==> (#[trigger] calls[i]).signature@ == sig,
        sigs.contains(sig),
    ensures
        count_true(accept_decisions(reg, sigs, calls)) == 0,
    decreases calls.len(),
{
    if calls.len() > 0 {
        let d = accept_decisions(reg, sigs, calls);
        assert(calls[0].signature@ == sig);
        assert(!d[0]);
        assert forall|i: int| 0 <= i < calls.skip(1).len() implies (#[trigger] calls.skip(
            1,
        )[i]).signature@ == sig by {
            assert(calls.skip(1)[i] == calls[i + 1]);
        }
        lemma_no_accept_when_present(reg, sigs, calls.skip(1), sig);
        assert(d.skip(1) =~= accept_decisions(reg, sigs, calls.skip(1)));
    }
}

/// Law: any number of racing reports of one transfer end with exactly one
/// accept. The store serialises concurrent `record_tip` calls; whatever
/// order it picks, when N calls all carry the same fresh signature, a
/// positive amount and an existing creator, exactly one call is accepted and
/// the other N − 1 observe a duplicate.
pub proof fn lemma_one_accept_among_races(
    reg: Seq<CreatorModel>,
    tips: Seq<TipModel>,
    calls: Seq<CreateTipInput>,
    sig: Seq<char>,
)
    requires
        calls.len() >= 1,
        forall|i: int|
            0 <= i < calls.len() ==> {
                &&& (#[trigger] calls[i]).signature@ == sig
                &&& calls[i].amount > 0
                &&& has_creator(reg, calls[i].creator_id)
            },
        !sig_present(tips, sig),
    ensures
        count_true(accept_decisions(reg, signatures_of(tips), calls)) == 1,
{
    let sigs = signatures_of(tips);
    let d = accept_decisions(reg, sigs, calls);
    assert(calls[0].signature@ == sig);
    assert(!sigs.contains(sig));
    assert(d[0]);
    assert forall|i: int| 0 <= i < calls.skip(1).len() implies (#[trigger] calls.skip(
        1,
    )[i]).signature@ == sig by {
        assert(calls.skip(1)[i] == calls[i + 1]);
    }
    lemma_no_accept_when_present(reg, sigs.insert(sig), calls.skip(1), sig);
    assert(d.skip(1) =~= accept_decisions(reg, sigs.insert(sig), calls.skip(1)));
}

/// Law: the per-creator query yields only rows of that creator, ordered by
/// creation time descending; and, in a time-sorted ledger, no row older than
/// the ledger's first.
pub proof fn lemma_tips_desc_ordered(s: Seq<TipModel>, creator_id: u64)
    requires
        time_sorted(s),
    ensures
        forall|a: int, b: int|
            0 <= a < b < tips_for_creator_desc(s, creator_id).len() ==> tips_for_creator_desc(
                s,
                creator_id,
            )[a].created_at >= tips_for_creator_desc(s, creator_id)[b].created_at,
        forall|a: int|
            0 <= a < tips_for_creator_desc(s, creator_id).len() ==> (#[trigger] tips_for_creator_desc(
                s,
                creator_id,
            )[a]).creator_id == creator_id,
        s.len() > 0 ==> forall|a: int|
            0 <= a < tips_for_creator_desc(s, creator_id).len() ==> (#[trigger] tips_for_creator_desc(
                s,
                creator_id,
            )[a]).created_at >= s[0].created_at,
    decreases s.len(),
{
    if s.len() > 0 {
        let tail = s.skip(1);
        assert forall|a: int, b: int| 0 <= a < b < tail.len() implies tail[a].created_at
            <= tail[b].created_at by {
            assert(tail[a] == s[a + 1]);
            assert(tail[b] == s[b + 1]);
        }
        lemma_tips_desc_ordered(tail, creator_id);
        let rest = tips_for_creator_desc(tail, creator_id);
        if tail.len() > 0 {
            assert(tail[0] == s[1]);
            assert(s[0].created_at <= s[1].created_at);
        }
        if s[0].creator_id == creator_id {
            assert(tips_for_creator_desc(s, creator_id) == rest.push(s[0]));
        }
    }
}

/// Law: the most-recent query yields at most `limit` rows, newest first.
pub proof fn lemma_recent_tips_ordered(s: Seq<TipModel>, limit: nat)
    requires
        time_sorted(s),
    ensures
        recent_tips(s, limit).len() == if s.len() <= limit {
            s.len()
        } else {
            limit
        },
        forall|a: int, b: int|
            0 <= a < b < recent_tips(s, limit).len() ==> recent_tips(s, limit)[a].created_at
                >= recent_tips(s, limit)[b].created_at,
{
    assert forall|a: int, b: int| 0 <= a < b < recent_tips(s, limit).len() implies recent_tips(
        s,
        limit,
    )[a].created_at >= recent_tips(s, limit)[b].created_at by {
        assert(recent_tips(s, limit)[a] == s[s.len() - 1 - a]);
        assert(recent_tips(s, limit)[b] == s[s.len() - 1 - b]);
    }
}

/// A signature is present exactly when its count is positive.
pub proof fn lemma_sig_present_count(s: Seq<TipModel>, sig: Seq<char>)
    ensures
        sig_present(s, sig) <==> sig_count(s, sig) > 0,
        sig_count(s, sig) >= 0,
    decreases s.len(),
{
    if s.len() == 0 {
    } else {
        lemma_sig_present_count(s.drop_last(), sig);
        if sig_present(s.drop_last(), sig) {
            let i = choose|i: int|
                0 <= i < s.drop_last().len() && s.drop_last()[i].signature == sig;
            assert(s[i].signature == sig);
        }
        if s.last().signature == sig {
            assert(s[s.len() - 1].signature == sig);
        }
        if sig_present(s, sig) && s.last().signature != sig {
            let i = choose|i: int| 0 <= i < s.len() && s[i].signature == sig;
            assert(i < s.len() - 1);
            assert(s.drop_last()[i].signature == sig);
        }
    }
}

} // verus!
