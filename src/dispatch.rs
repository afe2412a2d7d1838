//! Bounded-concurrency dispatch of independent work items.
//!
//! A `Dispatcher` is the arena into which the outcomes of `n` work items are
//! collected. It hands out positions in batches of at most `cap` items, accepts
//! each outcome once, at its own position, whatever the order of completion,
//! and, once every item has been attempted, surfaces either all the texts in
//! position order or the error of the first failed position.

use vstd::prelude::*;
use crate::error::LlmError;

verus! {

/// One recorded outcome: the text an item produced, or its error.
pub type Outcome = Result<String, LlmError>;

/// A concurrency cap of zero is treated as one.
pub open spec fn effective_cap(cap: nat) -> nat {
    if cap == 0 {
        1
    } else {
        cap
    }
}

/// The batches that cover positions `start..n`, each a half-open range of at
/// most `c` positions, in order.
pub open spec fn batches_from(start: nat, n: nat, c: nat) -> Seq<(nat, nat)>
    decreases n - start,
{
    if start >= n || c == 0 {
        Seq::empty()
    } else {
        let end: nat = if start + c <= n {
            start + c
        } else {
            n
        };
        seq![(start, end)] + batches_from(end, n, c)
    }
}

/// The batches in which `n` items are dispatched under the cap `cap`.
pub open spec fn batch_plan(n: nat, cap: nat) -> Seq<(nat, nat)> {
    batches_from(0, n, effective_cap(cap))
}

/// How many outcomes have been recorded.
pub open spec fn filled_count(s: Seq<Option<Outcome>>) -> nat
    decreases s.len(),
{
    if s.len() == 0 {
        0
    } else {
        filled_count(s.drop_last()) + if s.last() is Some {
            1nat
        } else {
            0nat
        }
    }
}

/// What a complete set of outcomes amounts to: the error of the first failed
/// position, or else every text in position order.
pub open spec fn collected(s: Seq<Option<Outcome>>) -> Result<Seq<String>, LlmError>
    decreases s.len(),
{
    if s.len() == 0 {
        Ok(Seq::empty())
    } else {
        match collected(s.drop_last()) {
            Err(e) => Err(e),
            Ok(texts) => match s.last() {
                Some(Ok(t)) => Ok(texts.push(t)),
                Some(Err(e)) => Err(e),
                None => Ok(texts),
            },
        }
    }
}

/// Collects the outcomes of `n` work items dispatched in batches.
pub struct Dispatcher {
    cap: usize,
    slots: Vec<Option<Outcome>>,
    started: usize,
    progress: usize,
}

impl Dispatcher {
    /// The effective concurrency cap (at least one).
    pub closed spec fn cap_spec(&self) -> nat {
        self.cap as nat
    }

    /// The outcome recorded at each position so far.
    pub closed spec fn slots_spec(&self) -> Seq<Option<Outcome>> {
        self.slots@
    }

    /// How many positions have been handed out.
    pub closed spec fn started_spec(&self) -> nat {
        self.started as nat
    }

    /// How many outcomes have been recorded: the progress count.
    pub closed spec fn progress_spec(&self) -> nat {
        self.progress as nat
    }

    pub open spec fn total_spec(&self) -> nat {
        self.slots_spec().len()
    }

    /// Items handed out whose outcome has not been recorded yet.
    pub open spec fn in_flight_spec(&self) -> int {
        self.started_spec() - self.progress_spec()
    }

    pub open spec fn wf(&self) -> bool {
        &&& self.cap_spec() >= 1
        &&& self.started_spec() <= self.total_spec()
        &&& self.progress_spec() == filled_count(self.slots_spec())
        &&& forall|p: int|
            self.started_spec() <= p < self.total_spec() ==> #[trigger] self.slots_spec()[p] is None
        &&& self.progress_spec() <= self.started_spec()
        &&& self.started_spec() <= self.progress_spec() + self.cap_spec()
        &&& self.total_spec() <= usize::MAX
    }

    /// A dispatcher for `total` items, with at most `cap` in flight at once
    /// (a `cap` of zero counts as one).
    pub fn new(total: usize, cap: usize) -> (r: Self)
        ensures
            r.wf(),
            r.cap_spec() == effective_cap(cap as nat),
            r.slots_spec() == Seq::new(total as nat, |i: int| None::<Outcome>),
            r.started_spec() == 0,
            r.progress_spec() == 0,
    {
        let mut slots: Vec<Option<Outcome>> = Vec::new();
        let mut i: usize = 0;
        while i < total
            invariant
                i <= total,
                slots@ == Seq::new(i as nat, |j: int| None::<Outcome>),
            decreases total - i,
        {
            slots.push(None);
            i = i + 1;
        }
        proof {
            lemma_filled_count_none(slots@);
        }
        let c: usize = if cap == 0 {
            1
        } else {
            cap
        };
        Dispatcher { cap: c, slots, started: 0, progress: 0 }
    }

    pub fn cap(&self) -> (r: usize)
        ensures
            r == self.cap_spec(),
    {
        self.cap
    }

    /// The number of outcomes recorded so far.
    pub fn progress(&self) -> (r: usize)
        ensures
            r == self.progress_spec(),
    {
        self.progress
    }

    /// The number of items handed out and not yet recorded.
    pub fn in_flight(&self) -> (r: usize)
        requires
            self.wf(),
        ensures
            r == self.in_flight_spec(),
            r <= self.cap_spec(),
    {
        self.started - self.progress
    }

    /// Whether every item has been attempted.
    pub fn is_finished(&self) -> (r: bool)
        requires
            self.wf(),
        ensures
            r == (self.progress_spec() == self.total_spec()),
    {
        self.progress == self.slots.len()
    }

    /// Hands out the next batch, as the half-open range of its positions, once
    /// every outcome of the previous batch is in. Returns `None`, changing
    /// nothing, while a batch is in flight or when no position is left.
    pub fn next_batch(&mut self) -> (r: Option<(usize, usize)>)
        requires
            old(self).wf(),
        ensures
            final(self).wf(),
            final(self).cap_spec() == old(self).cap_spec(),
            final(self).slots_spec() == old(self).slots_spec(),
            final(self).progress_spec() == old(self).progress_spec(),
            (old(self).progress_spec() == old(self).started_spec() && old(self).started_spec()
                < old(self).total_spec()) <==> r is Some,
            r is None ==> final(self).started_spec() == old(self).started_spec(),
            r matches Some((start, end)) ==> {
                &&& start == old(self).started_spec()
                &&& end == final(self).started_spec()
                &&& batches_from(start as nat, old(self).total_spec(), old(self).cap_spec())
                    == seq![(start as nat, end as nat)] + batches_from(
                    end as nat,
                    old(self).total_spec(),
                    old(self).cap_spec(),
                )
            },
    {
        let total = self.slots.len();
        if self.progress == self.started && self.started < total {
            let start = self.started;
            let end: usize = if total - start >= self.cap {
                start + self.cap
            } else {
                total
            };
            self.started = end;
            Some((start, end))
        } else {
            None
        }
    }

    /// Records the outcome of the item at position `pos`. It is accepted, and
    /// the progress count advances by one, only when `pos` has been handed out
    /// and holds no outcome yet; otherwise nothing changes.
    pub fn record(&mut self, pos: usize, outcome: Outcome) -> (accepted: bool)
        requires
            old(self).wf(),
        ensures
            final(self).wf(),
            final(self).cap_spec() == old(self).cap_spec(),
            final(self).started_spec() == old(self).started_spec(),
            accepted == (pos < old(self).started_spec() && old(self).slots_spec()[pos as int] is None),
            accepted ==> final(self).slots_spec() == old(self).slots_spec().update(
                pos as int,
                Some(outcome),
            ),
            accepted ==> final(self).progress_spec() == old(self).progress_spec() + 1,
            !accepted ==> final(self).slots_spec() == old(self).slots_spec(),
            !accepted ==> final(self).progress_spec() == old(self).progress_spec(),
    {
        if pos < self.started && self.slots[pos].is_none() {
            proof {
                lemma_filled_count_fill(self.slots@, pos as int, Some(outcome));
                lemma_filled_count_bound(self.slots@.update(pos as int, Some(outcome)));
                lemma_filled_count_below(self.slots@, self.started as int, pos as int);
            }
            self.slots.set(pos, Some(outcome));
            self.progress = self.progress + 1;
            true
        } else {
            false
        }
    }

    /// Once every item has been attempted: the error of the first failed
    /// position, or else all texts in position order. `None` before that.
    pub fn finish(self) -> (r: Option<Result<Vec<String>, LlmError>>)
        requires
            self.wf(),
        ensures
            r is Some <==> self.progress_spec() == self.total_spec(),
            r matches Some(Ok(texts)) ==> collected(self.slots_spec()) == Ok::<
                Seq<String>,
                LlmError,
            >(texts@),
            r matches Some(Err(e)) ==> collected(self.slots_spec()) == Err::<Seq<String>, LlmError>(
                e,
            ),
    {
        if self.progress != self.slots.len() {
            return None;
        }
        proof {
            lemma_filled_count_full(self.slots@);
        }
        let ghost all = self.slots@;
        let mut slots = self.slots;
        let mut texts: Vec<String> = Vec::new();
        let n = slots.len();
        let mut i: usize = 0;
        while i < n
            invariant
                n == all.len(),
                all == self.slots_spec(),
                self.progress_spec() == n,
                i <= n,
                slots@.len() == n,
                forall|k: int| i <= k < n ==> slots@[k] == all[k],
                forall|k: int| 0 <= k < n ==> (#[trigger] all[k]) is Some,
                collected(all.take(i as int)) == Ok::<Seq<String>, LlmError>(texts@),
            decreases n - i,
        {
            let mut slot: Option<Outcome> = None;
            std::mem::swap(&mut slots[i], &mut slot);
            assert(all.take(i + 1).drop_last() == all.take(i as int));
            match slot {
                Some(Ok(t)) => {
                    texts.push(t);
                },
                Some(Err(e)) => {
                    proof {
                        lemma_collected_err_prefix(all, i as int + 1);
                    }
                    return Some(Err(e));
                },
                None => {
                    return None;
                },
            }
            i = i + 1;
        }
        assert(all.take(n as int) == all);
        Some(Ok(texts))
    }
}

proof fn lemma_filled_count_none(s: Seq<Option<Outcome>>)
    requires
        forall|i: int| 0 <= i < s.len() ==> s[i] is None,
    ensures
        filled_count(s) == 0,
    decreases s.len(),
{
    if s.len() > 0 {
        lemma_filled_count_none(s.drop_last());
    }
}

proof fn lemma_filled_count_bound(s: Seq<Option<Outcome>>)
    ensures
        filled_count(s) <= s.len(),
    decreases s.len(),
{
    if s.len() > 0 {
        lemma_filled_count_bound(s.drop_last());
    }
}

proof fn lemma_filled_count_below(s: Seq<Option<Outcome>>, k: int, pos: int)
    requires
        0 <= pos < k <= s.len(),
        s[pos] is None,
        forall|p: int| k <= p < s.len() ==> #[trigger] s[p] is None,
    ensures
        filled_count(s) < k,
    decreases s.len(),
{
    if s.len() > k {
        lemma_filled_count_below(s.drop_last(), k, pos);
    } else if pos == s.len() - 1 {
        lemma_filled_count_bound(s.drop_last());
    } else {
        lemma_filled_count_below(s.drop_last(), k - 1, pos);
    }
}

proof fn lemma_filled_count_fill(s: Seq<Option<Outcome>>, p: int, v: Option<Outcome>)
    requires
        0 <= p < s.len(),
        s[p] is None,
        v is Some,
    ensures
        filled_count(s.update(p, v)) == filled_count(s) + 1,
    decreases s.len(),
{
    let t = s.update(p, v);
    if p == s.len() - 1 {
        assert(t.drop_last() == s.drop_last());
    } else {
        lemma_filled_count_fill(s.drop_last(), p, v);
        assert(t.drop_last() == s.drop_last().update(p, v));
    }
}

proof fn lemma_filled_count_full(s: Seq<Option<Outcome>>)
    requires
        filled_count(s) == s.len(),
    ensures
        forall|i: int| 0 <= i < s.len() ==> (#[trigger] s[i]) is Some,
    decreases s.len(),
{
    if s.len() > 0 {
        lemma_filled_count_bound(s.drop_last());
        lemma_filled_count_full(s.drop_last());
        assert forall|i: int| 0 <= i < s.len() implies (#[trigger] s[i]) is Some by {
            if i < s.len() - 1 {
                assert(s.drop_last()[i] == s[i]);
            }
        }
    }
}

proof fn lemma_collected_err_prefix(s: Seq<Option<Outcome>>, k: int)
    requires
        0 < k <= s.len(),
        collected(s.take(k)) is Err,
    ensures
        collected(s) == collected(s.take(k)),
    decreases s.len() - k,
{
    if k < s.len() {
        assert(s.take(k + 1).drop_last() == s.take(k));
        lemma_collected_err_prefix(s, k + 1);
    } else {
        assert(s.take(k) == s);
    }
}

/// The text of a recorded success (arbitrary for any other slot).
pub open spec fn success_text(o: Option<Outcome>) -> String {
    o->Some_0->Ok_0
}

/// Whether a slot holds a recorded success.
pub open spec fn is_success(o: Option<Outcome>) -> bool {
    o matches Some(Ok(_))
}

/// The batches of a dispatch partition the positions `0..n` in order: each
/// batch is a non-empty range of at most the effective cap, each starts where
/// the previous one ended, the first starts at 0 and the last ends at `n`.
pub proof fn lemma_batch_plan_partitions(n: nat, cap: nat)
    ensures
        ({
            let plan = batch_plan(n, cap);
            &&& n == 0 <==> plan.len() == 0
            &&& n > 0 ==> plan[0].0 == 0 && plan.last().1 == n
            &&& forall|k: int|
                0 <= k < plan.len() ==> #[trigger] plan[k].0 < plan[k].1 <= plan[k].0
                    + effective_cap(cap)
            &&& forall|k: int| 0 <= k < plan.len() - 1 ==> #[trigger] plan[k].1 == plan[k + 1].0
        }),
{
    lemma_batches_from_partition(0, n, effective_cap(cap));
}

proof fn lemma_batches_from_partition(start: nat, n: nat, c: nat)
    requires
        c >= 1,
        start <= n,
    ensures
        ({
            let plan = batches_from(start, n, c);
            &&& start == n <==> plan.len() == 0
            &&& start < n ==> plan[0].0 == start && plan.last().1 == n
            &&& forall|k: int| 0 <= k < plan.len() ==> #[trigger] plan[k].0 < plan[k].1 <= plan[k].0 + c
            &&& forall|k: int| 0 <= k < plan.len() - 1 ==> #[trigger] plan[k].1 == plan[k + 1].0
        }),
    decreases n - start,
{
    if start < n {
        let end: nat = if start + c <= n {
            start + c
        } else {
            n
        };
        lemma_batches_from_partition(end, n, c);
        let rest = batches_from(end, n, c);
        let plan = batches_from(start, n, c);
        assert(plan == seq![(start, end)] + rest);
        assert forall|k: int| 0 <= k < plan.len() implies #[trigger] plan[k].0 < plan[k].1 <= plan[k].0
            + c by {
            if k > 0 {
                assert(plan[k] == rest[k - 1]);
            }
        }
        assert forall|k: int| 0 <= k < plan.len() - 1 implies #[trigger] plan[k].1 == plan[k + 1].0 by {
            assert(plan[k + 1] == rest[k]);
            if k > 0 {
                assert(plan[k] == rest[k - 1]);
            }
        }
    }
}

/// A cap of zero dispatches exactly as a cap of one does: `n` batches of one
/// item each, in position order.
pub proof fn lemma_zero_cap_is_sequential(n: nat)
    ensures
        batch_plan(n, 0) == batch_plan(n, 1),
        batch_plan(n, 0).len() == n,
        forall|i: int| 0 <= i < n ==> #[trigger] batch_plan(n, 0)[i] == (i as nat, (i + 1) as nat),
{
    lemma_batches_of_one(0, n);
}

proof fn lemma_batches_of_one(start: nat, n: nat)
    requires
        start <= n,
    ensures
        batches_from(start, n, 1).len() == n - start,
        forall|j: int|
            0 <= j < n - start ==> #[trigger] batches_from(start, n, 1)[j] == ((start + j) as nat, (
            start + j + 1) as nat),
    decreases n - start,
{
    if start < n {
        lemma_batches_of_one(start + 1, n);
        let rest = batches_from(start + 1, n, 1);
        assert forall|j: int| 0 <= j < n - start implies #[trigger] batches_from(start, n, 1)[j] == (
        (start + j) as nat, (start + j + 1) as nat) by {
            if j > 0 {
                assert(batches_from(start, n, 1)[j] == rest[j - 1]);
            }
        }
    }
}

/// At no point are more items in flight than the cap allows.
pub proof fn lemma_in_flight_within_cap(d: Dispatcher)
    requires
        d.wf(),
    ensures
        0 <= d.in_flight_spec() <= d.cap_spec(),
{
}

/// When every one of the `n` items succeeded, the dispatch yields `n` texts in
/// position order, and the progress count stands at exactly `n`.
pub proof fn lemma_all_succeed(d: Dispatcher)
    requires
        d.wf(),
        forall|k: int| 0 <= k < d.total_spec() ==> is_success(#[trigger] d.slots_spec()[k]),
    ensures
        d.progress_spec() == d.total_spec(),
        collected(d.slots_spec()) == Ok::<Seq<String>, LlmError>(
            Seq::new(d.total_spec(), |k: int| success_text(d.slots_spec()[k])),
        ),
{
    let s = d.slots_spec();
    lemma_filled_count_all(s);
    lemma_collected_successes(s, s.len() as int);
    assert(s.take(s.len() as int) == s);
}

/// The error surfaced is that of the first failed position: if position `k`
/// failed and every earlier one succeeded, the dispatch fails with `k`'s
/// error, whatever later positions hold and whenever they completed.
pub proof fn lemma_first_failure_by_position(s: Seq<Option<Outcome>>, k: int, e: LlmError)
    requires
        0 <= k < s.len(),
        s[k] == Some(Err::<String, LlmError>(e)),
        forall|j: int| 0 <= j < k ==> is_success(#[trigger] s[j]),
    ensures
        collected(s) == Err::<Seq<String>, LlmError>(e),
{
    lemma_collected_successes(s, k);
    assert(s.take(k + 1).drop_last() == s.take(k));
    lemma_collected_err_prefix(s, k + 1);
}

/// Outcomes of different positions may be recorded in either order: the
/// slots end up the same.
pub proof fn lemma_record_order_irrelevant(
    s: Seq<Option<Outcome>>,
    p: int,
    a: Outcome,
    q: int,
    b: Outcome,
)
    requires
        0 <= p < s.len(),
        0 <= q < s.len(),
        p != q,
    ensures
        s.update(p, Some(a)).update(q, Some(b)) == s.update(q, Some(b)).update(p, Some(a)),
{
    assert(s.update(p, Some(a)).update(q, Some(b)) =~= s.update(q, Some(b)).update(p, Some(a)));
}

proof fn lemma_filled_count_all(s: Seq<Option<Outcome>>)
    requires
        forall|i: int| 0 <= i < s.len() ==> is_success(#[trigger] s[i]),
    ensures
        filled_count(s) == s.len(),
    decreases s.len(),
{
    if s.len() > 0 {
        assert(is_success(s[s.len() - 1]));
        assert forall|i: int| 0 <= i < s.drop_last().len() implies is_success(
            #[trigger] s.drop_last()[i],
        ) by {
            assert(is_success(s[i]));
        }
        lemma_filled_count_all(s.drop_last());
    }
}

proof fn lemma_collected_successes(s: Seq<Option<Outcome>>, i: int)
    requires
        0 <= i <= s.len(),
        forall|j: int| 0 <= j < i ==> is_success(#[trigger] s[j]),
    ensures
        collected(s.take(i)) == Ok::<Seq<String>, LlmError>(
            Seq::new(i as nat, |k: int| success_text(s[k])),
        ),
    decreases i,
{
    if i > 0 {
        lemma_collected_successes(s, i - 1);
        assert(s.take(i).drop_last() == s.take(i - 1));
        assert(is_success(s[i - 1]));
        assert(Seq::new((i - 1) as nat, |k: int| success_text(s[k])).push(success_text(s[i - 1]))
            =~= Seq::new(i as nat, |k: int| success_text(s[k])));
    } else {
        assert(s.take(0) =~= Seq::<Option<Outcome>>::empty());
        assert(Seq::new(0, |k: int| success_text(s[k])) =~= Seq::<String>::empty());
    }
}

} // verus!
