//! The dispatch queue, the serialized worker, and the recovery sweep.
//!
//! Producers enqueue submission ids and never block; a single worker takes
//! one id at a time and verifies it, so that no two verifications ever
//! overlap. On startup the recovery sweep re-enqueues, in creation order,
//! every submission still pending from before a restart.

use vstd::prelude::*;

use crate::model::{Challenge, Pod, Submission};
use crate::status::Status;
use crate::store::{creation_ordered, spec_check, spec_outcome, CheckOutcome, Store};

verus! {

/// Ids of the pending submissions, in row (creation) order.
pub open spec fn pending_ids(subs: Seq<Submission>) -> Seq<i64>
    decreases subs.len(),
{
    if subs.len() == 0 {
        Seq::empty()
    } else {
        let rest = pending_ids(subs.drop_first());
        if subs[0].status == Status::Pending {
            seq![subs[0].id] + rest
        } else {
            rest
        }
    }
}

/// Appending a row extends the pending ids by that row's id exactly when
/// the row is pending.
pub proof fn lemma_pending_ids_push(subs: Seq<Submission>, s: Submission)
    ensures
        pending_ids(subs.push(s)) == pending_ids(subs) + (if s.status == Status::Pending {
            seq![s.id]
        } else {
            Seq::<i64>::empty()
        }),
    decreases subs.len(),
{
    let tail: Seq<i64> = if s.status == Status::Pending {
        seq![s.id]
    } else {
        Seq::<i64>::empty()
    };
    if subs.len() == 0 {
        assert(subs =~= Seq::<Submission>::empty());
        assert(subs.push(s).drop_first() =~= Seq::<Submission>::empty());
        assert(pending_ids(Seq::<Submission>::empty()) == Seq::<i64>::empty());
        assert(subs.push(s)[0] == s);
        if s.status == Status::Pending {
            assert(pending_ids(subs.push(s)) == seq![s.id] + Seq::<i64>::empty());
            assert(seq![s.id] + Seq::<i64>::empty() =~= tail);
        }
        assert(pending_ids(subs) + tail =~= tail);
    } else {
        assert(subs.push(s).drop_first() =~= subs.drop_first().push(s));
        lemma_pending_ids_push(subs.drop_first(), s);
        assert(subs.push(s)[0] == subs[0]);
        if subs[0].status == Status::Pending {
            assert(seq![subs[0].id] + (pending_ids(subs.drop_first()) + tail) =~= (seq![
                subs[0].id,
            ] + pending_ids(subs.drop_first())) + tail);
        }
    }
}

/// The submission rows after the worker has checked each id of the queue,
/// front to back, against one snapshot instant.
pub open spec fn spec_run(
    subs: Seq<Submission>,
    challenges: Seq<Challenge>,
    pods: Seq<Pod>,
    users: Seq<i64>,
    queue: Seq<i64>,
    now: i64,
) -> Seq<Submission>
    decreases queue.len(),
{
    if queue.len() == 0 {
        subs
    } else {
        spec_run(
            spec_check(subs, challenges, pods, users, queue[0], now),
            challenges,
            pods,
            users,
            queue.drop_first(),
            now,
        )
    }
}

/// The queue and its single consumer, bound to the store they work on.
/// Construction is the only way to obtain one, which keeps the consumer
/// unique: all verification runs through these serialized methods.
pub struct Checker {
    pub store: Store,
    pub queue: Vec<i64>,
}

impl Checker {
    /// A checker over the given store, with an empty queue.
    pub fn new(store: Store) -> (c: Checker)
        ensures
            c.store == store,
            c.queue@ == Seq::<i64>::empty(),
    {
        Checker { store, queue: Vec::new() }
    }

    /// Accept a submission id for later verification. Never blocks, never
    /// rejects, and touches nothing but the queue.
    pub fn enqueue(&mut self, id: i64)
        ensures
            final(self).queue@ == old(self).queue@.push(id),
            final(self).store == old(self).store,
    {
        self.queue.push(id);
    }

    /// The submission-creation path: persist a new pending submission and
    /// enqueue its id. Ids are assigned monotonically, in creation order.
    pub fn submit(&mut self, s: Submission)
        requires
            s.status == Status::Pending,
            forall|i: int|
                0 <= i < old(self).store.submissions@.len()
                    ==> #[trigger] old(self).store.submissions@[i].id < s.id && old(
                    self,
                ).store.submissions@[i].created_at <= s.created_at,
        ensures
            final(self).store.submissions@ == old(self).store.submissions@.push(s),
            final(self).queue@ == old(self).queue@.push(s.id),
            final(self).store.challenges == old(self).store.challenges,
            final(self).store.pods == old(self).store.pods,
            final(self).store.users == old(self).store.users,
            creation_ordered(old(self).store.submissions@) ==> creation_ordered(
                final(self).store.submissions@,
            ),
    {
        let id = s.id;
        self.store.submissions.push(s);
        self.queue.push(id);
        proof {
            let before = old(self).store.submissions@;
            let after = self.store.submissions@;
            if creation_ordered(before) {
                assert forall|i: int, j: int| 0 <= i < j < after.len() implies #[trigger] after[i].id
                    < #[trigger] after[j].id && after[i].created_at <= after[j].created_at by {
                    if j < after.len() - 1 {
                        assert(after[i] == before[i] && after[j] == before[j]);
                    } else {
                        assert(after[i] == before[i] && after[j] == s);
                    }
                }
            }
        }
    }

    /// One worker iteration: take the id at the front of the queue, if
    /// any, and verify it against the snapshot taken at `now`.
    pub fn step(&mut self, now: i64) -> (out: Option<CheckOutcome>)
        ensures
            old(self).queue@.len() == 0 ==> *final(self) == *old(self) && out is None,
            old(self).queue@.len() > 0 ==> {
                &&& final(self).queue@ == old(self).queue@.drop_first()
                &&& final(self).store.submissions@ == spec_check(
                    old(self).store.submissions@,
                    old(self).store.challenges@,
                    old(self).store.pods@,
                    old(self).store.users@,
                    old(self).queue@[0],
                    now,
                )
                &&& out == Some(
                    spec_outcome(
                        old(self).store.submissions@,
                        old(self).store.challenges@,
                        old(self).store.pods@,
                        old(self).store.users@,
                        old(self).queue@[0],
                        now,
                    ),
                )
                &&& final(self).store.challenges == old(self).store.challenges
                &&& final(self).store.pods == old(self).store.pods
                &&& final(self).store.users == old(self).store.users
            },
    {
        if self.queue.len() == 0 {
            return None;
        }
        let id = self.queue.remove(0);
        proof {
            assert(self.queue@ =~= old(self).queue@.drop_first());
        }
        let out = self.store.check(id, now);
        Some(out)
    }

    /// The worker loop: drain the queue, strictly one id at a time. The
    /// serialization is what lets each dedup pass see every earlier
    /// `Correct` verdict.
    pub fn run(&mut self, now: i64)
        ensures
            final(self).queue@.len() == 0,
            final(self).store.submissions@ == spec_run(
                old(self).store.submissions@,
                old(self).store.challenges@,
                old(self).store.pods@,
                old(self).store.users@,
                old(self).queue@,
                now,
            ),
            final(self).store.challenges == old(self).store.challenges,
            final(self).store.pods == old(self).store.pods,
            final(self).store.users == old(self).store.users,
    {
        while self.queue.len() > 0
            invariant
                spec_run(
                    self.store.submissions@,
                    self.store.challenges@,
                    self.store.pods@,
                    self.store.users@,
                    self.queue@,
                    now,
                ) == spec_run(
                    old(self).store.submissions@,
                    old(self).store.challenges@,
                    old(self).store.pods@,
                    old(self).store.users@,
                    old(self).queue@,
                    now,
                ),
                self.store.challenges == old(self).store.challenges,
                self.store.pods == old(self).store.pods,
                self.store.users == old(self).store.users,
            decreases self.queue@.len(),
        {
            let _ = self.step(now);
        }
    }

    /// The recovery sweep: append to the queue the id of every submission
    /// still pending, in creation order. The store itself is untouched.
    pub fn recover(&mut self)
        ensures
            final(self).store == old(self).store,
            final(self).queue@ == old(self).queue@ + pending_ids(old(self).store.submissions@),
    {
        let n = self.store.submissions.len();
        proof {
            assert(self.store.submissions@.take(0) =~= Seq::<Submission>::empty());
            assert(self.queue@ + pending_ids(self.store.submissions@.take(0)) =~= self.queue@);
        }
        let mut i: usize = 0;
        while i < n
            invariant
                i <= n,
                n == self.store.submissions@.len(),
                self.store == old(self).store,
                self.queue@ == old(self).queue@ + pending_ids(
                    self.store.submissions@.take(i as int),
                ),
            decreases n - i,
        {
            let s = &self.store.submissions[i];
            let id = s.id;
            let is_pending = s.status == Status::Pending;
            if is_pending {
                self.queue.push(id);
            }
            proof {
                let prefix = self.store.submissions@.take(i as int);
                let row = self.store.submissions@[i as int];
                assert(self.store.submissions@.take(i as int + 1) =~= prefix.push(row));
                lemma_pending_ids_push(prefix, row);
                if is_pending {
                    assert((old(self).queue@ + pending_ids(prefix)).push(id) =~= old(self).queue@
                        + (pending_ids(prefix) + seq![id]));
                } else {
                    assert(pending_ids(prefix) + Seq::<i64>::empty() =~= pending_ids(prefix));
                }
            }
            i += 1;
        }
        proof {
            assert(self.store.submissions@.take(n as int) =~= self.store.submissions@);
        }
    }

    /// The process-start hook: recover unfinished work, then let the
    /// worker drain the queue against the snapshot taken at `now`.
    pub fn start(&mut self, now: i64)
        ensures
            final(self).queue@.len() == 0,
            final(self).store.submissions@ == spec_run(
                old(self).store.submissions@,
                old(self).store.challenges@,
                old(self).store.pods@,
                old(self).store.users@,
                old(self).queue@ + pending_ids(old(self).store.submissions@),
                now,
            ),
            final(self).store.challenges == old(self).store.challenges,
            final(self).store.pods == old(self).store.pods,
            final(self).store.users == old(self).store.users,
    {
        self.recover();
        self.run(now);
    }
}

} // verus!
