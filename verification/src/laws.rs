//! The guarantees the checker gives, stated over the specification
//! functions of the other modules and proved once and for all.

use vstd::prelude::*;

use crate::checker::{pending_ids, spec_run};
use crate::decision::{
    dedup_hit, dedup_match, dynamic_verdict, has_banned_match, has_clean_match, pod_eligible,
    pod_matches, pod_owned, prior_correct, provisional_verdict, static_verdict, verdict,
};
use crate::model::{Challenge, ChallengeKind, Flag, Pod, Submission};
use crate::status::Status;
use crate::store::{
    find_challenge, find_pending, lemma_find_challenge, lemma_find_pending, spec_check,
    with_status,
};

verus! {

/// No two rows carry the same submission id.
pub open spec fn unique_ids(subs: Seq<Submission>) -> bool {
    forall|i: int, j: int|
        0 <= i < j < subs.len() ==> #[trigger] subs[i].id != #[trigger] subs[j].id
}

/// A store whose rows stand in creation order in particular has unique
/// ids: ids are assigned monotonically.
pub proof fn lemma_creation_ordered_unique(subs: Seq<Submission>)
    requires
        crate::store::creation_ordered(subs),
    ensures
        unique_ids(subs),
{
}

/// Two submissions compete for the same credit: same challenge, same game
/// scope.
pub open spec fn same_scope(a: Submission, b: Submission) -> bool {
    a.challenge_id == b.challenge_id && a.game_id == b.game_id
}

/// No two distinct rows are both `Correct` for the same challenge, scope
/// and user.
pub open spec fn at_most_one_correct(subs: Seq<Submission>) -> bool {
    forall|i: int, j: int|
        0 <= i < subs.len() && 0 <= j < subs.len() && i != j && #[trigger] subs[i].status
            == Status::Correct && #[trigger] subs[j].status == Status::Correct && same_scope(
            subs[i],
            subs[j],
        ) && subs[i].user_id == subs[j].user_id ==> false
}

/// The dynamic strategy never leaves a submission pending.
pub proof fn lemma_dynamic_verdict_terminal(pods: Seq<Pod>, s: Submission, now: i64)
    ensures
        dynamic_verdict(pods, s, now).is_terminal(),
    decreases pods.len(),
{
    if pods.len() > 0 && !(pod_eligible(pods[0], s.challenge_id, s.game_id, now) && pod_matches(
        pods[0],
        s.flag@,
    )) {
        lemma_dynamic_verdict_terminal(pods.drop_first(), s, now);
    }
}

/// Every verdict is terminal: the checker only ever moves a submission
/// out of `Pending`, never back into it.
pub proof fn lemma_verdict_terminal(
    c: Challenge,
    pods: Seq<Pod>,
    subs: Seq<Submission>,
    s: Submission,
    now: i64,
)
    ensures
        verdict(c, pods, subs, s, now).is_terminal(),
{
    match c.kind {
        ChallengeKind::Static { flags } => {
        },
        ChallengeKind::Dynamic => {
            lemma_dynamic_verdict_terminal(pods, s, now);
        },
    }
}

/// After one check of an id, no pending submission with that id remains:
/// it was absent, was deleted, or now carries a terminal status.
pub proof fn lemma_check_resolves(
    subs: Seq<Submission>,
    challenges: Seq<Challenge>,
    pods: Seq<Pod>,
    users: Seq<i64>,
    id: i64,
    now: i64,
)
    requires
        unique_ids(subs),
    ensures
        find_pending(spec_check(subs, challenges, pods, users, id, now), id) is None,
{
    lemma_find_pending(subs, id);
    let result = spec_check(subs, challenges, pods, users, id, now);
    match find_pending(subs, id) {
        None => {
            assert(result == subs);
        },
        Some(i) => {
            let s = subs[i];
            if !users.contains(s.user_id) || find_challenge(challenges, s.challenge_id) is None {
                subs.remove_ensures(i);
                assert forall|j: int| 0 <= j < result.len() implies !(#[trigger] result[j].id == id
                    && result[j].status == Status::Pending) by {
                    if j < i {
                        assert(result[j] == subs[j]);
                        assert(subs[j].id != subs[i].id);
                    } else {
                        assert(result[j] == subs[j + 1]);
                        assert(subs[i].id != subs[j + 1].id);
                    }
                }
            } else {
                let c = find_challenge(challenges, s.challenge_id);
                let v = verdict(challenges[c.unwrap()], pods, subs, s, now);
                lemma_verdict_terminal(challenges[c.unwrap()], pods, subs, s, now);
                assert forall|j: int| 0 <= j < result.len() implies !(#[trigger] result[j].id == id
                    && result[j].status == Status::Pending) by {
                    if j != i {
                        assert(result[j] == subs[j]);
                        if j < i {
                            assert(subs[j].id != subs[i].id);
                        } else {
                            assert(subs[i].id != subs[j].id);
                        }
                    }
                }
            }
            lemma_find_pending(result, id);
            match find_pending(result, id) {
                Some(k) => {
                    assert(!(result[k].id == id && result[k].status == Status::Pending));
                },
                None => {
                },
            }
        },
    }
}

/// Idempotence: once an id has been checked, checking it again — at any
/// later instant — changes nothing.
pub proof fn lemma_check_idempotent(
    subs: Seq<Submission>,
    challenges: Seq<Challenge>,
    pods: Seq<Pod>,
    users: Seq<i64>,
    id: i64,
    now: i64,
    later: i64,
)
    requires
        unique_ids(subs),
    ensures
        spec_check(
            spec_check(subs, challenges, pods, users, id, now),
            challenges,
            pods,
            users,
            id,
            later,
        ) == spec_check(subs, challenges, pods, users, id, now),
{
    lemma_check_resolves(subs, challenges, pods, users, id, now);
}

/// Removing a row cannot create a second `Correct` for any triple.
proof fn lemma_remove_keeps_at_most_one_correct(subs: Seq<Submission>, i: int)
    requires
        at_most_one_correct(subs),
        0 <= i < subs.len(),
    ensures
        at_most_one_correct(subs.remove(i)),
{
    let result = subs.remove(i);
    subs.remove_ensures(i);
    assert forall|a: int, b: int|
        0 <= a < result.len() && 0 <= b < result.len() && a != b && #[trigger] result[a].status
            == Status::Correct && #[trigger] result[b].status == Status::Correct && same_scope(
            result[a],
            result[b],
        ) && result[a].user_id == result[b].user_id implies false by {
        let a0 = if a < i {
            a
        } else {
            a + 1
        };
        let b0 = if b < i {
            b
        } else {
            b + 1
        };
        assert(result[a] == subs[a0]);
        assert(result[b] == subs[b0]);
    }
}

/// At-most-one-correct: a check step never creates a second `Correct`
/// submission for the same (challenge, scope, user) triple, because the
/// dedup pass sees every earlier `Correct` row before a verdict is
/// written.
pub proof fn lemma_check_preserves_at_most_one_correct(
    subs: Seq<Submission>,
    challenges: Seq<Challenge>,
    pods: Seq<Pod>,
    users: Seq<i64>,
    id: i64,
    now: i64,
)
    requires
        at_most_one_correct(subs),
    ensures
        at_most_one_correct(spec_check(subs, challenges, pods, users, id, now)),
{
    lemma_find_pending(subs, id);
    let result = spec_check(subs, challenges, pods, users, id, now);
    match find_pending(subs, id) {
        None => {
        },
        Some(i) => {
            let s = subs[i];
            if !users.contains(s.user_id) || find_challenge(challenges, s.challenge_id) is None {
                lemma_remove_keeps_at_most_one_correct(subs, i);
            } else {
                let c = find_challenge(challenges, s.challenge_id);
                let v = verdict(challenges[c.unwrap()], pods, subs, s, now);
                assert(result == subs.update(i, with_status(s, v)));
                assert forall|a: int, b: int|
                    0 <= a < result.len() && 0 <= b < result.len() && a != b
                        && #[trigger] result[a].status == Status::Correct
                        && #[trigger] result[b].status == Status::Correct && same_scope(
                        result[a],
                        result[b],
                    ) && result[a].user_id == result[b].user_id implies false by {
                    if a != i && b != i {
                        assert(result[a] == subs[a]);
                        assert(result[b] == subs[b]);
                    } else {
                        let other = if a == i {
                            b
                        } else {
                            a
                        };
                        assert(result[other] == subs[other]);
                        assert(result[i] == with_status(s, v));
                        assert(v == Status::Correct);
                        assert(prior_correct(subs[other], s) && dedup_match(subs[other], s));
                        assert(dedup_hit(subs, s));
                        assert(v == Status::Invalid);
                    }
                }
            }
        },
    }
}

/// At-most-one-correct over a whole worker pass: however many ids the
/// queue holds and in whatever order, no (challenge, scope, user) triple
/// ever ends up with two `Correct` submissions. An empty store satisfies
/// the invariant, so it holds after processing any sequence at all.
pub proof fn lemma_run_preserves_at_most_one_correct(
    subs: Seq<Submission>,
    challenges: Seq<Challenge>,
    pods: Seq<Pod>,
    users: Seq<i64>,
    queue: Seq<i64>,
    now: i64,
)
    requires
        at_most_one_correct(subs),
    ensures
        at_most_one_correct(spec_run(subs, challenges, pods, users, queue, now)),
    decreases queue.len(),
{
    if queue.len() > 0 {
        lemma_check_preserves_at_most_one_correct(subs, challenges, pods, users, queue[0], now);
        lemma_run_preserves_at_most_one_correct(
            spec_check(subs, challenges, pods, users, queue[0], now),
            challenges,
            pods,
            users,
            queue.drop_first(),
            now,
        );
    }
}

/// Dedup precedence: a solver already credited for this challenge and
/// scope is never called a cheater again; any submission that would have
/// scored — as `Correct` or as `Cheat` — receives `Invalid` instead, and
/// only a plainly wrong flag stays `Incorrect`.
pub proof fn lemma_dedup_precedence(
    c: Challenge,
    pods: Seq<Pod>,
    subs: Seq<Submission>,
    s: Submission,
    now: i64,
)
    requires
        dedup_hit(subs, s),
    ensures
        verdict(c, pods, subs, s, now) != Status::Cheat,
        provisional_verdict(c, pods, s, now) != Status::Incorrect ==> verdict(
            c,
            pods,
            subs,
            s,
            now,
        ) == Status::Invalid,
{
}

/// Banned precedence: when a static flag list holds the submitted value
/// both as a banned entry and as a clean one, the verdict is `Cheat`,
/// wherever the two entries stand in the list.
pub proof fn lemma_banned_precedence(flags: Seq<Flag>, flag: Seq<char>)
    requires
        has_banned_match(flags, flag),
        has_clean_match(flags, flag),
    ensures
        static_verdict(flags, flag) == Status::Cheat,
{
}

/// Dynamic cross-ownership: the first eligible pod whose flag matches
/// decides the verdict — `Correct` for its own user or team, `Cheat` for
/// anyone else.
pub proof fn lemma_dynamic_ownership(pods: Seq<Pod>, s: Submission, now: i64, i: int)
    requires
        0 <= i < pods.len(),
        pod_eligible(pods[i], s.challenge_id, s.game_id, now),
        pod_matches(pods[i], s.flag@),
        forall|j: int|
            0 <= j < i ==> !(pod_eligible(#[trigger] pods[j], s.challenge_id, s.game_id, now)
                && pod_matches(pods[j], s.flag@)),
    ensures
        dynamic_verdict(pods, s, now) == if pod_owned(pods[i], s) {
            Status::Correct
        } else {
            Status::Cheat
        },
    decreases i,
{
    if i > 0 {
        let rest = pods.drop_first();
        assert(rest[i - 1] == pods[i]);
        assert forall|j: int| 0 <= j < i - 1 implies !(pod_eligible(
            #[trigger] rest[j],
            s.challenge_id,
            s.game_id,
            now,
        ) && pod_matches(rest[j], s.flag@)) by {
            assert(rest[j] == pods[j + 1]);
        }
        lemma_dynamic_ownership(rest, s, now, i - 1);
    }
}

/// Expiry: a pod whose `removed_at` has passed is never matched; when
/// every pod holding the submitted flag has expired, the verdict is
/// `Incorrect`.
pub proof fn lemma_expiry(pods: Seq<Pod>, s: Submission, now: i64)
    requires
        forall|j: int|
            0 <= j < pods.len() && pod_matches(#[trigger] pods[j], s.flag@) ==> pods[j].removed_at
                < now,
    ensures
        dynamic_verdict(pods, s, now) == Status::Incorrect,
    decreases pods.len(),
{
    if pods.len() > 0 {
        let rest = pods.drop_first();
        assert forall|j: int|
            0 <= j < rest.len() && pod_matches(#[trigger] rest[j], s.flag@) implies rest[j].removed_at
            < now by {
            assert(rest[j] == pods[j + 1]);
        }
        lemma_expiry(rest, s, now);
    }
}

/// A check step never duplicates a submission id.
proof fn lemma_check_preserves_unique(
    subs: Seq<Submission>,
    challenges: Seq<Challenge>,
    pods: Seq<Pod>,
    users: Seq<i64>,
    id: i64,
    now: i64,
)
    requires
        unique_ids(subs),
    ensures
        unique_ids(spec_check(subs, challenges, pods, users, id, now)),
{
    lemma_find_pending(subs, id);
    let result = spec_check(subs, challenges, pods, users, id, now);
    match find_pending(subs, id) {
        None => {
        },
        Some(i) => {
            if !users.contains(subs[i].user_id) || find_challenge(
                challenges,
                subs[i].challenge_id,
            ) is None {
                subs.remove_ensures(i);
                assert forall|a: int, b: int| 0 <= a < b < result.len() implies #[trigger] result[a].id
                    != #[trigger] result[b].id by {
                    let a0 = if a < i {
                        a
                    } else {
                        a + 1
                    };
                    let b0 = if b < i {
                        b
                    } else {
                        b + 1
                    };
                    assert(result[a] == subs[a0]);
                    assert(result[b] == subs[b0]);
                }
            } else {
                assert forall|a: int, b: int| 0 <= a < b < result.len() implies #[trigger] result[a].id
                    != #[trigger] result[b].id by {
                    assert(result[a].id == subs[a].id);
                    assert(result[b].id == subs[b].id);
                }
            }
        },
    }
}

/// The recovery sweep is complete: the id of every pending row stands in
/// `pending_ids`.
proof fn lemma_pending_ids_complete(subs: Seq<Submission>)
    ensures
        forall|j: int|
            0 <= j < subs.len() && #[trigger] subs[j].status == Status::Pending ==> pending_ids(
                subs,
            ).contains(subs[j].id),
    decreases subs.len(),
{
    if subs.len() > 0 {
        let rest = subs.drop_first();
        lemma_pending_ids_complete(rest);
        assert forall|j: int|
            0 <= j < subs.len() && #[trigger] subs[j].status == Status::Pending implies pending_ids(
            subs,
        ).contains(subs[j].id) by {
            if j == 0 {
                assert(pending_ids(subs)[0] == subs[0].id);
            } else {
                assert(rest[j - 1] == subs[j]);
                assert(pending_ids(rest).contains(rest[j - 1].id));
                let k = choose|k: int|
                    0 <= k < pending_ids(rest).len() && pending_ids(rest)[k] == rest[j - 1].id;
                if subs[0].status == Status::Pending {
                    assert(pending_ids(subs)[k + 1] == pending_ids(rest)[k]);
                } else {
                    assert(pending_ids(subs)[k] == pending_ids(rest)[k]);
                }
            }
        }
    }
}

/// The value is the id of some row of the store.
pub open spec fn is_row_id(subs: Seq<Submission>, x: i64) -> bool {
    exists|j: int| 0 <= j < subs.len() && #[trigger] subs[j].id == x
}

/// The recovery sweep re-enqueues in creation order: over a
/// creation-ordered store, the recovered ids come out strictly
/// ascending, and each of them is the id of some row.
pub proof fn lemma_pending_ids_ordered(subs: Seq<Submission>)
    requires
        crate::store::creation_ordered(subs),
    ensures
        forall|a: int, b: int|
            0 <= a < b < pending_ids(subs).len() ==> #[trigger] pending_ids(subs)[a]
                < #[trigger] pending_ids(subs)[b],
        forall|a: int|
            0 <= a < pending_ids(subs).len() ==> is_row_id(subs, #[trigger] pending_ids(subs)[a]),
    decreases subs.len(),
{
    if subs.len() > 0 {
        let rest = subs.drop_first();
        let p = pending_ids(subs);
        let p_rest = pending_ids(rest);
        assert(forall|j: int| 0 <= j < rest.len() ==> #[trigger] rest[j] == subs[j + 1]);
        lemma_pending_ids_ordered(rest);
        // Each recovered id of the tail belongs to a row of the whole
        // store, and every row behind the head carries a larger id.
        assert forall|a: int| 0 <= a < p_rest.len() implies is_row_id(subs, p_rest[a])
            && subs[0].id < p_rest[a] by {
            let j0 = choose|j0: int| 0 <= j0 < rest.len() && #[trigger] rest[j0].id == p_rest[a];
            assert(subs[j0 + 1].id == p_rest[a]);
            assert(subs[0].id < subs[j0 + 1].id);
        }
        if subs[0].status == Status::Pending {
            assert(p == seq![subs[0].id] + p_rest);
            assert(p[0] == subs[0].id);
            assert(forall|a: int| 0 < a < p.len() ==> #[trigger] p[a] == p_rest[a - 1]);
        } else {
            assert(p == p_rest);
        }
    }
}

/// Draining a queue that holds the id of every pending row leaves no row
/// pending: each one is resolved or deleted along the way, and a check
/// never puts a row back into `Pending`.
pub proof fn lemma_drain_resolves_all(
    subs: Seq<Submission>,
    challenges: Seq<Challenge>,
    pods: Seq<Pod>,
    users: Seq<i64>,
    queue: Seq<i64>,
    now: i64,
)
    requires
        unique_ids(subs),
        forall|j: int|
            0 <= j < subs.len() && #[trigger] subs[j].status == Status::Pending ==> queue.contains(
                subs[j].id,
            ),
    ensures
        forall|j: int|
            0 <= j < spec_run(subs, challenges, pods, users, queue, now).len()
                ==> #[trigger] spec_run(subs, challenges, pods, users, queue, now)[j].status
                != Status::Pending,
    decreases queue.len(),
{
    if queue.len() == 0 {
        assert forall|j: int| 0 <= j < subs.len() implies #[trigger] subs[j].status
            != Status::Pending by {
            if subs[j].status == Status::Pending {
                assert(queue.contains(subs[j].id));
                let qi = choose|qi: int| 0 <= qi < queue.len() && queue[qi] == subs[j].id;
            }
        }
    } else {
        let id0 = queue[0];
        let rest = queue.drop_first();
        let subs1 = spec_check(subs, challenges, pods, users, id0, now);
        lemma_find_pending(subs, id0);
        lemma_check_resolves(subs, challenges, pods, users, id0, now);
        lemma_find_pending(subs1, id0);
        lemma_check_preserves_unique(subs, challenges, pods, users, id0, now);
        assert forall|j: int|
            0 <= j < subs1.len() && #[trigger] subs1[j].status == Status::Pending implies rest.contains(
            subs1[j].id,
        ) by {
            // The row is one of the old rows: the one row a check can
            // change or remove cannot be pending afterwards.
            match find_pending(subs, id0) {
                None => {
                    assert(subs1[j] == subs[j]);
                },
                Some(i) => {
                    if !users.contains(subs[i].user_id) || find_challenge(
                        challenges,
                        subs[i].challenge_id,
                    ) is None {
                        subs.remove_ensures(i);
                        if j < i {
                            assert(subs1[j] == subs[j]);
                        } else {
                            assert(subs1[j] == subs[j + 1]);
                        }
                    } else {
                        let c = find_challenge(challenges, subs[i].challenge_id);
                        lemma_verdict_terminal(challenges[c.unwrap()], pods, subs, subs[i], now);
                        assert(j != i);
                        assert(subs1[j] == subs[j]);
                    }
                },
            }
            assert(queue.contains(subs1[j].id));
            let qi = choose|qi: int| 0 <= qi < queue.len() && queue[qi] == subs1[j].id;
            assert(!(subs1[j].id == id0 && subs1[j].status == Status::Pending));
            assert(qi != 0);
            assert(rest[qi - 1] == subs1[j].id);
            assert(rest.contains(subs1[j].id));
        }
        lemma_drain_resolves_all(subs1, challenges, pods, users, rest, now);
    }
}

/// Recovery: starting the checker — the recovery sweep followed by a full
/// worker pass — leaves no submission pending, whatever already sat in
/// the queue beforehand.
pub proof fn lemma_start_resolves_all(
    subs: Seq<Submission>,
    challenges: Seq<Challenge>,
    pods: Seq<Pod>,
    users: Seq<i64>,
    queue: Seq<i64>,
    now: i64,
)
    requires
        unique_ids(subs),
    ensures
        forall|j: int|
            0 <= j < spec_run(
                subs,
                challenges,
                pods,
                users,
                queue + pending_ids(subs),
                now,
            ).len() ==> #[trigger] spec_run(
                subs,
                challenges,
                pods,
                users,
                queue + pending_ids(subs),
                now,
            )[j].status != Status::Pending,
{
    lemma_pending_ids_complete(subs);
    let whole = queue + pending_ids(subs);
    assert forall|j: int|
        0 <= j < subs.len() && #[trigger] subs[j].status == Status::Pending implies whole.contains(
        subs[j].id,
    ) by {
        let k = choose|k: int|
            0 <= k < pending_ids(subs).len() && pending_ids(subs)[k] == subs[j].id;
        assert(whole[queue.len() + k] == subs[j].id);
    }
    lemma_drain_resolves_all(subs, challenges, pods, users, whole, now);
}

/// Orphan cleanup: a pending submission whose owning user or challenge is
/// gone is removed from the store, and no status is ever written to it.
pub proof fn lemma_orphan_cleanup(
    subs: Seq<Submission>,
    challenges: Seq<Challenge>,
    pods: Seq<Pod>,
    users: Seq<i64>,
    id: i64,
    now: i64,
    i: int,
)
    requires
        find_pending(subs, id) == Some(i),
        !users.contains(subs[i].user_id) || find_challenge(challenges, subs[i].challenge_id) is None,
    ensures
        spec_check(subs, challenges, pods, users, id, now) == subs.remove(i),
{
}

} // verus!
