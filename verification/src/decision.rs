//! The pure decision function: given a submission together with its
//! challenge, the candidate pods and the submissions already on record,
//! compute the terminal status the checker must write.

use vstd::prelude::*;

use crate::model::{Challenge, ChallengeKind, Flag, Pod, Submission};
use crate::status::Status;

verus! {

/// The submitted flag text equals the pod's issued flag (a pod with no
/// issued flag matches nothing).
pub open spec fn pod_matches(p: Pod, flag: Seq<char>) -> bool {
    p.flag is Some && p.flag.unwrap()@ == flag
}

/// A pod takes part in verification only for its own challenge, within the
/// submission's game scope (if any), and while its expiry is still in the
/// future.
pub open spec fn pod_eligible(p: Pod, challenge_id: i64, game_id: Option<i64>, now: i64) -> bool {
    &&& p.challenge_id == challenge_id
    &&& (game_id is Some ==> p.game_id == game_id)
    &&& p.removed_at >= now
}

/// The pod belongs to the submitter: same user, or same team.
pub open spec fn pod_owned(p: Pod, s: Submission) -> bool {
    p.user_id == s.user_id || s.team_id == p.team_id
}

/// Some entry of the flag list is a banned entry with this value.
pub open spec fn has_banned_match(flags: Seq<Flag>, flag: Seq<char>) -> bool {
    exists|i: int| 0 <= i < flags.len() && flags[i].value@ == flag && flags[i].banned
}

/// Some entry of the flag list is a non-banned entry with this value.
pub open spec fn has_clean_match(flags: Seq<Flag>, flag: Seq<char>) -> bool {
    exists|i: int| 0 <= i < flags.len() && flags[i].value@ == flag && !flags[i].banned
}

/// Verdict of the static strategy: a banned entry with the submitted value
/// forces `Cheat`, whatever else the list holds; otherwise a non-banned
/// entry with the value yields `Correct`; otherwise `Incorrect`.
pub open spec fn static_verdict(flags: Seq<Flag>, flag: Seq<char>) -> Status {
    if has_banned_match(flags, flag) {
        Status::Cheat
    } else if has_clean_match(flags, flag) {
        Status::Correct
    } else {
        Status::Incorrect
    }
}

/// Verdict of the dynamic strategy: the first eligible pod whose issued
/// flag equals the submitted one decides — `Correct` when the pod belongs
/// to the submitter, `Cheat` when it belongs to someone else. No eligible
/// match yields `Incorrect`.
pub open spec fn dynamic_verdict(pods: Seq<Pod>, s: Submission, now: i64) -> Status
    decreases pods.len(),
{
    if pods.len() == 0 {
        Status::Incorrect
    } else if pod_eligible(pods[0], s.challenge_id, s.game_id, now) && pod_matches(
        pods[0],
        s.flag@,
    ) {
        if pod_owned(pods[0], s) {
            Status::Correct
        } else {
            Status::Cheat
        }
    } else {
        dynamic_verdict(pods.drop_first(), s, now)
    }
}

/// An earlier submission already credits the same solver: the same user,
/// or — for game-scoped submissions — the same (non-null) team.
pub open spec fn dedup_match(e: Submission, s: Submission) -> bool {
    e.user_id == s.user_id || (s.game_id is Some && e.team_id is Some && e.team_id == s.team_id)
}

/// An earlier submission counts against this one only when it is already
/// `Correct`, for the same challenge, within the same game scope.
pub open spec fn prior_correct(e: Submission, s: Submission) -> bool {
    &&& e.status == Status::Correct
    &&& e.challenge_id == s.challenge_id
    &&& (s.game_id is Some ==> e.game_id == s.game_id)
}

/// The dedup pass fires: some submission on record is a prior `Correct`
/// one for this challenge and scope by the same user or team.
pub open spec fn dedup_hit(subs: Seq<Submission>, s: Submission) -> bool {
    exists|i: int| 0 <= i < subs.len() && prior_correct(#[trigger] subs[i], s) && dedup_match(
        subs[i],
        s,
    )
}

/// The strategy verdict, before the dedup pass.
pub open spec fn provisional_verdict(c: Challenge, pods: Seq<Pod>, s: Submission, now: i64) -> Status {
    match c.kind {
        ChallengeKind::Static { flags } => static_verdict(flags@, s.flag@),
        ChallengeKind::Dynamic => dynamic_verdict(pods, s, now),
    }
}

/// The verdict the checker writes: the dedup pass overrides the strategy
/// verdict, so a solver already credited for this challenge and scope gets
/// `Invalid` for anything that would have scored — even when the strategy
/// verdict was `Cheat`. A plainly wrong flag stays `Incorrect`: it never
/// was a credit to withhold.
pub open spec fn verdict(
    c: Challenge,
    pods: Seq<Pod>,
    subs: Seq<Submission>,
    s: Submission,
    now: i64,
) -> Status {
    let provisional = provisional_verdict(c, pods, s, now);
    if provisional != Status::Incorrect && dedup_hit(subs, s) {
        Status::Invalid
    } else {
        provisional
    }
}

/// Equality of two optional identifiers.
fn opt_id_eq(a: Option<i64>, b: Option<i64>) -> (r: bool)
    ensures
        r == (a == b),
{
    match (a, b) {
        (Some(x), Some(y)) => x == y,
        (None, None) => true,
        _ => false,
    }
}

/// Scan a static challenge's flag list in order. A banned entry with the
/// submitted value stops the scan at once; a non-banned match is recorded
/// but the scan goes on, since a later banned duplicate still wins.
pub fn verify_static(flags: &Vec<Flag>, flag: &String) -> (st: Status)
    ensures
        st == static_verdict(flags@, flag@),
{
    let mut found = false;
    let mut i: usize = 0;
    while i < flags.len()
        invariant
            i <= flags.len(),
            !has_banned_match(flags@.take(i as int), flag@),
            found == has_clean_match(flags@.take(i as int), flag@),
        decreases flags.len() - i,
    {
        let entry = &flags[i];
        if entry.value == *flag {
            if entry.banned {
                proof {
                    assert(flags@[i as int].value@ == flag@ && flags@[i as int].banned);
                }
                return Status::Cheat;
            }
            found = true;
        }
        proof {
            let prefix = flags@.take(i as int);
            let next = flags@.take(i as int + 1);
            assert(next.drop_last() =~= prefix);
            assert(next.last() == flags@[i as int]);
            assert forall|j: int| 0 <= j < next.len() implies !(next[j].value@ == flag@
                && next[j].banned) by {
                if j < i as int {
                    assert(prefix[j] == next[j]);
                    assert(!(prefix[j].value@ == flag@ && prefix[j].banned));
                }
            }
            if found && !has_clean_match(prefix, flag@) {
                assert(next[i as int].value@ == flag@ && !next[i as int].banned);
            }
            if has_clean_match(next, flag@) && !has_clean_match(prefix, flag@) {
                let w = choose|j: int|
                    0 <= j < next.len() && next[j].value@ == flag@ && !next[j].banned;
                if w < i as int {
                    assert(prefix[w] == next[w]);
                }
            }
        }
        i += 1;
    }
    proof {
        assert(flags@.take(flags@.len() as int) =~= flags@);
    }
    if found {
        Status::Correct
    } else {
        Status::Incorrect
    }
}

/// Scan the pods in order; the first eligible pod whose issued flag equals
/// the submitted one decides ownership, and the scan stops there.
pub fn verify_dynamic(pods: &Vec<Pod>, s: &Submission, now: i64) -> (st: Status)
    ensures
        st == dynamic_verdict(pods@, *s, now),
{
    let mut i: usize = 0;
    proof {
        assert(pods@.skip(0) =~= pods@);
    }
    while i < pods.len()
        invariant
            i <= pods.len(),
            dynamic_verdict(pods@, *s, now) == dynamic_verdict(pods@.skip(i as int), *s, now),
        decreases pods.len() - i,
    {
        let p = &pods[i];
        let in_scope = match s.game_id {
            Some(g) => match p.game_id {
                Some(pg) => pg == g,
                None => false,
            },
            None => true,
        };
        let eligible = p.challenge_id == s.challenge_id && in_scope && p.removed_at >= now;
        let matched = eligible && match &p.flag {
            Some(issued) => *issued == s.flag,
            None => false,
        };
        proof {
            assert(pods@.skip(i as int)[0] == pods@[i as int]);
        }
        if matched {
            if p.user_id == s.user_id || opt_id_eq(s.team_id, p.team_id) {
                return Status::Correct;
            } else {
                return Status::Cheat;
            }
        }
        proof {
            assert(pods@.skip(i as int).drop_first() =~= pods@.skip(i as int + 1));
        }
        i += 1;
    }
    proof {
        assert(pods@.skip(pods@.len() as int) =~= Seq::<Pod>::empty());
    }
    Status::Incorrect
}

/// Scan the submissions on record for a prior `Correct` one that already
/// credits this submitter for this challenge and scope.
pub fn scan_dedup(subs: &Vec<Submission>, s: &Submission) -> (r: bool)
    ensures
        r == dedup_hit(subs@, *s),
{
    let mut i: usize = 0;
    while i < subs.len()
        invariant
            i <= subs.len(),
            forall|j: int|
                0 <= j < i ==> !(prior_correct(#[trigger] subs@[j], *s) && dedup_match(
                    subs@[j],
                    *s,
                )),
        decreases subs.len() - i,
    {
        let e = &subs[i];
        let in_scope = match s.game_id {
            Some(g) => match e.game_id {
                Some(eg) => eg == g,
                None => false,
            },
            None => true,
        };
        if e.status == Status::Correct && e.challenge_id == s.challenge_id && in_scope {
            let team_hit = match (s.game_id, s.team_id, e.team_id) {
                (Some(_), Some(st), Some(et)) => st == et,
                _ => false,
            };
            if e.user_id == s.user_id || team_hit {
                proof {
                    assert(prior_correct(subs@[i as int], *s) && dedup_match(subs@[i as int], *s));
                }
                return true;
            }
        }
        i += 1;
    }
    false
}

/// The whole verifier: strategy verdict, then the dedup override.
pub fn decide(
    c: &Challenge,
    pods: &Vec<Pod>,
    subs: &Vec<Submission>,
    s: &Submission,
    now: i64,
) -> (st: Status)
    ensures
        st == verdict(*c, pods@, subs@, *s, now),
{
    let provisional = match &c.kind {
        ChallengeKind::Static { flags } => verify_static(flags, &s.flag),
        ChallengeKind::Dynamic => verify_dynamic(pods, s, now),
    };
    if provisional != Status::Incorrect && scan_dedup(subs, s) {
        Status::Invalid
    } else {
        provisional
    }
}

} // verus!
