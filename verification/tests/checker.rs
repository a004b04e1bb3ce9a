use flag_checker::checker::Checker;
use flag_checker::model::{Challenge, ChallengeKind, Flag, Pod, Submission};
use flag_checker::status::Status;
use flag_checker::store::{CheckOutcome, Store};

const NOW: i64 = 1_000_000;

fn flag(value: &str, banned: bool) -> Flag {
    Flag { value: value.to_string(), banned }
}

fn static_challenge(id: i64, flags: Vec<Flag>) -> Challenge {
    Challenge { id, kind: ChallengeKind::Static { flags } }
}

fn dynamic_challenge(id: i64) -> Challenge {
    Challenge { id, kind: ChallengeKind::Dynamic }
}

fn pod(
    id: i64,
    user_id: i64,
    team_id: Option<i64>,
    challenge_id: i64,
    game_id: Option<i64>,
    flag: Option<&str>,
    removed_at: i64,
) -> Pod {
    Pod {
        id,
        user_id,
        team_id,
        challenge_id,
        game_id,
        flag: flag.map(|f| f.to_string()),
        removed_at,
    }
}

fn submission(
    id: i64,
    user_id: i64,
    team_id: Option<i64>,
    challenge_id: i64,
    game_id: Option<i64>,
    flag: &str,
) -> Submission {
    Submission {
        id,
        user_id,
        team_id,
        challenge_id,
        game_id,
        flag: flag.to_string(),
        status: Status::Pending,
        created_at: id,
    }
}

fn status_of(store: &Store, id: i64) -> Option<Status> {
    store.submissions.iter().find(|s| s.id == id).map(|s| s.status)
}

/// The documented end-to-end scenario: a static challenge with one clean
/// flag, two users, four submissions.
#[test]
fn static_scenario_two_users() {
    let mut store = Store::new();
    store.challenges.push(static_challenge(1, vec![flag("FLAG{x}", false)]));
    store.users = vec![100, 200];
    store.submissions.push(submission(1, 100, None, 1, None, "FLAG{x}"));
    store.submissions.push(submission(2, 100, None, 1, None, "FLAG{x}"));
    store.submissions.push(submission(3, 200, None, 1, None, "FLAG{x}"));
    store.submissions.push(submission(4, 200, None, 1, None, "wrong"));

    assert_eq!(store.check(1, NOW), CheckOutcome::Resolved(Status::Correct));
    assert_eq!(store.check(2, NOW), CheckOutcome::Resolved(Status::Invalid));
    assert_eq!(store.check(3, NOW), CheckOutcome::Resolved(Status::Correct));
    assert_eq!(store.check(4, NOW), CheckOutcome::Resolved(Status::Incorrect));

    assert_eq!(status_of(&store, 1), Some(Status::Correct));
    assert_eq!(status_of(&store, 2), Some(Status::Invalid));
    assert_eq!(status_of(&store, 3), Some(Status::Correct));
    assert_eq!(status_of(&store, 4), Some(Status::Incorrect));
}

/// Checking an id twice: the second run is a silent no-op and changes no
/// row.
#[test]
fn idempotent_recheck() {
    let mut store = Store::new();
    store.challenges.push(static_challenge(1, vec![flag("FLAG{x}", false)]));
    store.users = vec![100];
    store.submissions.push(submission(1, 100, None, 1, None, "FLAG{x}"));

    assert_eq!(store.check(1, NOW), CheckOutcome::Resolved(Status::Correct));
    let statuses: Vec<Status> = store.submissions.iter().map(|s| s.status).collect();
    let count = store.submissions.len();

    assert_eq!(store.check(1, NOW), CheckOutcome::Skipped);
    assert_eq!(store.submissions.len(), count);
    let again: Vec<Status> = store.submissions.iter().map(|s| s.status).collect();
    assert_eq!(statuses, again);
}

/// An id that no submission carries is skipped.
#[test]
fn unknown_id_skipped() {
    let mut store = Store::new();
    store.users = vec![100];
    assert_eq!(store.check(42, NOW), CheckOutcome::Skipped);
    assert!(store.submissions.is_empty());
}

/// The first matching pod decides: when a foreign pod with the same flag
/// value stands before the submitter's own, the verdict is `Cheat`, and
/// with no credit given the dedup pass never fires.
#[test]
fn first_matching_pod_wins() {
    let mut store = Store::new();
    store.challenges.push(dynamic_challenge(7));
    store.users = vec![100, 200];
    // The other user's pod comes first, so the provisional verdict of the
    // re-submission would be `Cheat`.
    store.pods.push(pod(1, 200, Some(20), 7, None, Some("F{shared}"), NOW + 100));
    store.pods.push(pod(2, 100, Some(10), 7, None, Some("F{shared}"), NOW + 100));
    store.submissions.push(submission(1, 100, Some(10), 7, None, "F{shared}"));
    store.submissions.push(submission(2, 100, Some(10), 7, None, "F{shared}"));

    // First attempt: the foreign pod matches first, so it is a cheat.
    assert_eq!(store.check(1, NOW), CheckOutcome::Resolved(Status::Cheat));
    // No credit was given, so the second attempt is judged on its own:
    // still the foreign pod, still a cheat.
    assert_eq!(store.check(2, NOW), CheckOutcome::Resolved(Status::Cheat));
}

/// A user already credited who re-submits the same correct flag gets
/// `Invalid`, never `Cheat`, even while the flag also sits in another
/// user's pod.
#[test]
fn dedup_invalid_after_correct() {
    let mut store = Store::new();
    store.challenges.push(dynamic_challenge(7));
    store.users = vec![100, 200];
    store.pods.push(pod(1, 100, Some(10), 7, None, Some("F{mine}"), NOW + 100));
    store.submissions.push(submission(1, 100, Some(10), 7, None, "F{mine}"));
    store.submissions.push(submission(2, 100, Some(10), 7, None, "F{mine}"));

    assert_eq!(store.check(1, NOW), CheckOutcome::Resolved(Status::Correct));
    // Another user's pod with the same flag value now stands first, so the
    // provisional verdict of the re-submission is `Cheat`; the dedup pass
    // still wins.
    store.pods.insert(0, pod(2, 200, Some(20), 7, None, Some("F{mine}"), NOW + 100));
    assert_eq!(store.check(2, NOW), CheckOutcome::Resolved(Status::Invalid));
}

/// A value listed both clean and banned resolves `Cheat`, in either order.
#[test]
fn banned_precedence_static() {
    let mut store = Store::new();
    store.challenges.push(static_challenge(
        1,
        vec![flag("FLAG{x}", false), flag("FLAG{x}", true)],
    ));
    store.challenges.push(static_challenge(
        2,
        vec![flag("FLAG{y}", true), flag("FLAG{y}", false)],
    ));
    store.users = vec![100];
    store.submissions.push(submission(1, 100, None, 1, None, "FLAG{x}"));
    store.submissions.push(submission(2, 100, None, 2, None, "FLAG{y}"));

    assert_eq!(store.check(1, NOW), CheckOutcome::Resolved(Status::Cheat));
    assert_eq!(store.check(2, NOW), CheckOutcome::Resolved(Status::Cheat));
}

/// A flag taken from a pod of a foreign team is a cheat for an outsider,
/// and correct for a teammate of the pod's owner.
#[test]
fn dynamic_cross_ownership() {
    let mut store = Store::new();
    store.challenges.push(dynamic_challenge(7));
    store.users = vec![1, 2, 3];
    store.pods.push(pod(1, 1, Some(10), 7, None, Some("F{pod}"), NOW + 100));
    // User 2 is on another team.
    store.submissions.push(submission(1, 2, Some(20), 7, None, "F{pod}"));
    // User 3 is on the pod owner's team, but does not own the pod.
    store.submissions.push(submission(2, 3, Some(10), 7, None, "F{pod}"));

    assert_eq!(store.check(1, NOW), CheckOutcome::Resolved(Status::Cheat));
    assert_eq!(store.check(2, NOW), CheckOutcome::Resolved(Status::Correct));
}

/// An expired pod is never matched: its flag resolves `Incorrect`.
#[test]
fn expired_pod_never_matches() {
    let mut store = Store::new();
    store.challenges.push(dynamic_challenge(7));
    store.users = vec![1];
    store.pods.push(pod(1, 1, None, 7, None, Some("F{old}"), NOW - 1));
    store.submissions.push(submission(1, 1, None, 7, None, "F{old}"));

    assert_eq!(store.check(1, NOW), CheckOutcome::Resolved(Status::Incorrect));
}

/// A pod expiring exactly now is still eligible.
#[test]
fn pod_expiry_boundary() {
    let mut store = Store::new();
    store.challenges.push(dynamic_challenge(7));
    store.users = vec![1];
    store.pods.push(pod(1, 1, None, 7, None, Some("F{edge}"), NOW));
    store.submissions.push(submission(1, 1, None, 7, None, "F{edge}"));

    assert_eq!(store.check(1, NOW), CheckOutcome::Resolved(Status::Correct));
}

/// A submission whose challenge was deleted between creation and
/// verification is removed, and no status is ever written.
#[test]
fn orphaned_challenge_deleted() {
    let mut store = Store::new();
    store.users = vec![100];
    store.submissions.push(submission(1, 100, None, 99, None, "anything"));

    assert_eq!(store.check(1, NOW), CheckOutcome::Deleted);
    assert_eq!(status_of(&store, 1), None);
    assert!(store.submissions.is_empty());
}

/// A submission whose owning user was deleted is likewise removed.
#[test]
fn orphaned_user_deleted() {
    let mut store = Store::new();
    store.challenges.push(static_challenge(1, vec![flag("FLAG{x}", false)]));
    store.submissions.push(submission(1, 100, None, 1, None, "FLAG{x}"));

    assert_eq!(store.check(1, NOW), CheckOutcome::Deleted);
    assert!(store.submissions.is_empty());
}

/// Three submissions left pending across a restart are re-enqueued in
/// creation order and all end in a terminal status.
#[test]
fn recovery_resolves_all_pending() {
    let mut store = Store::new();
    store.challenges.push(static_challenge(1, vec![flag("FLAG{x}", false)]));
    store.users = vec![100, 200, 300];
    store.submissions.push(submission(1, 100, None, 1, None, "FLAG{x}"));
    store.submissions.push(submission(2, 200, None, 1, None, "nope"));
    store.submissions.push(submission(3, 300, None, 1, None, "FLAG{x}"));

    let mut checker = Checker::new(store);
    checker.recover();
    assert_eq!(checker.queue, vec![1, 2, 3]);
    checker.run(NOW);
    assert!(checker.queue.is_empty());
    for s in &checker.store.submissions {
        assert_ne!(s.status, Status::Pending);
    }
    assert_eq!(status_of(&checker.store, 1), Some(Status::Correct));
    assert_eq!(status_of(&checker.store, 2), Some(Status::Incorrect));
    assert_eq!(status_of(&checker.store, 3), Some(Status::Correct));
}

/// The start hook is recovery followed by the worker loop.
#[test]
fn start_drains_recovered_work() {
    let mut store = Store::new();
    store.challenges.push(static_challenge(1, vec![flag("FLAG{x}", false)]));
    store.users = vec![100];
    store.submissions.push(submission(1, 100, None, 1, None, "FLAG{x}"));

    let mut checker = Checker::new(store);
    checker.start(NOW);
    assert!(checker.queue.is_empty());
    assert_eq!(status_of(&checker.store, 1), Some(Status::Correct));
}

/// The submission-creation path: persist pending, enqueue, verify on the
/// next worker step.
#[test]
fn submit_then_step() {
    let mut store = Store::new();
    store.challenges.push(static_challenge(1, vec![flag("FLAG{x}", false)]));
    store.users = vec![100];

    let mut checker = Checker::new(store);
    checker.submit(submission(1, 100, None, 1, None, "FLAG{x}"));
    assert_eq!(status_of(&checker.store, 1), Some(Status::Pending));
    let out = checker.step(NOW);
    assert_eq!(out, Some(CheckOutcome::Resolved(Status::Correct)));
    assert_eq!(status_of(&checker.store, 1), Some(Status::Correct));
    assert_eq!(checker.step(NOW), None);
}

/// Team-scoped dedup: within a game, a second correct submission from a
/// teammate is invalidated.
#[test]
fn team_scoped_dedup() {
    let mut store = Store::new();
    store.challenges.push(static_challenge(1, vec![flag("FLAG{x}", false)]));
    store.users = vec![100, 200];
    store.submissions.push(submission(1, 100, Some(10), 1, Some(5), "FLAG{x}"));
    store.submissions.push(submission(2, 200, Some(10), 1, Some(5), "FLAG{x}"));

    assert_eq!(store.check(1, NOW), CheckOutcome::Resolved(Status::Correct));
    assert_eq!(store.check(2, NOW), CheckOutcome::Resolved(Status::Invalid));
}

/// Solo players without a team are not deduplicated against each other,
/// even inside a game: a null team never counts as "the same team".
#[test]
fn null_teams_do_not_collide() {
    let mut store = Store::new();
    store.challenges.push(static_challenge(1, vec![flag("FLAG{x}", false)]));
    store.users = vec![100, 200];
    store.submissions.push(submission(1, 100, None, 1, Some(5), "FLAG{x}"));
    store.submissions.push(submission(2, 200, None, 1, Some(5), "FLAG{x}"));

    assert_eq!(store.check(1, NOW), CheckOutcome::Resolved(Status::Correct));
    assert_eq!(store.check(2, NOW), CheckOutcome::Resolved(Status::Correct));
}

/// Game scoping: a correct submission in another game does not invalidate
/// one in this game.
#[test]
fn game_scope_separates_credit() {
    let mut store = Store::new();
    store.challenges.push(static_challenge(1, vec![flag("FLAG{x}", false)]));
    store.users = vec![100];
    store.submissions.push(submission(1, 100, Some(10), 1, Some(5), "FLAG{x}"));
    store.submissions.push(submission(2, 100, Some(10), 1, Some(6), "FLAG{x}"));

    assert_eq!(store.check(1, NOW), CheckOutcome::Resolved(Status::Correct));
    // Same user though: the user clause still applies across scopes only
    // when the existing row passes the game filter, which it does not.
    assert_eq!(store.check(2, NOW), CheckOutcome::Resolved(Status::Correct));
}

/// A pod of another challenge, or outside the submission's game, is not
/// considered.
#[test]
fn pod_scope_filter() {
    let mut store = Store::new();
    store.challenges.push(dynamic_challenge(7));
    store.users = vec![1];
    // Right flag value, wrong challenge.
    store.pods.push(pod(1, 1, None, 8, None, Some("F{v}"), NOW + 100));
    // Right flag value, wrong game.
    store.pods.push(pod(2, 1, None, 7, Some(9), Some("F{v}"), NOW + 100));
    store.submissions.push(submission(1, 1, None, 7, Some(5), "F{v}"));

    assert_eq!(store.check(1, NOW), CheckOutcome::Resolved(Status::Incorrect));
}

/// Pod ownership goes by user or by team equality, and a pod bound to no
/// team counts as the same (absent) team as a teamless submission.
#[test]
fn teamless_pod_matches_teamless_submitter() {
    let mut store = Store::new();
    store.challenges.push(dynamic_challenge(7));
    store.users = vec![1, 2];
    store.pods.push(pod(1, 1, None, 7, None, Some("F{solo}"), NOW + 100));
    store.submissions.push(submission(1, 2, None, 7, None, "F{solo}"));

    assert_eq!(store.check(1, NOW), CheckOutcome::Resolved(Status::Correct));
}

/// A pod that never had a flag issued matches nothing.
#[test]
fn pod_without_flag() {
    let mut store = Store::new();
    store.challenges.push(dynamic_challenge(7));
    store.users = vec![1];
    store.pods.push(pod(1, 1, None, 7, None, None, NOW + 100));
    store.submissions.push(submission(1, 1, None, 7, None, ""));

    assert_eq!(store.check(1, NOW), CheckOutcome::Resolved(Status::Incorrect));
}

/// However many times a user re-submits the winning flag, at most one of
/// the submissions ends `Correct`.
#[test]
fn at_most_one_correct_per_user() {
    let mut store = Store::new();
    store.challenges.push(static_challenge(1, vec![flag("FLAG{x}", false)]));
    store.users = vec![100];
    for id in 1..=4 {
        store.submissions.push(submission(id, 100, None, 1, None, "FLAG{x}"));
    }
    let mut checker = Checker::new(store);
    checker.recover();
    checker.run(NOW);
    let correct = checker
        .store
        .submissions
        .iter()
        .filter(|s| s.status == Status::Correct)
        .count();
    assert_eq!(correct, 1);
    assert_eq!(status_of(&checker.store, 1), Some(Status::Correct));
    for id in 2..=4 {
        assert_eq!(status_of(&checker.store, id), Some(Status::Invalid));
    }
}

/// A static challenge with no flags at all accepts nothing.
#[test]
fn empty_flag_list() {
    let mut store = Store::new();
    store.challenges.push(static_challenge(1, vec![]));
    store.users = vec![100];
    store.submissions.push(submission(1, 100, None, 1, None, ""));
    assert_eq!(store.check(1, NOW), CheckOutcome::Resolved(Status::Incorrect));
}

/// A dynamic challenge with no pods running accepts nothing.
#[test]
fn dynamic_without_pods() {
    let mut store = Store::new();
    store.challenges.push(dynamic_challenge(7));
    store.users = vec![1];
    store.submissions.push(submission(1, 1, None, 7, None, "F{v}"));
    assert_eq!(store.check(1, NOW), CheckOutcome::Resolved(Status::Incorrect));
}

/// Checking against the real clock: a static challenge never looks at the
/// time, and a pod that never expires matches at any instant.
#[test]
fn check_now_with_real_clock() {
    let mut store = Store::new();
    store.challenges.push(static_challenge(1, vec![flag("FLAG{x}", false)]));
    store.challenges.push(dynamic_challenge(7));
    store.users = vec![100];
    store.pods.push(pod(1, 100, None, 7, None, Some("F{live}"), i64::MAX));
    store.submissions.push(submission(1, 100, None, 1, None, "FLAG{x}"));
    store.submissions.push(submission(2, 100, None, 7, None, "F{live}"));

    assert_eq!(store.check_now(1), CheckOutcome::Resolved(Status::Correct));
    assert_eq!(store.check_now(2), CheckOutcome::Resolved(Status::Correct));
}

/// Enqueueing is fire-and-forget and preserves arrival order.
#[test]
fn enqueue_keeps_order() {
    let mut checker = Checker::new(Store::new());
    checker.enqueue(3);
    checker.enqueue(1);
    checker.enqueue(2);
    assert_eq!(checker.queue, vec![3, 1, 2]);
}
