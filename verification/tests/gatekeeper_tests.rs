use invite_bot::directory::Directory;
use invite_bot::gatekeeper::{
    JoinOutcome, MemberAction, check_member, collect_outcomes, plan_join_batch,
};
use invite_bot::models::NewUser;

fn directory_with_binding(name: &str, id: u64) -> Directory {
    let mut dir = Directory::new();
    let name: Vec<char> = name.chars().collect();
    dir.add_record(NewUser { full_name: name.clone() }, Some("5411".chars().collect()));
    assert!(dir.insert_telegram_data(&name, id));
    dir
}

#[test]
fn verified_member_is_kept() {
    // A join by an identity with a bound record triggers no kick and no
    // unban.
    let dir = directory_with_binding("Ivanov Ivan Ivanovich", 1);
    assert_eq!(check_member(&dir, 1, false), MemberAction::Keep);
    assert_eq!(check_member(&dir, 1, true), MemberAction::Keep);
}

#[test]
fn unverified_member_is_kicked() {
    let dir = directory_with_binding("Ivanov Ivan Ivanovich", 1);
    assert_eq!(check_member(&dir, 2, false), MemberAction::Kick);
}

#[test]
fn unban_after_kick_is_a_deployment_choice() {
    let dir = directory_with_binding("Ivanov Ivan Ivanovich", 1);
    assert_eq!(check_member(&dir, 2, true), MemberAction::KickAndUnban);
}

#[test]
fn batch_plan_decides_each_member_independently() {
    let dir = directory_with_binding("Ivanov Ivan Ivanovich", 1);
    let members: Vec<u64> = vec![1, 2, 1, 3];
    let plan = plan_join_batch(&dir, &members, false);
    assert_eq!(
        plan,
        vec![
            MemberAction::Keep,
            MemberAction::Kick,
            MemberAction::Keep,
            MemberAction::Kick,
        ],
    );
}

#[test]
fn one_failed_eviction_leaves_other_members_handled() {
    // Three joined identities; only #2 (identity 20) has no bound record...
    // here all three of 10, 20, 30 are checked, 20 and 30 need eviction,
    // and the platform call for 20 fails transiently.  Members 10 and 30
    // still get their own outcomes.
    let dir = directory_with_binding("Ivanov Ivan Ivanovich", 10);
    let members: Vec<u64> = vec![10, 20, 30];
    let plan = plan_join_batch(&dir, &members, false);
    assert_eq!(plan, vec![MemberAction::Keep, MemberAction::Kick, MemberAction::Kick]);
    let results = vec![true, false, true];
    let outcomes = collect_outcomes(&plan, &results);
    assert_eq!(
        outcomes,
        vec![JoinOutcome::KeptVerified, JoinOutcome::EvictionFailed, JoinOutcome::Evicted],
    );
}

#[test]
fn empty_batch_produces_no_outcomes() {
    let dir = Directory::new();
    let members: Vec<u64> = Vec::new();
    let plan = plan_join_batch(&dir, &members, false);
    assert!(plan.is_empty());
    assert!(collect_outcomes(&plan, &Vec::new()).is_empty());
}
