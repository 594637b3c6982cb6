use vstd::prelude::*;

use crate::directory::{Directory, first_tid_match, lemma_first_tid_match};
use crate::models::UserView;

verus! {

/// What the gatekeeper decides for one newly joined member.
#[derive(Clone, Copy, PartialEq, Eq, Structural, Debug)]
pub enum MemberAction {
    /// A record is bound to the identity: a legitimate member, no action.
    Keep,
    /// No record is bound: remove the member from the group.
    Kick,
    /// Remove the member, then lift the resulting ban so the identity may
    /// rejoin once verified (a deployment choice).
    KickAndUnban,
}

/// The decision for one joined identity: members with a bound record are
/// left alone; everybody else is evicted.
pub open spec fn spec_member_action(users: Seq<UserView>, id: u64, unban_after_kick: bool) -> MemberAction {
    if first_tid_match(users, id) != -1 {
        MemberAction::Keep
    } else if unban_after_kick {
        MemberAction::KickAndUnban
    } else {
        MemberAction::Kick
    }
}

/// The decision from the bare lookup result: a found binding keeps the
/// member; an absent one evicts, in the configured style.  This is the
/// whole of the gatekeeper's per-member rule, so a deployment with a
/// persistent store decides exactly as the in-memory directory does.
pub fn member_action(found: bool, unban_after_kick: bool) -> (r: MemberAction)
    ensures
        found ==> r == MemberAction::Keep,
        !found && unban_after_kick ==> r == MemberAction::KickAndUnban,
        !found && !unban_after_kick ==> r == MemberAction::Kick,
{
    if found {
        MemberAction::Keep
    } else if unban_after_kick {
        MemberAction::KickAndUnban
    } else {
        MemberAction::Kick
    }
}

/// Decides the fate of one joined member, as [`spec_member_action`]
/// describes.  The directory is only read.
pub fn check_member(dir: &Directory, id: u64, unban_after_kick: bool) -> (r: MemberAction)
    ensures
        r == spec_member_action(dir@, id, unban_after_kick),
{
    let found = dir.find_by_telegram_id(id).is_some();
    member_action(found, unban_after_kick)
}

/// Decides every member of one join batch.  Each member's decision depends
/// on the directory and that member alone, so no member's outcome can keep
/// another from being evaluated.
pub fn plan_join_batch(dir: &Directory, members: &Vec<u64>, unban_after_kick: bool) -> (r: Vec<
    MemberAction,
>)
    ensures
        r@.len() == members@.len(),
        forall|i: int|
            0 <= i < members@.len() ==> r@[i] == spec_member_action(
                dir@,
                members@[i],
                unban_after_kick,
            ),
{
    let mut r: Vec<MemberAction> = Vec::new();
    let mut i: usize = 0;
    while i < members.len()
        invariant
            i <= members.len(),
            r@.len() == i,
            forall|j: int|
                0 <= j < i ==> r@[j] == spec_member_action(dir@, members@[j], unban_after_kick),
        decreases members.len() - i,
    {
        let a = check_member(dir, members[i], unban_after_kick);
        r.push(a);
        i = i + 1;
    }
    r
}

/// Per-member outcome once the shell has attempted the planned evictions.
#[derive(Clone, Copy, PartialEq, Eq, Structural, Debug)]
pub enum JoinOutcome {
    /// The member was verified; nothing was done.
    KeptVerified,
    /// The member was evicted.
    Evicted,
    /// The eviction call failed; only this member is affected.
    EvictionFailed,
}

/// The outcome of one member, from its planned action and whether its own
/// platform call succeeded.
pub open spec fn spec_join_outcome(action: MemberAction, ok: bool) -> JoinOutcome {
    match action {
        MemberAction::Keep => JoinOutcome::KeptVerified,
        MemberAction::Kick | MemberAction::KickAndUnban => if ok {
            JoinOutcome::Evicted
        } else {
            JoinOutcome::EvictionFailed
        },
    }
}

/// The outcomes of a whole batch, member by member.
pub open spec fn spec_outcomes(plan: Seq<MemberAction>, results: Seq<bool>) -> Seq<JoinOutcome> {
    Seq::new(plan.len(), |i: int| spec_join_outcome(plan[i], results[i]))
}

/// Folds the shell's per-eviction results into per-member outcomes without
/// ever short-circuiting: every member of the batch receives an outcome,
/// however the calls for the others fared.  `results[i]` reports the
/// platform call for member `i` (and is ignored for members that needed
/// none).
pub fn collect_outcomes(plan: &Vec<MemberAction>, results: &Vec<bool>) -> (r: Vec<JoinOutcome>)
    requires
        plan@.len() == results@.len(),
    ensures
        r@ == spec_outcomes(plan@, results@),
{
    let mut r: Vec<JoinOutcome> = Vec::new();
    let mut i: usize = 0;
    while i < plan.len()
        invariant
            i <= plan.len(),
            plan@.len() == results@.len(),
            r@.len() == i,
            forall|j: int|
                0 <= j < i ==> r@[j] == spec_join_outcome(plan@[j], results@[j]),
        decreases plan.len() - i,
    {
        let o = match plan[i] {
            MemberAction::Keep => JoinOutcome::KeptVerified,
            MemberAction::Kick | MemberAction::KickAndUnban => if results[i] {
                JoinOutcome::Evicted
            } else {
                JoinOutcome::EvictionFailed
            },
        };
        r.push(o);
        i = i + 1;
    }
    proof {
        assert(r@ =~= spec_outcomes(plan@, results@));
    }
    r
}

/// No action on legitimate members: a join by an identity with a bound
/// record results in no kick and no unban.
pub proof fn lemma_no_action_on_verified(users: Seq<UserView>, k: int, id: u64, unban_after_kick: bool)
    requires
        0 <= k < users.len(),
        users[k].telegram_id == Some(id),
    ensures
        spec_member_action(users, id, unban_after_kick) == MemberAction::Keep,
{
    lemma_first_tid_match(users, id);
}

/// Failures are isolated: a member's outcome depends on its own planned
/// action and its own call result alone.  Two rounds of call results that
/// agree for one member give that member the same outcome, however they
/// differ for every other member of the batch.
pub proof fn lemma_batch_failure_isolated(
    plan: Seq<MemberAction>,
    r1: Seq<bool>,
    r2: Seq<bool>,
    i: int,
)
    requires
        r1.len() == plan.len(),
        r2.len() == plan.len(),
        0 <= i < plan.len(),
        r1[i] == r2[i],
    ensures
        spec_outcomes(plan, r1)[i] == spec_outcomes(plan, r2)[i],
{
}

} // verus!
