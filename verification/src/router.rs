use vstd::prelude::*;

use crate::dialogue::{Reply, Sessions, handle_private_message, spec_handle_private};
use crate::directory::Directory;
use crate::gatekeeper::{MemberAction, plan_join_batch, spec_member_action};
use crate::models::UserView;

verus! {

/// Startup configuration: the monitored group, the administrator
/// allow-list, the required input shape, and the eviction style.
pub struct Config {
    pub group_id: i64,
    pub admin_ids: Vec<u64>,
    pub require_phone_suffix: bool,
    pub unban_after_kick: bool,
}

/// What one inbound event carries.
pub enum EventPayload {
    /// A text message.
    Text(Vec<char>),
    /// A "new members joined" notification with the joined identities.
    NewMembers(Vec<u64>),
    /// Anything else: stickers, photos, service messages.
    Other,
}

/// One inbound event, reduced to what routing and handling read.
pub struct InboundEvent {
    pub chat_id: i64,
    pub chat_is_private: bool,
    pub sender: Option<u64>,
    pub payload: EventPayload,
}

/// Where an event is dispatched; every event goes to exactly one place.
#[derive(Clone, Copy, PartialEq, Eq, Structural, Debug)]
pub enum Route {
    /// A command from an allow-listed administrator; handled by the
    /// administrator surface, outside this library.
    AdminCommand,
    /// A private conversation: the dialogue engine.
    PrivateDialogue,
    /// A join notification in the monitored group: the gatekeeper.
    GroupJoin,
    /// Everything else is deliberately ignored; not an error.
    Ignored,
}

/// Whether the event is a text command.
pub open spec fn spec_is_command(e: InboundEvent) -> bool {
    e.payload matches EventPayload::Text(t) && t@.len() > 0 && t@[0] == '/'
}

/// Whether the event's sender is on the administrator allow-list.
pub open spec fn spec_is_admin(cfg: Config, e: InboundEvent) -> bool {
    e.sender matches Some(s) && cfg.admin_ids@.contains(s)
}

/// The classification, in fixed priority order: administrator commands
/// first, then private conversations, then join events of the monitored
/// group, then nothing.
pub open spec fn spec_classify(cfg: Config, e: InboundEvent) -> Route {
    if spec_is_command(e) && spec_is_admin(cfg, e) {
        Route::AdminCommand
    } else if e.chat_is_private {
        Route::PrivateDialogue
    } else if e.chat_id == cfg.group_id && e.payload is NewMembers {
        Route::GroupJoin
    } else {
        Route::Ignored
    }
}

/// Whether `sender` is an allow-listed administrator.
fn is_admin(cfg: &Config, sender: u64) -> (r: bool)
    ensures
        r == cfg.admin_ids@.contains(sender),
{
    let mut i: usize = 0;
    while i < cfg.admin_ids.len()
        invariant
            i <= cfg.admin_ids.len(),
            forall|j: int| 0 <= j < i ==> cfg.admin_ids@[j] != sender,
        decreases cfg.admin_ids.len() - i,
    {
        if cfg.admin_ids[i] == sender {
            return true;
        }
        i = i + 1;
    }
    false
}

/// Classifies one inbound event, as [`spec_classify`] describes.  A pure
/// classifier: no side effects of its own.
pub fn classify(cfg: &Config, e: &InboundEvent) -> (r: Route)
    ensures
        r == spec_classify(*cfg, *e),
{
    let command = match &e.payload {
        EventPayload::Text(t) => t.len() > 0 && t[0] == '/',
        _ => false,
    };
    let admin = match e.sender {
        Some(s) => is_admin(cfg, s),
        None => false,
    };
    if command && admin {
        Route::AdminCommand
    } else if e.chat_is_private {
        Route::PrivateDialogue
    } else if e.chat_id == cfg.group_id && matches!(&e.payload, EventPayload::NewMembers(_)) {
        Route::GroupJoin
    } else {
        Route::Ignored
    }
}

/// One side effect the shell must perform for an event.
#[derive(Clone, Copy, PartialEq, Eq, Structural, Debug)]
pub enum Action {
    /// Send the reply to the event's chat.
    Send(Reply),
    /// Remove the identity from the monitored group.
    Kick(u64),
    /// Lift the ban of the identity in the monitored group.
    Unban(u64),
}

/// The text a private message carries, if any.
pub open spec fn spec_event_text(e: InboundEvent) -> Option<Seq<char>> {
    match e.payload {
        EventPayload::Text(t) => Some(t@),
        _ => None,
    }
}

/// The eviction actions for one join batch, in member order.
pub open spec fn spec_evictions(users: Seq<UserView>, members: Seq<u64>, unban_after_kick: bool) -> Seq<
    Action,
>
    decreases members.len(),
{
    if members.len() == 0 {
        Seq::empty()
    } else {
        spec_evictions(users, members.drop_last(), unban_after_kick) + (match spec_member_action(
            users,
            members.last(),
            unban_after_kick,
        ) {
            MemberAction::Keep => Seq::<Action>::empty(),
            MemberAction::Kick => seq![Action::Kick(members.last())],
            MemberAction::KickAndUnban => seq![
                Action::Kick(members.last()),
                Action::Unban(members.last()),
            ],
        })
    }
}

/// Routes one inbound event and runs the in-memory core it dispatches to,
/// returning the side effects the shell must perform.  Administrator
/// commands are recognized but handled outside; ignored events produce
/// nothing; a private message steps the dialogue engine; a join event is
/// planned member by member.
pub fn handle_event(cfg: &Config, dir: &mut Directory, sessions: &mut Sessions, e: &InboundEvent) -> (r:
    Vec<Action>)
    requires
        old(dir).wf(),
    ensures
        final(dir).wf(),
        spec_classify(*cfg, *e) != Route::PrivateDialogue ==> (final(dir)@ == old(dir)@ && forall|
            c: i64,
            u: u64,
        | final(sessions).spec_state(c, u) == old(sessions).spec_state(c, u)),
        (spec_classify(*cfg, *e) == Route::AdminCommand || spec_classify(*cfg, *e)
            == Route::Ignored) ==> r@ == Seq::<Action>::empty(),
        spec_classify(*cfg, *e) == Route::PrivateDialogue ==> match e.sender {
            Some(s) => {
                let step = spec_handle_private(
                    old(dir)@,
                    old(sessions).spec_state(e.chat_id, s),
                    s,
                    spec_event_text(*e),
                    cfg.require_phone_suffix,
                );
                &&& r@ == seq![Action::Send(step.reply)]
                &&& final(dir)@ == step.users
                &&& forall|c: i64, u: u64|
                    final(sessions).spec_state(c, u) == if c == e.chat_id && u == s {
                        step.state
                    } else {
                        old(sessions).spec_state(c, u)
                    }
            },
            None => r@ == Seq::<Action>::empty(),
        },
        spec_classify(*cfg, *e) == Route::GroupJoin ==> (e.payload matches
            EventPayload::NewMembers(m) && r@ == spec_evictions(
            old(dir)@,
            m@,
            cfg.unban_after_kick,
        )),
{
    match classify(cfg, e) {
        Route::AdminCommand => Vec::new(),
        Route::Ignored => Vec::new(),
        Route::PrivateDialogue => {
            match e.sender {
                None => Vec::new(),
                Some(s) => {
                    let text = match &e.payload {
                        EventPayload::Text(t) => Some(t),
                        _ => None,
                    };
                    let reply = handle_private_message(
                        dir,
                        sessions,
                        e.chat_id,
                        s,
                        text,
                        cfg.require_phone_suffix,
                    );
                    let mut r: Vec<Action> = Vec::new();
                    r.push(Action::Send(reply));
                    proof {
                        assert(r@ =~= seq![
                            Action::Send(
                                spec_handle_private(
                                    old(dir)@,
                                    old(sessions).spec_state(e.chat_id, s),
                                    s,
                                    spec_event_text(*e),
                                    cfg.require_phone_suffix,
                                ).reply,
                            ),
                        ]);
                    }
                    r
                },
            }
        },
        Route::GroupJoin => {
            let members = match &e.payload {
                EventPayload::NewMembers(m) => m,
                _ => {
                    return Vec::new();
                },
            };
            let plan = plan_join_batch(dir, members, cfg.unban_after_kick);
            let mut r: Vec<Action> = Vec::new();
            let mut i: usize = 0;
            proof {
                assert(members@.take(0) =~= Seq::<u64>::empty());
            }
            while i < plan.len()
                invariant
                    i <= plan.len(),
                    plan@.len() == members@.len(),
                    forall|j: int|
                        0 <= j < plan@.len() ==> plan@[j] == spec_member_action(
                            dir@,
                            members@[j],
                            cfg.unban_after_kick,
                        ),
                    r@ == spec_evictions(dir@, members@.take(i as int), cfg.unban_after_kick),
                decreases plan.len() - i,
            {
                let ghost before = r@;
                match plan[i] {
                    MemberAction::Keep => {},
                    MemberAction::Kick => {
                        r.push(Action::Kick(members[i]));
                    },
                    MemberAction::KickAndUnban => {
                        r.push(Action::Kick(members[i]));
                        r.push(Action::Unban(members[i]));
                    },
                }
                proof {
                    assert(members@.take(i + 1 as int).drop_last() =~= members@.take(i as int));
                    assert(members@.take(i + 1 as int).last() == members@[i as int]);
                    assert(r@ =~= spec_evictions(
                        dir@,
                        members@.take(i + 1 as int),
                        cfg.unban_after_kick,
                    ));
                }
                i = i + 1;
            }
            proof {
                assert(members@.take(members@.len() as int) =~= members@);
            }
            r
        },
    }
}

} // verus!
