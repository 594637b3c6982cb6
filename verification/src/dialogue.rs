use vstd::prelude::*;

use crate::directory::{
    Directory, bind_accepted, identities_unique, lemma_lookup_bind_consistent, spec_bind,
    spec_find_by_telegram_id,
};
use crate::matcher::{MatchOutcome, opt_chars_view, match_candidate, spec_match_candidate};
use crate::models::User;
use crate::text::{normalize, normalized, rfind_space, split_name_suffix};

verus! {

/// Conversation states of one candidate.  A successful exchange ends the
/// conversation but the state returns to `Start`; there is no hard terminal
/// state.
#[derive(Clone, Copy, PartialEq, Eq, Structural, Debug)]
pub enum DialogState {
    Start,
    WaitingForName,
}

impl Default for DialogState {
    /// A conversation begins in `Start`.
    fn default() -> (r: Self)
        ensures
            r == DialogState::Start,
    {
        DialogState::Start
    }
}

/// What the engine answers a candidate.  The shell renders each tag as the
/// deployment's wording; the data a message interpolates (the matched name,
/// the invite link) is already in the caller's hands.
#[derive(Clone, Copy, PartialEq, Eq, Structural, Debug)]
pub enum Reply {
    /// The sender (or the record they named) is already verified.
    AlreadyRegistered,
    /// The opening prompt asking for identifying input.
    Prompt,
    /// The input did not have the expected shape; sent again on retry.
    FormatError,
    /// No enrolled record matches — deliberately also sent on a phone
    /// suffix mismatch, so that a partial match is not revealed.
    NotFound,
    /// The record has no phone on file; an administrator must intervene.
    CannotAutoVerify,
    /// A store operation failed; the candidate may retry later.
    TechnicalError,
    /// Verification succeeded; the invitation follows.
    Welcome,
}

/// A failure of the backing store, reported by the shell that owns the
/// persistent connection.  The engine never inspects it: every store error
/// is answered with [`Reply::TechnicalError`] and leaves the state put.
#[derive(Clone, Copy, PartialEq, Eq, Structural, Debug)]
pub struct StoreError;

/// Decision on the first message of a conversation, given the result of
/// looking the sender's identity up in the store.
pub fn decide_start(lookup: &Result<Option<User>, StoreError>) -> (r: (Reply, DialogState))
    ensures
        lookup is Err ==> r == (Reply::TechnicalError, DialogState::Start),
        (lookup matches Ok(Some(_))) ==> r == (Reply::AlreadyRegistered, DialogState::Start),
        (lookup matches Ok(None)) ==> r == (Reply::Prompt, DialogState::WaitingForName),
{
    match lookup {
        Err(_) => (Reply::TechnicalError, DialogState::Start),
        Ok(Some(_)) => (Reply::AlreadyRegistered, DialogState::Start),
        Ok(None) => (Reply::Prompt, DialogState::WaitingForName),
    }
}

/// A candidate's submission after normalization and splitting.
pub enum ParsedSubmission {
    /// Non-text input, or no separator where a phone suffix is required.
    Invalid,
    /// Name-only deployment: the whole normalized text is the name.
    Name(Vec<char>),
    /// The text before the last space and the text after it.
    NameAndSuffix(Vec<char>, Vec<char>),
}

/// The candidate name a submission denotes.
pub open spec fn spec_candidate_name(t: Seq<char>, require_suffix: bool) -> Seq<char> {
    if require_suffix {
        normalized(t).take(rfind_space(normalized(t)))
    } else {
        normalized(t)
    }
}

/// The candidate suffix a submission denotes, when one is required.
pub open spec fn spec_candidate_suffix(t: Seq<char>, require_suffix: bool) -> Option<Seq<char>> {
    if require_suffix {
        Some(normalized(t).skip(rfind_space(normalized(t)) + 1))
    } else {
        None
    }
}

/// Whether a submission has the expected shape: where a suffix is required,
/// the normalized text must hold a separator space.
pub open spec fn spec_submission_valid(t: Seq<char>, require_suffix: bool) -> bool {
    !require_suffix || rfind_space(normalized(t)) != -1
}

/// Normalizes and splits one submission.
pub fn parse_submission(text: Option<&Vec<char>>, require_suffix: bool) -> (r: ParsedSubmission)
    ensures
        text is None ==> r is Invalid,
        text matches Some(t) ==> {
            &&& !require_suffix ==> (r matches ParsedSubmission::Name(n) && n@
                == spec_candidate_name(t@, false))
            &&& (require_suffix && !spec_submission_valid(t@, true)) ==> r is Invalid
            &&& (require_suffix && spec_submission_valid(t@, true)) ==> (r
                matches ParsedSubmission::NameAndSuffix(n, s) && n@ == spec_candidate_name(
                t@,
                true,
            ) && Some(s@) == spec_candidate_suffix(t@, true))
        },
{
    match text {
        None => ParsedSubmission::Invalid,
        Some(t) => {
            let norm = normalize(t);
            if require_suffix {
                match split_name_suffix(&norm) {
                    None => ParsedSubmission::Invalid,
                    Some(pair) => ParsedSubmission::NameAndSuffix(pair.0, pair.1),
                }
            } else {
                ParsedSubmission::Name(norm)
            }
        },
    }
}

/// The reply and next state for each matcher outcome, before any binding is
/// attempted.  A suffix mismatch is answered exactly as an absent record.
pub open spec fn spec_reply_for_outcome(o: MatchOutcome) -> (Reply, DialogState) {
    match o {
        MatchOutcome::NotFound => (Reply::NotFound, DialogState::WaitingForName),
        MatchOutcome::AlreadyBound => (Reply::AlreadyRegistered, DialogState::Start),
        MatchOutcome::Unverifiable => (Reply::CannotAutoVerify, DialogState::WaitingForName),
        MatchOutcome::SuffixMismatch => (Reply::NotFound, DialogState::WaitingForName),
        MatchOutcome::Verified => (Reply::Welcome, DialogState::Start),
    }
}

/// No information leak on a partial match: a suffix mismatch produces the
/// same outward reply as a name that is not enrolled at all.
pub proof fn lemma_no_partial_match_leak()
    ensures
        spec_reply_for_outcome(MatchOutcome::SuffixMismatch).0 == spec_reply_for_outcome(
            MatchOutcome::NotFound,
        ).0,
        spec_reply_for_outcome(MatchOutcome::SuffixMismatch).1 == spec_reply_for_outcome(
            MatchOutcome::NotFound,
        ).1,
{
}

/// The reply and next state for a matcher outcome that needs no binding,
/// as [`spec_reply_for_outcome`] describes.  For a verified outcome the
/// engine first attempts the bind and answers by [`decide_bind_result`].
pub fn reply_for_outcome(outcome: MatchOutcome) -> (r: (Reply, DialogState))
    ensures
        r == spec_reply_for_outcome(outcome),
{
    match outcome {
        MatchOutcome::NotFound => (Reply::NotFound, DialogState::WaitingForName),
        MatchOutcome::AlreadyBound => (Reply::AlreadyRegistered, DialogState::Start),
        MatchOutcome::Unverifiable => (Reply::CannotAutoVerify, DialogState::WaitingForName),
        MatchOutcome::SuffixMismatch => (Reply::NotFound, DialogState::WaitingForName),
        MatchOutcome::Verified => (Reply::Welcome, DialogState::Start),
    }
}

/// Decision after a bind-if-unbound attempt, given the store's answer.
/// A refused bind means somebody — possibly the sender — won the race for
/// the record or the identity, so the candidate hears "already verified".
pub fn decide_bind_result(bind: &Result<bool, StoreError>) -> (r: (Reply, DialogState))
    ensures
        bind is Err ==> r == (Reply::TechnicalError, DialogState::WaitingForName),
        bind == Ok::<bool, StoreError>(true) ==> r == (Reply::Welcome, DialogState::Start),
        bind == Ok::<bool, StoreError>(false) ==> r == (
            Reply::AlreadyRegistered,
            DialogState::Start,
        ),
{
    match bind {
        Err(_) => (Reply::TechnicalError, DialogState::WaitingForName),
        Ok(true) => (Reply::Welcome, DialogState::Start),
        Ok(false) => (Reply::AlreadyRegistered, DialogState::Start),
    }
}

/// The result of one dialogue step: what is answered, the next state, and
/// the directory contents afterwards.
pub ghost struct DialogueStep {
    pub reply: Reply,
    pub state: DialogState,
    pub users: Seq<crate::models::UserView>,
}

/// One step of the `WaitingForName` state: normalize and split the text,
/// match it against the directory, and on a verified match bind the
/// sender's identity to the named record.
pub open spec fn spec_receive_name(
    users: Seq<crate::models::UserView>,
    sender: u64,
    text: Option<Seq<char>>,
    require_suffix: bool,
) -> DialogueStep {
    match text {
        None => DialogueStep {
            reply: Reply::FormatError,
            state: DialogState::WaitingForName,
            users,
        },
        Some(t) => {
            if !spec_submission_valid(t, require_suffix) {
                DialogueStep {
                    reply: Reply::FormatError,
                    state: DialogState::WaitingForName,
                    users,
                }
            } else {
                let name = spec_candidate_name(t, require_suffix);
                let suffix = spec_candidate_suffix(t, require_suffix);
                let outcome = spec_match_candidate(users, name, suffix);
                if outcome is Verified {
                    if bind_accepted(users, name, sender) {
                        DialogueStep {
                            reply: Reply::Welcome,
                            state: DialogState::Start,
                            users: spec_bind(users, name, sender),
                        }
                    } else {
                        DialogueStep {
                            reply: Reply::AlreadyRegistered,
                            state: DialogState::Start,
                            users,
                        }
                    }
                } else {
                    DialogueStep {
                        reply: spec_reply_for_outcome(outcome).0,
                        state: spec_reply_for_outcome(outcome).1,
                        users,
                    }
                }
            }
        },
    }
}

/// Handles one message in the `WaitingForName` state against the in-memory
/// directory, as [`spec_receive_name`] describes.
pub fn receive_name(
    dir: &mut Directory,
    sender: u64,
    text: Option<&Vec<char>>,
    require_suffix: bool,
) -> (r: (Reply, DialogState))
    requires
        old(dir).wf(),
    ensures
        final(dir).wf(),
        ({
            let step = spec_receive_name(old(dir)@, sender, opt_chars_view(text), require_suffix);
            r.0 == step.reply && r.1 == step.state && final(dir)@ == step.users
        }),
{
    match parse_submission(text, require_suffix) {
        ParsedSubmission::Invalid => (Reply::FormatError, DialogState::WaitingForName),
        ParsedSubmission::Name(name) => {
            let outcome = match_candidate(dir, &name, None);
            finish_match(dir, sender, &name, outcome)
        },
        ParsedSubmission::NameAndSuffix(name, suffix) => {
            let outcome = match_candidate(dir, &name, Some(&suffix));
            finish_match(dir, sender, &name, outcome)
        },
    }
}

/// Turns a matcher outcome into the reply and next state, performing the
/// bind on a verified match.
fn finish_match(dir: &mut Directory, sender: u64, name: &Vec<char>, outcome: MatchOutcome) -> (r: (
    Reply,
    DialogState,
))
    requires
        old(dir).wf(),
    ensures
        final(dir).wf(),
        outcome is Verified ==> {
            &&& bind_accepted(old(dir)@, name@, sender) ==> (r == (
                Reply::Welcome,
                DialogState::Start,
            ) && final(dir)@ == spec_bind(old(dir)@, name@, sender))
            &&& !bind_accepted(old(dir)@, name@, sender) ==> (r == (
                Reply::AlreadyRegistered,
                DialogState::Start,
            ) && final(dir)@ == old(dir)@)
        },
        !(outcome is Verified) ==> (r.0 == spec_reply_for_outcome(outcome).0 && r.1
            == spec_reply_for_outcome(outcome).1 && final(dir)@ == old(dir)@),
{
    match outcome {
        MatchOutcome::Verified => {
            if dir.insert_telegram_data(name, sender) {
                (Reply::Welcome, DialogState::Start)
            } else {
                (Reply::AlreadyRegistered, DialogState::Start)
            }
        },
        _ => reply_for_outcome(outcome),
    }
}

/// One step of the `Start` state: a sender with a bound record is told so;
/// anybody else is prompted for identifying input.
pub open spec fn spec_start_dialog(users: Seq<crate::models::UserView>, sender: u64) -> (
    Reply,
    DialogState,
) {
    if spec_find_by_telegram_id(users, sender) is Some {
        (Reply::AlreadyRegistered, DialogState::Start)
    } else {
        (Reply::Prompt, DialogState::WaitingForName)
    }
}

/// Handles the first message of a conversation against the in-memory
/// directory, as [`spec_start_dialog`] describes.  The directory is only
/// read.
pub fn start_dialog(dir: &Directory, sender: u64) -> (r: (Reply, DialogState))
    ensures
        r == spec_start_dialog(dir@, sender),
{
    match dir.find_by_telegram_id(sender) {
        Some(_) => (Reply::AlreadyRegistered, DialogState::Start),
        None => (Reply::Prompt, DialogState::WaitingForName),
    }
}

/// The dialogue state found in a sequence of keyed sessions: the first
/// entry for the key, or `Start` when the key has none.
pub open spec fn state_in(
    entries: Seq<(i64, u64, DialogState)>,
    chat: i64,
    user: u64,
) -> DialogState
    decreases entries.len(),
{
    if entries.len() == 0 {
        DialogState::Start
    } else if entries[0].0 == chat && entries[0].1 == user {
        entries[0].2
    } else {
        state_in(entries.drop_first(), chat, user)
    }
}

/// The per-candidate conversation states, keyed by (chat, identity).
/// Process-lifetime only: a fresh value knows no conversation, so every
/// candidate starts over in `Start` after a restart.
pub struct Sessions {
    entries: Vec<(i64, u64, DialogState)>,
}

impl Sessions {
    /// The state of one conversation.
    pub closed spec fn spec_state(&self, chat: i64, user: u64) -> DialogState {
        state_in(self.entries@, chat, user)
    }

    /// A fresh session table: every conversation is in `Start`.
    pub fn new() -> (r: Sessions)
        ensures
            forall|chat: i64, user: u64| r.spec_state(chat, user) == DialogState::Start,
    {
        Sessions { entries: Vec::new() }
    }

    /// Reads the state of one conversation.
    pub fn get_state(&self, chat: i64, user: u64) -> (r: DialogState)
        ensures
            r == self.spec_state(chat, user),
    {
        let mut i: usize = 0;
        proof {
            assert(self.entries@.skip(0) =~= self.entries@);
        }
        while i < self.entries.len()
            invariant
                i <= self.entries.len(),
                state_in(self.entries@, chat, user) == state_in(
                    self.entries@.skip(i as int),
                    chat,
                    user,
                ),
            decreases self.entries.len() - i,
        {
            let ghost rest = self.entries@.skip(i as int);
            proof {
                assert(rest[0] == self.entries@[i as int]);
                assert(rest.drop_first() =~= self.entries@.skip(i + 1 as int));
            }
            let e = self.entries[i];
            if e.0 == chat && e.1 == user {
                return e.2;
            }
            i = i + 1;
        }
        proof {
            assert(self.entries@.skip(self.entries@.len() as int) =~= Seq::<(
                i64,
                u64,
                DialogState,
            )>::empty());
        }
        DialogState::Start
    }

    /// Writes the state of one conversation and touches no other.
    pub fn set_state(&mut self, chat: i64, user: u64, st: DialogState)
        ensures
            forall|c: i64, u: u64|
                final(self).spec_state(c, u) == if c == chat && u == user {
                    st
                } else {
                    old(self).spec_state(c, u)
                },
    {
        let mut i: usize = 0;
        while i < self.entries.len()
            invariant
                i <= self.entries.len(),
                self.entries@ == old(self).entries@,
                forall|j: int|
                    0 <= j < i ==> !((#[trigger] self.entries@[j]).0 == chat
                        && self.entries@[j].1 == user),
            decreases self.entries.len() - i,
        {
            let e = self.entries[i];
            if e.0 == chat && e.1 == user {
                self.entries.set(i, (chat, user, st));
                proof {
                    lemma_state_in_update(old(self).entries@, i as int, chat, user, st);
                }
                return;
            }
            i = i + 1;
        }
        self.entries.push((chat, user, st));
        proof {
            lemma_state_in_push(old(self).entries@, chat, user, st);
        }
    }
}

/// Overwriting the first entry of a key changes that key's state and no
/// other.
proof fn lemma_state_in_update(
    entries: Seq<(i64, u64, DialogState)>,
    k: int,
    chat: i64,
    user: u64,
    st: DialogState,
)
    requires
        0 <= k < entries.len(),
        entries[k].0 == chat && entries[k].1 == user,
        forall|j: int| 0 <= j < k ==> !((#[trigger] entries[j]).0 == chat && entries[j].1 == user),
    ensures
        forall|c: i64, u: u64|
            state_in(entries.update(k, (chat, user, st)), c, u) == if c == chat && u == user {
                st
            } else {
                state_in(entries, c, u)
            },
    decreases entries.len(),
{
    let t = entries.update(k, (chat, user, st));
    if k == 0 {
        assert(t.drop_first() =~= entries.drop_first());
        assert forall|c: i64, u: u64|
            state_in(t, c, u) == if c == chat && u == user {
                st
            } else {
                state_in(entries, c, u)
            } by {
            if !(c == chat && u == user) {
                assert(state_in(t, c, u) == state_in(t.drop_first(), c, u) || (t[0].0 == c
                    && t[0].1 == u));
            }
        }
    } else {
        assert(t[0] == entries[0]);
        assert(t.drop_first() =~= entries.drop_first().update(k - 1, (chat, user, st)));
        assert forall|j: int|
            0 <= j < k - 1 implies !((#[trigger] entries.drop_first()[j]).0 == chat
            && entries.drop_first()[j].1 == user) by {
            assert(entries.drop_first()[j] == entries[j + 1]);
        }
        lemma_state_in_update(entries.drop_first(), k - 1, chat, user, st);
        assert forall|c: i64, u: u64|
            state_in(t, c, u) == if c == chat && u == user {
                st
            } else {
                state_in(entries, c, u)
            } by {
            if !(t[0].0 == c && t[0].1 == u) {
                assert(state_in(t, c, u) == state_in(t.drop_first(), c, u));
                assert(state_in(entries, c, u) == state_in(entries.drop_first(), c, u));
            }
        }
    }
}

/// Appending an entry for a key with none changes that key's state and no
/// other.
proof fn lemma_state_in_push(
    entries: Seq<(i64, u64, DialogState)>,
    chat: i64,
    user: u64,
    st: DialogState,
)
    requires
        forall|j: int|
            0 <= j < entries.len() ==> !((#[trigger] entries[j]).0 == chat && entries[j].1
                == user),
    ensures
        forall|c: i64, u: u64|
            state_in(entries.push((chat, user, st)), c, u) == if c == chat && u == user {
                st
            } else {
                state_in(entries, c, u)
            },
    decreases entries.len(),
{
    let t = entries.push((chat, user, st));
    if entries.len() == 0 {
        assert(t.drop_first() =~= Seq::<(i64, u64, DialogState)>::empty());
        assert forall|c: i64, u: u64|
            state_in(t, c, u) == if c == chat && u == user {
                st
            } else {
                state_in(entries, c, u)
            } by {
            if !(c == chat && u == user) {
                assert(state_in(t, c, u) == state_in(t.drop_first(), c, u));
            }
        }
    } else {
        assert(t[0] == entries[0]);
        assert(t.drop_first() =~= entries.drop_first().push((chat, user, st)));
        assert forall|j: int|
            0 <= j < entries.drop_first().len() implies !((#[trigger] entries.drop_first()[j]).0
            == chat && entries.drop_first()[j].1 == user) by {
            assert(entries.drop_first()[j] == entries[j + 1]);
        }
        lemma_state_in_push(entries.drop_first(), chat, user, st);
        assert forall|c: i64, u: u64|
            state_in(t, c, u) == if c == chat && u == user {
                st
            } else {
                state_in(entries, c, u)
            } by {
            if !(t[0].0 == c && t[0].1 == u) {
                assert(state_in(t, c, u) == state_in(t.drop_first(), c, u));
                assert(state_in(entries, c, u) == state_in(entries.drop_first(), c, u));
            }
        }
    }
}

/// One step of the dialogue engine, whichever state the conversation is in.
pub open spec fn spec_handle_private(
    users: Seq<crate::models::UserView>,
    state: DialogState,
    sender: u64,
    text: Option<Seq<char>>,
    require_suffix: bool,
) -> DialogueStep {
    match state {
        DialogState::Start => DialogueStep {
            reply: spec_start_dialog(users, sender).0,
            state: spec_start_dialog(users, sender).1,
            users,
        },
        DialogState::WaitingForName => spec_receive_name(users, sender, text, require_suffix),
    }
}

/// Handles one private message end to end: reads the conversation's state,
/// steps the engine, stores the new state.  Other conversations and — save
/// for an accepted bind — other records are untouched.
pub fn handle_private_message(
    dir: &mut Directory,
    sessions: &mut Sessions,
    chat: i64,
    sender: u64,
    text: Option<&Vec<char>>,
    require_suffix: bool,
) -> (r: Reply)
    requires
        old(dir).wf(),
    ensures
        final(dir).wf(),
        ({
            let step = spec_handle_private(
                old(dir)@,
                old(sessions).spec_state(chat, sender),
                sender,
                opt_chars_view(text),
                require_suffix,
            );
            &&& r == step.reply
            &&& final(dir)@ == step.users
            &&& forall|c: i64, u: u64|
                final(sessions).spec_state(c, u) == if c == chat && u == sender {
                    step.state
                } else {
                    old(sessions).spec_state(c, u)
                }
        }),
{
    let state = sessions.get_state(chat, sender);
    let (reply, next) = match state {
        DialogState::Start => start_dialog(dir, sender),
        DialogState::WaitingForName => receive_name(dir, sender, text, require_suffix),
    };
    sessions.set_state(chat, sender, next);
    reply
}

/// Restart safety: sessions are volatile but bindings are not.  In a fresh
/// session table every conversation is in `Start`, so the very first
/// message of a candidate whose record is already bound is answered
/// "already registered", and the directory — every binding included — is
/// left exactly as it was.
pub proof fn lemma_restart_keeps_bindings(
    users: Seq<crate::models::UserView>,
    k: int,
    sender: u64,
    text: Option<Seq<char>>,
    require_suffix: bool,
)
    requires
        identities_unique(users),
        0 <= k < users.len(),
        users[k].telegram_id == Some(sender),
    ensures
        ({
            let step = spec_handle_private(
                users,
                DialogState::Start,
                sender,
                text,
                require_suffix,
            );
            step.reply == Reply::AlreadyRegistered && step.users == users && step.state
                == DialogState::Start
        }),
{
    lemma_lookup_bind_consistent(users, k, sender);
}

/// Whitespace insensitivity of the dialogue: two submissions with the same
/// normalized text are answered identically and leave the directory in the
/// same contents.
pub proof fn lemma_receive_name_whitespace_insensitive(
    users: Seq<crate::models::UserView>,
    sender: u64,
    t1: Seq<char>,
    t2: Seq<char>,
    require_suffix: bool,
)
    requires
        normalized(t1) == normalized(t2),
    ensures
        spec_receive_name(users, sender, Some(t1), require_suffix) == spec_receive_name(
            users,
            sender,
            Some(t2),
            require_suffix,
        ),
{
}

/// First-binder-wins: when the record a submission names is already bound
/// to some identity, any sender's exchange answers "already registered" and
/// leaves every record — the existing binding included — untouched.
pub proof fn lemma_first_binder_wins(
    users: Seq<crate::models::UserView>,
    k: int,
    sender: u64,
    t: Seq<char>,
    require_suffix: bool,
)
    requires
        spec_submission_valid(t, require_suffix),
        crate::directory::first_name_match(users, spec_candidate_name(t, require_suffix)) == k,
        0 <= k < users.len(),
        users[k].telegram_id is Some,
    ensures
        ({
            let step = spec_receive_name(users, sender, Some(t), require_suffix);
            step.reply == Reply::AlreadyRegistered && step.users == users
        }),
{
}

} // verus!
