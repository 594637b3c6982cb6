use vstd::prelude::*;

use crate::directory::{Directory, spec_find_by_full_name};
use crate::models::{User, UserView};

verus! {

/// Outcome of matching a candidate's input against the directory.
#[derive(Clone, Copy, PartialEq, Eq, Structural, Debug)]
pub enum MatchOutcome {
    /// No record carries the candidate name.
    NotFound,
    /// The record is already bound to some identity.
    AlreadyBound,
    /// The record has no phone on file, so it cannot be self-verified.
    Unverifiable,
    /// The candidate's suffix differs from the stored phone's trailing four
    /// characters.
    SuffixMismatch,
    /// The record is unbound and the secondary factor agrees.
    Verified,
}

/// Whether the candidate's suffix agrees with the stored phone: the phone
/// has at least four characters and its trailing four equal the candidate's
/// text exactly (string equality, not numeric).
pub open spec fn suffix_matches(phone: Seq<char>, suffix: Seq<char>) -> bool {
    phone.len() >= 4 && phone.skip(phone.len() - 4) == suffix
}

/// The looked-up record as a view, for stating contracts.
pub open spec fn opt_user_view(record: Option<&User>) -> Option<UserView> {
    match record {
        Some(u) => Some(u@),
        None => None,
    }
}

/// The optional candidate suffix as a view, for stating contracts.
pub open spec fn opt_chars_view(v: Option<&Vec<char>>) -> Option<Seq<char>> {
    match v {
        Some(s) => Some(s@),
        None => None,
    }
}

/// The matcher's decision for one looked-up record.  `suffix` is `None` in
/// a name-only deployment, where no secondary factor is asked for; the
/// binding state of the record is checked first either way.
pub open spec fn spec_evaluate(record: Option<UserView>, suffix: Option<Seq<char>>) -> MatchOutcome {
    match record {
        None => MatchOutcome::NotFound,
        Some(u) => {
            if u.telegram_id is Some {
                MatchOutcome::AlreadyBound
            } else {
                match suffix {
                    None => MatchOutcome::Verified,
                    Some(sfx) => match u.phone {
                        None => MatchOutcome::Unverifiable,
                        Some(p) => if suffix_matches(p, sfx) {
                            MatchOutcome::Verified
                        } else {
                            MatchOutcome::SuffixMismatch
                        },
                    },
                }
            }
        },
    }
}

/// Compares the candidate's suffix with the stored phone, as
/// [`suffix_matches`] describes.
fn check_suffix(phone: &Vec<char>, suffix: &Vec<char>) -> (r: bool)
    ensures
        r == suffix_matches(phone@, suffix@),
{
    if phone.len() < 4 || suffix.len() != 4 {
        return false;
    }
    let base = phone.len() - 4;
    let mut i: usize = 0;
    while i < 4
        invariant
            i <= 4,
            base == phone@.len() - 4,
            base + 4 <= phone@.len(),
            phone@.len() <= usize::MAX,
            suffix@.len() == 4,
            forall|j: int| 0 <= j < i ==> phone@[base + j] == suffix@[j],
        decreases 4 - i,
    {
        if phone[base + i] != suffix[i] {
            return false;
        }
        i = i + 1;
    }
    proof {
        assert(phone@.skip(phone@.len() - 4) =~= suffix@);
    }
    true
}

/// Decides the matcher outcome for one looked-up record.
pub fn evaluate_record(record: Option<&User>, suffix: Option<&Vec<char>>) -> (r: MatchOutcome)
    ensures
        r == spec_evaluate(opt_user_view(record), opt_chars_view(suffix)),
{
    match record {
        None => MatchOutcome::NotFound,
        Some(u) => {
            if u.telegram_id.is_some() {
                MatchOutcome::AlreadyBound
            } else {
                match suffix {
                    None => MatchOutcome::Verified,
                    Some(sfx) => match &u.phone {
                        None => MatchOutcome::Unverifiable,
                        Some(p) => if check_suffix(p, sfx) {
                            MatchOutcome::Verified
                        } else {
                            MatchOutcome::SuffixMismatch
                        },
                    },
                }
            }
        },
    }
}

/// The matcher over the whole directory: look the name up, then decide.
pub open spec fn spec_match_candidate(
    users: Seq<UserView>,
    name: Seq<char>,
    suffix: Option<Seq<char>>,
) -> MatchOutcome {
    spec_evaluate(spec_find_by_full_name(users, name), suffix)
}

/// Matches a candidate name (and optional suffix) against the directory.
/// Deterministic and side-effect-free: the directory is only read.
pub fn match_candidate(dir: &Directory, name: &Vec<char>, suffix: Option<&Vec<char>>) -> (r:
    MatchOutcome)
    ensures
        r == spec_match_candidate(dir@, name@, opt_chars_view(suffix)),
{
    match dir.find_by_full_name(name) {
        Some(u) => evaluate_record(Some(&u), suffix),
        None => evaluate_record(None, suffix),
    }
}

} // verus!
