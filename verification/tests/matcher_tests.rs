use invite_bot::directory::Directory;
use invite_bot::matcher::{MatchOutcome, evaluate_record, match_candidate};
use invite_bot::models::{NewUser, User};

fn record(name: &str, phone: Option<&str>, telegram_id: Option<u64>) -> User {
    User {
        id: 0,
        full_name: name.chars().collect(),
        telegram_id,
        phone: phone.map(|p| p.chars().collect()),
    }
}

#[test]
fn exact_input_verifies_unbound_record() {
    let mut dir = Directory::new();
    let name: Vec<char> = "Ivanov Ivan Ivanovich".chars().collect();
    dir.add_record(NewUser { full_name: name.clone() }, Some("5411".chars().collect()));
    let suffix: Vec<char> = "5411".chars().collect();
    assert_eq!(match_candidate(&dir, &name, Some(&suffix)), MatchOutcome::Verified);
}

#[test]
fn wrong_suffix_looks_like_missing_record() {
    // A suffix mismatch and a wholly unknown name are answered by replies
    // that are indistinguishable outward.
    let mut dir = Directory::new();
    let name: Vec<char> = "Ivanov Ivan Ivanovich".chars().collect();
    dir.add_record(NewUser { full_name: name.clone() }, Some("5411".chars().collect()));
    let wrong: Vec<char> = "1234".chars().collect();
    let unknown: Vec<char> = "Sidorov Sidor Sidorovich".chars().collect();
    let mismatch = match_candidate(&dir, &name, Some(&wrong));
    let missing = match_candidate(&dir, &unknown, Some(&wrong));
    assert_eq!(mismatch, MatchOutcome::SuffixMismatch);
    assert_eq!(missing, MatchOutcome::NotFound);
    // The dialogue maps both onto the same reply; see the dialogue tests.
}

#[test]
fn bound_record_reports_already_bound_before_suffix_check() {
    let u = record("Ivanov Ivan Ivanovich", Some("5411"), Some(1));
    let good: Vec<char> = "5411".chars().collect();
    let bad: Vec<char> = "0000".chars().collect();
    assert_eq!(evaluate_record(Some(&u), Some(&good)), MatchOutcome::AlreadyBound);
    assert_eq!(evaluate_record(Some(&u), Some(&bad)), MatchOutcome::AlreadyBound);
}

#[test]
fn record_without_phone_is_unverifiable() {
    let u = record("Ivanov Ivan Ivanovich", None, None);
    let suffix: Vec<char> = "5411".chars().collect();
    assert_eq!(evaluate_record(Some(&u), Some(&suffix)), MatchOutcome::Unverifiable);
}

#[test]
fn phone_shorter_than_four_never_matches() {
    let u = record("Ivanov Ivan Ivanovich", Some("411"), None);
    let suffix: Vec<char> = "411".chars().collect();
    assert_eq!(evaluate_record(Some(&u), Some(&suffix)), MatchOutcome::SuffixMismatch);
}

#[test]
fn suffix_comparison_takes_trailing_four_characters() {
    let u = record("Ivanov Ivan Ivanovich", Some("+7 999 000 5411"), None);
    let suffix: Vec<char> = "5411".chars().collect();
    let longer: Vec<char> = "05411".chars().collect();
    assert_eq!(evaluate_record(Some(&u), Some(&suffix)), MatchOutcome::Verified);
    assert_eq!(evaluate_record(Some(&u), Some(&longer)), MatchOutcome::SuffixMismatch);
}

#[test]
fn name_only_mode_verifies_without_phone() {
    let u = record("Ivanov Ivan Ivanovich", None, None);
    assert_eq!(evaluate_record(Some(&u), None), MatchOutcome::Verified);
    assert_eq!(evaluate_record(None, None), MatchOutcome::NotFound);
}

#[test]
fn matching_is_case_sensitive_and_exact() {
    let mut dir = Directory::new();
    dir.add_record(
        NewUser { full_name: "Ivanov Ivan Ivanovich".chars().collect() },
        Some("5411".chars().collect()),
    );
    let lower: Vec<char> = "ivanov ivan ivanovich".chars().collect();
    let suffix: Vec<char> = "5411".chars().collect();
    assert_eq!(match_candidate(&dir, &lower, Some(&suffix)), MatchOutcome::NotFound);
}
