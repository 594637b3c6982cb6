use invite_bot::directory::Directory;
use invite_bot::models::NewUser;

#[test]
fn test_insert() {
    let mut dir = Directory::new();
    dir.add_fullname(NewUser { full_name: "John Doe".chars().collect() });
    assert_eq!(dir.len(), 1);
}

#[test]
fn find_by_full_name_returns_inserted_record() {
    let mut dir = Directory::new();
    let name: Vec<char> = "Ivanov Ivan Ivanovich".chars().collect();
    dir.add_record(
        NewUser { full_name: name.clone() },
        Some("+79990005411".chars().collect()),
    );
    let found = dir.find_by_full_name(&name).expect("record should be found");
    assert_eq!(found.full_name, name);
    assert_eq!(found.telegram_id, None);
    assert_eq!(found.phone, Some("+79990005411".chars().collect()));
}

#[test]
fn find_by_full_name_misses_absent_name() {
    let mut dir = Directory::new();
    dir.add_fullname(NewUser { full_name: "Ivanov Ivan Ivanovich".chars().collect() });
    let other: Vec<char> = "Petrov Petr Petrovich".chars().collect();
    assert!(dir.find_by_full_name(&other).is_none());
}

#[test]
fn lookup_bind_consistency() {
    // A record with a bound identity is returned by a lookup of that identity.
    let mut dir = Directory::new();
    let name: Vec<char> = "Ivanov Ivan Ivanovich".chars().collect();
    dir.add_record(NewUser { full_name: name.clone() }, Some("5411".chars().collect()));
    assert!(dir.insert_telegram_data(&name, 777));
    let found = dir.find_by_telegram_id(777).expect("bound identity should resolve");
    assert_eq!(found.full_name, name);
    assert_eq!(found.telegram_id, Some(777));
}

#[test]
fn bind_does_not_overwrite_existing_binding() {
    // Binding a name already bound to a different identity is a refused no-op.
    let mut dir = Directory::new();
    let name: Vec<char> = "Ivanov Ivan Ivanovich".chars().collect();
    dir.add_record(NewUser { full_name: name.clone() }, Some("5411".chars().collect()));
    assert!(dir.insert_telegram_data(&name, 1));
    assert!(!dir.insert_telegram_data(&name, 2));
    let found = dir.find_by_full_name(&name).unwrap();
    assert_eq!(found.telegram_id, Some(1));
    assert!(dir.find_by_telegram_id(2).is_none());
}

#[test]
fn bind_refused_for_unknown_name() {
    let mut dir = Directory::new();
    dir.add_fullname(NewUser { full_name: "Ivanov Ivan Ivanovich".chars().collect() });
    let other: Vec<char> = "Petrov Petr Petrovich".chars().collect();
    assert!(!dir.insert_telegram_data(&other, 5));
    assert!(dir.find_by_telegram_id(5).is_none());
}

#[test]
fn bind_refused_when_identity_bound_elsewhere() {
    // One identity can be bound to at most one record.
    let mut dir = Directory::new();
    let a: Vec<char> = "Ivanov Ivan Ivanovich".chars().collect();
    let b: Vec<char> = "Petrov Petr Petrovich".chars().collect();
    dir.add_record(NewUser { full_name: a.clone() }, Some("5411".chars().collect()));
    dir.add_record(NewUser { full_name: b.clone() }, Some("1234".chars().collect()));
    assert!(dir.insert_telegram_data(&a, 9));
    assert!(!dir.insert_telegram_data(&b, 9));
    assert_eq!(dir.find_by_telegram_id(9).unwrap().full_name, a);
    assert_eq!(dir.find_by_full_name(&b).unwrap().telegram_id, None);
}

#[test]
fn unbind_clears_binding_and_allows_rebind() {
    let mut dir = Directory::new();
    let name: Vec<char> = "Ivanov Ivan Ivanovich".chars().collect();
    dir.add_record(NewUser { full_name: name.clone() }, Some("5411".chars().collect()));
    assert!(dir.insert_telegram_data(&name, 10));
    assert!(dir.delete_telegram_id(&name));
    assert!(dir.find_by_telegram_id(10).is_none());
    assert!(dir.insert_telegram_data(&name, 11));
    assert_eq!(dir.find_by_telegram_id(11).unwrap().full_name, name);
}

#[test]
fn unbind_reports_unknown_name() {
    let mut dir = Directory::new();
    let name: Vec<char> = "Ivanov Ivan Ivanovich".chars().collect();
    assert!(!dir.delete_telegram_id(&name));
}

#[test]
fn duplicate_names_first_record_wins() {
    // Lookup by a duplicated name resolves to the earliest record.
    let mut dir = Directory::new();
    let name: Vec<char> = "Ivanov Ivan Ivanovich".chars().collect();
    dir.add_record(NewUser { full_name: name.clone() }, Some("1111".chars().collect()));
    dir.add_record(NewUser { full_name: name.clone() }, Some("2222".chars().collect()));
    let found = dir.find_by_full_name(&name).unwrap();
    assert_eq!(found.id, 0);
    assert_eq!(found.phone, Some("1111".chars().collect()));
}

#[test]
fn list_all_keeps_insertion_order() {
    let mut dir = Directory::new();
    dir.add_fullname(NewUser { full_name: "B B B".chars().collect() });
    dir.add_fullname(NewUser { full_name: "A A A".chars().collect() });
    let all = dir.list_all();
    assert_eq!(all.len(), 2);
    assert_eq!(all[0].full_name, "B B B".chars().collect::<Vec<char>>());
    assert_eq!(all[1].full_name, "A A A".chars().collect::<Vec<char>>());
    assert_eq!(all[0].id, 0);
    assert_eq!(all[1].id, 1);
}

#[test]
fn csv_export_renders_names_and_bindings() {
    let mut dir = Directory::new();
    let bound: Vec<char> = "Ivanov Ivan Ivanovich".chars().collect();
    dir.add_record(NewUser { full_name: bound.clone() }, Some("5411".chars().collect()));
    dir.add_fullname(NewUser { full_name: "Petrov Petr Petrovich".chars().collect() });
    assert!(dir.insert_telegram_data(&bound, 429171352));
    let csv: Vec<char> = dir.dump_to_csv();
    let expected: Vec<char> = "\"Ivanov Ivan Ivanovich\",429171352\n\"Petrov Petr Petrovich\",\n"
        .chars()
        .collect();
    assert_eq!(csv, expected);
}

#[test]
fn csv_export_of_empty_directory_is_empty() {
    let dir = Directory::new();
    assert_eq!(dir.dump_to_csv(), Vec::<char>::new());
}
