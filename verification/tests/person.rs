use pg_crud::person::{persons_from_rows, Person, Row};

fn stored(id: i32, name: &str) -> Row {
    Row { id, name: format!("{:<300}", name) }
}

fn person(id: i32, name: &str) -> Person {
    Person { id, name: String::from(name) }
}

#[test]
fn from_row_trims_the_name() {
    let p = Person::from_row(&stored(1, "William C. Canin"));
    assert_eq!(p, person(1, "William C. Canin"));
}

#[test]
fn from_row_keeps_the_identifier() {
    assert_eq!(Person::from_row(&stored(i32::MAX, "a")).id, i32::MAX);
    assert_eq!(Person::from_row(&stored(-5, "a")).id, -5);
    assert_eq!(Person::from_row(&stored(0, "a")).id, 0);
}

#[test]
fn from_row_trims_the_front_too() {
    let row = Row { id: 3, name: String::from("  \tAda Lovelace \n") };
    assert_eq!(Person::from_row(&row), person(3, "Ada Lovelace"));
}

#[test]
fn from_row_of_a_blank_name_is_empty() {
    assert_eq!(Person::from_row(&stored(4, "")), person(4, ""));
}

#[test]
fn no_rows_give_no_persons() {
    assert_eq!(persons_from_rows(&Vec::new()), Vec::<Person>::new());
}

#[test]
fn rows_become_persons_in_their_order() {
    let rows = vec![stored(1, "Ann"), stored(2, "Bob"), stored(5, "Cy Young")];
    assert_eq!(
        persons_from_rows(&rows),
        vec![person(1, "Ann"), person(2, "Bob"), person(5, "Cy Young")]
    );
}

#[test]
fn rows_fetched_by_identifier_stay_ascending() {
    let rows = vec![stored(-2, "z"), stored(3, "y"), stored(4, "x"), stored(90, "w")];
    let persons = persons_from_rows(&rows);
    assert_eq!(persons.len(), 4);
    for pair in persons.windows(2) {
        assert!(pair[0].id < pair[1].id);
    }
}

#[test]
fn one_more_row_is_one_more_person_at_the_end() {
    let mut rows = vec![stored(1, "Ann"), stored(2, "Bob")];
    let before = persons_from_rows(&rows);
    rows.push(stored(3, "  William C. Canin "));
    let after = persons_from_rows(&rows);
    assert_eq!(after.len(), before.len() + 1);
    assert_eq!(after[after.len() - 1], person(3, "William C. Canin"));
    assert_eq!(&after[..before.len()], &before[..]);
}

#[test]
fn a_renamed_row_changes_one_person_only() {
    let mut rows = vec![stored(1, "Ann"), stored(2, "Bob"), stored(3, "Cy")];
    let before = persons_from_rows(&rows);
    rows[1] = stored(2, "Robert ");
    let after = persons_from_rows(&rows);
    assert_eq!(after.len(), before.len());
    assert_eq!(after[0], before[0]);
    assert_eq!(after[1], person(2, "Robert"));
    assert_eq!(after[2], before[2]);
}

#[test]
fn a_removed_row_is_one_person_fewer() {
    let mut rows = vec![stored(1, "Ann"), stored(2, "Bob"), stored(3, "Cy")];
    let before = persons_from_rows(&rows);
    rows.remove(1);
    let after = persons_from_rows(&rows);
    assert_eq!(after.len(), before.len() - 1);
    assert!(after.iter().all(|p| p.id != 2));
    assert_eq!(after, vec![person(1, "Ann"), person(3, "Cy")]);
}
