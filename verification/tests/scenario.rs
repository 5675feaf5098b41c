use pg_crud::person::{persons_from_rows, Person, Row};
use pg_crud::statement::{Param, Statement};
use pg_crud::status::{created, deleted, updated};

/// A table in memory that does to its rows what the statements ask, and
/// answers as a server would: the number of rows touched, or the rows lowest
/// identifier first, each name padded to the column's width.
struct Table {
    rows: Vec<(i32, String)>,
    next_id: i32,
}

fn run(table: &mut Table, statement: &Statement) -> (u64, Vec<Row>) {
    let text = statement.text.as_str();
    if text == "INSERT INTO persons (name) VALUES ($1)" {
        match &statement.params[..] {
            [Param::Text(name)] => {
                table.rows.push((table.next_id, format!("{:<300}", name)));
                table.next_id += 1;
                (1, Vec::new())
            }
            _ => panic!("wrong values bound"),
        }
    } else if text == "SELECT * FROM persons ORDER BY id" {
        assert!(statement.params.is_empty());
        let mut rows: Vec<Row> = table
            .rows
            .iter()
            .map(|(id, name)| Row { id: *id, name: name.clone() })
            .collect();
        rows.sort_by_key(|row| row.id);
        (0, rows)
    } else if text == "UPDATE persons SET name = $1 WHERE id = $2" {
        match &statement.params[..] {
            [Param::Text(name), Param::Int(id)] => {
                let mut touched = 0;
                for row in table.rows.iter_mut() {
                    if row.0 == *id {
                        row.1 = format!("{:<300}", name);
                        touched += 1;
                    }
                }
                (touched, Vec::new())
            }
            _ => panic!("wrong values bound"),
        }
    } else if text == "DELETE FROM persons WHERE id = $1" {
        match &statement.params[..] {
            [Param::Int(id)] => {
                let before = table.rows.len();
                table.rows.retain(|row| row.0 != *id);
                ((before - table.rows.len()) as u64, Vec::new())
            }
            _ => panic!("wrong values bound"),
        }
    } else {
        panic!("unknown statement: {}", text)
    }
}

fn read(table: &mut Table) -> Vec<Person> {
    let (_, rows) = run(table, &Statement::read("persons"));
    persons_from_rows(&rows)
}

fn person(id: i32, name: &str) -> Person {
    Person { id, name: String::from(name) }
}

#[test]
fn create_read_update_delete() {
    let mut table = Table { rows: Vec::new(), next_id: 1 };

    let (touched, _) = run(&mut table, &Statement::create("persons", "William C. Canin"));
    assert_eq!(
        created(touched, "William C. Canin"),
        "Registry \"William C. Canin\", created!"
    );
    let n = 1;
    assert!(read(&mut table).contains(&person(n, "William C. Canin")));

    let (touched, _) = run(&mut table, &Statement::update("persons", n, "Will C. Canin"));
    assert_eq!(updated(touched, n), "Registry id: 1, updated!!");
    let persons = read(&mut table);
    assert!(persons.contains(&person(n, "Will C. Canin")));
    assert!(!persons.contains(&person(n, "William C. Canin")));

    let (touched, _) = run(&mut table, &Statement::delete("persons", n));
    assert_eq!(deleted(touched, n), "Registry id: 1, deleted!");
    assert!(read(&mut table).iter().all(|p| p.id != n));
}

#[test]
fn create_then_read_adds_the_trimmed_name_last() {
    let mut table = Table { rows: Vec::new(), next_id: 1 };
    run(&mut table, &Statement::create("persons", "Ann"));
    let before = read(&mut table);
    run(&mut table, &Statement::create("persons", "  Bob Ross \t"));
    let after = read(&mut table);
    assert_eq!(after.len(), before.len() + 1);
    assert_eq!(after[after.len() - 1], person(2, "Bob Ross"));
}

#[test]
fn update_then_read_renames_one_record() {
    let mut table = Table { rows: Vec::new(), next_id: 1 };
    run(&mut table, &Statement::create("persons", "Ann"));
    run(&mut table, &Statement::create("persons", "Bob"));
    run(&mut table, &Statement::create("persons", "Cy"));
    let (touched, _) = run(&mut table, &Statement::update("persons", 2, " Robert "));
    assert_eq!(updated(touched, 2), "Registry id: 2, updated!!");
    assert_eq!(
        read(&mut table),
        vec![person(1, "Ann"), person(2, "Robert"), person(3, "Cy")]
    );
}

#[test]
fn delete_then_read_drops_one_record() {
    let mut table = Table { rows: Vec::new(), next_id: 1 };
    run(&mut table, &Statement::create("persons", "Ann"));
    run(&mut table, &Statement::create("persons", "Bob"));
    let before = read(&mut table);
    let (touched, _) = run(&mut table, &Statement::delete("persons", 1));
    assert_eq!(deleted(touched, 1), "Registry id: 1, deleted!");
    let after = read(&mut table);
    assert_eq!(after.len(), before.len() - 1);
    assert_eq!(after, vec![person(2, "Bob")]);
}

#[test]
fn an_absent_identifier_changes_nothing() {
    let mut table = Table { rows: Vec::new(), next_id: 1 };
    run(&mut table, &Statement::create("persons", "Ann"));
    let before = read(&mut table);
    let (touched, _) = run(&mut table, &Statement::update("persons", 40, "Nobody"));
    assert_eq!(updated(touched, 40), "No records have been updated!");
    assert_eq!(read(&mut table), before);
    let (touched, _) = run(&mut table, &Statement::delete("persons", 40));
    assert_eq!(deleted(touched, 40), "No records were deleted!");
    assert_eq!(read(&mut table), before);
}

#[test]
fn read_of_an_empty_table_is_empty() {
    let mut table = Table { rows: Vec::new(), next_id: 1 };
    assert_eq!(read(&mut table), Vec::<Person>::new());
}

#[test]
fn read_is_ascending_whatever_the_order_of_insertion() {
    let mut table = Table {
        rows: vec![
            (7, format!("{:<300}", "Gus")),
            (2, format!("{:<300}", "Bob")),
            (5, format!("{:<300}", "Eve")),
        ],
        next_id: 8,
    };
    assert_eq!(
        read(&mut table),
        vec![person(2, "Bob"), person(5, "Eve"), person(7, "Gus")]
    );
}
