//! Rows as the server hands them out, and the records they become.

use crate::whitespace::{lemma_trimmed_twice, trim, trimmed};
use vstd::prelude::*;

verus! {

/// A row of the table as fetched: the identifier column, and the name column
/// as the server stores it, padded to the column's width.
#[derive(Debug, Clone, PartialEq, Eq)]
pub struct Row {
    pub id: i32,
    pub name: String,
}

/// What a [`Row`] holds.
pub struct RowView {
    pub id: int,
    pub name: Seq<char>,
}

impl View for Row {
    type V = RowView;

    open spec fn view(&self) -> RowView {
        RowView { id: self.id as int, name: self.name@ }
    }
}

impl DeepView for Row {
    type V = RowView;

    open spec fn deep_view(&self) -> RowView {
        self@
    }
}

/// A person on record: the identifier that the server assigned, and the name
/// without the padding.
#[derive(Debug, Clone, PartialEq, Eq)]
pub struct Person {
    pub id: i32,
    pub name: String,
}

/// What a [`Person`] holds.
pub struct PersonView {
    pub id: int,
    pub name: Seq<char>,
}

impl View for Person {
    type V = PersonView;

    open spec fn view(&self) -> PersonView {
        PersonView { id: self.id as int, name: self.name@ }
    }
}

impl DeepView for Person {
    type V = PersonView;

    open spec fn deep_view(&self) -> PersonView {
        self@
    }
}

/// The record of a row: the same identifier, and the name without the white
/// space at either end.
pub open spec fn person_of(row: RowView) -> PersonView {
    PersonView { id: row.id, name: trimmed(row.name) }
}

/// The records of `rows`, one for each row, in the rows' order.
pub open spec fn persons_of(rows: Seq<RowView>) -> Seq<PersonView> {
    rows.map_values(|row: RowView| person_of(row))
}

/// Trimming the name of a record changes nothing.
pub proof fn lemma_person_name_is_trimmed(row: RowView)
    ensures
        trimmed(person_of(row).name) == person_of(row).name,
{
    lemma_trimmed_twice(row.name);
}

impl Person {
    /// The record of `row`.
    pub fn from_row(row: &Row) -> (person: Person)
        ensures
            person@ == person_of(row@),
    {
        Person { id: row.id, name: trim(row.name.as_str()).to_owned() }
    }
}

/// The records of `rows`, one for each row, in the rows' order. No rows give
/// no records.
pub fn persons_from_rows(rows: &Vec<Row>) -> (persons: Vec<Person>)
    ensures
        persons.len() == rows.len(),
        persons.deep_view() == persons_of(rows.deep_view()),
{
    let mut persons: Vec<Person> = Vec::new();
    let mut i: usize = 0;
    while i < rows.len()
        invariant
            0 <= i <= rows.len(),
            persons.len() == i,
            forall|j: int| 0 <= j < i ==> (#[trigger] persons[j])@ == person_of(rows[j]@),
        decreases rows.len() - i,
    {
        persons.push(Person::from_row(&rows[i]));
        i = i + 1;
    }
    assert(persons.deep_view() =~= persons_of(rows.deep_view()));
    persons
}

} // verus!
