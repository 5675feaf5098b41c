//! The records as lines of text, for a reader.

use crate::decimal::{append_decimal, decimal};
use crate::person::{Person, PersonView};
use vstd::prelude::*;
use vstd::string::StringExecFns;

verus! {

/// The line of one record: the identifier, two spaces, a bar, a space, the
/// name.
pub open spec fn line_of(person: PersonView) -> Seq<char> {
    decimal(person.id) + "  | "@ + person.name
}

/// The lines of `persons`: a heading, a rule, then one line for each record,
/// in the records' order.
pub open spec fn listing_of(persons: Seq<PersonView>) -> Seq<Seq<char>> {
    seq!["id | name"@, "----------"@] + persons.map_values(|person: PersonView| line_of(person))
}

/// The line of one record.
pub fn listing_line(person: &Person) -> (text: String)
    ensures
        text@ == line_of(person@),
{
    let mut text = String::new();
    append_decimal(&mut text, person.id);
    text.append("  | ");
    text.append(person.name.as_str());
    assert(text@ =~= line_of(person@));
    text
}

/// The lines of `persons`: a heading, a rule, then one line for each record.
pub fn listing(persons: &Vec<Person>) -> (lines: Vec<String>)
    ensures
        lines.deep_view() == listing_of(persons.deep_view()),
{
    let mut lines: Vec<String> = Vec::new();
    lines.push(String::from_str("id | name"));
    lines.push(String::from_str("----------"));
    let mut i: usize = 0;
    while i < persons.len()
        invariant
            0 <= i <= persons.len(),
            lines.len() == i + 2,
            lines[0]@ == "id | name"@,
            lines[1]@ == "----------"@,
            forall|j: int| 0 <= j < i ==> (#[trigger] lines[j + 2])@ == line_of(persons[j]@),
        decreases persons.len() - i,
    {
        lines.push(listing_line(&persons[i]));
        i = i + 1;
    }
    proof {
        let ghost expected = listing_of(persons.deep_view());
        assert(lines.deep_view().len() == expected.len());
        assert forall|k: int| 0 <= k < expected.len() implies lines.deep_view()[k]
            == expected[k] by {
            if k >= 2 {
                assert(lines[(k - 2) + 2]@ == line_of(persons[k - 2]@));
            }
        }
        assert(lines.deep_view() =~= expected);
    }
    lines
}

} // verus!
