//! The table as mathematics, and what reading it shows after each statement.
//!
//! A table with a primary key is a map from identifier to stored name. The
//! functions here say what each statement does to that map, as SQL defines
//! it; no server is held to them. The lemmas then say what
//! [`persons_from_rows`](crate::person::persons_from_rows) makes of the rows
//! fetched before and after a statement.

use crate::person::{person_of, persons_of, PersonView, RowView};
use crate::status::{
    created_message, deleted_message, nothing_created, nothing_deleted, nothing_updated,
    updated_message,
};
use crate::whitespace::{all_white_space, lemma_trimmed_ignores_trailing, trimmed};
use vstd::prelude::*;

verus! {

/// `name` as a fixed-width column stores it: followed by `pad` spaces.
pub open spec fn padded(name: Seq<char>, pad: nat) -> Seq<char> {
    name + Seq::new(pad, |i: int| ' ')
}

/// Whether the identifiers of `rows` grow from each row to the next.
pub open spec fn ascending(rows: Seq<RowView>) -> bool {
    forall|i: int, j: int| 0 <= i < j < rows.len() ==> rows[i].id < rows[j].id
}

/// Whether `rows` is what the read statement fetches from `table`: every row
/// of the table once, lowest identifier first.
pub open spec fn fetched(rows: Seq<RowView>, table: Map<int, Seq<char>>) -> bool {
    &&& ascending(rows)
    &&& forall|i: int|
        0 <= i < rows.len() ==> table.dom().contains(#[trigger] rows[i].id) && table[rows[i].id]
            == rows[i].name
    &&& forall|id: int| #[trigger]
        table.dom().contains(id) ==> exists|i: int| 0 <= i < rows.len() && #[trigger] rows[i].id == id
}

/// How many rows of `table` a statement on the row `id` touches.
pub open spec fn touched(table: Map<int, Seq<char>>, id: int) -> int {
    if table.dom().contains(id) {
        1
    } else {
        0
    }
}

/// `table` after a row with the new identifier `id` was added.
pub open spec fn after_create(table: Map<int, Seq<char>>, id: int, stored: Seq<char>) -> Map<
    int,
    Seq<char>,
> {
    table.insert(id, stored)
}

/// `table` after the row `id`, if there is one, was named anew.
pub open spec fn after_update(table: Map<int, Seq<char>>, id: int, stored: Seq<char>) -> Map<
    int,
    Seq<char>,
> {
    if table.dom().contains(id) {
        table.insert(id, stored)
    } else {
        table
    }
}

/// `table` after the row `id`, if there is one, was removed.
pub open spec fn after_delete(table: Map<int, Seq<char>>, id: int) -> Map<int, Seq<char>> {
    table.remove(id)
}

/// The last row fetched holds the greatest identifier, and the rows before it
/// are what is fetched from the table without that row.
proof fn lemma_fetched_drop_last(rows: Seq<RowView>, table: Map<int, Seq<char>>)
    requires
        fetched(rows, table),
        rows.len() > 0,
    ensures
        fetched(rows.drop_last(), table.remove(rows.last().id)),
{
    let rest = rows.drop_last();
    let top = rows.last().id;
    let smaller = table.remove(top);
    assert forall|i: int| 0 <= i < rest.len() implies smaller.dom().contains(#[trigger] rest[i].id)
        && smaller[rest[i].id] == rest[i].name by {
        assert(rest[i] == rows[i]);
        assert(table.dom().contains(rows[i].id));
    }
    assert forall|id: int| #[trigger] smaller.dom().contains(id) implies exists|i: int|
        0 <= i < rest.len() && #[trigger] rest[i].id == id by {
        assert(table.dom().contains(id));
        let i = choose|i: int| 0 <= i < rows.len() && #[trigger] rows[i].id == id;
        assert(rest[i].id == id);
    }
}

/// A table is fetched in one way only.
pub proof fn lemma_fetched_unique(a: Seq<RowView>, b: Seq<RowView>, table: Map<int, Seq<char>>)
    requires
        fetched(a, table),
        fetched(b, table),
    ensures
        a == b,
    decreases a.len(),
{
    if a.len() == 0 {
        if b.len() > 0 {
            assert(table.dom().contains(b[0].id));
        }
        assert(a =~= b);
    } else {
        let x = a.last().id;
        assert(table.dom().contains(x));
        let j = choose|j: int| 0 <= j < b.len() && #[trigger] b[j].id == x;
        let y = b.last().id;
        assert(table.dom().contains(y));
        let i = choose|i: int| 0 <= i < a.len() && #[trigger] a[i].id == y;
        assert(x == y);
        lemma_fetched_drop_last(a, table);
        lemma_fetched_drop_last(b, table);
        lemma_fetched_unique(a.drop_last(), b.drop_last(), table.remove(x));
        assert(a.last() == b.last());
        assert(a =~= a.drop_last().push(a.last()));
        assert(b =~= b.drop_last().push(b.last()));
    }
}

/// Reading an empty table gives no records.
pub proof fn lemma_read_of_empty_table(rows: Seq<RowView>)
    requires
        fetched(rows, Map::<int, Seq<char>>::empty()),
    ensures
        persons_of(rows) == Seq::<PersonView>::empty(),
{
    if rows.len() > 0 {
        assert(Map::<int, Seq<char>>::empty().dom().contains(rows[0].id));
    }
    assert(persons_of(rows) =~= Seq::<PersonView>::empty());
}

/// Reading gives the records lowest identifier first, each identifier once,
/// whatever the order in which the rows came into the table.
pub proof fn lemma_read_is_ascending(rows: Seq<RowView>, table: Map<int, Seq<char>>)
    requires
        fetched(rows, table),
    ensures
        persons_of(rows).len() == rows.len(),
        forall|i: int, j: int|
            0 <= i < j < rows.len() ==> persons_of(rows)[i].id < persons_of(rows)[j].id,
{
}

/// Creating, then reading: where the new row's identifier is above all others,
/// the records are those read before and one more at the end, which has the
/// new identifier and the trimmed name. The message for the one row touched
/// is not the message that nothing was created.
pub proof fn lemma_read_after_create(
    table: Map<int, Seq<char>>,
    before: Seq<RowView>,
    after: Seq<RowView>,
    id: int,
    name: Seq<char>,
    pad: nat,
)
    requires
        fetched(before, table),
        forall|other: int| #[trigger] table.dom().contains(other) ==> other < id,
        fetched(after, after_create(table, id, padded(name, pad))),
    ensures
        persons_of(after).len() == persons_of(before).len() + 1,
        persons_of(after).last() == (PersonView { id, name: trimmed(name) }),
        persons_of(after).drop_last() == persons_of(before),
        created_message(1, name) != nothing_created(),
{
    let stored = padded(name, pad);
    let larger = after_create(table, id, stored);
    assert(larger.dom().contains(id));
    let at = choose|i: int| 0 <= i < after.len() && #[trigger] after[i].id == id;
    let top = after.last().id;
    assert(larger.dom().contains(top));
    if top != id {
        assert(table.dom().contains(top));
    }
    assert(top == id);
    if table.dom().contains(id) {
        assert(id < id);
    }
    lemma_fetched_drop_last(after, larger);
    assert(larger.remove(id) =~= table);
    lemma_fetched_unique(after.drop_last(), before, table);
    assert(after.last().name == stored);
    assert(all_white_space(Seq::new(pad, |i: int| ' ')));
    lemma_trimmed_ignores_trailing(name, Seq::new(pad, |i: int| ' '));
    assert(persons_of(after).drop_last() =~= persons_of(after.drop_last()));
    lemma_done_differs_from_nothing(name, id);
}

/// Updating a row that is there, then reading: as many records as before, the
/// one with that identifier now with the trimmed new name, every other as it
/// was. The statement touches one row, and the message says that the row was
/// updated.
pub proof fn lemma_read_after_update(
    table: Map<int, Seq<char>>,
    before: Seq<RowView>,
    after: Seq<RowView>,
    id: int,
    name: Seq<char>,
    pad: nat,
)
    requires
        fetched(before, table),
        table.dom().contains(id),
        fetched(after, after_update(table, id, padded(name, pad))),
    ensures
        persons_of(after).len() == persons_of(before).len(),
        exists|i: int| 0 <= i < before.len() && #[trigger] persons_of(before)[i].id == id,
        forall|i: int|
            0 <= i < before.len() && persons_of(before)[i].id == id ==> #[trigger] persons_of(
                after,
            )[i] == (PersonView { id, name: trimmed(name) }),
        forall|i: int|
            0 <= i < before.len() && persons_of(before)[i].id != id ==> #[trigger] persons_of(
                after,
            )[i] == persons_of(before)[i],
        touched(table, id) == 1,
        updated_message(touched(table, id), id) != nothing_updated(),
{
    let stored = padded(name, pad);
    let at = choose|i: int| 0 <= i < before.len() && #[trigger] before[i].id == id;
    let renamed = before.update(at, RowView { id, name: stored });
    let changed = after_update(table, id, stored);
    assert forall|i: int| 0 <= i < renamed.len() implies changed.dom().contains(
        #[trigger] renamed[i].id,
    ) && changed[renamed[i].id] == renamed[i].name by {
        assert(table.dom().contains(before[i].id));
        if i != at {
            if i < at {
                assert(before[i].id < before[at].id);
            } else {
                assert(before[at].id < before[i].id);
            }
        }
    }
    assert forall|other: int| #[trigger] changed.dom().contains(other) implies exists|i: int|
        0 <= i < renamed.len() && #[trigger] renamed[i].id == other by {
        assert(table.dom().contains(other));
        let i = choose|i: int| 0 <= i < before.len() && #[trigger] before[i].id == other;
        assert(renamed[i].id == other);
    }
    assert(ascending(renamed)) by {
        assert forall|i: int, j: int| 0 <= i < j < renamed.len() implies renamed[i].id
            < renamed[j].id by {
            assert(before[i].id < before[j].id);
        }
    }
    lemma_fetched_unique(after, renamed, changed);
    lemma_trimmed_ignores_trailing(name, Seq::new(pad, |i: int| ' '));
    assert(persons_of(before)[at].id == id);
    lemma_done_differs_from_nothing(name, id);
}

/// Deleting a row that is there, then reading: one record fewer, none with
/// that identifier, every other as it was and in its place. The statement
/// touches one row, and the message says that the row was deleted.
pub proof fn lemma_read_after_delete(
    table: Map<int, Seq<char>>,
    before: Seq<RowView>,
    after: Seq<RowView>,
    id: int,
)
    requires
        fetched(before, table),
        table.dom().contains(id),
        fetched(after, after_delete(table, id)),
    ensures
        persons_of(after).len() == persons_of(before).len() - 1,
        forall|i: int| 0 <= i < after.len() ==> #[trigger] persons_of(after)[i].id != id,
        exists|i: int|
            0 <= i < before.len() && #[trigger] persons_of(before)[i].id == id && persons_of(after)
                == persons_of(before).remove(i),
        touched(table, id) == 1,
        deleted_message(touched(table, id), id) != nothing_deleted(),
{
    let at = choose|i: int| 0 <= i < before.len() && #[trigger] before[i].id == id;
    let rest = before.remove(at);
    let smaller = after_delete(table, id);
    assert forall|i: int| 0 <= i < rest.len() implies smaller.dom().contains(#[trigger] rest[i].id)
        && smaller[rest[i].id] == rest[i].name by {
        if i < at {
            assert(rest[i] == before[i]);
            assert(before[i].id < before[at].id);
            assert(table.dom().contains(before[i].id));
        } else {
            assert(rest[i] == before[i + 1]);
            assert(before[at].id < before[i + 1].id);
            assert(table.dom().contains(before[i + 1].id));
        }
    }
    assert forall|other: int| #[trigger] smaller.dom().contains(other) implies exists|i: int|
        0 <= i < rest.len() && #[trigger] rest[i].id == other by {
        assert(table.dom().contains(other));
        let i = choose|i: int| 0 <= i < before.len() && #[trigger] before[i].id == other;
        if i < at {
            assert(rest[i].id == other);
        } else {
            assert(rest[i - 1].id == other);
        }
    }
    assert(ascending(rest)) by {
        assert forall|i: int, j: int| 0 <= i < j < rest.len() implies rest[i].id
            < rest[j].id by {
            let i0 = if i < at { i } else { i + 1 };
            let j0 = if j < at { j } else { j + 1 };
            assert(rest[i] == before[i0]);
            assert(rest[j] == before[j0]);
            assert(before[i0].id < before[j0].id);
        }
    }
    lemma_fetched_unique(after, rest, smaller);
    assert(persons_of(rest) =~= persons_of(before).remove(at));
    assert(persons_of(before)[at].id == id);
    assert forall|i: int| 0 <= i < after.len() implies #[trigger] persons_of(after)[i].id
        != id by {
        assert(smaller.dom().contains(after[i].id));
    }
    lemma_done_differs_from_nothing(Seq::<char>::empty(), id);
}

/// Updating or deleting a row that is not there: the statement touches no row,
/// the message says that nothing was done, and reading gives what it gave
/// before.
pub proof fn lemma_absent_row_changes_nothing(
    table: Map<int, Seq<char>>,
    before: Seq<RowView>,
    after_the_update: Seq<RowView>,
    after_the_delete: Seq<RowView>,
    id: int,
    stored: Seq<char>,
)
    requires
        fetched(before, table),
        !table.dom().contains(id),
        fetched(after_the_update, after_update(table, id, stored)),
        fetched(after_the_delete, after_delete(table, id)),
    ensures
        touched(table, id) == 0,
        updated_message(touched(table, id), id) == nothing_updated(),
        deleted_message(touched(table, id), id) == nothing_deleted(),
        persons_of(after_the_update) == persons_of(before),
        persons_of(after_the_delete) == persons_of(before),
{
    assert(after_delete(table, id) =~= table);
    lemma_fetched_unique(after_the_update, before, table);
    lemma_fetched_unique(after_the_delete, before, table);
}

/// A message that a row was created, updated or deleted is never the message
/// that nothing was.
pub proof fn lemma_done_differs_from_nothing(name: Seq<char>, id: int)
    ensures
        created_message(1, name) != nothing_created(),
        updated_message(1, id) != nothing_updated(),
        deleted_message(1, id) != nothing_deleted(),
{
    reveal_strlit("Registry \"");
    reveal_strlit("Registry id: ");
    reveal_strlit("No records have been created!");
    reveal_strlit("No records have been updated!");
    reveal_strlit("No records were deleted!");
    assert(created_message(1, name)[0] == 'R');
    assert(updated_message(1, id)[0] == 'R');
    assert(deleted_message(1, id)[0] == 'R');
    assert(nothing_created()[0] == 'N');
    assert(nothing_updated()[0] == 'N');
    assert(nothing_deleted()[0] == 'N');
}

} // verus!
