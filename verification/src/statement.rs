//! The four statements, each with the values bound to it.
//!
//! The table's name is written into the text as it is given: it is the
//! caller's to vouch for. A name or an identifier is never written into the
//! text; it is bound to a placeholder.

use vstd::prelude::*;
use vstd::string::StringExecFns;

verus! {

/// A value bound to a placeholder of a statement.
#[derive(Debug, Clone, PartialEq, Eq)]
pub enum Param {
    /// A text value.
    Text(String),
    /// A four-byte integer value.
    Int(i32),
}

/// What a [`Param`] holds.
pub enum ParamView {
    Text(Seq<char>),
    Int(int),
}

impl View for Param {
    type V = ParamView;

    open spec fn view(&self) -> ParamView {
        match self {
            Param::Text(s) => ParamView::Text(s@),
            Param::Int(i) => ParamView::Int(*i as int),
        }
    }
}

impl DeepView for Param {
    type V = ParamView;

    open spec fn deep_view(&self) -> ParamView {
        self@
    }
}

/// The text of a statement and the values bound to its placeholders: the
/// first value to `$1`, the second to `$2`.
#[derive(Debug, Clone, PartialEq, Eq)]
pub struct Statement {
    pub text: String,
    pub params: Vec<Param>,
}

/// What a [`Statement`] holds.
pub struct StatementView {
    pub text: Seq<char>,
    pub params: Seq<ParamView>,
}

impl View for Statement {
    type V = StatementView;

    open spec fn view(&self) -> StatementView {
        StatementView { text: self.text@, params: self.params.deep_view() }
    }
}

/// The statement that adds a row named `name` to `table`.
pub open spec fn create_statement(table: Seq<char>, name: Seq<char>) -> StatementView {
    StatementView {
        text: "INSERT INTO "@ + table + " (name) VALUES ($1)"@,
        params: seq![ParamView::Text(name)],
    }
}

/// The statement that fetches every row of `table`, lowest identifier first.
pub open spec fn read_statement(table: Seq<char>) -> StatementView {
    StatementView { text: "SELECT * FROM "@ + table + " ORDER BY id"@, params: seq![] }
}

/// The statement that names the row `id` of `table` anew.
pub open spec fn update_statement(table: Seq<char>, id: int, name: Seq<char>) -> StatementView {
    StatementView {
        text: "UPDATE "@ + table + " SET name = $1 WHERE id = $2"@,
        params: seq![ParamView::Text(name), ParamView::Int(id)],
    }
}

/// The statement that removes the row `id` from `table`.
pub open spec fn delete_statement(table: Seq<char>, id: int) -> StatementView {
    StatementView {
        text: "DELETE FROM "@ + table + " WHERE id = $1"@,
        params: seq![ParamView::Int(id)],
    }
}

/// `head`, then `table`, then `tail`.
fn around(head: &str, table: &str, tail: &str) -> (text: String)
    ensures
        text@ == head@ + table@ + tail@,
{
    let mut text = String::from_str(head);
    text.append(table);
    text.append(tail);
    text
}

impl Statement {
    /// The statement that adds a row named `name` to `table`.
    pub fn create(table: &str, name: &str) -> (statement: Statement)
        ensures
            statement@ == create_statement(table@, name@),
    {
        let text = around("INSERT INTO ", table, " (name) VALUES ($1)");
        let mut params: Vec<Param> = Vec::new();
        params.push(Param::Text(String::from_str(name)));
        let statement = Statement { text, params };
        assert(statement@.params =~= create_statement(table@, name@).params);
        statement
    }

    /// The statement that fetches every row of `table`, lowest identifier
    /// first.
    pub fn read(table: &str) -> (statement: Statement)
        ensures
            statement@ == read_statement(table@),
    {
        let text = around("SELECT * FROM ", table, " ORDER BY id");
        let statement = Statement { text, params: Vec::new() };
        assert(statement@.params =~= read_statement(table@).params);
        statement
    }

    /// The statement that names the row `id` of `table` anew.
    pub fn update(table: &str, id: i32, name: &str) -> (statement: Statement)
        ensures
            statement@ == update_statement(table@, id as int, name@),
    {
        let text = around("UPDATE ", table, " SET name = $1 WHERE id = $2");
        let mut params: Vec<Param> = Vec::new();
        params.push(Param::Text(String::from_str(name)));
        params.push(Param::Int(id));
        let statement = Statement { text, params };
        assert(statement@.params =~= update_statement(table@, id as int, name@).params);
        statement
    }

    /// The statement that removes the row `id` from `table`.
    pub fn delete(table: &str, id: i32) -> (statement: Statement)
        ensures
            statement@ == delete_statement(table@, id as int),
    {
        let text = around("DELETE FROM ", table, " WHERE id = $1");
        let mut params: Vec<Param> = Vec::new();
        params.push(Param::Int(id));
        let statement = Statement { text, params };
        assert(statement@.params =~= delete_statement(table@, id as int).params);
        statement
    }
}

} // verus!
