//! SQL statements and the results of executing them.
use vstd::prelude::*;

use crate::table::{
    Column,
    ColumnView,
    Dataframe,
    DataframeView,
    DfError,
    Row,
    ValueView,
    columns_view,
    rows_fit,
    rows_view,
};
use crate::text::owned;

verus! {

/// A SQL query to be executed by a database connection.
pub struct Query {
    sql: String,
}

impl View for Query {
    type V = Seq<char>;

    closed spec fn view(&self) -> Seq<char> {
        self.sql@
    }
}

impl Query {
    /// Creates a query from a SQL string.
    pub fn new(sql: &str) -> (r: Self)
        ensures
            r@ == sql@,
    {
        Self { sql: owned(sql) }
    }

    /// Returns the SQL statement.
    pub fn sql(&self) -> (r: &str)
        ensures
            r@ == self@,
    {
        self.sql.as_str()
    }
}

/// Result returned after executing a SQL query.
pub struct QueryResult {
    columns: Vec<Column>,
    rows: Vec<Row>,
}

/// A query result as plain values.
#[verifier::ext_equal]
pub struct QueryResultView {
    pub columns: Seq<ColumnView>,
    pub rows: Seq<Seq<ValueView>>,
}

impl View for QueryResult {
    type V = QueryResultView;

    closed spec fn view(&self) -> QueryResultView {
        QueryResultView { columns: columns_view(self.columns@), rows: rows_view(self.rows@) }
    }
}

impl QueryResult {
    /// Creates an empty query result.
    pub fn new() -> (r: Self)
        ensures
            r@.columns == Seq::<ColumnView>::empty(),
            r@.rows == Seq::<Seq<ValueView>>::empty(),
    {
        let r = Self { columns: Vec::new(), rows: Vec::new() };
        assert(columns_view(r.columns@) =~= Seq::<ColumnView>::empty());
        assert(rows_view(r.rows@) =~= Seq::<Seq<ValueView>>::empty());
        r
    }

    /// Replaces the column descriptions.
    pub fn set_columns(&mut self, columns: Vec<Column>)
        ensures
            final(self)@.columns == columns_view(columns@),
            final(self)@.rows == old(self)@.rows,
    {
        self.columns = columns;
    }

    /// Appends a row.
    pub fn add_row(&mut self, row: Row)
        ensures
            final(self)@.columns == old(self)@.columns,
            final(self)@.rows == old(self)@.rows.push(row@),
    {
        let ghost before = rows_view(self.rows@);
        self.rows.push(row);
        assert(rows_view(self.rows@) =~= before.push(row@));
    }

    /// Returns the rows returned by the query.
    pub fn rows(&self) -> (r: &[Row])
        ensures
            rows_view(r@) == self@.rows,
    {
        self.rows.as_slice()
    }

    /// Returns the columns returned by the query.
    pub fn columns(&self) -> (r: &[Column])
        ensures
            columns_view(r@) == self@.columns,
    {
        self.columns.as_slice()
    }

    /// Converts the result into a [`Dataframe`].
    pub fn dataframe(self) -> (r: Result<Dataframe, DfError>)
        ensures
            rows_fit(self@.columns.len(), self@.rows) ==> (r matches Ok(d) && d@ == DataframeView {
                columns: self@.columns,
                rows: self@.rows,
            }),
            !rows_fit(self@.columns.len(), self@.rows) ==> (r matches Err(e) && e.message@
                == "Mismatch rows size"@),
    {
        Dataframe::new(self.columns, self.rows)
    }
}

impl Default for QueryResult {
    fn default() -> (r: Self)
        ensures
            r@.columns == Seq::<ColumnView>::empty(),
            r@.rows == Seq::<Seq<ValueView>>::empty(),
    {
        Self::new()
    }
}

} // verus!
