//! Columns, rows and values of query results, and their tabular form.
use vstd::prelude::*;

use crate::text::{debug_bytes, decimal_chars, owned, push_char, push_debug_bytes, push_decimal, push_str};

verus! {

/// Describes the type of a database value.
#[derive(Debug, Clone, Copy, PartialEq, Eq, Structural)]
pub enum ValueType {
    /// Signed integer.
    Int,
    /// Unsigned integer.
    UInt,
    /// Floating-point number.
    Float,
    /// Text value.
    String,
    /// Binary data.
    Bytes,
    /// Boolean value.
    Bool,
}

impl ValueType {
    /// The type's name, as it is displayed.
    pub fn name(&self) -> (r: String)
        ensures
            r@ == value_type_name(*self),
    {
        match self {
            ValueType::Int => owned("Int"),
            ValueType::UInt => owned("UInt"),
            ValueType::Float => owned("Float"),
            ValueType::String => owned("String"),
            ValueType::Bytes => owned("Bytes"),
            ValueType::Bool => owned("Bool"),
        }
    }
}

/// The displayed name of each value type.
pub open spec fn value_type_name(t: ValueType) -> Seq<char> {
    match t {
        ValueType::Int => "Int"@,
        ValueType::UInt => "UInt"@,
        ValueType::Float => "Float"@,
        ValueType::String => "String"@,
        ValueType::Bytes => "Bytes"@,
        ValueType::Bool => "Bool"@,
    }
}

/// A floating-point number as the server sent it: decimal text (checked
/// against the floating-point grammar), or the IEEE 754 bit pattern of a
/// single- or double-precision number.
#[derive(Debug)]
pub enum FloatValue {
    Text(String),
    Single(u32),
    Double(u64),
}

/// A floating-point number as plain values.
#[verifier::ext_equal]
pub enum FloatView {
    Text(Seq<char>),
    Single(u32),
    Double(u64),
}

impl View for FloatValue {
    type V = FloatView;

    open spec fn view(&self) -> FloatView {
        match self {
            FloatValue::Text(s) => FloatView::Text(s@),
            FloatValue::Single(b) => FloatView::Single(*b),
            FloatValue::Double(b) => FloatView::Double(*b),
        }
    }
}

/// A value returned by a database query.
#[derive(Debug)]
pub enum Value {
    /// SQL NULL value.
    Null,
    /// Signed integer.
    Int(i64),
    /// Unsigned integer.
    UInt(u64),
    /// Floating-point number.
    Float(FloatValue),
    /// Text value.
    String(String),
    /// Binary data.
    Bytes(Vec<u8>),
    /// Boolean value.
    Bool(bool),
}

/// A value as plain values.
#[verifier::ext_equal]
pub enum ValueView {
    Null,
    Int(i64),
    UInt(u64),
    Float(FloatView),
    String(Seq<char>),
    Bytes(Seq<u8>),
    Bool(bool),
}

impl View for Value {
    type V = ValueView;

    open spec fn view(&self) -> ValueView {
        match self {
            Value::Null => ValueView::Null,
            Value::Int(v) => ValueView::Int(*v),
            Value::UInt(v) => ValueView::UInt(*v),
            Value::Float(f) => ValueView::Float(f@),
            Value::String(s) => ValueView::String(s@),
            Value::Bytes(b) => ValueView::Bytes(b@),
            Value::Bool(b) => ValueView::Bool(*b),
        }
    }
}

/// Describes a column returned by a query.
#[derive(Debug)]
pub struct Column {
    /// Column name.
    pub name: String,
    /// Type of values stored in the column.
    pub value_type: ValueType,
}

/// A column as plain values.
#[verifier::ext_equal]
pub struct ColumnView {
    pub name: Seq<char>,
    pub value_type: ValueType,
}

impl View for Column {
    type V = ColumnView;

    open spec fn view(&self) -> ColumnView {
        ColumnView { name: self.name@, value_type: self.value_type }
    }
}

/// The views of a sequence of values.
pub open spec fn values_view(v: Seq<Value>) -> Seq<ValueView> {
    v.map_values(|x: Value| x@)
}

/// The views of a sequence of columns.
pub open spec fn columns_view(c: Seq<Column>) -> Seq<ColumnView> {
    c.map_values(|x: Column| x@)
}

/// A row returned by a database query.
#[derive(Debug)]
pub struct Row {
    pub content: Vec<Value>,
}

impl View for Row {
    type V = Seq<ValueView>;

    open spec fn view(&self) -> Seq<ValueView> {
        values_view(self.content@)
    }
}

/// The views of a sequence of rows.
pub open spec fn rows_view(r: Seq<Row>) -> Seq<Seq<ValueView>> {
    r.map_values(|x: Row| x@)
}

impl Row {
    /// Creates a row from its values.
    pub fn from_values(content: Vec<Value>) -> (r: Self)
        ensures
            r@ == values_view(content@),
    {
        Self { content }
    }

    /// Returns the number of values in the row.
    pub fn size(&self) -> (r: usize)
        ensures
            r == self@.len(),
    {
        self.content.len()
    }

    /// Returns the values contained in the row.
    pub fn values(&self) -> (r: &[Value])
        ensures
            values_view(r@) == self@,
    {
        self.content.as_slice()
    }
}

/// Tabular representation of a query result.
#[derive(Debug)]
pub struct Dataframe {
    columns: Vec<Column>,
    rows: Vec<Row>,
}

/// A dataframe as plain values.
#[verifier::ext_equal]
pub struct DataframeView {
    pub columns: Seq<ColumnView>,
    pub rows: Seq<Seq<ValueView>>,
}

impl View for Dataframe {
    type V = DataframeView;

    closed spec fn view(&self) -> DataframeView {
        DataframeView { columns: columns_view(self.columns@), rows: rows_view(self.rows@) }
    }
}

/// Every row has one value per column.
pub open spec fn rows_fit(columns: nat, rows: Seq<Seq<ValueView>>) -> bool {
    forall|i: int| 0 <= i < rows.len() ==> #[trigger] rows[i].len() == columns
}

impl Dataframe {
    /// The dataframe's invariant: every row has one value per column.
    pub closed spec fn well_formed(&self) -> bool {
        rows_fit(self.columns@.len(), rows_view(self.rows@))
    }

    /// Creates a dataframe from columns and rows.
    ///
    /// Returns an error if a row contains a different number of values
    /// than the number of columns.
    pub fn new(columns: Vec<Column>, rows: Vec<Row>) -> (r: Result<Self, DfError>)
        ensures
            rows_fit(columns@.len(), rows_view(rows@)) ==> (r matches Ok(d) && d@
                == DataframeView {
                columns: columns_view(columns@),
                rows: rows_view(rows@),
            } && d.well_formed()),
            !rows_fit(columns@.len(), rows_view(rows@)) ==> (r matches Err(e) && e.message@
                == "Mismatch rows size"@),
    {
        let mut i: usize = 0;
        while i < rows.len()
            invariant
                i <= rows@.len(),
                forall|k: int| 0 <= k < i ==> (#[trigger] rows_view(rows@)[k]).len()
                    == columns@.len(),
            decreases rows@.len() - i,
        {
            if rows[i].size() != columns.len() {
                assert(rows_view(rows@)[i as int].len() != columns@.len());
                return Err(DfError::new(owned("Mismatch rows size")));
            }
            i = i + 1;
        }
        Ok(Self { columns, rows })
    }

    /// The columns of the dataframe.
    pub fn columns(&self) -> (r: &[Column])
        ensures
            columns_view(r@) == self@.columns,
    {
        self.columns.as_slice()
    }

    /// The rows of the dataframe.
    pub fn rows(&self) -> (r: &[Row])
        ensures
            rows_view(r@) == self@.rows,
    {
        self.rows.as_slice()
    }
}

/// The text of a signed integer: its decimal digits, after a `-` when it is
/// negative.
pub open spec fn signed_decimal(i: int) -> Seq<char> {
    if i < 0 {
        seq!['-'] + decimal_chars((-i) as nat)
    } else {
        decimal_chars(i as nat)
    }
}

/// How a value is displayed, for every value but a floating-point number
/// (`None`): `NULL`, integers in decimal, text as it is, bytes as a list of
/// decimal numbers, `true` or `false`.
pub open spec fn value_text(v: ValueView) -> Option<Seq<char>> {
    match v {
        ValueView::Null => Some("NULL"@),
        ValueView::Int(i) => Some(signed_decimal(i as int)),
        ValueView::UInt(u) => Some(decimal_chars(u as nat)),
        ValueView::Float(_) => None,
        ValueView::String(t) => Some(t),
        ValueView::Bytes(b) => Some(debug_bytes(b)),
        ValueView::Bool(b) => Some(if b { "true"@ } else { "false"@ }),
    }
}

/// Cells joined into a line, separated by ` | `.
pub open spec fn joined(cells: Seq<Seq<char>>) -> Seq<char>
    decreases cells.len(),
{
    if cells.len() == 0 {
        seq![]
    } else if cells.len() == 1 {
        cells[0]
    } else {
        joined(cells.drop_last()) + " | "@ + cells.last()
    }
}

/// The texts of a sequence of strings.
pub open spec fn texts_view(v: Seq<String>) -> Seq<Seq<char>> {
    v.map_values(|s: String| s@)
}

/// How a row is displayed when it holds no floating-point number: its
/// values' texts joined by ` | `.
pub open spec fn row_text(vs: Seq<ValueView>) -> Option<Seq<char>> {
    if forall|i: int| 0 <= i < vs.len() ==> (#[trigger] value_text(vs[i])) is Some {
        Some(joined(Seq::new(vs.len(), |i: int| value_text(vs[i])->Some_0)))
    } else {
        None
    }
}

/// Joins cells into a line, separated by ` | `.
pub fn join_cells(cells: &[String]) -> (r: String)
    ensures
        r@ == joined(texts_view(cells@)),
{
    let ghost cs = texts_view(cells@);
    let mut s = String::new();
    let mut i: usize = 0;
    while i < cells.len()
        invariant
            i <= cells@.len(),
            cs == texts_view(cells@),
            s@ == joined(cs.take(i as int)),
        decreases cells@.len() - i,
    {
        proof {
            let t = cs.take(i + 1);
            assert(t.drop_last() =~= cs.take(i as int));
            assert(t.last() == cells@[i as int]@);
        }
        if i > 0 {
            push_str(&mut s, " | ");
        } else {
            assert(s@ =~= seq![]);
        }
        push_str(&mut s, cells[i].as_str());
        proof {
            let t = cs.take(i + 1);
            if i == 0 {
                assert(s@ =~= t[0]);
            } else {
                assert(s@ =~= joined(t.drop_last()) + " | "@ + t.last());
            }
        }
        i = i + 1;
    }
    assert(cs.take(i as int) =~= cs);
    s
}

impl Value {
    /// How the value is displayed; `None` for a floating-point number, whose
    /// rendering is left to the caller.
    pub fn text(&self) -> (r: Option<String>)
        ensures
            r matches Some(t) ==> value_text(self@) == Some(t@),
            r is None ==> value_text(self@) is None,
    {
        match self {
            Value::Null => Some(owned("NULL")),
            Value::Int(i) => {
                let mut s = String::new();
                if *i < 0 {
                    push_char(&mut s, '-');
                    let m: u64 = if *i == i64::MIN {
                        9223372036854775808
                    } else {
                        (-*i) as u64
                    };
                    push_decimal(&mut s, m);
                } else {
                    push_decimal(&mut s, *i as u64);
                }
                assert(s@ =~= signed_decimal(*i as int));
                Some(s)
            },
            Value::UInt(u) => {
                let mut s = String::new();
                push_decimal(&mut s, *u);
                assert(s@ =~= decimal_chars(*u as nat));
                Some(s)
            },
            Value::Float(_) => None,
            Value::String(t) => Some(owned(t.as_str())),
            Value::Bytes(b) => {
                let mut s = String::new();
                push_debug_bytes(&mut s, b.as_slice(), false);
                assert(s@ =~= debug_bytes(b@));
                Some(s)
            },
            Value::Bool(b) => if *b {
                Some(owned("true"))
            } else {
                Some(owned("false"))
            },
        }
    }
}

impl Column {
    /// How the column is displayed: its name.
    pub fn text(&self) -> (r: String)
        ensures
            r@ == self@.name,
    {
        owned(self.name.as_str())
    }
}

impl Row {
    /// How the row is displayed when it holds no floating-point number; `None`
    /// otherwise.
    pub fn text(&self) -> (r: Option<String>)
        ensures
            r matches Some(t) ==> row_text(self@) == Some(t@),
            r is None ==> row_text(self@) is None,
    {
        let ghost vs = self@;
        let mut cells: Vec<String> = Vec::new();
        let mut i: usize = 0;
        while i < self.content.len()
            invariant
                i <= self.content@.len(),
                vs == self@,
                vs == values_view(self.content@),
                cells@.len() == i,
                forall|k: int| 0 <= k < i ==> (#[trigger] value_text(vs[k])) is Some,
                forall|k: int| 0 <= k < i ==> value_text(vs[k]) == Some(#[trigger] cells@[k]@),
            decreases self.content@.len() - i,
        {
            match self.content[i].text() {
                Some(t) => {
                    cells.push(t);
                },
                None => {
                    assert(value_text(vs[i as int]) is None);
                    return None;
                },
            }
            i = i + 1;
        }
        let r = join_cells(cells.as_slice());
        assert(texts_view(cells@) =~= Seq::new(vs.len(), |k: int| value_text(vs[k])->Some_0));
        Some(r)
    }
}

impl Dataframe {
    /// The header line of the dataframe: the column names joined by ` | `.
    pub fn header(&self) -> (r: String)
        ensures
            r@ == joined(self@.columns.map_values(|c: ColumnView| c.name)),
    {
        let ghost cs = self@.columns;
        let mut names: Vec<String> = Vec::new();
        let mut i: usize = 0;
        while i < self.columns.len()
            invariant
                i <= self.columns@.len(),
                cs == columns_view(self.columns@),
                names@.len() == i,
                forall|k: int| 0 <= k < i ==> (#[trigger] names@[k])@ == cs[k].name,
            decreases self.columns@.len() - i,
        {
            names.push(self.columns[i].text());
            i = i + 1;
        }
        let r = join_cells(names.as_slice());
        assert(texts_view(names@) =~= cs.map_values(|c: ColumnView| c.name));
        r
    }
}

/// Error returned when a dataframe cannot be constructed.
#[derive(Debug)]
pub struct DfError {
    pub message: String,
}

impl DfError {
    /// Creates a new dataframe error.
    pub fn new(message: String) -> (r: Self)
        ensures
            r.message == message,
    {
        Self { message }
    }
}

} // verus!
