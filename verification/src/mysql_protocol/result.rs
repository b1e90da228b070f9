//! Decoding of MySQL text-protocol result sets: column count, column
//! definitions and rows.
use vstd::prelude::*;
use vstd::utf8::*;

use crate::error::DbError;
use crate::numeric::{
    is_float_literal,
    is_float_text,
    law_parse_i64_of_decimal,
    law_parse_unsigned_of_decimal,
    parse_i64,
    parse_unsigned,
    spec_parse_i64,
    spec_parse_unsigned,
};
use crate::table::{
    Column,
    ColumnView,
    FloatValue,
    FloatView,
    Row,
    Value,
    ValueType,
    ValueView,
    columns_view,
    signed_decimal,
    values_view,
};
use crate::text::{decimal_chars, owned, push_decimal, utf8_to_string};
use crate::wire::{le2, le3, le4, le8, read_le_u16, read_le_u24, read_le_u32, read_le_u64};

verus! {

pub const MYSQL_TYPE_DECIMAL: u8 = 0;

pub const MYSQL_TYPE_TINY: u8 = 1;

pub const MYSQL_TYPE_SHORT: u8 = 2;

pub const MYSQL_TYPE_LONG: u8 = 3;

pub const MYSQL_TYPE_FLOAT: u8 = 4;

pub const MYSQL_TYPE_DOUBLE: u8 = 5;

pub const MYSQL_TYPE_NULL: u8 = 6;

pub const MYSQL_TYPE_LONGLONG: u8 = 8;

pub const MYSQL_TYPE_INT24: u8 = 9;

pub const MYSQL_TYPE_DATE: u8 = 10;

pub const MYSQL_TYPE_TIME: u8 = 11;

pub const MYSQL_TYPE_DATETIME: u8 = 12;

pub const MYSQL_TYPE_YEAR: u8 = 13;

pub const MYSQL_TYPE_VARCHAR: u8 = 15;

pub const MYSQL_TYPE_BIT: u8 = 16;

pub const MYSQL_TYPE_TIMESTAMP: u8 = 17;

pub const MYSQL_TYPE_JSON: u8 = 245;

pub const MYSQL_TYPE_NEWDECIMAL: u8 = 246;

pub const MYSQL_TYPE_BLOB: u8 = 252;

pub const MYSQL_TYPE_VAR_STRING: u8 = 253;

pub const MYSQL_TYPE_STRING: u8 = 254;

pub const UNSIGNED_FLAG: u16 = 0x0020;

pub struct ResultParser {}

/// Error produced while decoding a result packet.
#[derive(Debug)]
pub struct ParserError {
    pub message: String,
}

impl ParserError {
    pub fn new(message: String) -> (r: Self)
        ensures
            r.message == message,
    {
        Self { message }
    }
}

impl From<ParserError> for DbError {
    fn from(error: ParserError) -> (r: DbError) {
        DbError::new(error.message)
    }
}

impl vstd::std_specs::convert::FromSpecImpl<ParserError> for DbError {
    open spec fn obeys_from_spec() -> bool {
        true
    }

    open spec fn from_spec(v: ParserError) -> DbError {
        DbError { message: v.message }
    }
}

pub open spec fn msg_end() -> Seq<char> {
    "Unexpected end of MySQL payload"@
}

/// A length-encoded integer at `off`: one byte up to `0xFA` is the value,
/// `0xFB` is NULL, `0xFC`/`0xFD`/`0xFE` announce 2/3/8 little-endian bytes,
/// `0xFF` is invalid.
pub open spec fn spec_lenenc_int(p: Seq<u8>, off: int) -> Result<(Option<u64>, int), Seq<char>> {
    if off >= p.len() {
        Err(msg_end())
    } else {
        let first = p[off];
        let o = off + 1;
        if first <= 0xfa {
            Ok((Some(first as u64), o))
        } else if first == 0xfb {
            Ok((None, o))
        } else if first == 0xfc {
            if o + 2 > p.len() {
                Err(msg_end())
            } else {
                Ok((Some(le2(p, o) as u64), o + 2))
            }
        } else if first == 0xfd {
            if o + 3 > p.len() {
                Err(msg_end())
            } else {
                Ok((Some(le3(p, o) as u64), o + 3))
            }
        } else if first == 0xfe {
            if o + 8 > p.len() {
                Err(msg_end())
            } else {
                Ok((Some(le8(p, o) as u64), o + 8))
            }
        } else {
            Err("Invalid MySQL length-encoded integer"@)
        }
    }
}

/// `n` bytes at `off`.
pub open spec fn spec_bytes(p: Seq<u8>, off: int, n: int) -> Result<(Seq<u8>, int), Seq<char>> {
    if off + n > p.len() {
        Err(msg_end())
    } else {
        Ok((p.subrange(off, off + n), off + n))
    }
}

/// A length-encoded byte string (NULL is an error here).
pub open spec fn spec_lenenc_bytes(p: Seq<u8>, off: int) -> Result<(Seq<u8>, int), Seq<char>> {
    match spec_lenenc_int(p, off) {
        Err(m) => Err(m),
        Ok((None, _)) => Err("Unexpected NULL length-encoded string"@),
        Ok((Some(n), o)) => if n > usize::MAX {
            Err("MySQL string length exceeds usize"@)
        } else {
            spec_bytes(p, o, n as int)
        },
    }
}

/// A length-encoded UTF-8 string.
pub open spec fn spec_lenenc_string(p: Seq<u8>, off: int) -> Result<(Seq<char>, int), Seq<char>> {
    match spec_lenenc_bytes(p, off) {
        Err(m) => Err(m),
        Ok((b, o)) => if valid_utf8(b) {
            Ok((decode_utf8(b), o))
        } else {
            Err("Invalid UTF-8 MySQL string"@)
        },
    }
}

/// A length-encoded byte string or NULL.
pub open spec fn spec_lenenc_or_null(p: Seq<u8>, off: int) -> Result<(Option<Seq<u8>>, int), Seq<char>> {
    match spec_lenenc_int(p, off) {
        Err(m) => Err(m),
        Ok((None, o)) => Ok((None, o)),
        Ok((Some(n), o)) => if n > usize::MAX {
            Err("MySQL value length exceeds usize"@)
        } else {
            match spec_bytes(p, o, n as int) {
                Err(m) => Err(m),
                Ok((b, o2)) => Ok((Some(b), o2)),
            }
        },
    }
}

/// The value type that a MySQL column type maps to.
pub open spec fn spec_value_type_from_mysql_type(t: u8) -> Option<ValueType> {
    if t == 1 || t == 2 || t == 3 || t == 9 || t == 8 {
        Some(ValueType::Int)
    } else if t == 4 || t == 5 || t == 0 || t == 246 {
        Some(ValueType::Float)
    } else if t == 16 {
        Some(ValueType::Bool)
    } else if t == 15 || t == 253 || t == 254 || t == 10 || t == 11 || t == 12 || t == 17 || t
        == 13 || t == 245 {
        Some(ValueType::String)
    } else if t == 252 {
        Some(ValueType::Bytes)
    } else if t == 6 {
        Some(ValueType::String)
    } else {
        None
    }
}

/// The column count packet: a length-encoded integer that is not NULL and
/// fits in `usize`.
pub open spec fn spec_column_count(p: Seq<u8>) -> Result<nat, Seq<char>> {
    match spec_lenenc_int(p, 0) {
        Err(m) => Err(m),
        Ok((None, _)) => Err("Invalid NULL column count"@),
        Ok((Some(n), _)) => if n > usize::MAX {
            Err("Column count exceeds usize"@)
        } else {
            Ok(n as nat)
        },
    }
}

/// The fixed part of a column definition after the name strings: its length
/// (at least 12), character set (u16), column length (u32), type (u8),
/// flags (u16), decimals (u8) and two filler bytes.
pub open spec fn spec_column_fixed(p: Seq<u8>, off: int, name: Seq<char>) -> Result<
    (ColumnView, u8, u16),
    Seq<char>,
> {
    if off >= p.len() {
        Err(msg_end())
    } else if p[off] < 0x0c {
        Err("Invalid MySQL column definition"@)
    } else if off + 13 > p.len() {
        Err(msg_end())
    } else {
        let t = p[off + 7];
        let flags = le2(p, off + 8) as u16;
        match spec_value_type_from_mysql_type(t) {
            None => Err("Unsupported MySQL column type: "@ + decimal_chars(t as nat)),
            Some(vt) => Ok((ColumnView { name, value_type: vt }, t, flags)),
        }
    }
}

/// A column definition: catalog, schema, table, original table, name and
/// original name (length-encoded strings), then the fixed part.
pub open spec fn spec_column_definition(p: Seq<u8>) -> Result<(ColumnView, u8, u16), Seq<char>> {
    match spec_lenenc_string(p, 0) {
        Err(m) => Err(m),
        Ok((_, o1)) => match spec_lenenc_string(p, o1) {
            Err(m) => Err(m),
            Ok((_, o2)) => match spec_lenenc_string(p, o2) {
                Err(m) => Err(m),
                Ok((_, o3)) => match spec_lenenc_string(p, o3) {
                    Err(m) => Err(m),
                    Ok((_, o4)) => match spec_lenenc_string(p, o4) {
                        Err(m) => Err(m),
                        Ok((name, o5)) => match spec_lenenc_string(p, o5) {
                            Err(m) => Err(m),
                            Ok((_, o6)) => spec_column_fixed(p, o6, name),
                        },
                    },
                },
            },
        },
    }
}

/// A text-protocol boolean: `0`, `1`, or decimal text of a `u8` that is 0
/// or 1.
pub open spec fn spec_decode_bool(raw: Seq<u8>) -> Result<ValueView, Seq<char>> {
    if raw == seq![48u8] {
        Ok(ValueView::Bool(false))
    } else if raw == seq![49u8] {
        Ok(ValueView::Bool(true))
    } else if !valid_utf8(raw) {
        Err("Invalid MySQL boolean"@)
    } else {
        match spec_parse_unsigned(raw, 255) {
            Some(v) => if v == 0 {
                Ok(ValueView::Bool(false))
            } else if v == 1 {
                Ok(ValueView::Bool(true))
            } else {
                Err("Invalid MySQL boolean"@)
            },
            None => Err("Invalid MySQL boolean"@),
        }
    }
}

/// Unsigned decimal text of a `u64`.
pub open spec fn spec_decode_unsigned(raw: Seq<u8>) -> Result<ValueView, Seq<char>> {
    if !valid_utf8(raw) {
        Err("Invalid MySQL unsigned integer"@)
    } else {
        match spec_parse_unsigned(raw, 0xffff_ffff_ffff_ffff) {
            Some(v) => Ok(ValueView::UInt(v as u64)),
            None => Err("Invalid MySQL unsigned integer"@),
        }
    }
}

/// A text-protocol value of the given type; integers flagged unsigned are
/// read as unsigned.
pub open spec fn spec_decode_value(raw: Option<Seq<u8>>, t: ValueType, flags: u16) -> Result<
    ValueView,
    Seq<char>,
> {
    match raw {
        None => Ok(ValueView::Null),
        Some(r) => match t {
            ValueType::Int => if flags & 0x0020u16 != 0 {
                spec_decode_unsigned(r)
            } else if !valid_utf8(r) {
                Err("Invalid MySQL integer"@)
            } else {
                match spec_parse_i64(r) {
                    Some(v) => Ok(ValueView::Int(v as i64)),
                    None => Err("Invalid MySQL integer"@),
                }
            },
            ValueType::UInt => spec_decode_unsigned(r),
            ValueType::Float => if !valid_utf8(r) || !is_float_text(r) {
                Err("Invalid MySQL float"@)
            } else {
                Ok(ValueView::Float(FloatView::Text(decode_utf8(r))))
            },
            ValueType::Bool => spec_decode_bool(r),
            ValueType::String => if !valid_utf8(r) {
                Err("Invalid UTF-8 MySQL string"@)
            } else {
                Ok(ValueView::String(decode_utf8(r)))
            },
            ValueType::Bytes => Ok(ValueView::Bytes(r)),
        },
    }
}

/// The first `k` values of a row starting at `off`.
pub open spec fn spec_row_values(
    p: Seq<u8>,
    off: int,
    k: nat,
    cols: Seq<ColumnView>,
    flags: Seq<u16>,
) -> Result<(Seq<ValueView>, int), Seq<char>>
    decreases k,
{
    if k == 0 {
        Ok((seq![], off))
    } else {
        match spec_row_values(p, off, (k - 1) as nat, cols, flags) {
            Err(m) => Err(m),
            Ok((vs, o)) => match spec_lenenc_or_null(p, o) {
                Err(m) => Err(m),
                Ok((raw, o2)) => match spec_decode_value(raw, cols[k - 1].value_type, flags[k - 1]) {
                    Err(m) => Err(m),
                    Ok(v) => Ok((vs.push(v), o2)),
                },
            },
        }
    }
}

/// A text-protocol row: one length-encoded value or NULL per column.
pub open spec fn spec_row(p: Seq<u8>, cols: Seq<ColumnView>, types: Seq<u8>, flags: Seq<u16>) -> Result<
    Seq<ValueView>,
    Seq<char>,
> {
    if types.len() != cols.len() {
        Err("Column types mismatch"@)
    } else if flags.len() != cols.len() {
        Err("Column flags mismatch"@)
    } else {
        match spec_row_values(p, 0, cols.len(), cols, flags) {
            Err(m) => Err(m),
            Ok((vs, _)) => Ok(vs),
        }
    }
}

/// A row that parses has exactly one value per column.
pub proof fn lemma_row_len(p: Seq<u8>, cols: Seq<ColumnView>, types: Seq<u8>, flags: Seq<u16>)
    ensures
        spec_row(p, cols, types, flags) matches Ok(vs) ==> vs.len() == cols.len(),
{
    if types.len() == cols.len() && flags.len() == cols.len() {
        lemma_row_values_len(p, 0, cols.len(), cols, flags);
    }
}

proof fn lemma_row_values_len(
    p: Seq<u8>,
    off: int,
    k: nat,
    cols: Seq<ColumnView>,
    flags: Seq<u16>,
)
    ensures
        spec_row_values(p, off, k, cols, flags) matches Ok((vs, _)) ==> vs.len() == k,
    decreases k,
{
    if k > 0 {
        lemma_row_values_len(p, off, (k - 1) as nat, cols, flags);
    }
}

/// Which value type each MySQL column type is read as: the integer types
/// (`TINY`, `SHORT`, `LONG`, `INT24`, `LONGLONG`) as integers; `FLOAT`,
/// `DOUBLE`, `DECIMAL` and `NEWDECIMAL` as floating-point numbers; `BIT` as a
/// boolean; the textual types (`VARCHAR`, `VAR_STRING`, `STRING`, the date and
/// time types, `JSON`) and `NULL` as text; and only `BLOB` as bytes. No other
/// column type is supported, and a parsed column definition carries the
/// value type of its column type.
pub proof fn law_mysql_type_table(t: u8, p: Seq<u8>)
    ensures
        spec_value_type_from_mysql_type(MYSQL_TYPE_TINY) == Some(ValueType::Int),
        spec_value_type_from_mysql_type(MYSQL_TYPE_SHORT) == Some(ValueType::Int),
        spec_value_type_from_mysql_type(MYSQL_TYPE_LONG) == Some(ValueType::Int),
        spec_value_type_from_mysql_type(MYSQL_TYPE_INT24) == Some(ValueType::Int),
        spec_value_type_from_mysql_type(MYSQL_TYPE_LONGLONG) == Some(ValueType::Int),
        spec_value_type_from_mysql_type(MYSQL_TYPE_FLOAT) == Some(ValueType::Float),
        spec_value_type_from_mysql_type(MYSQL_TYPE_DOUBLE) == Some(ValueType::Float),
        spec_value_type_from_mysql_type(MYSQL_TYPE_DECIMAL) == Some(ValueType::Float),
        spec_value_type_from_mysql_type(MYSQL_TYPE_NEWDECIMAL) == Some(ValueType::Float),
        spec_value_type_from_mysql_type(MYSQL_TYPE_BIT) == Some(ValueType::Bool),
        spec_value_type_from_mysql_type(MYSQL_TYPE_VARCHAR) == Some(ValueType::String),
        spec_value_type_from_mysql_type(MYSQL_TYPE_VAR_STRING) == Some(ValueType::String),
        spec_value_type_from_mysql_type(MYSQL_TYPE_STRING) == Some(ValueType::String),
        spec_value_type_from_mysql_type(MYSQL_TYPE_DATE) == Some(ValueType::String),
        spec_value_type_from_mysql_type(MYSQL_TYPE_TIME) == Some(ValueType::String),
        spec_value_type_from_mysql_type(MYSQL_TYPE_DATETIME) == Some(ValueType::String),
        spec_value_type_from_mysql_type(MYSQL_TYPE_TIMESTAMP) == Some(ValueType::String),
        spec_value_type_from_mysql_type(MYSQL_TYPE_YEAR) == Some(ValueType::String),
        spec_value_type_from_mysql_type(MYSQL_TYPE_JSON) == Some(ValueType::String),
        spec_value_type_from_mysql_type(MYSQL_TYPE_NULL) == Some(ValueType::String),
        spec_value_type_from_mysql_type(MYSQL_TYPE_BLOB) == Some(ValueType::Bytes),
        spec_value_type_from_mysql_type(t) == Some(ValueType::Bytes) <==> t == MYSQL_TYPE_BLOB,
        spec_value_type_from_mysql_type(t) is Some ==> t == MYSQL_TYPE_TINY || t == MYSQL_TYPE_SHORT
            || t == MYSQL_TYPE_LONG || t == MYSQL_TYPE_INT24 || t == MYSQL_TYPE_LONGLONG || t
            == MYSQL_TYPE_FLOAT || t == MYSQL_TYPE_DOUBLE || t == MYSQL_TYPE_DECIMAL || t
            == MYSQL_TYPE_NEWDECIMAL || t == MYSQL_TYPE_BIT || t == MYSQL_TYPE_VARCHAR || t
            == MYSQL_TYPE_VAR_STRING || t == MYSQL_TYPE_STRING || t == MYSQL_TYPE_DATE || t
            == MYSQL_TYPE_TIME || t == MYSQL_TYPE_DATETIME || t == MYSQL_TYPE_TIMESTAMP || t
            == MYSQL_TYPE_YEAR || t == MYSQL_TYPE_JSON || t == MYSQL_TYPE_NULL || t
            == MYSQL_TYPE_BLOB,
        spec_column_definition(p) matches Ok((c, ct, _)) ==> spec_value_type_from_mysql_type(ct)
            == Some(c.value_type),
{
}

/// A text-protocol integer column reads the decimal text of any 64-bit
/// integer, negative ones included, as that integer; flagged unsigned, it
/// reads the decimal text of any 64-bit unsigned integer as that number, and
/// so does an unsigned column.
pub proof fn law_text_integers(v: i64, u: u64, flags: u16)
    ensures
        flags & UNSIGNED_FLAG == 0 ==> spec_decode_value(
            Some(encode_utf8(signed_decimal(v as int))),
            ValueType::Int,
            flags,
        ) == Ok::<ValueView, Seq<char>>(ValueView::Int(v)),
        flags & UNSIGNED_FLAG != 0 ==> spec_decode_value(
            Some(encode_utf8(decimal_chars(u as nat))),
            ValueType::Int,
            flags,
        ) == Ok::<ValueView, Seq<char>>(ValueView::UInt(u)),
        spec_decode_value(Some(encode_utf8(decimal_chars(u as nat))), ValueType::UInt, flags)
            == Ok::<ValueView, Seq<char>>(ValueView::UInt(u)),
{
    law_parse_i64_of_decimal(v);
    law_parse_unsigned_of_decimal(u as nat, 0xffff_ffff_ffff_ffff);
}

proof fn lemma_row_values_err(
    p: Seq<u8>,
    off: int,
    k: nat,
    k2: nat,
    cols: Seq<ColumnView>,
    flags: Seq<u16>,
)
    requires
        k <= k2,
        spec_row_values(p, off, k, cols, flags) is Err,
    ensures
        spec_row_values(p, off, k2, cols, flags) == spec_row_values(p, off, k, cols, flags),
    decreases k2 - k,
{
    if k < k2 {
        lemma_row_values_err(p, off, k, (k2 - 1) as nat, cols, flags);
    }
}

fn parser_error(message: &str) -> (r: ParserError)
    ensures
        r.message@ == message@,
{
    ParserError::new(owned(message))
}

impl ResultParser {
    /// The column count of a result set.
    pub fn parse_column_count(payload: &[u8]) -> (r: Result<usize, ParserError>)
        ensures
            match (r, spec_column_count(payload@)) {
                (Ok(n), Ok(m)) => n == m,
                (Err(e), Err(m)) => e.message@ == m,
                _ => false,
            },
    {
        let mut offset: usize = 0;
        let count = Self::read_lenenc_int(payload, &mut offset)?;
        let count = match count {
            Some(c) => c,
            None => {
                return Err(parser_error("Invalid NULL column count"));
            },
        };
        if count as u128 > usize::MAX as u128 {
            return Err(parser_error("Column count exceeds usize"));
        }
        Ok(count as usize)
    }

    /// A column definition: the column, its MySQL type and its flags.
    pub fn parse_column_definition(payload: &[u8]) -> (r: Result<(Column, u8, u16), ParserError>)
        ensures
            match (r, spec_column_definition(payload@)) {
                (Ok((c, t, f)), Ok((cv, tv, fv))) => c@ == cv && t == tv && f == fv,
                (Err(e), Err(m)) => e.message@ == m,
                _ => false,
            },
    {
        let mut offset: usize = 0;
        // catalog
        Self::read_lenenc_string(payload, &mut offset)?;
        // schema
        Self::read_lenenc_string(payload, &mut offset)?;
        // table
        Self::read_lenenc_string(payload, &mut offset)?;
        // original table
        Self::read_lenenc_string(payload, &mut offset)?;
        // column name
        let name = Self::read_lenenc_string(payload, &mut offset)?;
        // original column name
        Self::read_lenenc_string(payload, &mut offset)?;
        let ghost o6 = offset as int;
        // length of fixed fields
        let fixed_fields_length = Self::read_u8(payload, &mut offset)?;
        if fixed_fields_length < 0x0c {
            return Err(parser_error("Invalid MySQL column definition"));
        }
        // character set
        let _character_set = Self::read_u16_le(payload, &mut offset)?;
        // column length
        let _column_length = Self::read_u32_le(payload, &mut offset)?;
        // MySQL type
        let column_type = Self::read_u8(payload, &mut offset)?;
        // flags
        let flags = Self::read_u16_le(payload, &mut offset)?;
        // decimals
        let _decimals = Self::read_u8(payload, &mut offset)?;
        // filler
        Self::read_bytes(payload, &mut offset, 2)?;
        let value_type = Self::value_type_from_mysql_type(column_type)?;
        let column = Column { name, value_type };
        Ok((column, column_type, flags))
    }

    /// A text-protocol row with the given column types and flags.
    pub fn parse_row(payload: &[u8], columns: &[Column], column_types: &[u8], flags: &[u16]) -> (r:
        Result<Row, ParserError>)
        ensures
            match (r, spec_row(payload@, columns_view(columns@), column_types@, flags@)) {
                (Ok(row), Ok(vs)) => row@ == vs,
                (Err(e), Err(m)) => e.message@ == m,
                _ => false,
            },
    {
        if column_types.len() != columns.len() {
            return Err(parser_error("Column types mismatch"));
        }
        if flags.len() != columns.len() {
            return Err(parser_error("Column flags mismatch"));
        }
        let ghost cols = columns_view(columns@);
        let mut offset: usize = 0;
        let mut values: Vec<Value> = Vec::new();
        let mut index: usize = 0;
        assert(values_view(values@) =~= seq![]);
        while index < columns.len()
            invariant
                index <= columns@.len(),
                cols == columns_view(columns@),
                cols.len() == columns@.len(),
                column_types@.len() == columns@.len(),
                flags@.len() == columns@.len(),
                offset <= payload@.len(),
                spec_row_values(payload@, 0, index as nat, cols, flags@) == Ok::<
                    (Seq<ValueView>, int),
                    Seq<char>,
                >((values_view(values@), offset as int)),
            decreases columns@.len() - index,
        {
            let ghost before = values_view(values@);
            let raw_value = match Self::read_lenenc_string_or_null(payload, &mut offset) {
                Ok(v) => v,
                Err(e) => {
                    proof {
                        lemma_row_values_err(
                            payload@,
                            0,
                            (index + 1) as nat,
                            columns@.len(),
                            cols,
                            flags@,
                        );
                    }
                    return Err(e);
                },
            };
            assert(cols[index as int] == columns@[index as int]@);
            let value = match Self::decode_value(
                raw_value,
                &columns[index].value_type,
                column_types[index],
                flags[index],
            ) {
                Ok(v) => v,
                Err(e) => {
                    proof {
                        lemma_row_values_err(
                            payload@,
                            0,
                            (index + 1) as nat,
                            columns@.len(),
                            cols,
                            flags@,
                        );
                    }
                    return Err(e);
                },
            };
            values.push(value);
            assert(values_view(values@) =~= before.push(value@));
            index = index + 1;
        }
        Ok(Row::from_values(values))
    }

    fn decode_value(raw: Option<&[u8]>, value_type: &ValueType, column_type: u8, flags: u16) -> (r:
        Result<Value, ParserError>)
        ensures
            match (
                r,
                spec_decode_value(
                    match raw {
                        Some(x) => Some(x@),
                        None => None,
                    },
                    *value_type,
                    flags,
                ),
            ) {
                (Ok(v), Ok(w)) => v@ == w,
                (Err(e), Err(m)) => e.message@ == m,
                _ => false,
            },
    {
        let raw = match raw {
            Some(raw) => raw,
            None => {
                return Ok(Value::Null);
            },
        };
        match value_type {
            ValueType::Int => Self::decode_integer(raw, column_type, flags),
            ValueType::UInt => Self::decode_unsigned_integer(raw, column_type),
            ValueType::Float => Self::decode_float(raw),
            ValueType::Bool => Self::decode_bool(raw),
            ValueType::String => Self::decode_string(raw),
            ValueType::Bytes => Ok(Value::Bytes(vstd::slice::slice_to_vec(raw))),
        }
    }

    fn decode_integer(raw: &[u8], column_type: u8, flags: u16) -> (r: Result<Value, ParserError>)
        ensures
            match (r, spec_decode_value(Some(raw@), ValueType::Int, flags)) {
                (Ok(v), Ok(w)) => v@ == w,
                (Err(e), Err(m)) => e.message@ == m,
                _ => false,
            },
    {
        if flags & UNSIGNED_FLAG != 0 {
            return Self::decode_unsigned_integer(raw, column_type);
        }
        if utf8_to_string(raw).is_none() {
            return Err(parser_error("Invalid MySQL integer"));
        }
        match parse_i64(raw) {
            Some(v) => Ok(Value::Int(v)),
            None => Err(parser_error("Invalid MySQL integer")),
        }
    }

    fn decode_unsigned_integer(raw: &[u8], _column_type: u8) -> (r: Result<Value, ParserError>)
        ensures
            match (r, spec_decode_unsigned(raw@)) {
                (Ok(v), Ok(w)) => v@ == w,
                (Err(e), Err(m)) => e.message@ == m,
                _ => false,
            },
    {
        if utf8_to_string(raw).is_none() {
            return Err(parser_error("Invalid MySQL unsigned integer"));
        }
        match parse_unsigned(raw, 0xffff_ffff_ffff_ffff) {
            Some(v) => Ok(Value::UInt(v)),
            None => Err(parser_error("Invalid MySQL unsigned integer")),
        }
    }

    fn decode_float(raw: &[u8]) -> (r: Result<Value, ParserError>)
        ensures
            match (r, spec_decode_value(Some(raw@), ValueType::Float, 0)) {
                (Ok(v), Ok(w)) => v@ == w,
                (Err(e), Err(m)) => e.message@ == m,
                _ => false,
            },
    {
        match utf8_to_string(raw) {
            None => Err(parser_error("Invalid MySQL float")),
            Some(text) => {
                if is_float_literal(raw) {
                    Ok(Value::Float(FloatValue::Text(text)))
                } else {
                    Err(parser_error("Invalid MySQL float"))
                }
            },
        }
    }

    fn decode_bool(raw: &[u8]) -> (r: Result<Value, ParserError>)
        ensures
            match (r, spec_decode_bool(raw@)) {
                (Ok(v), Ok(w)) => v@ == w,
                (Err(e), Err(m)) => e.message@ == m,
                _ => false,
            },
    {
        if raw.len() == 1 && raw[0] == 48 {
            assert(raw@ =~= seq![48u8]);
            return Ok(Value::Bool(false));
        }
        if raw.len() == 1 && raw[0] == 49 {
            assert(raw@ =~= seq![49u8]);
            return Ok(Value::Bool(true));
        }
        assert(raw@ != seq![48u8] && raw@ != seq![49u8]) by {
            if raw@.len() == 1 {
                assert(raw@[0] == seq![48u8][0] ==> raw@ == seq![48u8]);
                assert(raw@[0] == seq![49u8][0] ==> raw@ == seq![49u8]);
            }
        }
        if utf8_to_string(raw).is_none() {
            return Err(parser_error("Invalid MySQL boolean"));
        }
        match parse_unsigned(raw, 255) {
            Some(v) => {
                if v == 0 {
                    Ok(Value::Bool(false))
                } else if v == 1 {
                    Ok(Value::Bool(true))
                } else {
                    Err(parser_error("Invalid MySQL boolean"))
                }
            },
            None => Err(parser_error("Invalid MySQL boolean")),
        }
    }

    fn decode_string(raw: &[u8]) -> (r: Result<Value, ParserError>)
        ensures
            match (r, spec_decode_value(Some(raw@), ValueType::String, 0)) {
                (Ok(v), Ok(w)) => v@ == w,
                (Err(e), Err(m)) => e.message@ == m,
                _ => false,
            },
    {
        match utf8_to_string(raw) {
            None => Err(parser_error("Invalid UTF-8 MySQL string")),
            Some(text) => Ok(Value::String(text)),
        }
    }

    fn value_type_from_mysql_type(column_type: u8) -> (r: Result<ValueType, ParserError>)
        ensures
            match (r, spec_value_type_from_mysql_type(column_type)) {
                (Ok(t), Some(u)) => t == u,
                (Err(e), None) => e.message@ == "Unsupported MySQL column type: "@ + decimal_chars(
                    column_type as nat,
                ),
                _ => false,
            },
    {
        if column_type == MYSQL_TYPE_TINY || column_type == MYSQL_TYPE_SHORT || column_type
            == MYSQL_TYPE_LONG || column_type == MYSQL_TYPE_INT24 || column_type
            == MYSQL_TYPE_LONGLONG {
            Ok(ValueType::Int)
        } else if column_type == MYSQL_TYPE_FLOAT || column_type == MYSQL_TYPE_DOUBLE || column_type
            == MYSQL_TYPE_DECIMAL || column_type == MYSQL_TYPE_NEWDECIMAL {
            Ok(ValueType::Float)
        } else if column_type == MYSQL_TYPE_BIT {
            Ok(ValueType::Bool)
        } else if column_type == MYSQL_TYPE_VARCHAR || column_type == MYSQL_TYPE_VAR_STRING
            || column_type == MYSQL_TYPE_STRING || column_type == MYSQL_TYPE_DATE || column_type
            == MYSQL_TYPE_TIME || column_type == MYSQL_TYPE_DATETIME || column_type
            == MYSQL_TYPE_TIMESTAMP || column_type == MYSQL_TYPE_YEAR || column_type
            == MYSQL_TYPE_JSON {
            Ok(ValueType::String)
        } else if column_type == MYSQL_TYPE_BLOB {
            Ok(ValueType::Bytes)
        } else if column_type == MYSQL_TYPE_NULL {
            Ok(ValueType::String)
        } else {
            let mut s = owned("Unsupported MySQL column type: ");
            push_decimal(&mut s, column_type as u64);
            Err(ParserError::new(s))
        }
    }

    fn read_lenenc_int(payload: &[u8], offset: &mut usize) -> (r: Result<Option<u64>, ParserError>)
        requires
            *old(offset) <= payload@.len(),
        ensures
            match (r, spec_lenenc_int(payload@, *old(offset) as int)) {
                (Ok(v), Ok((w, next))) => v == w && *final(offset) == next,
                (Err(e), Err(m)) => e.message@ == m,
                _ => false,
            },
            *final(offset) <= payload@.len(),
    {
        let first = Self::read_u8(payload, offset)?;
        if first <= 0xfa {
            Ok(Some(first as u64))
        } else if first == 0xfb {
            Ok(None)
        } else if first == 0xfc {
            let value = Self::read_u16_le(payload, offset)?;
            Ok(Some(value as u64))
        } else if first == 0xfd {
            let bytes = Self::read_bytes(payload, offset, 3)?;
            let value = read_le_u24(bytes, 0);
            Ok(Some(value as u64))
        } else if first == 0xfe {
            let value = Self::read_u64_le(payload, offset)?;
            Ok(Some(value))
        } else {
            Err(parser_error("Invalid MySQL length-encoded integer"))
        }
    }

    fn read_lenenc_string(payload: &[u8], offset: &mut usize) -> (r: Result<String, ParserError>)
        requires
            *old(offset) <= payload@.len(),
        ensures
            match (r, spec_lenenc_string(payload@, *old(offset) as int)) {
                (Ok(s), Ok((v, next))) => s@ == v && *final(offset) == next,
                (Err(e), Err(m)) => e.message@ == m,
                _ => false,
            },
            *final(offset) <= payload@.len(),
    {
        let raw = Self::read_lenenc_bytes(payload, offset)?;
        match utf8_to_string(raw) {
            Some(value) => Ok(value),
            None => Err(parser_error("Invalid UTF-8 MySQL string")),
        }
    }

    fn read_lenenc_string_or_null<'a>(payload: &'a [u8], offset: &mut usize) -> (r: Result<
        Option<&'a [u8]>,
        ParserError,
    >)
        requires
            *old(offset) <= payload@.len(),
        ensures
            match (r, spec_lenenc_or_null(payload@, *old(offset) as int)) {
                (Ok(None), Ok((None, next))) => *final(offset) == next,
                (Ok(Some(v)), Ok((Some(w), next))) => v@ == w && *final(offset) == next,
                (Err(e), Err(m)) => e.message@ == m,
                _ => false,
            },
            *final(offset) <= payload@.len(),
    {
        let length = Self::read_lenenc_int(payload, offset)?;
        let length = match length {
            Some(l) => l,
            None => {
                return Ok(None);
            },
        };
        if length as u128 > usize::MAX as u128 {
            return Err(parser_error("MySQL value length exceeds usize"));
        }
        let value = Self::read_bytes(payload, offset, length as usize)?;
        Ok(Some(value))
    }

    fn read_lenenc_bytes<'a>(payload: &'a [u8], offset: &mut usize) -> (r: Result<
        &'a [u8],
        ParserError,
    >)
        requires
            *old(offset) <= payload@.len(),
        ensures
            match (r, spec_lenenc_bytes(payload@, *old(offset) as int)) {
                (Ok(v), Ok((w, next))) => v@ == w && *final(offset) == next,
                (Err(e), Err(m)) => e.message@ == m,
                _ => false,
            },
            *final(offset) <= payload@.len(),
    {
        let length = Self::read_lenenc_int(payload, offset)?;
        let length = match length {
            Some(l) => l,
            None => {
                return Err(parser_error("Unexpected NULL length-encoded string"));
            },
        };
        if length as u128 > usize::MAX as u128 {
            return Err(parser_error("MySQL string length exceeds usize"));
        }
        Self::read_bytes(payload, offset, length as usize)
    }

    fn read_u8(payload: &[u8], offset: &mut usize) -> (r: Result<u8, ParserError>)
        requires
            *old(offset) <= payload@.len(),
        ensures
            *old(offset) >= payload@.len() ==> (r matches Err(e) && e.message@ == msg_end()
                && *final(offset) == *old(offset)),
            *old(offset) < payload@.len() ==> r == Ok::<u8, ParserError>(
                payload@[*old(offset) as int],
            ) && *final(offset) == *old(offset) + 1,
    {
        if *offset >= payload.len() {
            return Err(parser_error("Unexpected end of MySQL payload"));
        }
        let value = payload[*offset];
        *offset += 1;
        Ok(value)
    }

    fn read_u16_le(payload: &[u8], offset: &mut usize) -> (r: Result<u16, ParserError>)
        requires
            *old(offset) <= payload@.len(),
        ensures
            *old(offset) + 2 > payload@.len() ==> (r matches Err(e) && e.message@ == msg_end()
                && *final(offset) == *old(offset)),
            *old(offset) + 2 <= payload@.len() ==> r == Ok::<u16, ParserError>(
                le2(payload@, *old(offset) as int) as u16,
            ) && *final(offset) == *old(offset) + 2,
    {
        let bytes = Self::read_bytes(payload, offset, 2)?;
        Ok(read_le_u16(bytes, 0))
    }

    fn read_u32_le(payload: &[u8], offset: &mut usize) -> (r: Result<u32, ParserError>)
        requires
            *old(offset) <= payload@.len(),
        ensures
            *old(offset) + 4 > payload@.len() ==> (r matches Err(e) && e.message@ == msg_end()
                && *final(offset) == *old(offset)),
            *old(offset) + 4 <= payload@.len() ==> r == Ok::<u32, ParserError>(
                le4(payload@, *old(offset) as int) as u32,
            ) && *final(offset) == *old(offset) + 4,
    {
        let bytes = Self::read_bytes(payload, offset, 4)?;
        Ok(read_le_u32(bytes, 0))
    }

    fn read_u64_le(payload: &[u8], offset: &mut usize) -> (r: Result<u64, ParserError>)
        requires
            *old(offset) <= payload@.len(),
        ensures
            *old(offset) + 8 > payload@.len() ==> (r matches Err(e) && e.message@ == msg_end()
                && *final(offset) == *old(offset)),
            *old(offset) + 8 <= payload@.len() ==> r == Ok::<u64, ParserError>(
                le8(payload@, *old(offset) as int) as u64,
            ) && *final(offset) == *old(offset) + 8,
    {
        let bytes = Self::read_bytes(payload, offset, 8)?;
        Ok(read_le_u64(bytes, 0))
    }

    fn read_bytes<'a>(payload: &'a [u8], offset: &mut usize, length: usize) -> (r: Result<
        &'a [u8],
        ParserError,
    >)
        requires
            *old(offset) <= payload@.len(),
        ensures
            match (r, spec_bytes(payload@, *old(offset) as int, length as int)) {
                (Ok(v), Ok((w, next))) => v@ == w && *final(offset) == next,
                (Err(e), Err(m)) => e.message@ == m && *final(offset) == *old(offset),
                _ => false,
            },
            *final(offset) <= payload@.len(),
    {
        if length > payload.len() - *offset {
            return Err(parser_error("Unexpected end of MySQL payload"));
        }
        let value = &payload[*offset..*offset + length];
        *offset += length;
        Ok(value)
    }
}

} // verus!
