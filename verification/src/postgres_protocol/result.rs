//! Decoding of PostgreSQL `RowDescription` and `DataRow` messages into typed
//! columns and rows.
use vstd::prelude::*;
use vstd::utf8::*;

use crate::error::DbError;
use crate::numeric::{
    is_float_literal,
    is_float_text,
    law_parse_i64_of_decimal,
    parse_i64,
    spec_parse_i64,
};
use crate::table::{
    Column,
    ColumnView,
    FloatValue,
    FloatView,
    Row,
    Value,
    ValueType,
    ValueView,
    columns_view,
    signed_decimal,
    values_view,
};
use crate::text::{decimal_chars, owned, push_decimal, push_str, utf8_to_string};
use crate::wire::{
    be2,
    be4,
    be8,
    find_nul,
    lemma_nul_index,
    nul_index,
    read_be_u16,
    read_be_u32,
    read_be_u64,
    signed16,
    signed32,
    signed64,
    to_i16,
    to_i32,
    to_i64,
};

verus! {

/// Column descriptions, type OIDs and format codes of a `RowDescription`.
pub type RowDescription = (Vec<Column>, Vec<u32>, Vec<i16>);

pub struct ResultParser {}

/// Error produced while decoding a result message.
#[derive(Debug)]
pub struct ParserError {
    pub message: String,
}

impl ParserError {
    pub fn new(message: String) -> (r: Self)
        ensures
            r.message == message,
    {
        Self { message }
    }
}

impl From<ParserError> for DbError {
    fn from(error: ParserError) -> (r: DbError) {
        DbError::new(error.message)
    }
}

impl vstd::std_specs::convert::FromSpecImpl<ParserError> for DbError {
    open spec fn obeys_from_spec() -> bool {
        true
    }

    open spec fn from_spec(v: ParserError) -> DbError {
        DbError { message: v.message }
    }
}

pub open spec fn msg_end_of_payload() -> Seq<char> {
    "Unexpected end of payload"@
}

/// The value type that a PostgreSQL type OID maps to.
pub open spec fn spec_value_type_from_oid(oid: u32) -> Option<ValueType> {
    if oid == 16 {
        Some(ValueType::Bool)
    } else if oid == 20 || oid == 21 || oid == 23 {
        Some(ValueType::Int)
    } else if oid == 700 || oid == 701 || oid == 1700 {
        Some(ValueType::Float)
    } else if oid == 25 || oid == 1043 {
        Some(ValueType::String)
    } else {
        None
    }
}

/// A NUL-terminated UTF-8 string at `start` and the offset past its NUL.
pub open spec fn spec_read_string(p: Seq<u8>, start: int) -> Result<(Seq<char>, int), Seq<char>> {
    match nul_index(p, start) {
        None => Err("Missing null terminator"@),
        Some(z) => if valid_utf8(p.subrange(start, z)) {
            Ok((decode_utf8(p.subrange(start, z)), z + 1))
        } else {
            Err("Invalid UTF-8 string"@)
        },
    }
}

/// One field of a `RowDescription`: name, table OID (u32), attribute number
/// (i16), type OID (u32), type size (i16), type modifier (i32), format code
/// (i16), all big-endian.
pub open spec fn spec_field(p: Seq<u8>, off: int) -> Result<
    (ColumnView, u32, i16, int),
    Seq<char>,
> {
    match spec_read_string(p, off) {
        Err(m) => Err(m),
        Ok((name, o)) => if o + 18 > p.len() {
            Err(msg_end_of_payload())
        } else {
            let oid = be4(p, o + 6) as u32;
            match spec_value_type_from_oid(oid) {
                None => Err("Unsupported PostgreSQL type OID: "@ + decimal_chars(oid as nat)),
                Some(t) => Ok(
                    (
                        ColumnView { name, value_type: t },
                        oid,
                        signed16(be2(p, o + 16)) as i16,
                        o + 18,
                    ),
                ),
            }
        },
    }
}

/// The first `k` fields starting at `off`.
pub open spec fn spec_fields(p: Seq<u8>, off: int, k: nat) -> Result<
    (Seq<ColumnView>, Seq<u32>, Seq<i16>, int),
    Seq<char>,
>
    decreases k,
{
    if k == 0 {
        Ok((seq![], seq![], seq![], off))
    } else {
        match spec_fields(p, off, (k - 1) as nat) {
            Err(m) => Err(m),
            Ok((cs, ts, fs, o)) => match spec_field(p, o) {
                Err(m) => Err(m),
                Ok((c, t, f, o2)) => Ok((cs.push(c), ts.push(t), fs.push(f), o2)),
            },
        }
    }
}

/// A `RowDescription` payload: a field count (i16) and that many fields.
pub open spec fn spec_row_description(p: Seq<u8>) -> Result<
    (Seq<ColumnView>, Seq<u32>, Seq<i16>),
    Seq<char>,
> {
    if p.len() < 2 {
        Err("Invalid RowDescription payload"@)
    } else if signed16(be2(p, 0)) < 0 {
        Err("Invalid number of fields"@)
    } else {
        match spec_fields(p, 2, signed16(be2(p, 0)) as nat) {
            Err(m) => Err(m),
            Ok((cs, ts, fs, _)) => Ok((cs, ts, fs)),
        }
    }
}

/// One `DataRow` value: a length (i32), `-1` for NULL, then the bytes.
pub open spec fn spec_read_value(p: Seq<u8>, off: int) -> Result<(Option<Seq<u8>>, int), Seq<char>> {
    if off + 4 > p.len() {
        Err(msg_end_of_payload())
    } else {
        let l = signed32(be4(p, off));
        let o = off + 4;
        if l == -1 {
            Ok((None, o))
        } else if l < 0 {
            Err("Invalid DataRow value length"@)
        } else if o + l > p.len() {
            Err("Unexpected end of DataRow payload"@)
        } else {
            Ok((Some(p.subrange(o, o + l)), o + l))
        }
    }
}

/// A value in text format.
pub open spec fn spec_decode_text(raw: Seq<u8>, t: ValueType) -> Result<ValueView, Seq<char>> {
    match t {
        ValueType::Bool => if raw == seq![116u8] {
            Ok(ValueView::Bool(true))
        } else if raw == seq![102u8] {
            Ok(ValueView::Bool(false))
        } else {
            Err("Invalid PostgreSQL boolean"@)
        },
        ValueType::Int => if !valid_utf8(raw) {
            Err("Invalid UTF-8 integer"@)
        } else {
            match spec_parse_i64(raw) {
                None => Err("Invalid PostgreSQL integer"@),
                Some(v) => Ok(ValueView::Int(v as i64)),
            }
        },
        ValueType::Float => if !valid_utf8(raw) {
            Err("Invalid UTF-8 float"@)
        } else if !is_float_text(raw) {
            Err("Invalid PostgreSQL float"@)
        } else {
            Ok(ValueView::Float(FloatView::Text(decode_utf8(raw))))
        },
        ValueType::String => if !valid_utf8(raw) {
            Err("Invalid UTF-8 string"@)
        } else {
            Ok(ValueView::String(decode_utf8(raw)))
        },
        _ => Err("Unsupported PostgreSQL text type"@),
    }
}

/// A value in binary format.
pub open spec fn spec_decode_binary(raw: Seq<u8>, t: ValueType, oid: u32) -> Result<
    ValueView,
    Seq<char>,
> {
    match t {
        ValueType::Bool => if raw.len() != 1 {
            Err("Invalid PostgreSQL boolean"@)
        } else if raw[0] == 0 {
            Ok(ValueView::Bool(false))
        } else if raw[0] == 1 {
            Ok(ValueView::Bool(true))
        } else {
            Err("Invalid PostgreSQL boolean"@)
        },
        ValueType::Int => if oid == 21 {
            if raw.len() != 2 {
                Err("Invalid int2 value"@)
            } else {
                Ok(ValueView::Int(signed16(be2(raw, 0)) as i64))
            }
        } else if oid == 23 {
            if raw.len() != 4 {
                Err("Invalid int4 value"@)
            } else {
                Ok(ValueView::Int(signed32(be4(raw, 0)) as i64))
            }
        } else if oid == 20 {
            if raw.len() != 8 {
                Err("Invalid int8 value"@)
            } else {
                Ok(ValueView::Int(signed64(be8(raw, 0)) as i64))
            }
        } else {
            Err("Unsupported PostgreSQL integer OID: "@ + decimal_chars(oid as nat))
        },
        ValueType::Float => if oid == 700 {
            if raw.len() != 4 {
                Err("Invalid float4 value"@)
            } else {
                Ok(ValueView::Float(FloatView::Single(be4(raw, 0) as u32)))
            }
        } else if oid == 701 {
            if raw.len() != 8 {
                Err("Invalid float8 value"@)
            } else {
                Ok(ValueView::Float(FloatView::Double(be8(raw, 0) as u64)))
            }
        } else {
            Err("Unsupported PostgreSQL float OID: "@ + decimal_chars(oid as nat))
        },
        ValueType::String => if !valid_utf8(raw) {
            Err("Invalid UTF-8 string"@)
        } else {
            Ok(ValueView::String(decode_utf8(raw)))
        },
        _ => Err("Unsupported PostgreSQL binary type"@),
    }
}

/// A value in the given format (0 text, 1 binary); NULL stays NULL.
pub open spec fn spec_decode_value(raw: Option<Seq<u8>>, t: ValueType, oid: u32, fmt: i16) -> Result<
    ValueView,
    Seq<char>,
> {
    match raw {
        None => Ok(ValueView::Null),
        Some(r) => if fmt == 0 {
            spec_decode_text(r, t)
        } else if fmt == 1 {
            spec_decode_binary(r, t, oid)
        } else {
            Err("Unsupported PostgreSQL format code"@)
        },
    }
}

/// The first `k` values of a `DataRow` starting at `off`.
pub open spec fn spec_values(
    p: Seq<u8>,
    off: int,
    k: nat,
    cols: Seq<ColumnView>,
    oids: Seq<u32>,
    fmts: Seq<i16>,
) -> Result<(Seq<ValueView>, int), Seq<char>>
    decreases k,
{
    if k == 0 {
        Ok((seq![], off))
    } else {
        match spec_values(p, off, (k - 1) as nat, cols, oids, fmts) {
            Err(m) => Err(m),
            Ok((vs, o)) => match spec_read_value(p, o) {
                Err(m) => Err(m),
                Ok((raw, o2)) => match spec_decode_value(
                    raw,
                    cols[k - 1].value_type,
                    oids[k - 1],
                    fmts[k - 1],
                ) {
                    Err(m) => Err(m),
                    Ok(v) => Ok((vs.push(v), o2)),
                },
            },
        }
    }
}

/// A `DataRow` payload: a column count (i16) that must match the row
/// description, then one value per column.
pub open spec fn spec_data_row(
    p: Seq<u8>,
    cols: Seq<ColumnView>,
    oids: Seq<u32>,
    fmts: Seq<i16>,
) -> Result<Seq<ValueView>, Seq<char>> {
    if p.len() < 2 {
        Err("Invalid DataRow payload"@)
    } else if signed16(be2(p, 0)) < 0 {
        Err("Invalid number of columns"@)
    } else if signed16(be2(p, 0)) != cols.len() {
        Err("DataRow columns mismatch"@)
    } else if fmts.len() != cols.len() {
        Err("Format codes mismatch"@)
    } else if oids.len() != cols.len() {
        Err("Type OIDs mismatch"@)
    } else {
        match spec_values(p, 2, cols.len(), cols, oids, fmts) {
            Err(m) => Err(m),
            Ok((vs, _)) => Ok(vs),
        }
    }
}

/// A data row that decodes has exactly one value per column.
pub proof fn lemma_data_row_len(p: Seq<u8>, cols: Seq<ColumnView>, oids: Seq<u32>, fmts: Seq<i16>)
    ensures
        spec_data_row(p, cols, oids, fmts) matches Ok(vs) ==> vs.len() == cols.len(),
{
    lemma_values_len(p, 2, cols.len(), cols, oids, fmts);
}

proof fn lemma_values_len(
    p: Seq<u8>,
    off: int,
    k: nat,
    cols: Seq<ColumnView>,
    oids: Seq<u32>,
    fmts: Seq<i16>,
)
    ensures
        spec_values(p, off, k, cols, oids, fmts) matches Ok((vs, _)) ==> vs.len() == k,
    decreases k,
{
    if k > 0 {
        lemma_values_len(p, off, (k - 1) as nat, cols, oids, fmts);
    }
}

/// Which value type each supported type OID is read as: `bool` (16) as a
/// boolean; `int8` (20), `int2` (21) and `int4` (23) as integers; `float4`
/// (700), `float8` (701) and `numeric` (1700) as floating-point numbers;
/// `text` (25) and `varchar` (1043) as text; no other OID is supported.
pub proof fn law_oid_table(oid: u32)
    ensures
        spec_value_type_from_oid(16) == Some(ValueType::Bool),
        spec_value_type_from_oid(20) == Some(ValueType::Int),
        spec_value_type_from_oid(21) == Some(ValueType::Int),
        spec_value_type_from_oid(23) == Some(ValueType::Int),
        spec_value_type_from_oid(700) == Some(ValueType::Float),
        spec_value_type_from_oid(701) == Some(ValueType::Float),
        spec_value_type_from_oid(1700) == Some(ValueType::Float),
        spec_value_type_from_oid(25) == Some(ValueType::String),
        spec_value_type_from_oid(1043) == Some(ValueType::String),
        spec_value_type_from_oid(oid) is Some ==> oid == 16 || oid == 20 || oid == 21 || oid == 23
            || oid == 700 || oid == 701 || oid == 1700 || oid == 25 || oid == 1043,
{
}

/// An integer column in text format reads the decimal text of any 64-bit
/// integer, negative ones included, as that integer, whatever the column's
/// integer type.
pub proof fn law_text_integer(v: i64, oid: u32)
    ensures
        spec_decode_text(encode_utf8(signed_decimal(v as int)), ValueType::Int) == Ok::<
            ValueView,
            Seq<char>,
        >(ValueView::Int(v)),
        spec_decode_value(Some(encode_utf8(signed_decimal(v as int))), ValueType::Int, oid, 0)
            == Ok::<ValueView, Seq<char>>(ValueView::Int(v)),
{
    law_parse_i64_of_decimal(v);
}

proof fn lemma_fields_err(p: Seq<u8>, off: int, k: nat, k2: nat)
    requires
        k <= k2,
        spec_fields(p, off, k) is Err,
    ensures
        spec_fields(p, off, k2) == spec_fields(p, off, k),
    decreases k2 - k,
{
    if k < k2 {
        lemma_fields_err(p, off, k, (k2 - 1) as nat);
    }
}

proof fn lemma_values_err(
    p: Seq<u8>,
    off: int,
    k: nat,
    k2: nat,
    cols: Seq<ColumnView>,
    oids: Seq<u32>,
    fmts: Seq<i16>,
)
    requires
        k <= k2,
        spec_values(p, off, k, cols, oids, fmts) is Err,
    ensures
        spec_values(p, off, k2, cols, oids, fmts) == spec_values(p, off, k, cols, oids, fmts),
    decreases k2 - k,
{
    if k < k2 {
        lemma_values_err(p, off, k, (k2 - 1) as nat, cols, oids, fmts);
    }
}

fn parser_error(message: &str) -> (r: ParserError)
    ensures
        r.message@ == message@,
{
    ParserError::new(owned(message))
}

fn oid_error(prefix: &str, oid: u32) -> (r: ParserError)
    ensures
        r.message@ == prefix@ + decimal_chars(oid as nat),
{
    let mut s = owned(prefix);
    push_decimal(&mut s, oid as u64);
    ParserError::new(s)
}

impl ResultParser {
    /// Parses a `RowDescription` payload into columns, type OIDs and format
    /// codes.
    pub fn parse_row_description(payload: &[u8]) -> (r: Result<RowDescription, ParserError>)
        ensures
            match (r, spec_row_description(payload@)) {
                (Ok((c, t, f)), Ok((cv, tv, fv))) => columns_view(c@) == cv && t@ == tv && f@
                    == fv,
                (Err(e), Err(m)) => e.message@ == m,
                _ => false,
            },
    {
        if payload.len() < 2 {
            return Err(parser_error("Invalid RowDescription payload"));
        }
        let mut offset: usize = 0;
        let number_of_fields = Self::read_i16(payload, &mut offset)?;
        if number_of_fields < 0 {
            return Err(parser_error("Invalid number of fields"));
        }
        let n = number_of_fields as usize;
        let mut columns: Vec<Column> = Vec::new();
        let mut type_oids: Vec<u32> = Vec::new();
        let mut format_codes: Vec<i16> = Vec::new();
        let mut i: usize = 0;
        assert(columns_view(columns@) =~= seq![]);
        assert(type_oids@ =~= seq![]);
        assert(format_codes@ =~= seq![]);
        while i < n
            invariant
                i <= n,
                n == signed16(be2(payload@, 0)),
                offset <= payload@.len(),
                spec_fields(payload@, 2, i as nat) == Ok::<
                    (Seq<ColumnView>, Seq<u32>, Seq<i16>, int),
                    Seq<char>,
                >((columns_view(columns@), type_oids@, format_codes@, offset as int)),
            decreases n - i,
        {
            let ghost before = (columns_view(columns@), type_oids@, format_codes@);
            let name = match Self::read_string(payload, &mut offset) {
                Ok(name) => name,
                Err(e) => {
                    proof {
                        lemma_fields_err(payload@, 2, (i + 1) as nat, n as nat);
                    }
                    return Err(e);
                },
            };
            let ghost o = offset;
            if payload.len() < 18 || offset > payload.len() - 18 {
                proof {
                    lemma_fields_err(payload@, 2, (i + 1) as nat, n as nat);
                }
                return Err(parser_error("Unexpected end of payload"));
            }
            let _table_oid = Self::read_u32(payload, &mut offset)?;
            let _attribute_number = Self::read_i16(payload, &mut offset)?;
            let type_oid = Self::read_u32(payload, &mut offset)?;
            let _type_size = Self::read_i16(payload, &mut offset)?;
            let _type_modifier = Self::read_i32(payload, &mut offset)?;
            let format_code = Self::read_i16(payload, &mut offset)?;
            let value_type = match Self::value_type_from_oid(type_oid) {
                Ok(t) => t,
                Err(e) => {
                    proof {
                        lemma_fields_err(payload@, 2, (i + 1) as nat, n as nat);
                    }
                    return Err(e);
                },
            };
            let column = Column { name, value_type };
            columns.push(column);
            type_oids.push(type_oid);
            format_codes.push(format_code);
            proof {
                assert(columns_view(columns@) =~= before.0.push(column@));
                assert(type_oids@ =~= before.1.push(type_oid));
                assert(format_codes@ =~= before.2.push(format_code));
            }
            i = i + 1;
        }
        Ok((columns, type_oids, format_codes))
    }

    fn read_string(payload: &[u8], offset: &mut usize) -> (r: Result<String, ParserError>)
        requires
            *old(offset) <= payload@.len(),
        ensures
            match (r, spec_read_string(payload@, *old(offset) as int)) {
                (Ok(s), Ok((v, next))) => s@ == v && *final(offset) == next,
                (Err(e), Err(m)) => e.message@ == m,
                _ => false,
            },
            *final(offset) <= payload@.len(),
    {
        let start = *offset;
        let _len = payload.len();
        proof {
            lemma_nul_index(payload@, start as int);
        }
        match find_nul(payload, start) {
            Some(z) => {
                match utf8_to_string(&payload[start..z]) {
                    Some(value) => {
                        *offset = z + 1;
                        Ok(value)
                    },
                    None => Err(parser_error("Invalid UTF-8 string")),
                }
            },
            None => Err(parser_error("Missing null terminator")),
        }
    }

    fn read_u32(payload: &[u8], offset: &mut usize) -> (r: Result<u32, ParserError>)
        requires
            *old(offset) <= payload@.len(),
        ensures
            *old(offset) + 4 > payload@.len() ==> (r matches Err(e) && e.message@
                == msg_end_of_payload() && *final(offset) == *old(offset)),
            *old(offset) + 4 <= payload@.len() ==> r == Ok::<u32, ParserError>(
                be4(payload@, *old(offset) as int) as u32,
            ) && *final(offset) == *old(offset) + 4,
    {
        if payload.len() < 4 || *offset > payload.len() - 4 {
            return Err(parser_error("Unexpected end of payload"));
        }
        let value = read_be_u32(payload, *offset);
        *offset += 4;
        Ok(value)
    }

    fn read_i16(payload: &[u8], offset: &mut usize) -> (r: Result<i16, ParserError>)
        requires
            *old(offset) <= payload@.len(),
        ensures
            *old(offset) + 2 > payload@.len() ==> (r matches Err(e) && e.message@
                == msg_end_of_payload() && *final(offset) == *old(offset)),
            *old(offset) + 2 <= payload@.len() ==> r == Ok::<i16, ParserError>(
                signed16(be2(payload@, *old(offset) as int)) as i16,
            ) && *final(offset) == *old(offset) + 2,
    {
        if payload.len() < 2 || *offset > payload.len() - 2 {
            return Err(parser_error("Unexpected end of payload"));
        }
        let value = to_i16(read_be_u16(payload, *offset));
        *offset += 2;
        Ok(value)
    }

    fn read_i32(payload: &[u8], offset: &mut usize) -> (r: Result<i32, ParserError>)
        requires
            *old(offset) <= payload@.len(),
        ensures
            *old(offset) + 4 > payload@.len() ==> (r matches Err(e) && e.message@
                == msg_end_of_payload() && *final(offset) == *old(offset)),
            *old(offset) + 4 <= payload@.len() ==> r == Ok::<i32, ParserError>(
                signed32(be4(payload@, *old(offset) as int)) as i32,
            ) && *final(offset) == *old(offset) + 4,
    {
        if payload.len() < 4 || *offset > payload.len() - 4 {
            return Err(parser_error("Unexpected end of payload"));
        }
        let value = to_i32(read_be_u32(payload, *offset));
        *offset += 4;
        Ok(value)
    }

    fn value_type_from_oid(type_oid: u32) -> (r: Result<ValueType, ParserError>)
        ensures
            match (r, spec_value_type_from_oid(type_oid)) {
                (Ok(t), Some(u)) => t == u,
                (Err(e), None) => e.message@ == "Unsupported PostgreSQL type OID: "@
                    + decimal_chars(type_oid as nat),
                _ => false,
            },
    {
        match type_oid {
            16 => Ok(ValueType::Bool),
            20 => Ok(ValueType::Int),
            21 => Ok(ValueType::Int),
            23 => Ok(ValueType::Int),
            700 => Ok(ValueType::Float),
            701 => Ok(ValueType::Float),
            25 => Ok(ValueType::String),
            1043 => Ok(ValueType::String),
            1700 => Ok(ValueType::Float),
            _ => Err(oid_error("Unsupported PostgreSQL type OID: ", type_oid)),
        }
    }

    fn read_value<'a>(payload: &'a [u8], offset: &mut usize) -> (r: Result<
        Option<&'a [u8]>,
        ParserError,
    >)
        requires
            *old(offset) <= payload@.len(),
        ensures
            match (r, spec_read_value(payload@, *old(offset) as int)) {
                (Ok(None), Ok((None, next))) => *final(offset) == next,
                (Ok(Some(v)), Ok((Some(w), next))) => v@ == w && *final(offset) == next,
                (Err(e), Err(m)) => e.message@ == m,
                _ => false,
            },
            *final(offset) <= payload@.len(),
    {
        let length = Self::read_i32(payload, offset)?;
        if length == -1 {
            return Ok(None);
        }
        if length < 0 {
            return Err(parser_error("Invalid DataRow value length"));
        }
        let length = length as usize;
        if *offset > payload.len() || length > payload.len() - *offset {
            return Err(parser_error("Unexpected end of DataRow payload"));
        }
        let value = &payload[*offset..*offset + length];
        *offset += length;
        Ok(Some(value))
    }

    /// Decodes a `DataRow` payload with the given row description.
    pub fn parse_data_row(
        payload: &[u8],
        columns: &[Column],
        type_oids: &[u32],
        format_codes: &[i16],
    ) -> (r: Result<Row, ParserError>)
        ensures
            match (
                r,
                spec_data_row(payload@, columns_view(columns@), type_oids@, format_codes@),
            ) {
                (Ok(row), Ok(vs)) => row@ == vs,
                (Err(e), Err(m)) => e.message@ == m,
                _ => false,
            },
    {
        if payload.len() < 2 {
            return Err(parser_error("Invalid DataRow payload"));
        }
        let mut offset: usize = 0;
        let number_of_columns = Self::read_i16(payload, &mut offset)?;
        if number_of_columns < 0 {
            return Err(parser_error("Invalid number of columns"));
        }
        if number_of_columns as usize != columns.len() {
            return Err(parser_error("DataRow columns mismatch"));
        }
        if format_codes.len() != columns.len() {
            return Err(parser_error("Format codes mismatch"));
        }
        if type_oids.len() != columns.len() {
            return Err(parser_error("Type OIDs mismatch"));
        }
        let ghost cols = columns_view(columns@);
        let mut values: Vec<Value> = Vec::new();
        let mut index: usize = 0;
        assert(values_view(values@) =~= seq![]);
        assert(cols.len() == columns@.len());
        while index < columns.len()
            invariant
                index <= columns@.len(),
                cols == columns_view(columns@),
                cols.len() == columns@.len(),
                payload@.len() >= 2,
                signed16(be2(payload@, 0)) == columns@.len(),
                type_oids@.len() == columns@.len(),
                format_codes@.len() == columns@.len(),
                offset <= payload@.len(),
                spec_values(payload@, 2, index as nat, cols, type_oids@, format_codes@) == Ok::<
                    (Seq<ValueView>, int),
                    Seq<char>,
                >((values_view(values@), offset as int)),
            decreases columns@.len() - index,
        {
            let ghost before = values_view(values@);
            let raw_value = match Self::read_value(payload, &mut offset) {
                Ok(v) => v,
                Err(e) => {
                    proof {
                        lemma_values_err(
                            payload@,
                            2,
                            (index + 1) as nat,
                            columns@.len(),
                            cols,
                            type_oids@,
                            format_codes@,
                        );
                    }
                    return Err(e);
                },
            };
            assert(cols[index as int] == columns@[index as int]@);
            let value = match Self::decode_value(
                raw_value,
                &columns[index].value_type,
                type_oids[index],
                format_codes[index],
            ) {
                Ok(v) => v,
                Err(e) => {
                    proof {
                        lemma_values_err(
                            payload@,
                            2,
                            (index + 1) as nat,
                            columns@.len(),
                            cols,
                            type_oids@,
                            format_codes@,
                        );
                    }
                    return Err(e);
                },
            };
            values.push(value);
            assert(values_view(values@) =~= before.push(value@));
            index = index + 1;
        }
        Ok(Row::from_values(values))
    }

    fn decode_value(raw: Option<&[u8]>, value_type: &ValueType, type_oid: u32, format_code: i16) -> (r:
        Result<Value, ParserError>)
        ensures
            match (
                r,
                spec_decode_value(
                    match raw {
                        Some(x) => Some(x@),
                        None => None,
                    },
                    *value_type,
                    type_oid,
                    format_code,
                ),
            ) {
                (Ok(v), Ok(w)) => v@ == w,
                (Err(e), Err(m)) => e.message@ == m,
                _ => false,
            },
    {
        let raw = match raw {
            Some(raw) => raw,
            None => {
                return Ok(Value::Null);
            },
        };
        match format_code {
            0 => Self::decode_text_value(raw, value_type),
            1 => Self::decode_binary_value(raw, value_type, type_oid),
            _ => Err(parser_error("Unsupported PostgreSQL format code")),
        }
    }

    fn decode_text_value(raw: &[u8], value_type: &ValueType) -> (r: Result<Value, ParserError>)
        ensures
            match (r, spec_decode_text(raw@, *value_type)) {
                (Ok(v), Ok(w)) => v@ == w,
                (Err(e), Err(m)) => e.message@ == m,
                _ => false,
            },
    {
        match value_type {
            ValueType::Bool => {
                if raw.len() == 1 && raw[0] == 116 {
                    assert(raw@ =~= seq![116u8]);
                    Ok(Value::Bool(true))
                } else if raw.len() == 1 && raw[0] == 102 {
                    assert(raw@ =~= seq![102u8]);
                    Ok(Value::Bool(false))
                } else {
                    assert(raw@ != seq![116u8] && raw@ != seq![102u8]) by {
                        if raw@.len() == 1 {
                            assert(raw@[0] == seq![116u8][0] ==> raw@ == seq![116u8]);
                        }
                    }
                    Err(parser_error("Invalid PostgreSQL boolean"))
                }
            },
            ValueType::Int => {
                if utf8_to_string(raw).is_none() {
                    return Err(parser_error("Invalid UTF-8 integer"));
                }
                match parse_i64(raw) {
                    Some(v) => Ok(Value::Int(v)),
                    None => Err(parser_error("Invalid PostgreSQL integer")),
                }
            },
            ValueType::Float => {
                match utf8_to_string(raw) {
                    None => Err(parser_error("Invalid UTF-8 float")),
                    Some(text) => {
                        if is_float_literal(raw) {
                            Ok(Value::Float(FloatValue::Text(text)))
                        } else {
                            Err(parser_error("Invalid PostgreSQL float"))
                        }
                    },
                }
            },
            ValueType::String => {
                match utf8_to_string(raw) {
                    None => Err(parser_error("Invalid UTF-8 string")),
                    Some(text) => Ok(Value::String(text)),
                }
            },
            _ => Err(parser_error("Unsupported PostgreSQL text type")),
        }
    }

    fn decode_binary_value(raw: &[u8], value_type: &ValueType, type_oid: u32) -> (r: Result<
        Value,
        ParserError,
    >)
        ensures
            match (r, spec_decode_binary(raw@, *value_type, type_oid)) {
                (Ok(v), Ok(w)) => v@ == w,
                (Err(e), Err(m)) => e.message@ == m,
                _ => false,
            },
    {
        match value_type {
            ValueType::Bool => {
                if raw.len() != 1 {
                    return Err(parser_error("Invalid PostgreSQL boolean"));
                }
                match raw[0] {
                    0 => Ok(Value::Bool(false)),
                    1 => Ok(Value::Bool(true)),
                    _ => Err(parser_error("Invalid PostgreSQL boolean")),
                }
            },
            ValueType::Int => match type_oid {
                21 => {
                    if raw.len() != 2 {
                        return Err(parser_error("Invalid int2 value"));
                    }
                    let value = to_i16(read_be_u16(raw, 0));
                    Ok(Value::Int(value as i64))
                },
                23 => {
                    if raw.len() != 4 {
                        return Err(parser_error("Invalid int4 value"));
                    }
                    let value = to_i32(read_be_u32(raw, 0));
                    Ok(Value::Int(value as i64))
                },
                20 => {
                    if raw.len() != 8 {
                        return Err(parser_error("Invalid int8 value"));
                    }
                    let value = to_i64(read_be_u64(raw, 0));
                    Ok(Value::Int(value))
                },
                _ => Err(oid_error("Unsupported PostgreSQL integer OID: ", type_oid)),
            },
            ValueType::Float => match type_oid {
                700 => {
                    if raw.len() != 4 {
                        return Err(parser_error("Invalid float4 value"));
                    }
                    Ok(Value::Float(FloatValue::Single(read_be_u32(raw, 0))))
                },
                701 => {
                    if raw.len() != 8 {
                        return Err(parser_error("Invalid float8 value"));
                    }
                    Ok(Value::Float(FloatValue::Double(read_be_u64(raw, 0))))
                },
                _ => Err(oid_error("Unsupported PostgreSQL float OID: ", type_oid)),
            },
            ValueType::String => {
                match utf8_to_string(raw) {
                    None => Err(parser_error("Invalid UTF-8 string")),
                    Some(text) => Ok(Value::String(text)),
                }
            },
            _ => Err(parser_error("Unsupported PostgreSQL binary type")),
        }
    }
}

} // verus!
