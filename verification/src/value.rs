//! Coercion of the values of a MySQL row into values that SQLite stores.
//!
//! Known limits: a byte string that is not valid UTF-8 cannot be stored and is
//! an error; an unsigned integer above the signed 64-bit range wraps around;
//! a duration has no counterpart and becomes `NULL`.

use crate::scan;
use vstd::prelude::*;
use vstd::utf8::decode_utf8;
use vstd::utf8::valid_utf8;

verus! {

/// A value as the source hands it over, tagged by its kind.
///
/// A real number is held as the bit pattern of its double-precision form; a
/// single-precision value is widened before it gets here.
#[derive(Clone, Debug, PartialEq, Eq)]
pub enum SourceValue {
    Null,
    Bytes(Vec<u8>),
    Int(i64),
    UInt(u64),
    Float(u64),
    Double(u64),
    Date { year: u16, month: u8, day: u8, hour: u8, minute: u8, second: u8, fraction: u32 },
    Time { negative: bool, days: u32, hours: u8, minutes: u8, seconds: u8, fraction: u32 },
}

/// A value as the destination stores it. `Float` holds the bit pattern of a
/// double-precision number.
#[derive(Clone, Debug, PartialEq, Eq)]
pub enum CoercedValue {
    Null,
    Integer(i64),
    Float(u64),
    Text(String),
    Blob(Vec<u8>),
}

/// Why a value could not be coerced.
#[derive(Clone, Copy, Debug, PartialEq, Eq, Structural)]
pub enum CoerceError {
    /// The byte string in the given column of the row is not valid UTF-8.
    InvalidUtf8 { column: usize },
}

/// What a `SourceValue` stands for.
pub enum SourceModel {
    Null,
    Bytes(Seq<u8>),
    Int(i64),
    UInt(u64),
    Float(u64),
    Double(u64),
    Date { year: u16, month: u8, day: u8, hour: u8, minute: u8, second: u8, fraction: u32 },
    Time { negative: bool, days: u32, hours: u8, minutes: u8, seconds: u8, fraction: u32 },
}

/// What a `CoercedValue` stands for.
pub enum CoercedModel {
    Null,
    Integer(i64),
    Float(u64),
    Text(Seq<char>),
    Blob(Seq<u8>),
}

impl View for SourceValue {
    type V = SourceModel;

    open spec fn view(&self) -> SourceModel {
        match *self {
            SourceValue::Null => SourceModel::Null,
            SourceValue::Bytes(bytes) => SourceModel::Bytes(bytes@),
            SourceValue::Int(i) => SourceModel::Int(i),
            SourceValue::UInt(u) => SourceModel::UInt(u),
            SourceValue::Float(bits) => SourceModel::Float(bits),
            SourceValue::Double(bits) => SourceModel::Double(bits),
            SourceValue::Date { year, month, day, hour, minute, second, fraction } => {
                SourceModel::Date { year, month, day, hour, minute, second, fraction }
            },
            SourceValue::Time { negative, days, hours, minutes, seconds, fraction } => {
                SourceModel::Time { negative, days, hours, minutes, seconds, fraction }
            },
        }
    }
}

impl View for CoercedValue {
    type V = CoercedModel;

    open spec fn view(&self) -> CoercedModel {
        match *self {
            CoercedValue::Null => CoercedModel::Null,
            CoercedValue::Integer(i) => CoercedModel::Integer(i),
            CoercedValue::Float(bits) => CoercedModel::Float(bits),
            CoercedValue::Text(s) => CoercedModel::Text(s@),
            CoercedValue::Blob(bytes) => CoercedModel::Blob(bytes@),
        }
    }
}

/// The decimal digit `d`, for `d` below ten.
pub open spec fn digit(d: nat) -> char {
    ('0' as u32 + d) as char
}

/// The number in decimal, without leading zeros.
pub open spec fn decimal(n: nat) -> Seq<char>
    decreases n,
{
    if n < 10 {
        seq![digit(n)]
    } else {
        decimal(n / 10).push(digit(n % 10))
    }
}

/// The number in decimal, filled with zeros on the left up to `width`
/// characters. A number with more digits is written in full.
pub open spec fn zero_padded(n: nat, width: nat) -> Seq<char> {
    let digits = decimal(n);
    if digits.len() >= width {
        digits
    } else {
        Seq::new((width - digits.len()) as nat, |i: int| '0') + digits
    }
}

/// A date and time of day as text, `YYYY-MM-DD HH:MM:SS.mmm`.
pub open spec fn datetime_text(
    year: nat,
    month: nat,
    day: nat,
    hour: nat,
    minute: nat,
    second: nat,
    fraction: nat,
) -> Seq<char> {
    zero_padded(year, 4) + seq!['-'] + zero_padded(month, 2) + seq!['-'] + zero_padded(day, 2)
        + seq![' '] + zero_padded(hour, 2) + seq![':'] + zero_padded(minute, 2) + seq![':']
        + zero_padded(second, 2) + seq!['.'] + zero_padded(fraction, 3)
}

/// The signed integer with the bits of `u`: `u` itself up to the largest
/// signed value, and `u` less 2^64 above it.
pub open spec fn reinterpreted(u: u64) -> i64 {
    if u <= i64::MAX {
        u as i64
    } else {
        (u - 0x1_0000_0000_0000_0000) as i64
    }
}

/// What a source value is coerced to, or `None` where it cannot be stored.
pub open spec fn coerced(value: SourceModel) -> Option<CoercedModel> {
    match value {
        SourceModel::Null => Some(CoercedModel::Null),
        SourceModel::Bytes(bytes) => if valid_utf8(bytes) {
            Some(CoercedModel::Text(decode_utf8(bytes)))
        } else {
            None
        },
        SourceModel::Int(i) => Some(CoercedModel::Integer(i)),
        SourceModel::UInt(u) => Some(CoercedModel::Integer(reinterpreted(u))),
        SourceModel::Float(bits) => Some(CoercedModel::Float(bits)),
        SourceModel::Double(bits) => Some(CoercedModel::Float(bits)),
        SourceModel::Date { year, month, day, hour, minute, second, fraction } => Some(
            CoercedModel::Text(
                datetime_text(
                    year as nat,
                    month as nat,
                    day as nat,
                    hour as nat,
                    minute as nat,
                    second as nat,
                    fraction as nat,
                ),
            ),
        ),
        SourceModel::Time { .. } => Some(CoercedModel::Null),
    }
}

/// What the cell of a row is coerced to. A cell that the row does not have
/// counts as `NULL`.
pub open spec fn coerced_cell(cell: Option<SourceValue>) -> Option<CoercedModel> {
    match cell {
        Some(value) => coerced(value@),
        None => Some(CoercedModel::Null),
    }
}

/// The first cell that cannot be coerced, or the number of cells.
pub open spec fn first_failure(cells: Seq<Option<SourceValue>>) -> nat
    decreases cells.len(),
{
    if cells.len() == 0 || coerced_cell(cells.first()) is None {
        0
    } else {
        1 + first_failure(cells.drop_first())
    }
}

/// `String::from_utf8` of the standard library on a copy of the bytes: it
/// succeeds exactly on valid UTF-8, and the string it gives is the text that
/// the bytes encode.
#[verifier::external_body]
fn text_from_utf8(bytes: &Vec<u8>) -> (r: Option<String>)
    ensures
        r is Some <==> valid_utf8(bytes@),
        r matches Some(s) ==> s@ == decode_utf8(bytes@),
{
    String::from_utf8(bytes.clone()).ok()
}

fn digit_char(d: u32) -> (c: char)
    requires
        d < 10,
    ensures
        c == digit(d as nat),
{
    let n: u8 = 48u8 + d as u8;
    n as char
}

/// Writes `n` in decimal, at least `width` characters wide.
pub fn pad_decimal(n: u32, width: usize) -> (r: Vec<char>)
    ensures
        r@ == zero_padded(n as nat, width as nat),
{
    let mut digits: Vec<char> = Vec::new();
    digits.push(digit_char(n % 10));
    let mut m: u32 = n / 10;
    while m > 0
        invariant
            decimal(n as nat) == if m == 0 {
                digits@
            } else {
                decimal(m as nat) + digits@
            },
            digits@.len() >= 1,
        decreases m,
    {
        digits.insert(0, digit_char(m % 10));
        m = m / 10;
    }
    let missing: usize = if digits.len() < width {
        width - digits.len()
    } else {
        0
    };
    let mut r: Vec<char> = Vec::new();
    while r.len() < missing
        invariant
            r@.len() <= missing,
            forall|j: int| 0 <= j < r@.len() ==> r@[j] == '0',
        decreases missing - r@.len(),
    {
        r.push('0');
    }
    scan::append(&mut r, &digits);
    r
}

/// Writes a date and time of day as `YYYY-MM-DD HH:MM:SS.mmm`.
pub fn format_datetime(
    year: u16,
    month: u8,
    day: u8,
    hour: u8,
    minute: u8,
    second: u8,
    fraction: u32,
) -> (r: String)
    ensures
        r@ == datetime_text(
            year as nat,
            month as nat,
            day as nat,
            hour as nat,
            minute as nat,
            second as nat,
            fraction as nat,
        ),
{
    let mut r = pad_decimal(year as u32, 4);
    r.push('-');
    scan::append(&mut r, &pad_decimal(month as u32, 2));
    r.push('-');
    scan::append(&mut r, &pad_decimal(day as u32, 2));
    r.push(' ');
    scan::append(&mut r, &pad_decimal(hour as u32, 2));
    r.push(':');
    scan::append(&mut r, &pad_decimal(minute as u32, 2));
    r.push(':');
    scan::append(&mut r, &pad_decimal(second as u32, 2));
    r.push('.');
    scan::append(&mut r, &pad_decimal(fraction, 3));
    scan::string_of(&r)
}

/// The signed integer with the bits of `u`.
pub fn reinterpret(u: u64) -> (i: i64)
    ensures
        i == reinterpreted(u),
{
    if u <= 0x7FFF_FFFF_FFFF_FFFF {
        u as i64
    } else {
        let low: u64 = u - 0x8000_0000_0000_0000;
        (low as i64) + i64::MIN
    }
}

/// Coerces one value of a row. `column` is the value's position in the row;
/// it is reported with the error.
///
/// The result is an error exactly for a byte string that is not valid UTF-8.
pub fn coerce_value(value: &SourceValue, column: usize) -> (r: Result<CoercedValue, CoerceError>)
    ensures
        match r {
            Ok(out) => coerced(value@) == Some(out@),
            Err(e) => coerced(value@) is None && e == (CoerceError::InvalidUtf8 { column }),
        },
{
    match value {
        SourceValue::Null => Ok(CoercedValue::Null),
        SourceValue::Bytes(bytes) => match text_from_utf8(bytes) {
            Some(s) => Ok(CoercedValue::Text(s)),
            None => Err(CoerceError::InvalidUtf8 { column }),
        },
        SourceValue::Int(i) => Ok(CoercedValue::Integer(*i)),
        SourceValue::UInt(u) => Ok(CoercedValue::Integer(reinterpret(*u))),
        SourceValue::Float(bits) => Ok(CoercedValue::Float(*bits)),
        SourceValue::Double(bits) => Ok(CoercedValue::Float(*bits)),
        SourceValue::Date { year, month, day, hour, minute, second, fraction } => Ok(
            CoercedValue::Text(
                format_datetime(*year, *month, *day, *hour, *minute, *second, *fraction),
            ),
        ),
        SourceValue::Time { .. } => Ok(CoercedValue::Null),
    }
}

/// Coerces the cells of one row, in column order. A cell that the row does
/// not have is `None` and becomes `NULL`.
///
/// The row is coerced as a whole or not at all: the result is an error
/// exactly where some cell cannot be coerced, and the error names the first
/// such column.
pub fn coerce_row(cells: &Vec<Option<SourceValue>>) -> (r: Result<Vec<CoercedValue>, CoerceError>)
    ensures
        match r {
            Ok(values) => {
                &&& first_failure(cells@) == cells@.len()
                &&& values@.len() == cells@.len()
                &&& forall|i: int|
                    0 <= i < cells@.len() ==> coerced_cell(cells@[i]) == Some(
                        (#[trigger] values@[i])@,
                    )
            },
            Err(e) => {
                &&& first_failure(cells@) < cells@.len()
                &&& e == (CoerceError::InvalidUtf8 { column: first_failure(cells@) as usize })
            },
        },
{
    let mut values: Vec<CoercedValue> = Vec::new();
    let mut i: usize = 0;
    assert(cells@.skip(0) == cells@);
    while i < cells.len()
        invariant
            i <= cells.len(),
            values@.len() == i,
            i + first_failure(cells@.skip(i as int)) == first_failure(cells@),
            forall|j: int| 0 <= j < i ==> coerced_cell(cells@[j]) == Some((#[trigger] values@[j])@),
        decreases cells.len() - i,
    {
        assert(cells@.skip(i as int).drop_first() == cells@.skip(i + 1));
        let out = match &cells[i] {
            Some(value) => match coerce_value(value, i) {
                Ok(out) => out,
                Err(e) => {
                    return Err(e);
                },
            },
            None => CoercedValue::Null,
        };
        values.push(out);
        i += 1;
    }
    Ok(values)
}

/// `NULL` stays `NULL`, whatever the column it stands in.
pub proof fn lemma_null_is_null()
    ensures
        coerced(SourceModel::Null) == Some(CoercedModel::Null),
        coerced_cell(None) == Some(CoercedModel::Null),
{
}

/// Only a byte string can fail: a value of any other kind is coerced.
pub proof fn lemma_only_bytes_fail(value: SourceModel)
    ensures
        coerced(value) is None <==> (value matches SourceModel::Bytes(bytes) && !valid_utf8(bytes)),
{
}

} // verus!
