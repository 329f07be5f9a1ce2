//! From the engine's values to variants.
//!
//! Every scalar type becomes a native value. A type that a cell cannot show
//! refuses the whole query, with the column's name. A number that a double would
//! round becomes text, never a rounded number.
use crate::oleaut;
use crate::oleaut::{
    Number, OleDate, SafeArrayData, Shown, SAFEARRAY, SAFEARRAYBOUND, VARIANT, VARIANT_VALUE,
    VT_ARRAY, VT_UI1,
};
use crate::raw;
use crate::raw::{CalendarFields, Vector};
use crate::text;
use vstd::arithmetic::power::pow;
use vstd::prelude::*;

verus! {

// The numbers that the engine gives its types.
pub const TYPE_BOOLEAN: u32 = 1;
pub const TYPE_TINYINT: u32 = 2;
pub const TYPE_SMALLINT: u32 = 3;
pub const TYPE_INTEGER: u32 = 4;
pub const TYPE_BIGINT: u32 = 5;
pub const TYPE_UTINYINT: u32 = 6;
pub const TYPE_USMALLINT: u32 = 7;
pub const TYPE_UINTEGER: u32 = 8;
pub const TYPE_UBIGINT: u32 = 9;
pub const TYPE_FLOAT: u32 = 10;
pub const TYPE_DOUBLE: u32 = 11;
pub const TYPE_TIMESTAMP: u32 = 12;
pub const TYPE_DATE: u32 = 13;
pub const TYPE_TIME: u32 = 14;
pub const TYPE_INTERVAL: u32 = 15;
pub const TYPE_HUGEINT: u32 = 16;
pub const TYPE_VARCHAR: u32 = 17;
pub const TYPE_BLOB: u32 = 18;
pub const TYPE_DECIMAL: u32 = 19;
pub const TYPE_TIMESTAMP_S: u32 = 20;
pub const TYPE_TIMESTAMP_MS: u32 = 21;
pub const TYPE_TIMESTAMP_NS: u32 = 22;
pub const TYPE_ENUM: u32 = 23;
pub const TYPE_LIST: u32 = 24;
pub const TYPE_STRUCT: u32 = 25;
pub const TYPE_MAP: u32 = 26;
pub const TYPE_UUID: u32 = 27;
pub const TYPE_UNION: u32 = 28;
pub const TYPE_BIT: u32 = 29;
pub const TYPE_TIME_TZ: u32 = 30;
pub const TYPE_TIMESTAMP_TZ: u32 = 31;
pub const TYPE_UHUGEINT: u32 = 32;
pub const TYPE_ARRAY: u32 = 33;
pub const TYPE_SQLNULL: u32 = 36;
pub const TYPE_STRING_LITERAL: u32 = 37;
pub const TYPE_TIME_NS: u32 = 39;
pub const TYPE_GEOMETRY: u32 = 40;
pub const TYPE_VARIANT: u32 = 41;

/// From 1899-12-30, where OLE dates count from, to 1970-01-01.
pub const OLE_EPOCH_OFFSET_DAYS: i64 = 25_569;

/// The length of a day.
pub const MICROS_PER_DAY: i64 = 86_400_000_000;

// ---------------------------------------------------------------------------
// Columns that cannot be shown
// ---------------------------------------------------------------------------

/// The name of a type that a cell cannot show; `None` for the others.
pub open spec fn unsupported(t: u32) -> Option<Seq<char>> {
    if t == TYPE_LIST {
        Some("LIST"@)
    } else if t == TYPE_STRUCT {
        Some("STRUCT"@)
    } else if t == TYPE_MAP {
        Some("MAP"@)
    } else if t == TYPE_ARRAY {
        Some("ARRAY"@)
    } else if t == TYPE_UNION {
        Some("UNION"@)
    } else if t == TYPE_GEOMETRY {
        Some("GEOMETRY"@)
    } else if t == TYPE_VARIANT {
        Some("VARIANT"@)
    } else if t == TYPE_BIT {
        Some("BIT"@)
    } else {
        None
    }
}

/// The name of a type that a cell cannot show; `None` for the others.
pub fn unsupported_type_name(t: u32) -> (r: Option<&'static str>)
    ensures
        r is Some <==> unsupported(t) is Some,
        r matches Some(name) ==> unsupported(t) == Some(name@),
{
    match t {
        TYPE_LIST => Some("LIST"),
        TYPE_STRUCT => Some("STRUCT"),
        TYPE_MAP => Some("MAP"),
        TYPE_ARRAY => Some("ARRAY"),
        TYPE_UNION => Some("UNION"),
        TYPE_GEOMETRY => Some("GEOMETRY"),
        TYPE_VARIANT => Some("VARIANT"),
        TYPE_BIT => Some("BIT"),
        _ => None,
    }
}

/// The message about a column of the type called `name`.
pub open spec fn column_objection(column: Seq<char>, name: Seq<char>) -> Seq<char> {
    "列「"@ + column + "」の型 "@ + name
        + " は Excel のセルに変換できません。\nSQL 側で文字列に変換してください（例: SELECT \""@ + column
        + "\"::VARCHAR FROM ...）。"@
}

/// Refuses a column that a cell cannot show, and says what to do about it.
pub fn check_column_supported(col_name: &str, t: u32) -> (r: Result<(), String>)
    ensures
        r is Ok <==> unsupported(t) is None,
        r matches Err(m) ==> m@ == column_objection(col_name@, unsupported(t)->0),
{
    match unsupported_type_name(t) {
        None => Ok(()),
        Some(name) => {
            let mut m = "列「".to_owned();
            m.append(col_name);
            m.append("」の型 ");
            m.append(name);
            m.append(
                " は Excel のセルに変換できません。\nSQL 側で文字列に変換してください（例: SELECT \"",
            );
            m.append(col_name);
            m.append("\"::VARCHAR FROM ...）。");
            Err(m)
        },
    }
}

// ---------------------------------------------------------------------------
// Numbers
// ---------------------------------------------------------------------------

/// `n`, or the nearest number that 64 bits hold.
pub open spec fn clamped(n: int) -> int {
    if n < i64::MIN {
        i64::MIN as int
    } else if n > i64::MAX {
        i64::MAX as int
    } else {
        n
    }
}

/// `n`, or the nearest number that 64 bits hold.
pub fn clamp(n: i128) -> (r: i64)
    ensures
        r == clamped(n as int),
{
    if n < i64::MIN as i128 {
        i64::MIN
    } else if n > i64::MAX as i128 {
        i64::MAX
    } else {
        n as i64
    }
}

/// A signed number of 128 bits in two halves, as the engine stores it.
#[derive(Debug, Clone, Copy, PartialEq, Eq, Structural)]
pub struct Hugeint {
    pub lower: u64,
    pub upper: i64,
}

/// The number in the two halves.
pub open spec fn hugeint_value(h: Hugeint) -> int {
    h.upper * 0x1_0000_0000_0000_0000 + h.lower
}

/// The number in the two halves.
pub fn hugeint_number(h: Hugeint) -> (r: i128)
    ensures
        r == hugeint_value(h),
{
    h.upper as i128 * 0x1_0000_0000_0000_0000 + h.lower as i128
}

/// The number in decimal, every digit of it.
pub fn hugeint_to_string(h: Hugeint) -> (r: String)
    ensures
        r@ == text::dec_int(hugeint_value(h)),
{
    text::int_text(hugeint_number(h))
}

/// The upper half of a UUID: the engine stores it with its top bit flipped.
pub open spec fn uuid_upper(h: Hugeint) -> int {
    h.upper + 0x8000_0000_0000_0000
}

/// A UUID in its five groups.
pub open spec fn uuid_text(h: Hugeint) -> Seq<char> {
    let u = uuid_upper(h);
    text::hex(u / 0x1_0000_0000, 8) + "-"@ + text::hex(u / 0x1_0000 % 0x1_0000, 4) + "-"@
        + text::hex(u % 0x1_0000, 4) + "-"@ + text::hex(h.lower as int / 0x1_0000_0000_0000, 4)
        + "-"@ + text::hex(h.lower as int % 0x1_0000_0000_0000, 12)
}

/// A UUID in its five groups.
pub fn uuid_to_string(h: Hugeint) -> (r: String)
    ensures
        r@ == uuid_text(h),
{
    let u: u64 = (h.upper as i128 + 0x8000_0000_0000_0000) as u64;
    let mut s = String::new();
    text::push_hex(&mut s, u / 0x1_0000_0000, 8);
    s.append("-");
    text::push_hex(&mut s, u / 0x1_0000 % 0x1_0000, 4);
    s.append("-");
    text::push_hex(&mut s, u % 0x1_0000, 4);
    s.append("-");
    text::push_hex(&mut s, h.lower / 0x1_0000_0000_0000, 4);
    s.append("-");
    text::push_hex(&mut s, h.lower % 0x1_0000_0000_0000, 12);
    s
}

/// The most declared digits with which a DECIMAL becomes a double. With 18, the
/// usual `DECIMAL(18,2)` stays a number that `SUM()` works on; wider ones become
/// exact text.
pub const DECIMAL_MAX_WIDTH_AS_F64: u8 = 18;

/// The digits before the point.
pub open spec fn whole_part(unscaled: int, scale: int) -> Seq<char> {
    let digits = text::dec(magnitude(unscaled));
    if digits.len() > scale {
        digits.take(digits.len() - scale)
    } else {
        "0"@
    }
}

/// The `scale` digits behind the point.
pub open spec fn fraction_part(unscaled: int, scale: int) -> Seq<char> {
    let digits = text::dec(magnitude(unscaled));
    if digits.len() > scale {
        digits.skip(digits.len() - scale)
    } else {
        text::zero_filled(digits, scale)
    }
}

/// The absolute value.
pub open spec fn magnitude(n: int) -> nat {
    if n < 0 {
        (-n) as nat
    } else {
        n as nat
    }
}

/// `unscaled` divided by ten to the `scale`, in decimal.
pub open spec fn decimal_text(unscaled: int, scale: int) -> Seq<char> {
    if scale == 0 {
        text::dec_int(unscaled)
    } else {
        (if unscaled < 0 {
            "-"@
        } else {
            ""@
        }) + whole_part(unscaled, scale) + "."@ + fraction_part(unscaled, scale)
    }
}

/// `unscaled` divided by ten to the `scale`, in decimal, without rounding.
pub fn decimal_to_string(unscaled: i128, scale: u8) -> (r: String)
    ensures
        r@ == decimal_text(unscaled as int, scale as int),
{
    if scale == 0 {
        return text::int_text(unscaled);
    }
    let digits = text::dec_text(text::magnitude(unscaled));
    let chars = text::chars_of(digits.as_str());
    let scale: usize = scale as usize;
    let mut s = if unscaled < 0 {
        "-".to_owned()
    } else {
        "".to_owned()
    };
    let n = chars.len();
    if n > scale {
        s.append(text::text_of(&chars, 0, n - scale).as_str());
        s.append(".");
        s.append(text::text_of(&chars, n - scale, n).as_str());
    } else {
        s.append("0");
        s.append(".");
        text::push_zeros(&mut s, scale - n);
        s.append(digits.as_str());
    }
    s
}

// ---------------------------------------------------------------------------
// Dates
// ---------------------------------------------------------------------------

/// The serial numbers that a sheet can show: 1 is 1899-12-31, the last is
/// 9999-12-31.
pub const MIN_DISPLAYABLE_OLE_DATE: i64 = 1;
pub const MAX_DISPLAYABLE_OLE_DATE: i64 = 2_958_465;

/// The instants, in microseconds from 1970-01-01, whose OLE date lies within
/// those numbers. The last one is some microseconds late: its OLE date rounds to
/// the last number.
pub const MIN_DISPLAYABLE_INSTANT: i64 = -2_209_075_200_000_000;
pub const MAX_DISPLAYABLE_INSTANT: i64 = 253_402_214_400_000_016;

/// A sheet can show the date, given in days from 1970-01-01.
pub open spec fn displayable_day(days: int) -> bool {
    MIN_DISPLAYABLE_OLE_DATE <= days + OLE_EPOCH_OFFSET_DAYS <= MAX_DISPLAYABLE_OLE_DATE
}

/// A sheet can show the instant, given in microseconds from 1970-01-01.
pub open spec fn displayable_instant(micros: int) -> bool {
    MIN_DISPLAYABLE_INSTANT <= micros <= MAX_DISPLAYABLE_INSTANT
}

/// A date as text.
pub open spec fn iso_date_text(f: CalendarFields) -> Seq<char> {
    text::padded(f.year as int, 4) + "-"@ + text::padded(f.month as int, 2) + "-"@ + text::padded(
        f.day as int,
        2,
    )
}

/// A date and a time of day as text.
pub open spec fn iso_timestamp_text(f: CalendarFields) -> Seq<char> {
    iso_date_text(f) + " "@ + text::padded(f.hour as int, 2) + ":"@ + text::padded(f.min as int, 2)
        + ":"@ + text::padded(f.sec as int, 2)
}

fn iso_date(f: CalendarFields) -> (r: String)
    ensures
        r@ == iso_date_text(f),
{
    let mut s = String::new();
    text::push_padded(&mut s, f.year as i64, 4);
    s.append("-");
    text::push_padded(&mut s, f.month as i64, 2);
    s.append("-");
    text::push_padded(&mut s, f.day as i64, 2);
    s
}

fn iso_timestamp(f: CalendarFields) -> (r: String)
    ensures
        r@ == iso_timestamp_text(f),
{
    let mut s = iso_date(f);
    s.append(" ");
    text::push_padded(&mut s, f.hour as i64, 2);
    s.append(":");
    text::push_padded(&mut s, f.min as i64, 2);
    s.append(":");
    text::push_padded(&mut s, f.sec as i64, 2);
    s
}

/// What stands for a date, given in days from 1970-01-01.
pub open spec fn shown_day(days: int, f: CalendarFields) -> Shown {
    if displayable_day(days) {
        oleaut::shown_date(OleDate::Serial((days + OLE_EPOCH_OFFSET_DAYS) as i64))
    } else {
        oleaut::shown_text(iso_date_text(f))
    }
}

/// What stands for an instant, given in microseconds from 1970-01-01.
pub open spec fn shown_instant(micros: int, f: CalendarFields) -> Shown {
    if displayable_instant(micros) {
        oleaut::shown_date(OleDate::Timestamp(micros as i64))
    } else {
        oleaut::shown_text(iso_timestamp_text(f))
    }
}

/// A date that a sheet cannot show becomes text in the calendar fields `f`.
pub fn day_to_variant(days: i32, f: CalendarFields) -> (r: VARIANT)
    ensures
        r@ == shown_day(days as int, f),
        r.wf(),
{
    let serial: i64 = days as i64 + OLE_EPOCH_OFFSET_DAYS;
    if MIN_DISPLAYABLE_OLE_DATE <= serial && serial <= MAX_DISPLAYABLE_OLE_DATE {
        VARIANT::date(OleDate::Serial(serial))
    } else {
        VARIANT::bstr(iso_date(f).as_str())
    }
}

/// An instant that a sheet cannot show becomes text in the calendar fields `f`.
pub fn timestamp_micros_to_variant(micros: i64, f: CalendarFields) -> (r: VARIANT)
    ensures
        r@ == shown_instant(micros as int, f),
        r.wf(),
{
    if MIN_DISPLAYABLE_INSTANT <= micros && micros <= MAX_DISPLAYABLE_INSTANT {
        VARIANT::date(OleDate::Timestamp(micros))
    } else {
        VARIANT::bstr(iso_timestamp(f).as_str())
    }
}

// ---------------------------------------------------------------------------
// Reading a vector
// ---------------------------------------------------------------------------

/// How many bytes a value of this type has; 0 where it has no fixed size or is
/// not read at all.
pub open spec fn plain_size(t: u32) -> int {
    if t == TYPE_BOOLEAN || t == TYPE_TINYINT || t == TYPE_UTINYINT {
        1
    } else if t == TYPE_SMALLINT || t == TYPE_USMALLINT {
        2
    } else if t == TYPE_INTEGER || t == TYPE_UINTEGER || t == TYPE_FLOAT || t == TYPE_DATE {
        4
    } else if t == TYPE_BIGINT || t == TYPE_UBIGINT || t == TYPE_DOUBLE || t == TYPE_TIME || t
        == TYPE_TIME_TZ || t == TYPE_TIME_NS || is_timestamp(t) {
        8
    } else if t == TYPE_HUGEINT || t == TYPE_UHUGEINT || t == TYPE_UUID || t == TYPE_INTERVAL {
        16
    } else {
        0
    }
}

/// The types of instants.
pub open spec fn is_timestamp(t: u32) -> bool {
    ||| t == TYPE_TIMESTAMP
    ||| t == TYPE_TIMESTAMP_TZ
    ||| t == TYPE_TIMESTAMP_S
    ||| t == TYPE_TIMESTAMP_MS
    ||| t == TYPE_TIMESTAMP_NS
}

/// The types that a DECIMAL is stored as.
pub open spec fn stores_decimal(t: u32) -> bool {
    t == TYPE_SMALLINT || t == TYPE_INTEGER || t == TYPE_BIGINT || t == TYPE_HUGEINT
}

/// The types that the indices of an ENUM are stored as.
pub open spec fn stores_enum(t: u32) -> bool {
    t == TYPE_UTINYINT || t == TYPE_USMALLINT || t == TYPE_UINTEGER
}

/// The types whose values are byte strings.
pub open spec fn is_string(t: u32) -> bool {
    t == TYPE_VARCHAR || t == TYPE_STRING_LITERAL || t == TYPE_BLOB
}

/// How many bytes each value in the vector's data has.
pub open spec fn element_bytes(v: Vector) -> int {
    if v.type_id == TYPE_DECIMAL {
        if stores_decimal(v.decimal_internal) {
            plain_size(v.decimal_internal)
        } else {
            0
        }
    } else if v.type_id == TYPE_ENUM {
        if stores_enum(v.enum_internal) {
            plain_size(v.enum_internal)
        } else {
            0
        }
    } else {
        plain_size(v.type_id)
    }
}

fn plain_width(t: u32) -> (r: usize)
    ensures
        r == plain_size(t),
{
    match t {
        TYPE_BOOLEAN | TYPE_TINYINT | TYPE_UTINYINT => 1,
        TYPE_SMALLINT | TYPE_USMALLINT => 2,
        TYPE_INTEGER | TYPE_UINTEGER | TYPE_FLOAT | TYPE_DATE => 4,
        TYPE_BIGINT | TYPE_UBIGINT | TYPE_DOUBLE | TYPE_TIME | TYPE_TIME_TZ | TYPE_TIME_NS => 8,
        TYPE_TIMESTAMP | TYPE_TIMESTAMP_TZ | TYPE_TIMESTAMP_S | TYPE_TIMESTAMP_MS
        | TYPE_TIMESTAMP_NS => 8,
        TYPE_HUGEINT | TYPE_UHUGEINT | TYPE_UUID | TYPE_INTERVAL => 16,
        _ => 0,
    }
}

/// How many bytes each value in the vector's data has.
pub fn element_size(v: &Vector) -> (r: usize)
    ensures
        r == element_bytes(*v),
{
    match v.type_id {
        TYPE_DECIMAL => match v.decimal_internal {
            TYPE_SMALLINT | TYPE_INTEGER | TYPE_BIGINT | TYPE_HUGEINT => plain_width(
                v.decimal_internal,
            ),
            _ => 0,
        },
        TYPE_ENUM => match v.enum_internal {
            TYPE_UTINYINT | TYPE_USMALLINT | TYPE_UINTEGER => plain_width(v.enum_internal),
            _ => 0,
        },
        t => plain_width(t),
    }
}

/// Whether the values are byte strings.
pub fn holds_strings(v: &Vector) -> (r: bool)
    ensures
        r == is_string(v.type_id),
{
    matches!(v.type_id, TYPE_VARCHAR | TYPE_STRING_LITERAL | TYPE_BLOB)
}

/// Where the value of a row begins.
pub open spec fn place(v: Vector, row: int) -> int {
    row * element_bytes(v)
}

/// The first `n` bytes of the value of a row, as a number without sign.
pub open spec fn unsigned_at(v: Vector, row: int, n: nat) -> int {
    raw::little_endian(v.data@, place(v, row), n)
}

/// The first `n` bytes of the value of a row, as a number with sign.
pub open spec fn signed_at(v: Vector, row: int, n: nat) -> int {
    raw::little_endian_signed(v.data@, place(v, row), n)
}

/// The sixteen bytes of the value of a row.
pub open spec fn hugeint_at(v: Vector, row: int) -> Hugeint {
    Hugeint {
        lower: raw::little_endian(v.data@, place(v, row), 8) as u64,
        upper: raw::little_endian_signed(v.data@, place(v, row) + 8, 8) as i64,
    }
}

/// The microseconds from 1970-01-01 of an instant of type `t` stored as `n`.
/// Seconds and milliseconds too large to count that way give the nearest number;
/// the rest of nanoseconds is dropped.
pub open spec fn micros_of(t: u32, n: int) -> int {
    if t == TYPE_TIMESTAMP_S {
        clamped(n * 1_000_000)
    } else if t == TYPE_TIMESTAMP_MS {
        clamped(n * 1_000)
    } else if t == TYPE_TIMESTAMP_NS {
        if n < 0 {
            -((-n) / 1_000)
        } else {
            n / 1_000
        }
    } else {
        n
    }
}

/// The data has a value for each of the rows.
pub open spec fn data_covers(v: Vector, rows: int) -> bool {
    &&& v.data@.len() >= rows * element_bytes(v)
    &&& is_string(v.type_id) ==> v.strings@.len() >= rows
    &&& v.validity_covers(rows)
}

/// A date that only a calendar can put into words.
#[derive(Debug, Clone, Copy, PartialEq, Eq, Structural)]
pub enum Moment {
    /// Days from 1970-01-01.
    Day(i32),
    /// Microseconds from 1970-01-01.
    Instant(i64),
}

/// The date of the row where a sheet cannot show it.
pub open spec fn moment_in_words(v: Vector, row: int) -> Option<Moment> {
    if !v.valid_at(row) {
        None
    } else if v.type_id == TYPE_DATE && !displayable_day(signed_at(v, row, 4)) {
        Some(Moment::Day(signed_at(v, row, 4) as i32))
    } else if is_timestamp(v.type_id) && !displayable_instant(
        micros_of(v.type_id, signed_at(v, row, 8)),
    ) {
        Some(Moment::Instant(micros_of(v.type_id, signed_at(v, row, 8)) as i64))
    } else {
        None
    }
}

fn fixed_place(v: &Vector, row: usize, size: usize) -> (r: usize)
    requires
        size == element_bytes(*v),
        data_covers(*v, row + 1),
    ensures
        r == place(*v, row as int),
        r + size <= v.data@.len(),
{
    assert(v.data.len() <= usize::MAX);
    proof {
        assert((row + 1) * size == row * size + size) by (nonlinear_arith);
        assert(0 <= row * size) by (nonlinear_arith);
    }
    row * size
}

fn read_micros(v: &Vector, row: usize) -> (r: i64)
    requires
        is_timestamp(v.type_id),
        data_covers(*v, row + 1),
    ensures
        r == micros_of(v.type_id, signed_at(*v, row as int, 8)),
{
    let at = fixed_place(v, row, 8);
    let n = raw::read_signed(&v.data, at, 8);
    match v.type_id {
        TYPE_TIMESTAMP_S => clamp(n as i128 * 1_000_000),
        TYPE_TIMESTAMP_MS => clamp(n as i128 * 1_000),
        TYPE_TIMESTAMP_NS => if n < 0 {
            (-((-(n as i128)) / 1_000)) as i64
        } else {
            n / 1_000
        },
        _ => n,
    }
}

/// The date of the row where a sheet cannot show it. Its calendar fields are
/// asked of the engine before the row is read.
pub fn moment_to_look_up(v: &Vector, row: usize) -> (r: Option<Moment>)
    requires
        data_covers(*v, row + 1),
    ensures
        r == moment_in_words(*v, row as int),
{
    if !v.is_valid(row) {
        return None;
    }
    match v.type_id {
        TYPE_DATE => {
            let at = fixed_place(v, row, 4);
            let days = raw::read_signed(&v.data, at, 4);
            proof {
                raw::lemma_byte_range();
            }
            let serial = days + OLE_EPOCH_OFFSET_DAYS;
            if MIN_DISPLAYABLE_OLE_DATE <= serial && serial <= MAX_DISPLAYABLE_OLE_DATE {
                None
            } else {
                Some(Moment::Day(days as i32))
            }
        },
        TYPE_TIMESTAMP | TYPE_TIMESTAMP_TZ | TYPE_TIMESTAMP_S | TYPE_TIMESTAMP_MS
        | TYPE_TIMESTAMP_NS => {
            let micros = read_micros(v, row);
            if MIN_DISPLAYABLE_INSTANT <= micros && micros <= MAX_DISPLAYABLE_INSTANT {
                None
            } else {
                Some(Moment::Instant(micros))
            }
        },
        _ => None,
    }
}

// ---------------------------------------------------------------------------
// Cells
// ---------------------------------------------------------------------------

/// The calendar fields of the row are there where they are needed.
pub open spec fn calendar_known(v: Vector, row: int) -> bool {
    moment_in_words(v, row) is Some ==> 0 <= row < v.calendar@.len() && v.calendar@[row] is Some
}

/// The row can be read.
pub open spec fn readable(v: Vector, row: int) -> bool {
    &&& data_covers(v, row + 1)
    &&& calendar_known(v, row)
    &&& v.type_id == TYPE_BLOB ==> v.strings@[row]@.len() <= u32::MAX
}

/// The unscaled number of a DECIMAL.
pub open spec fn unscaled_at(v: Vector, row: int) -> int {
    if v.decimal_internal == TYPE_SMALLINT {
        signed_at(v, row, 2)
    } else if v.decimal_internal == TYPE_INTEGER {
        signed_at(v, row, 4)
    } else if v.decimal_internal == TYPE_BIGINT {
        signed_at(v, row, 8)
    } else {
        hugeint_value(hugeint_at(v, row))
    }
}

/// What stands for a DECIMAL: a double up to 18 declared digits, else exact text.
pub open spec fn shown_decimal(v: Vector, row: int) -> Shown {
    if !stores_decimal(v.decimal_internal) {
        oleaut::shown_null()
    } else if v.decimal_width <= DECIMAL_MAX_WIDTH_AS_F64 {
        oleaut::shown_double(
            Number::Decimal {
                unscaled: unscaled_at(v, row) as i128,
                scale: v.decimal_scale,
            },
        )
    } else {
        oleaut::shown_text(decimal_text(unscaled_at(v, row), v.decimal_scale as int))
    }
}

/// The index of an ENUM.
pub open spec fn enum_index_at(v: Vector, row: int) -> int {
    if v.enum_internal == TYPE_UTINYINT {
        unsigned_at(v, row, 1)
    } else if v.enum_internal == TYPE_USMALLINT {
        unsigned_at(v, row, 2)
    } else {
        unsigned_at(v, row, 4)
    }
}

/// The text of an ENUM's value.
pub open spec fn dictionary_text(v: Vector, index: int) -> Seq<char> {
    if 0 <= index < v.dictionary@.len() {
        match v.dictionary@[index] {
            Some(bytes) => text::lossy(bytes@),
            None => Seq::empty(),
        }
    } else {
        Seq::empty()
    }
}

/// What stands for an ENUM: the text of its value.
pub open spec fn shown_enum(v: Vector, row: int) -> Shown {
    if !stores_enum(v.enum_internal) {
        oleaut::shown_null()
    } else {
        oleaut::shown_text(dictionary_text(v, enum_index_at(v, row)))
    }
}

/// What stands for a BLOB: an array of bytes, or the empty text, since there is no
/// empty array.
pub open spec fn shown_blob(bytes: Seq<u8>) -> Shown {
    if bytes.len() == 0 {
        oleaut::shown_text(""@)
    } else {
        oleaut::shown_bytes(bytes)
    }
}

/// What stands for an INTERVAL.
pub open spec fn interval_text(months: int, days: int, micros: int) -> Seq<char> {
    text::dec_int(months) + " months "@ + text::dec_int(days) + " days "@ + text::dec_int(micros)
        + " micros"@
}

/// What stands for the value of a row that has one.
pub open spec fn shown_value(v: Vector, row: int) -> Shown {
    let t = v.type_id;
    if t == TYPE_BOOLEAN {
        oleaut::shown_bool(unsigned_at(v, row, 1) != 0)
    } else if t == TYPE_TINYINT {
        oleaut::shown_i32(signed_at(v, row, 1))
    } else if t == TYPE_SMALLINT {
        oleaut::shown_i32(signed_at(v, row, 2))
    } else if t == TYPE_INTEGER {
        oleaut::shown_i32(signed_at(v, row, 4))
    } else if t == TYPE_UTINYINT {
        oleaut::shown_i32(unsigned_at(v, row, 1))
    } else if t == TYPE_USMALLINT {
        oleaut::shown_i32(unsigned_at(v, row, 2))
    } else if t == TYPE_UINTEGER {
        oleaut::shown_i64(unsigned_at(v, row, 4))
    } else if t == TYPE_BIGINT {
        oleaut::shown_i64(signed_at(v, row, 8))
    } else if t == TYPE_UBIGINT {
        if unsigned_at(v, row, 8) <= i64::MAX {
            oleaut::shown_i64(unsigned_at(v, row, 8))
        } else {
            oleaut::shown_text(text::dec(unsigned_at(v, row, 8) as nat))
        }
    } else if t == TYPE_HUGEINT {
        oleaut::shown_text(text::dec_int(hugeint_value(hugeint_at(v, row))))
    } else if t == TYPE_UHUGEINT {
        oleaut::shown_text(text::dec(uhugeint_at(v, row) as nat))
    } else if t == TYPE_FLOAT {
        oleaut::shown_double(Number::Single(unsigned_at(v, row, 4) as u32))
    } else if t == TYPE_DOUBLE {
        oleaut::shown_double(Number::Bits(unsigned_at(v, row, 8) as u64))
    } else if t == TYPE_DECIMAL {
        shown_decimal(v, row)
    } else if t == TYPE_VARCHAR || t == TYPE_STRING_LITERAL {
        oleaut::shown_text(text::lossy(v.strings@[row]@))
    } else if t == TYPE_BLOB {
        shown_blob(v.strings@[row]@)
    } else if t == TYPE_DATE {
        shown_day(signed_at(v, row, 4), v.calendar@[row]->0)
    } else if t == TYPE_TIME {
        oleaut::shown_date(OleDate::TimeOfDay(signed_at(v, row, 8) as i64))
    } else if t == TYPE_TIME_TZ || t == TYPE_TIME_NS {
        oleaut::shown_text(text::dec_int(signed_at(v, row, 8)))
    } else if is_timestamp(t) {
        shown_instant(micros_of(t, signed_at(v, row, 8)), v.calendar@[row]->0)
    } else if t == TYPE_UUID {
        oleaut::shown_text(uuid_text(hugeint_at(v, row)))
    } else if t == TYPE_INTERVAL {
        oleaut::shown_text(
            interval_text(
                signed_at(v, row, 4),
                raw::little_endian_signed(v.data@, place(v, row) + 4, 4),
                raw::little_endian_signed(v.data@, place(v, row) + 8, 8),
            ),
        )
    } else if t == TYPE_ENUM {
        shown_enum(v, row)
    } else {
        oleaut::shown_null()
    }
}

/// The number without sign in the sixteen bytes of a row.
pub open spec fn uhugeint_at(v: Vector, row: int) -> int {
    raw::little_endian(v.data@, place(v, row), 8) + 0x1_0000_0000_0000_0000 * raw::little_endian(
        v.data@,
        place(v, row) + 8,
        8,
    )
}

/// What stands for the value of a row.
pub open spec fn cell_at(v: Vector, row: int) -> Shown {
    if v.valid_at(row) {
        shown_value(v, row)
    } else {
        oleaut::shown_null()
    }
}

fn read_hugeint(v: &Vector, row: usize) -> (r: Hugeint)
    requires
        element_bytes(*v) == 16,
        data_covers(*v, row + 1),
    ensures
        r == hugeint_at(*v, row as int),
{
    let at = fixed_place(v, row, 16);
    Hugeint {
        lower: raw::read_unsigned(&v.data, at, 8),
        upper: raw::read_signed(&v.data, at + 8, 8),
    }
}

fn decimal_to_variant(v: &Vector, row: usize) -> (r: VARIANT)
    requires
        v.type_id == TYPE_DECIMAL,
        data_covers(*v, row + 1),
    ensures
        r@ == shown_decimal(*v, row as int),
        r.wf(),
{
    let (width, scale) = v.decimal_width_scale();
    let unscaled: i128 = match v.decimal_internal_type() {
        TYPE_SMALLINT => {
            let at = fixed_place(v, row, 2);
            raw::read_signed(&v.data, at, 2) as i128
        },
        TYPE_INTEGER => {
            let at = fixed_place(v, row, 4);
            raw::read_signed(&v.data, at, 4) as i128
        },
        TYPE_BIGINT => {
            let at = fixed_place(v, row, 8);
            raw::read_signed(&v.data, at, 8) as i128
        },
        TYPE_HUGEINT => hugeint_number(read_hugeint(v, row)),
        _ => {
            return VARIANT::null();
        },
    };
    if width <= DECIMAL_MAX_WIDTH_AS_F64 {
        VARIANT::double(Number::Decimal { unscaled, scale })
    } else {
        VARIANT::bstr(decimal_to_string(unscaled, scale).as_str())
    }
}

fn enum_to_variant(v: &Vector, row: usize) -> (r: VARIANT)
    requires
        v.type_id == TYPE_ENUM,
        data_covers(*v, row + 1),
    ensures
        r@ == shown_enum(*v, row as int),
        r.wf(),
{
    let index: u64 = match v.enum_internal {
        TYPE_UTINYINT => {
            let at = fixed_place(v, row, 1);
            raw::read_unsigned(&v.data, at, 1)
        },
        TYPE_USMALLINT => {
            let at = fixed_place(v, row, 2);
            raw::read_unsigned(&v.data, at, 2)
        },
        TYPE_UINTEGER => {
            let at = fixed_place(v, row, 4);
            raw::read_unsigned(&v.data, at, 4)
        },
        _ => {
            return VARIANT::null();
        },
    };
    let s = if index < v.dictionary.len() as u64 {
        match &v.dictionary[index as usize] {
            Some(bytes) => text::from_utf8_lossy(bytes.as_slice()),
            None => String::new(),
        }
    } else {
        String::new()
    };
    VARIANT::bstr(s.as_str())
}

/// An array of bytes for VBA. There is no array of 0 elements, so no bytes give
/// the empty text.
pub fn byte_array_variant(bytes: &Vec<u8>) -> (r: VARIANT)
    requires
        bytes@.len() <= u32::MAX,
    ensures
        r@ == shown_blob(bytes@),
        bytes@.len() <= i32::MAX ==> r.wf(),
{
    let n = bytes.len();
    if n == 0 {
        return VARIANT::bstr("");
    }
    let mut bounds: Vec<Option<SAFEARRAYBOUND>> = Vec::new();
    bounds.push(Some(SAFEARRAYBOUND { cElements: n as u32, lLbound: 0 }));
    let mut copy: Vec<u8> = Vec::new();
    let mut i: usize = 0;
    while i < n
        invariant
            i <= n == bytes@.len(),
            copy@ == bytes@.take(i as int),
        decreases n - i,
    {
        copy.push(bytes[i]);
        i = i + 1;
    }
    let psa = SAFEARRAY {
        vartype: Some(VT_UI1),
        bounds,
        data: Some(SafeArrayData::Bytes(copy)),
    };
    assert(n <= i32::MAX ==> psa.wf());
    VARIANT { vt: VT_ARRAY + VT_UI1, value: VARIANT_VALUE::Array(Some(psa)) }
}

/// Turns the value at `row` into a variant. A type that nobody has heard of gives
/// NULL.
pub fn cell_to_variant(v: &Vector, row: usize) -> (r: VARIANT)
    requires
        readable(*v, row as int),
    ensures
        r@ == cell_at(*v, row as int),
{
    if !v.is_valid(row) {
        return VARIANT::null();
    }
    let fields = if row < v.calendar.len() {
        match v.calendar[row] {
            Some(f) => f,
            None => CalendarFields { year: 0, month: 0, day: 0, hour: 0, min: 0, sec: 0 },
        }
    } else {
        CalendarFields { year: 0, month: 0, day: 0, hour: 0, min: 0, sec: 0 }
    };
    let t = v.type_id();
    let size = element_size(v);
    let at = fixed_place(v, row, size);
    proof {
        raw::lemma_byte_range();
    }
    match t {
        TYPE_BOOLEAN => VARIANT::bool(raw::read_unsigned(&v.data, at, 1) != 0),
        TYPE_TINYINT => VARIANT::i32(raw::read_signed(&v.data, at, 1) as i32),
        TYPE_SMALLINT => VARIANT::i32(raw::read_signed(&v.data, at, 2) as i32),
        TYPE_INTEGER => VARIANT::i32(raw::read_signed(&v.data, at, 4) as i32),
        TYPE_UTINYINT => VARIANT::i32(raw::read_unsigned(&v.data, at, 1) as i32),
        TYPE_USMALLINT => VARIANT::i32(raw::read_unsigned(&v.data, at, 2) as i32),
        TYPE_UINTEGER => VARIANT::i64(raw::read_unsigned(&v.data, at, 4) as i64),
        TYPE_BIGINT => VARIANT::i64(raw::read_signed(&v.data, at, 8)),
        TYPE_UBIGINT => {
            let n = raw::read_unsigned(&v.data, at, 8);
            if n <= i64::MAX as u64 {
                VARIANT::i64(n as i64)
            } else {
                VARIANT::bstr(text::dec_text(n as u128).as_str())
            }
        },
        TYPE_HUGEINT => VARIANT::bstr(hugeint_to_string(read_hugeint(v, row)).as_str()),
        TYPE_UHUGEINT => {
            let lower = raw::read_unsigned(&v.data, at, 8);
            let upper = raw::read_unsigned(&v.data, at + 8, 8);
            let n: u128 = lower as u128 + 0x1_0000_0000_0000_0000 * upper as u128;
            VARIANT::bstr(text::dec_text(n).as_str())
        },
        TYPE_FLOAT => VARIANT::double(
            Number::Single(raw::read_unsigned(&v.data, at, 4) as u32),
        ),
        TYPE_DOUBLE => VARIANT::double(Number::Bits(raw::read_unsigned(&v.data, at, 8))),
        TYPE_DECIMAL => decimal_to_variant(v, row),
        TYPE_VARCHAR | TYPE_STRING_LITERAL => VARIANT::bstr(
            text::from_utf8_lossy(v.strings[row].as_slice()).as_str(),
        ),
        TYPE_BLOB => byte_array_variant(&v.strings[row]),
        TYPE_DATE => day_to_variant(raw::read_signed(&v.data, at, 4) as i32, fields),
        TYPE_TIME => VARIANT::date(OleDate::TimeOfDay(raw::read_signed(&v.data, at, 8))),
        TYPE_TIME_TZ | TYPE_TIME_NS => VARIANT::bstr(
            text::int_text(raw::read_signed(&v.data, at, 8) as i128).as_str(),
        ),
        TYPE_TIMESTAMP | TYPE_TIMESTAMP_TZ | TYPE_TIMESTAMP_S | TYPE_TIMESTAMP_MS
        | TYPE_TIMESTAMP_NS => timestamp_micros_to_variant(read_micros(v, row), fields),
        TYPE_UUID => VARIANT::bstr(uuid_to_string(read_hugeint(v, row)).as_str()),
        TYPE_INTERVAL => {
            let months = raw::read_signed(&v.data, at, 4);
            let days = raw::read_signed(&v.data, at + 4, 4);
            let micros = raw::read_signed(&v.data, at + 8, 8);
            let mut s = text::int_text(months as i128);
            s.append(" months ");
            text::push_int(&mut s, days as i128);
            s.append(" days ");
            text::push_int(&mut s, micros as i128);
            s.append(" micros");
            VARIANT::bstr(s.as_str())
        },
        TYPE_ENUM => enum_to_variant(v, row),
        TYPE_SQLNULL => VARIANT::null(),
        _ => VARIANT::null(),
    }
}

// ---------------------------------------------------------------------------
// Laws
// ---------------------------------------------------------------------------

/// A decimal number as text loses nothing: its digits stand for the whole
/// unscaled number, exactly `scale` of them stand behind the point, and at least
/// one before it.
pub proof fn law_decimal_text_is_exact(unscaled: int, scale: int)
    requires
        scale >= 0,
    ensures
        whole_part(unscaled, scale).len() > 0,
        fraction_part(unscaled, scale).len() == scale,
        text::digits_value(whole_part(unscaled, scale) + fraction_part(unscaled, scale))
            == magnitude(unscaled),
        scale == 0 ==> decimal_text(unscaled, scale) == text::dec_int(unscaled),
        scale > 0 ==> decimal_text(unscaled, scale) == (if unscaled < 0 {
            "-"@
        } else {
            ""@
        }) + whole_part(unscaled, scale) + "."@ + fraction_part(unscaled, scale),
{
    let n = magnitude(unscaled);
    let digits = text::dec(n);
    let whole = whole_part(unscaled, scale);
    let fraction = fraction_part(unscaled, scale);
    text::law_decimal_digits_are_exact(n);
    reveal_strlit("0");
    if digits.len() > scale {
        assert(whole + fraction == digits);
    } else {
        let k = scale - digits.len();
        text::law_leading_zeros(k + 1, digits);
        assert(whole + fraction == text::zeros(k + 1) + digits);
    }
}

/// A number too wide for a double becomes text with every digit.
pub proof fn law_wide_numbers_become_exact_text(v: Vector, row: int)
    requires
        v.valid_at(row),
    ensures
        v.type_id == TYPE_HUGEINT ==> cell_at(v, row) == oleaut::shown_text(
            text::dec_int(hugeint_value(hugeint_at(v, row))),
        ),
        v.type_id == TYPE_UBIGINT && unsigned_at(v, row, 8) > i64::MAX ==> cell_at(v, row)
            == oleaut::shown_text(text::dec(unsigned_at(v, row, 8) as nat)),
        v.type_id == TYPE_DECIMAL && stores_decimal(v.decimal_internal) && v.decimal_width
            > DECIMAL_MAX_WIDTH_AS_F64 ==> cell_at(v, row) == oleaut::shown_text(
            decimal_text(unscaled_at(v, row), v.decimal_scale as int),
        ),
        v.type_id == TYPE_UHUGEINT ==> cell_at(v, row) == oleaut::shown_text(
            text::dec(unsigned_at(v, row, 16) as nat),
        ),
{
    reveal_with_fuel(raw::little_endian, 17);
}

/// The `w` bytes from `at` on hold `n`, in two's complement where it is negative.
pub open spec fn holds(bytes: Seq<u8>, at: int, w: nat, n: int) -> bool {
    (raw::little_endian(bytes, at, w) - n) % pow(256, w) == 0
}

/// A number in two's complement is the only one of its range that the bytes hold.
proof fn lemma_holds(bytes: Seq<u8>, at: int, w: nat, n: int)
    requires
        1 <= w <= 16,
        holds(bytes, at, w, n),
    ensures
        0 <= n < pow(256, w) ==> raw::little_endian(bytes, at, w) == n,
        -pow(256, w) <= 2 * n < pow(256, w) ==> raw::little_endian_signed(bytes, at, w) == n,
{
    raw::law_bytes_are_digits(bytes, at, w, 0);
    raw::law_two_s_complement(bytes, at, w);
    let size = pow(256, w);
    let x = raw::little_endian(bytes, at, w);
    let s = raw::little_endian_signed(bytes, at, w);
    if 0 <= n < size {
        lemma_near(x, n, size);
    }
    if -size <= 2 * n < size {
        let q = (x - n) / size;
        let r = (s - x) / size;
        vstd::arithmetic::div_mod::lemma_fundamental_div_mod(x - n, size);
        vstd::arithmetic::div_mod::lemma_fundamental_div_mod(s - x, size);
        assert(size * q + size * r == size * (q + r)) by (nonlinear_arith);
        vstd::arithmetic::div_mod::lemma_fundamental_div_mod_converse(s - n, size, q + r, 0);
        lemma_near(s, n, size);
    }
}

/// Two numbers that differ by a multiple of `size`, and by less, are the same.
proof fn lemma_near(a: int, b: int, size: int)
    requires
        size > 0,
        (a - b) % size == 0,
        -size < a - b < size,
    ensures
        a == b,
{
    let q = (a - b) / size;
    vstd::arithmetic::div_mod::lemma_fundamental_div_mod(a - b, size);
    assert(q == 0) by (nonlinear_arith)
        requires
            size > 0,
            -size < size * q < size,
    ;
}

proof fn lemma_powers()
    ensures
        pow(256, 1) == 0x100,
        pow(256, 2) == 0x1_0000,
        pow(256, 4) == 0x1_0000_0000,
        pow(256, 8) == 0x1_0000_0000_0000_0000,
        pow(256, 16) == 0x1_0000_0000_0000_0000_0000_0000_0000_0000,
{
    reveal(pow);
    reveal_with_fuel(pow, 17);
}

/// Whole numbers are shown with their value, whatever their type: a row whose bytes
/// hold `n`, all of them and in two's complement where the type has a sign, shows
/// `n`. Up to four bytes it is a `Long`; four bytes without sign and eight bytes are a
/// `LongLong`, and what is too large for that is text with every digit.
pub proof fn law_whole_numbers_are_shown(v: Vector, row: int, n: int)
    requires
        v.valid_at(row),
    ensures
        v.type_id == 2 && -0x80 <= n < 0x80 && holds(v.data@, row, 1, n) ==> cell_at(v, row)
            == oleaut::shown_i32(n),
        v.type_id == 6 && 0 <= n < 0x100 && holds(v.data@, row, 1, n) ==> cell_at(v, row)
            == oleaut::shown_i32(n),
        v.type_id == 3 && -0x8000 <= n < 0x8000 && holds(v.data@, row * 2, 2, n) ==> cell_at(v, row)
            == oleaut::shown_i32(n),
        v.type_id == 7 && 0 <= n < 0x1_0000 && holds(v.data@, row * 2, 2, n) ==> cell_at(v, row)
            == oleaut::shown_i32(n),
        v.type_id == 4 && -0x8000_0000 <= n < 0x8000_0000 && holds(v.data@, row * 4, 4, n)
            ==> cell_at(v, row) == oleaut::shown_i32(n),
        v.type_id == 8 && 0 <= n < 0x1_0000_0000 && holds(v.data@, row * 4, 4, n) ==> cell_at(
            v,
            row,
        ) == oleaut::shown_i64(n),
        v.type_id == 5 && i64::MIN <= n <= i64::MAX && holds(v.data@, row * 8, 8, n) ==> cell_at(
            v,
            row,
        ) == oleaut::shown_i64(n),
        v.type_id == 9 && 0 <= n <= i64::MAX && holds(v.data@, row * 8, 8, n) ==> cell_at(v, row)
            == oleaut::shown_i64(n),
        v.type_id == 9 && i64::MAX < n <= u64::MAX && holds(v.data@, row * 8, 8, n) ==> cell_at(
            v,
            row,
        ) == oleaut::shown_text(text::dec(n as nat)),
{
    lemma_powers();
    let t = v.type_id;
    if t == 2 || t == 6 {
        if holds(v.data@, row, 1, n) {
            lemma_holds(v.data@, row, 1, n);
        }
    } else if t == 3 || t == 7 {
        if holds(v.data@, row * 2, 2, n) {
            lemma_holds(v.data@, row * 2, 2, n);
        }
    } else if t == 4 || t == 8 {
        if holds(v.data@, row * 4, 4, n) {
            lemma_holds(v.data@, row * 4, 4, n);
        }
    } else if t == 5 || t == 9 {
        if holds(v.data@, row * 8, 8, n) {
            lemma_holds(v.data@, row * 8, 8, n);
        }
    }
}

/// A row whose sixteen bytes hold `n` shows `n` as text with every digit.
pub proof fn law_wide_numbers_are_shown(v: Vector, row: int, n: int)
    requires
        v.valid_at(row),
        holds(v.data@, row * 16, 16, n),
    ensures
        v.type_id == 16 && i128::MIN <= n <= i128::MAX ==> cell_at(v, row) == oleaut::shown_text(
            text::dec_int(n),
        ),
        v.type_id == 32 && 0 <= n <= u128::MAX ==> cell_at(v, row) == oleaut::shown_text(
            text::dec(n as nat),
        ),
{
    lemma_powers();
    lemma_holds(v.data@, row * 16, 16, n);
    if v.type_id == 16 || v.type_id == 32 {
        lemma_two_halves(v, row);
    }
}

/// The two halves of sixteen bytes make the number in all of them.
proof fn lemma_two_halves(v: Vector, row: int)
    requires
        element_bytes(v) == 16,
    ensures
        hugeint_value(hugeint_at(v, row)) == raw::little_endian_signed(v.data@, row * 16, 16),
        uhugeint_at(v, row) == raw::little_endian(v.data@, row * 16, 16),
{
    let at = row * 16;
    reveal_with_fuel(raw::little_endian, 17);
    reveal_with_fuel(raw::byte_range, 17);
    raw::lemma_little_endian(v.data@, at, 8);
    raw::lemma_little_endian(v.data@, at + 8, 8);
    let low = raw::little_endian(v.data@, at, 8);
    let high = raw::little_endian(v.data@, at + 8, 8);
    assert(raw::little_endian(v.data@, at, 16) == low + 0x1_0000_0000_0000_0000 * high);
}

/// A DECIMAL is shown with its value: the number `n` in all the bytes that it is stored
/// in (two, four, eight or sixteen, in two's complement) is its unscaled number. Up to
/// 18 declared digits it is a double, and beyond them text with every digit.
#[verifier::spinoff_prover]
pub proof fn law_decimals_are_shown(v: Vector, row: int, w: nat, n: int)
    requires
        v.valid_at(row),
        v.type_id == 19,
        ({
            ||| v.decimal_internal == 3 && w == 2
            ||| v.decimal_internal == 4 && w == 4
            ||| v.decimal_internal == 5 && w == 8
            ||| v.decimal_internal == 16 && w == 16
        }),
        -pow(256, w) <= 2 * n < pow(256, w),
        holds(v.data@, row * w, w, n),
    ensures
        i128::MIN <= n <= i128::MAX,
        v.decimal_width <= 18 ==> cell_at(v, row) == oleaut::shown_double(
            Number::Decimal { unscaled: n as i128, scale: v.decimal_scale },
        ),
        v.decimal_width > 18 ==> cell_at(v, row) == oleaut::shown_text(
            decimal_text(n, v.decimal_scale as int),
        ),
{
    lemma_powers();
    lemma_holds(v.data@, row * w, w, n);
    if w == 2 {
        assert(unscaled_at(v, row) == raw::little_endian_signed(v.data@, row * 2, 2));
    } else if w == 4 {
        assert(unscaled_at(v, row) == raw::little_endian_signed(v.data@, row * 4, 4));
    } else if w == 8 {
        assert(unscaled_at(v, row) == raw::little_endian_signed(v.data@, row * 8, 8));
    } else {
        lemma_two_halves(v, row);
    }
    assert(unscaled_at(v, row) == n);
}

/// Flags and floating-point numbers: a flag is true unless its byte is zero, and a
/// single or a double is handed on with all its bits.
pub proof fn law_flags_and_doubles_are_shown(v: Vector, row: int)
    requires
        v.valid_at(row),
    ensures
        v.type_id == 1 ==> cell_at(v, row) == oleaut::shown_bool(v.data@[row] != 0),
        v.type_id == 10 ==> exists|bits: u32|
            cell_at(v, row) == oleaut::shown_double(Number::Single(bits)) && #[trigger] holds(
                v.data@,
                row * 4,
                4,
                bits as int,
            ),
        v.type_id == 11 ==> exists|bits: u64|
            cell_at(v, row) == oleaut::shown_double(Number::Bits(bits)) && #[trigger] holds(
                v.data@,
                row * 8,
                8,
                bits as int,
            ),
{
    lemma_powers();
    if v.type_id == 1 {
        reveal_with_fuel(raw::little_endian, 2);
    } else if v.type_id == 10 {
        raw::law_bytes_are_digits(v.data@, row * 4, 4, 0);
        let bits = raw::little_endian(v.data@, row * 4, 4) as u32;
        assert(holds(v.data@, row * 4, 4, bits as int));
    } else if v.type_id == 11 {
        raw::law_bytes_are_digits(v.data@, row * 8, 8, 0);
        let bits = raw::little_endian(v.data@, row * 8, 8) as u64;
        assert(holds(v.data@, row * 8, 8, bits as int));
    }
}

/// Texts and bytes are shown whole: a text is the one whose UTF-8 the row holds, and
/// bytes are those bytes, counted from 0; no bytes at all are the empty text.
pub proof fn law_texts_and_bytes_are_shown(v: Vector, row: int, s: Seq<char>)
    requires
        v.valid_at(row),
        vstd::utf8::valid_utf8(v.strings@[row]@),
        vstd::utf8::decode_utf8(v.strings@[row]@) == s,
    ensures
        v.type_id == 17 || v.type_id == 37 ==> cell_at(v, row) == oleaut::shown_text(s),
        v.type_id == 18 && v.strings@[row]@.len() > 0 ==> cell_at(v, row) == oleaut::shown_bytes(
            v.strings@[row]@,
        ),
        v.type_id == 18 && v.strings@[row]@.len() == 0 ==> cell_at(v, row) == oleaut::shown_text(
            Seq::empty(),
        ),
{
    reveal_strlit("");
    assert(""@ == Seq::<char>::empty());
}

/// Dates: `n` days from 1970-01-01 are the serial number `n + 25569` where a sheet
/// counts it (from 1 to 2958465), else the date as text. Times of day are handed on as
/// such, and those with more than a sheet shows are their number as text.
pub proof fn law_dates_and_times_are_shown(v: Vector, row: int, n: int)
    requires
        v.valid_at(row),
    ensures
        v.type_id == 13 && -0x8000_0000 <= n < 0x8000_0000 && holds(v.data@, row * 4, 4, n) ==> {
            &&& 1 <= n + 25_569 <= 2_958_465 ==> cell_at(v, row) == oleaut::shown_date(
                OleDate::Serial((n + 25_569) as i64),
            )
            &&& !(1 <= n + 25_569 <= 2_958_465) ==> {
                &&& moment_in_words(v, row) == Some(Moment::Day(n as i32))
                &&& cell_at(v, row) == oleaut::shown_text(iso_date_text(v.calendar@[row]->0))
            }
        },
        v.type_id == 14 && i64::MIN <= n <= i64::MAX && holds(v.data@, row * 8, 8, n) ==> cell_at(
            v,
            row,
        ) == oleaut::shown_date(OleDate::TimeOfDay(n as i64)),
        (v.type_id == 30 || v.type_id == 39) && i64::MIN <= n <= i64::MAX && holds(
            v.data@,
            row * 8,
            8,
            n,
        ) ==> cell_at(v, row) == oleaut::shown_text(text::dec_int(n)),
{
    lemma_powers();
    if v.type_id == 13 {
        if holds(v.data@, row * 4, 4, n) {
            lemma_holds(v.data@, row * 4, 4, n);
        }
    } else if v.type_id == 14 || v.type_id == 30 || v.type_id == 39 {
        if holds(v.data@, row * 8, 8, n) {
            lemma_holds(v.data@, row * 8, 8, n);
        }
    }
}

/// Instants: `n` microseconds from 1970-01-01 (nanoseconds without their rest) are
/// a date from one day behind 1899-12-30 up to 2958465 days behind it, else the date
/// and the time as text. Some microseconds behind that end still are a date, since its
/// double is the same.
pub proof fn law_instants_are_shown(v: Vector, row: int, n: int)
    requires
        v.valid_at(row),
        i64::MIN <= n <= i64::MAX,
        holds(v.data@, row * 8, 8, n),
        12 == v.type_id || 31 == v.type_id || 22 == v.type_id,
    ensures
        ({
            let micros = if v.type_id != 22 {
                n
            } else if n < 0 {
                -((-n) / 1_000)
            } else {
                n / 1_000
            };
            let day = 86_400int * 1_000_000;
            let from_base = micros + 25_569 * day;
            &&& day <= from_base <= 2_958_465 * day ==> cell_at(v, row) == oleaut::shown_date(
                OleDate::Timestamp(micros as i64),
            )
            &&& from_base < day || from_base > 2_958_465 * day + 16 ==> {
                &&& moment_in_words(v, row) == Some(Moment::Instant(micros as i64))
                &&& cell_at(v, row) == oleaut::shown_text(iso_timestamp_text(v.calendar@[row]->0))
            }
        }),
{
    lemma_powers();
    lemma_holds(v.data@, row * 8, 8, n);
}

/// Seconds and milliseconds are the instant that they are, or, where microseconds do
/// not reach that far, the last one.
pub proof fn law_coarse_instants(n: int)
    requires
        i64::MIN <= n <= i64::MAX,
    ensures
        i64::MIN <= n * 1_000_000 <= i64::MAX ==> micros_of(20, n) == n * 1_000_000,
        i64::MIN <= n * 1_000 <= i64::MAX ==> micros_of(21, n) == n * 1_000,
        n * 1_000_000 > i64::MAX ==> micros_of(20, n) == i64::MAX,
        n * 1_000_000 < i64::MIN ==> micros_of(20, n) == i64::MIN,
        n * 1_000 > i64::MAX ==> micros_of(21, n) == i64::MAX,
        n * 1_000 < i64::MIN ==> micros_of(21, n) == i64::MIN,
{
}

/// Intervals name their months, days and microseconds, which lie one behind the other
/// in four, four and eight bytes.
pub proof fn law_intervals_are_shown(v: Vector, row: int, months: int, days: int, micros: int)
    requires
        v.valid_at(row),
        v.type_id == 15,
        -0x8000_0000 <= months < 0x8000_0000,
        -0x8000_0000 <= days < 0x8000_0000,
        i64::MIN <= micros <= i64::MAX,
        holds(v.data@, row * 16, 4, months),
        holds(v.data@, row * 16 + 4, 4, days),
        holds(v.data@, row * 16 + 8, 8, micros),
    ensures
        cell_at(v, row) == oleaut::shown_text(
            text::dec_int(months) + " months "@ + text::dec_int(days) + " days "@ + text::dec_int(
                micros,
            ) + " micros"@,
        ),
{
    lemma_powers();
    lemma_holds(v.data@, row * 16, 4, months);
    lemma_holds(v.data@, row * 16 + 4, 4, days);
    lemma_holds(v.data@, row * 16 + 8, 8, micros);
}

/// An ENUM shows the text of its value: the number in one, two or four bytes, without
/// sign, is its place in the dictionary.
pub proof fn law_enums_are_shown(v: Vector, row: int, w: nat, n: int, s: Seq<char>)
    requires
        v.valid_at(row),
        v.type_id == 23,
        ({
            ||| v.enum_internal == 6 && w == 1
            ||| v.enum_internal == 7 && w == 2
            ||| v.enum_internal == 8 && w == 4
        }),
        0 <= n < pow(256, w),
        holds(v.data@, row * w, w, n),
        n < v.dictionary@.len(),
        v.dictionary@[n] matches Some(bytes) && vstd::utf8::valid_utf8(bytes@)
            && vstd::utf8::decode_utf8(bytes@) == s,
    ensures
        cell_at(v, row) == oleaut::shown_text(s),
{
    lemma_powers();
    lemma_holds(v.data@, row * w, w, n);
}

/// A UUID is its 128 bits in 32 hexadecimal digits, with dashes behind the 8th, 12th,
/// 16th and 20th. The engine stores it with its top bit flipped, so that the numbers
/// with sign are in order.
pub proof fn law_uuids_are_exact(h: Hugeint)
    ensures
        ({
            let t = uuid_text(h);
            let digits = t.subrange(0, 8) + t.subrange(9, 13) + t.subrange(14, 18) + t.subrange(
                19,
                23,
            ) + t.subrange(24, 36);
            &&& t.len() == 36
            &&& t[8] == '-'
            &&& t[13] == '-'
            &&& t[18] == '-'
            &&& t[23] == '-'
            &&& text::hex_value(digits) == (h.upper + 0x8000_0000_0000_0000)
                * 0x1_0000_0000_0000_0000 + h.lower
        }),
{
    let u = uuid_upper(h);
    let l = h.lower as int;
    let t = uuid_text(h);
    reveal_strlit("-");
    reveal(pow);
    reveal_with_fuel(pow, 13);
    assert(pow(16, 4) == 0x1_0000);
    assert(pow(16, 8) == 0x1_0000_0000);
    assert(pow(16, 12) == 0x1_0000_0000_0000);
    let a = text::hex(u / 0x1_0000_0000, 8);
    let b = text::hex(u / 0x1_0000 % 0x1_0000, 4);
    let c = text::hex(u % 0x1_0000, 4);
    let d = text::hex(l / 0x1_0000_0000_0000, 4);
    let e = text::hex(l % 0x1_0000_0000_0000, 12);
    text::law_hex_digits_are_exact(u / 0x1_0000_0000, 8);
    text::law_hex_digits_are_exact(u / 0x1_0000 % 0x1_0000, 4);
    text::law_hex_digits_are_exact(u % 0x1_0000, 4);
    text::law_hex_digits_are_exact(l / 0x1_0000_0000_0000, 4);
    text::law_hex_digits_are_exact(l % 0x1_0000_0000_0000, 12);
    assert(t.subrange(0, 8) == a);
    assert(t.subrange(9, 13) == b);
    assert(t.subrange(14, 18) == c);
    assert(t.subrange(19, 23) == d);
    assert(t.subrange(24, 36) == e);
    text::law_hex_digits_in_groups(a, b);
    text::law_hex_digits_in_groups(a + b, c);
    text::law_hex_digits_in_groups(a + b + c, d);
    text::law_hex_digits_in_groups(a + b + c + d, e);
}

/// A UUID in a table is the one in its sixteen bytes.
pub proof fn law_uuids_are_shown(v: Vector, row: int, h: Hugeint)
    requires
        v.valid_at(row),
        v.type_id == 27,
        holds(v.data@, row * 16, 8, h.lower as int),
        holds(v.data@, row * 16 + 8, 8, h.upper as int),
    ensures
        cell_at(v, row) == oleaut::shown_text(uuid_text(h)),
{
    lemma_powers();
    lemma_holds(v.data@, row * 16, 8, h.lower as int);
    lemma_holds(v.data@, row * 16 + 8, 8, h.upper as int);
}

/// A date as text has the form YYYY-MM-DD, and with a time of day it goes on with
/// hh:mm:ss: each field stands in its place with its value.
pub proof fn law_dates_as_text(f: CalendarFields)
    requires
        0 <= f.year <= 9999,
        0 <= f.month <= 99,
        0 <= f.day <= 99,
        0 <= f.hour <= 99,
        0 <= f.min <= 99,
        0 <= f.sec <= 99,
    ensures
        ({
            let t = iso_timestamp_text(f);
            &&& t.len() == 19
            &&& iso_date_text(f) == t.take(10)
            &&& t[4] == '-' && t[7] == '-' && t[10] == ' ' && t[13] == ':' && t[16] == ':'
            &&& text::digits_value(t.subrange(0, 4)) == f.year
            &&& text::digits_value(t.subrange(5, 7)) == f.month
            &&& text::digits_value(t.subrange(8, 10)) == f.day
            &&& text::digits_value(t.subrange(11, 13)) == f.hour
            &&& text::digits_value(t.subrange(14, 16)) == f.min
            &&& text::digits_value(t.subrange(17, 19)) == f.sec
        }),
{
    reveal_strlit("-");
    reveal_strlit(" ");
    reveal_strlit(":");
    reveal(pow);
    reveal_with_fuel(pow, 5);
    assert(pow(10, 2) == 100);
    assert(pow(10, 4) == 10_000);
    text::law_padded_numbers_keep_their_value(f.year as nat, 4);
    text::law_padded_numbers_keep_their_value(f.month as nat, 2);
    text::law_padded_numbers_keep_their_value(f.day as nat, 2);
    text::law_padded_numbers_keep_their_value(f.hour as nat, 2);
    text::law_padded_numbers_keep_their_value(f.min as nat, 2);
    text::law_padded_numbers_keep_their_value(f.sec as nat, 2);
    let t = iso_timestamp_text(f);
    assert(iso_date_text(f) == t.take(10));
    assert(t.subrange(0, 4) == text::padded(f.year as int, 4));
    assert(t.subrange(5, 7) == text::padded(f.month as int, 2));
    assert(t.subrange(8, 10) == text::padded(f.day as int, 2));
    assert(t.subrange(11, 13) == text::padded(f.hour as int, 2));
    assert(t.subrange(14, 16) == text::padded(f.min as int, 2));
    assert(t.subrange(17, 19) == text::padded(f.sec as int, 2));
}

/// A negative year has a minus sign before its digits; nothing else changes.
pub proof fn law_early_years_as_text(f: CalendarFields, g: CalendarFields)
    requires
        f.year > 0,
        g == (CalendarFields { year: (-f.year) as i32, ..f }),
    ensures
        iso_date_text(g) == seq!['-'] + iso_date_text(f),
        iso_timestamp_text(g) == seq!['-'] + iso_timestamp_text(f),
{
    assert(iso_date_text(g) == seq!['-'] + iso_date_text(f));
    assert(iso_timestamp_text(g) == seq!['-'] + iso_timestamp_text(f));
}

/// What has no meaning here shows as NULL: a type with another number, a DECIMAL and an
/// ENUM stored in another way. An ENUM whose value has no text shows the empty text.
pub proof fn law_unknown_values_are_null(v: Vector, row: int)
    ensures
        v.type_id == 0 || v.type_id == 36 || v.type_id == 38 || v.type_id > 41 ==> cell_at(v, row)
            == oleaut::shown_null(),
        v.type_id == 19 && v.decimal_internal != 3 && v.decimal_internal != 4 && v.decimal_internal
            != 5 && v.decimal_internal != 16 ==> cell_at(v, row) == oleaut::shown_null(),
        v.type_id == 23 && v.enum_internal != 6 && v.enum_internal != 7 && v.enum_internal != 8
            ==> cell_at(v, row) == oleaut::shown_null(),
        forall|i: int|
            i < 0 || i >= v.dictionary@.len() || v.dictionary@[i] is None ==> #[trigger]
            dictionary_text(v, i) == Seq::<char>::empty(),
{
}

/// The types that a cell cannot show, by the numbers of the engine, and no others:
/// LIST, STRUCT, MAP, UNION, BIT, ARRAY, GEOMETRY and VARIANT.
pub proof fn law_types_that_cannot_be_shown(t: u32)
    ensures
        unsupported(t) is Some <==> 24 <= t <= 26 || t == 28 || t == 29 || t == 33 || t == 40 || t
            == 41,
        unsupported(24) == Some("LIST"@),
        unsupported(25) == Some("STRUCT"@),
        unsupported(26) == Some("MAP"@),
        unsupported(28) == Some("UNION"@),
        unsupported(29) == Some("BIT"@),
        unsupported(33) == Some("ARRAY"@),
        unsupported(40) == Some("GEOMETRY"@),
        unsupported(41) == Some("VARIANT"@),
{
}

/// The row holds the instant `s` seconds from 1970-01-01, in the unit of its type.
pub open spec fn holds_second(v: Vector, row: int, s: int) -> bool {
    let n = signed_at(v, row, 8);
    &&& v.valid_at(row)
    &&& {
        ||| v.type_id == TYPE_TIMESTAMP_S && n == s
        ||| v.type_id == TYPE_TIMESTAMP_MS && n == s * 1_000
        ||| (v.type_id == TYPE_TIMESTAMP || v.type_id == TYPE_TIMESTAMP_TZ) && n == s * 1_000_000
        ||| v.type_id == TYPE_TIMESTAMP_NS && n == s * 1_000_000_000
    }
}

/// One instant shows alike in seconds, milliseconds, microseconds and nanoseconds:
/// in any two of these types the same date is looked up, and where the fields that
/// the calendar has for it agree, the same is shown.
pub proof fn law_one_instant_shows_alike(a: Vector, i: int, b: Vector, j: int, s: int)
    requires
        holds_second(a, i, s),
        holds_second(b, j, s),
        moment_in_words(a, i) is Some ==> a.calendar@[i] == b.calendar@[j],
    ensures
        moment_in_words(a, i) == moment_in_words(b, j),
        cell_at(a, i) == cell_at(b, j),
{
    raw::lemma_byte_range();
    raw::lemma_little_endian(a.data@, place(a, i), 8);
    raw::lemma_little_endian(b.data@, place(b, j), 8);
    assert(micros_of(a.type_id, signed_at(a, i, 8)) == clamped(s * 1_000_000));
    assert(micros_of(b.type_id, signed_at(b, j, 8)) == clamped(s * 1_000_000));
}

/// The types whose values always show as something.
pub open spec fn is_known_scalar(v: Vector) -> bool {
    ||| plain_size(v.type_id) > 0
    ||| is_string(v.type_id)
    ||| v.type_id == TYPE_DECIMAL && stores_decimal(v.decimal_internal)
    ||| v.type_id == TYPE_ENUM && stores_enum(v.enum_internal)
}

/// NULL in a sheet means NULL in the table: a row with a value of a known scalar
/// type never shows as NULL, and a row without one always does.
pub proof fn law_null_means_null(v: Vector, row: int)
    requires
        is_known_scalar(v),
    ensures
        cell_at(v, row).vt == oleaut::VT_NULL <==> !v.valid_at(row),
{
}

} // verus!
