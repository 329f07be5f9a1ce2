//! Values and arrays that come in from VBA.
use crate::oleaut;
use crate::oleaut::{
    Number, OleDate, Referent, SafeArrayData, SAFEARRAY, SAFEARRAYBOUND, VARIANT, VARIANT_FALSE,
    VARIANT_VALUE, VT_BOOL, VT_BSTR, VT_BYREF, VT_CY, VT_DATE, VT_DECIMAL, VT_DISPATCH, VT_EMPTY,
    VT_ERROR, VT_I1, VT_I2, VT_I4, VT_I8, VT_INT, VT_NULL, VT_R4, VT_R8, VT_UI1, VT_UI2, VT_UI4,
    VT_UI8, VT_UINT, VT_UNKNOWN, VT_VARIANT,
};
use crate::text;
use crate::value;
use crate::value::{MICROS_PER_DAY, OLE_EPOCH_OFFSET_DAYS};
use crate::variant;
use vstd::prelude::*;

verus! {

// ---------------------------------------------------------------------------
// Values for the engine
// ---------------------------------------------------------------------------

/// A value as the engine takes it, for a parameter or for a cell of a table.
#[derive(Debug)]
pub enum DuckValue {
    Null,
    Bool(bool),
    Int64(i64),
    Double(Number),
    /// Microseconds from 1970-01-01.
    Timestamp(i64),
    Varchar(String),
    Blob(Vec<u8>),
}

/// What a `DuckValue` stands for.
pub enum EngineValue {
    Null,
    Bool(bool),
    Integer(int),
    Double(Number),
    Timestamp(int),
    Text(Seq<char>),
    Blob(Seq<u8>),
}

impl View for DuckValue {
    type V = EngineValue;

    open spec fn view(&self) -> EngineValue {
        match *self {
            DuckValue::Null => EngineValue::Null,
            DuckValue::Bool(b) => EngineValue::Bool(b),
            DuckValue::Int64(n) => EngineValue::Integer(n as int),
            DuckValue::Double(x) => EngineValue::Double(x),
            DuckValue::Timestamp(t) => EngineValue::Timestamp(t as int),
            DuckValue::Varchar(s) => EngineValue::Text(s@),
            DuckValue::Blob(b) => EngineValue::Blob(b@),
        }
    }
}

/// The message for a value that the engine did not take; `place` says which.
pub open spec fn untaken_text(place: Seq<char>) -> Seq<char> {
    place + " を DuckDB の値に変換できませんでした"@
}

/// The message for a value that the engine did not take; `place` says which.
pub fn untaken(place: &str) -> (r: String)
    ensures
        r@ == untaken_text(place@),
{
    let mut m = place.to_owned();
    m.append(" を DuckDB の値に変換できませんでした");
    m
}

// ---------------------------------------------------------------------------
// Dates
// ---------------------------------------------------------------------------

/// The instant of a date, in microseconds from 1970-01-01.
pub open spec fn instant(d: OleDate) -> Option<int> {
    match d {
        OleDate::Serial(n) => Some(value::clamped((n - OLE_EPOCH_OFFSET_DAYS) * MICROS_PER_DAY)),
        OleDate::Timestamp(t) => Some(t as int),
        OleDate::TimeOfDay(t) => Some(value::clamped(t - OLE_EPOCH_OFFSET_DAYS * MICROS_PER_DAY)),
        OleDate::Invalid => None,
    }
}

/// The instant of a date, in microseconds from 1970-01-01.
pub fn date_instant(d: OleDate) -> (r: Option<i64>)
    ensures
        instant(d) is None <==> r is None,
        r matches Some(t) ==> instant(d) == Some(t as int),
{
    match d {
        OleDate::Serial(n) => Some(
            value::clamp((n as i128 - OLE_EPOCH_OFFSET_DAYS as i128) * MICROS_PER_DAY as i128),
        ),
        OleDate::Timestamp(t) => Some(t),
        OleDate::TimeOfDay(t) => Some(
            value::clamp(t as i128 - OLE_EPOCH_OFFSET_DAYS as i128 * MICROS_PER_DAY as i128),
        ),
        OleDate::Invalid => None,
    }
}

// ---------------------------------------------------------------------------
// From a VARIANT to a value for the engine
// ---------------------------------------------------------------------------

/// `place`, then `what`, then the type code.
pub open spec fn type_message(place: Seq<char>, what: Seq<char>, vt: u16) -> Seq<char> {
    place + what + " (vt=0x"@ + text::hex4(vt as int) + ")"@
}

fn about_type(place: &str, what: &str, vt: u16) -> (r: String)
    ensures
        r@ == type_message(place@, what@, vt),
{
    let mut m = place.to_owned();
    m.append(what);
    m.append(" (vt=0x");
    text::push_hex4(&mut m, vt);
    m.append(")");
    m
}

fn about(place: &str, what: &str) -> (r: String)
    ensures
        r@ == place@ + what@,
{
    let mut m = place.to_owned();
    m.append(what);
    m
}

/// What a byte array becomes: a BLOB of its first dimension.
pub open spec fn blob_of(psa: Option<SAFEARRAY>, place: Seq<char>) -> Result<
    EngineValue,
    Seq<char>,
> {
    match psa {
        None => Ok(EngineValue::Null),
        Some(a) => if a.bounds@.len() == 0 || a.bounds@[0] is None {
            Err(place + ": バイト配列の範囲を取得できませんでした"@)
        } else {
            match a.data {
                Some(SafeArrayData::Bytes(b)) => Ok(
                    EngineValue::Blob(b@.take(a.bounds@[0]->0.cElements as int)),
                ),
                _ => Err(place + ": バイト配列を読み取れませんでした"@),
            }
        },
    }
}

/// What a value with the type code `vt`, neither array nor pointer, becomes.
pub open spec fn plain_value_of(value: VARIANT_VALUE, vt: u16, place: Seq<char>) -> Result<
    EngineValue,
    Seq<char>,
> {
    let bits = value->Bits_0;
    if vt == VT_EMPTY || vt == VT_NULL {
        Ok(EngineValue::Null)
    } else if vt == VT_BOOL {
        Ok(EngineValue::Bool(oleaut::low_part(bits, 0x1_0000) != 0))
    } else if vt == VT_I1 {
        Ok(EngineValue::Integer(oleaut::low_part_signed(bits, 0x100)))
    } else if vt == VT_I2 {
        Ok(EngineValue::Integer(oleaut::low_part_signed(bits, 0x1_0000)))
    } else if vt == VT_I4 || vt == VT_INT {
        Ok(EngineValue::Integer(oleaut::low_part_signed(bits, 0x1_0000_0000)))
    } else if vt == VT_I8 {
        Ok(EngineValue::Integer(oleaut::low_part_signed(bits, 0x1_0000_0000_0000_0000)))
    } else if vt == VT_UI1 {
        Ok(EngineValue::Integer(oleaut::low_part(bits, 0x100)))
    } else if vt == VT_UI2 {
        Ok(EngineValue::Integer(oleaut::low_part(bits, 0x1_0000)))
    } else if vt == VT_UI4 || vt == VT_UINT {
        Ok(EngineValue::Integer(oleaut::low_part(bits, 0x1_0000_0000)))
    } else if vt == VT_UI8 {
        if bits > i64::MAX {
            Ok(EngineValue::Text(text::dec(bits as nat)))
        } else {
            Ok(EngineValue::Integer(bits as int))
        }
    } else if vt == VT_R4 || vt == VT_R8 {
        Ok(EngineValue::Double(value->Double_0))
    } else if vt == VT_DATE {
        match instant(value->Date_0) {
            Some(t) => Ok(EngineValue::Timestamp(t)),
            None => Err(place + ": 日付の値が不正です"@),
        }
    } else if vt == VT_BSTR {
        Ok(EngineValue::Text(oleaut::bstr_text(value->Bstr_0)))
    } else if vt == VT_CY || vt == VT_DECIMAL {
        match value->Converted_0 {
            Some(x) => Ok(EngineValue::Double(x)),
            None => Err(type_message(place, ": 数値に変換できませんでした"@, vt)),
        }
    } else if vt == VT_ERROR {
        Err(
            place
                + ": セルがエラー値（#N/A、#DIV/0! など）です。\n修正するか、IFERROR で空欄に置き換えてから渡してください。"@,
        )
    } else if vt == VT_DISPATCH || vt == VT_UNKNOWN {
        Err(
            place
                + ": オブジェクトは値として渡せません。Range ではなく Range.Value を渡してください。"@,
        )
    } else {
        Err(type_message(place, ": 対応していない型です"@, vt))
    }
}

/// What a value with the type code `vt` becomes.
pub open spec fn value_of(value: VARIANT_VALUE, vt: u16, place: Seq<char>) -> Result<
    EngineValue,
    Seq<char>,
>
    decreases value,
{
    if oleaut::by_reference(vt) {
        match value {
            VARIANT_VALUE::ByRef(Some(b)) => match *b {
                Referent::Variant(v) => value_of(v.value, v.vt, place),
                Referent::Value(x) => if oleaut::readable_through_pointer((vt - VT_BYREF) as u16) {
                    value_of(x, (vt - VT_BYREF) as u16, place)
                } else {
                    Err(type_message(place, ": 対応していない参照渡しの型"@, vt))
                },
            },
            _ => Ok(EngineValue::Null),
        }
    } else if oleaut::of_array(vt) {
        if oleaut::basic(vt) == VT_UI1 {
            blob_of(value->Array_0, place)
        } else {
            Err(
                place
                    + ": 配列は値として渡せません。1 つのセルの値を指定してください。"@,
            )
        }
    } else {
        plain_value_of(value, vt, place)
    }
}

/// The outcome is the one described.
pub open spec fn same_outcome(
    r: Result<DuckValue, String>,
    s: Result<EngineValue, Seq<char>>,
) -> bool {
    match (r, s) {
        (Ok(d), Ok(e)) => d@ == e,
        (Err(m), Err(t)) => m@ == t,
        _ => false,
    }
}

fn byte_array_to_blob(psa: &Option<SAFEARRAY>, place: &str) -> (r: Result<DuckValue, String>)
    requires
        psa matches Some(a) ==> a.wf() && match a.data {
            Some(SafeArrayData::Bytes(_)) => true,
            None => true,
            _ => false,
        },
    ensures
        same_outcome(r, blob_of(*psa, place@)),
{
    match psa {
        None => Ok(DuckValue::Null),
        Some(a) => {
            if a.bounds.len() == 0 {
                return Err(about(place, ": バイト配列の範囲を取得できませんでした"));
            }
            let bound = match &a.bounds[0] {
                Some(b) => *b,
                None => {
                    return Err(about(place, ": バイト配列の範囲を取得できませんでした"));
                },
            };
            match &a.data {
                Some(SafeArrayData::Bytes(b)) => {
                    let n = bound.cElements as usize;
                    let mut bytes: Vec<u8> = Vec::new();
                    let mut i: usize = 0;
                    while i < n
                        invariant
                            i <= n <= b@.len(),
                            bytes@ == b@.take(i as int),
                        decreases n - i,
                    {
                        bytes.push(b[i]);
                        i = i + 1;
                    }
                    Ok(DuckValue::Blob(bytes))
                },
                _ => Err(about(place, ": バイト配列を読み取れませんでした")),
            }
        },
    }
}

fn plain_to_value(value: &VARIANT_VALUE, vt: u16, place: &str) -> (r: Result<DuckValue, String>)
    requires
        !oleaut::by_reference(vt),
        !oleaut::of_array(vt),
        value.fits(vt),
    ensures
        same_outcome(r, plain_value_of(*value, vt, place@)),
{
    let bits: u64 = match value {
        VARIANT_VALUE::Bits(b) => *b,
        _ => 0,
    };
    if vt == VT_EMPTY || vt == VT_NULL {
        return Ok(DuckValue::Null);
    }
    if vt == VT_BOOL {
        return Ok(DuckValue::Bool(oleaut::low_i16(bits) != VARIANT_FALSE));
    }
    if vt == VT_I1 {
        return Ok(DuckValue::Int64(oleaut::low_i8(bits) as i64));
    }
    if vt == VT_I2 {
        return Ok(DuckValue::Int64(oleaut::low_i16(bits) as i64));
    }
    if vt == VT_I4 || vt == VT_INT {
        return Ok(DuckValue::Int64(oleaut::low_i32(bits) as i64));
    }
    if vt == VT_I8 {
        return Ok(DuckValue::Int64(oleaut::low_i64(bits)));
    }
    if vt == VT_UI1 {
        return Ok(DuckValue::Int64((bits % 0x100) as i64));
    }
    if vt == VT_UI2 {
        return Ok(DuckValue::Int64((bits % 0x1_0000) as i64));
    }
    if vt == VT_UI4 || vt == VT_UINT {
        return Ok(DuckValue::Int64((bits % 0x1_0000_0000) as i64));
    }
    if vt == VT_UI8 {
        if bits > i64::MAX as u64 {
            return Ok(DuckValue::Varchar(text::dec_text(bits as u128)));
        }
        return Ok(DuckValue::Int64(bits as i64));
    }
    match value {
        VARIANT_VALUE::Double(x) if vt == VT_R4 || vt == VT_R8 => {
            return Ok(DuckValue::Double(*x));
        },
        VARIANT_VALUE::Date(d) if vt == VT_DATE => {
            return match date_instant(*d) {
                Some(t) => Ok(DuckValue::Timestamp(t)),
                None => Err(about(place, ": 日付の値が不正です")),
            };
        },
        VARIANT_VALUE::Bstr(b) if vt == VT_BSTR => {
            return Ok(DuckValue::Varchar(oleaut::bstr_to_string(b)));
        },
        VARIANT_VALUE::Converted(x) if vt == VT_CY || vt == VT_DECIMAL => {
            return match x {
                Some(x) => Ok(DuckValue::Double(*x)),
                None => Err(about_type(place, ": 数値に変換できませんでした", vt)),
            };
        },
        _ => {},
    }
    if vt == VT_ERROR {
        return Err(
            about(
                place,
                ": セルがエラー値（#N/A、#DIV/0! など）です。\n修正するか、IFERROR で空欄に置き換えてから渡してください。",
            ),
        );
    }
    if vt == VT_DISPATCH || vt == VT_UNKNOWN {
        return Err(
            about(
                place,
                ": オブジェクトは値として渡せません。Range ではなく Range.Value を渡してください。",
            ),
        );
    }
    Err(about_type(place, ": 対応していない型です", vt))
}

fn to_value(value: &VARIANT_VALUE, vt: u16, place: &str) -> (r: Result<DuckValue, String>)
    requires
        value.fits(vt),
    ensures
        same_outcome(r, value_of(*value, vt, place@)),
    decreases value,
{
    if oleaut::is_by_reference(vt) {
        return match value {
            VARIANT_VALUE::ByRef(Some(b)) => match &**b {
                Referent::Variant(v) => to_value(&v.value, v.vt, place),
                Referent::Value(x) => {
                    let inner: u16 = vt - VT_BYREF;
                    if inner == VT_I4 || inner == VT_I8 || inner == VT_R8 || inner == VT_DATE
                        || inner == VT_BOOL || inner == VT_BSTR {
                        to_value(x, inner, place)
                    } else {
                        Err(about_type(place, ": 対応していない参照渡しの型", vt))
                    }
                },
            },
            _ => Ok(DuckValue::Null),
        };
    }
    if oleaut::is_of_array(vt) {
        if oleaut::basic_type(vt) == VT_UI1 {
            return match value {
                VARIANT_VALUE::Array(a) => byte_array_to_blob(a, place),
                _ => Ok(DuckValue::Null),
            };
        }
        return Err(
            about(
                place,
                ": 配列は値として渡せません。1 つのセルの値を指定してください。",
            ),
        );
    }
    plain_to_value(value, vt, place)
}

/// Turns one value from VBA into a value for the engine. `place` says in the
/// messages where the value stands.
pub fn variant_to_value(v: &VARIANT, place: &str) -> (r: Result<DuckValue, String>)
    requires
        v.wf(),
    ensures
        same_outcome(r, value_of(v.value, v.vt, place@)),
{
    to_value(&v.value, v.vt, place)
}

// ---------------------------------------------------------------------------
// Arrays
// ---------------------------------------------------------------------------

/// An array from VBA as a table. A one-dimensional array is a single row.
#[derive(Debug)]
pub struct InputGrid {
    pub rows: usize,
    pub cols: usize,
    /// The cells, row by row.
    pub cells: Vec<VARIANT>,
}

/// Where a cell stands, counted from 1.
pub open spec fn position_text(row: int, col: int) -> Seq<char> {
    text::dec((row + 1) as nat) + " 行 "@ + text::dec((col + 1) as nat) + " 列目"@
}

impl InputGrid {
    /// There is at least one cell, the rows are whole, and each cell is what its
    /// type code says.
    pub open spec fn wf(self) -> bool {
        &&& 0 < self.rows
        &&& 0 < self.cols
        &&& self.cells@.len() == self.rows * self.cols
        &&& forall|i: int| 0 <= i < self.cells@.len() ==> (#[trigger] self.cells@[i]).wf()
    }

    /// The cell at `row` and `col`, both counted from 0.
    pub open spec fn at(self, row: int, col: int) -> VARIANT {
        self.cells@[row * self.cols + col]
    }

    /// The cell at `row` and `col`, both counted from 0.
    pub fn get(&self, row: usize, col: usize) -> (r: &VARIANT)
        requires
            self.cells@.len() == self.rows * self.cols,
            row < self.rows,
            col < self.cols,
        ensures
            *r == self.at(row as int, col as int),
            0 <= row * self.cols + col < self.cells@.len(),
    {
        assert(self.cells.len() <= usize::MAX);
        proof {
            variant::lemma_inside(row as int, col as int, self.rows as int, self.cols as int);
            variant::lemma_place(row as int, col as int, self.cols as int);
        }
        &self.cells[row * self.cols + col]
    }

    /// Where a cell stands, counted from 1.
    pub fn position(&self, row: usize, col: usize) -> (r: String)
        ensures
            r@ == position_text(row as int, col as int),
    {
        let mut m = text::dec_text(row as u128 + 1);
        m.append(" 行 ");
        text::push_dec(&mut m, col as u128 + 1);
        m.append(" 列目");
        m
    }
}

/// The contents of an `InputGrid`.
pub struct GridView {
    pub rows: int,
    pub cols: int,
    pub cells: Seq<VARIANT>,
}

impl View for InputGrid {
    type V = GridView;

    open spec fn view(&self) -> GridView {
        GridView { rows: self.rows as int, cols: self.cols as int, cells: self.cells@ }
    }
}

/// How many elements a dimension has that runs from `lower` to `upper`; `None`
/// where that is more than an index counts.
pub fn extent_of(lower: i32, upper: i32) -> (n: Option<u32>)
    ensures
        n == (if upper < lower {
            Some(0u32)
        } else if upper - lower + 1 <= i32::MAX {
            Some((upper - lower + 1) as u32)
        } else {
            None
        }),
{
    let count: i64 = upper as i64 - lower as i64 + 1;
    if count <= 0 {
        Some(0)
    } else if count <= i32::MAX as i64 {
        Some(count as u32)
    } else {
        None
    }
}

/// The size of a dimension; `None` where it could not be asked.
pub open spec fn extent(a: SAFEARRAY, d: int) -> Option<int> {
    match a.bounds@[d] {
        Some(b) => Some(b.cElements as int),
        None => None,
    }
}

/// What reading an array of `rows` by `cols` elements gives. `reordered` is true
/// where the elements lie column by column.
pub open spec fn table_of(
    a: SAFEARRAY,
    rows: int,
    cols: int,
    reordered: bool,
    what: Seq<char>,
) -> Result<GridView, Seq<char>> {
    if rows == 0 || cols == 0 {
        Err(what + " が空です。"@)
    } else {
        match a.data {
            Some(SafeArrayData::Variants(d)) => Ok(
                GridView {
                    rows,
                    cols,
                    cells: if reordered {
                        variant::transposed(d@, cols, rows)
                    } else {
                        d@
                    },
                },
            ),
            _ => Err(what + " の内容を読み取れませんでした。"@),
        }
    }
}

/// The message about a dimension whose bounds could not be asked.
pub open spec fn bounds_unknown(what: Seq<char>, d: int) -> Seq<char> {
    what + " の次元 "@ + text::dec(d as nat) + " の範囲を取得できませんでした。"@
}

/// What reading an array gives.
pub open spec fn array_table(a: SAFEARRAY, what: Seq<char>) -> Result<GridView, Seq<char>> {
    if a.vartype is None {
        Err(what + " の要素型を取得できませんでした。"@)
    } else if a.vartype->0 != VT_VARIANT {
        Err(
            what + " の要素が Variant ではありません (vt=0x"@ + text::hex4(a.vartype->0 as int)
                + ")。\nDim arr() As Variant で宣言するか、Range(...).Value を渡してください。"@,
        )
    } else if a.bounds@.len() == 0 || a.bounds@.len() > 2 {
        Err(
            what + " は 1 次元か 2 次元の配列である必要があります（実際: "@ + text::dec(
                a.bounds@.len(),
            ) + " 次元）。"@,
        )
    } else if extent(a, 0) is None {
        Err(bounds_unknown(what, 1))
    } else if a.bounds@.len() == 1 {
        table_of(a, 1, extent(a, 0)->0, false, what)
    } else if extent(a, 1) is None {
        Err(bounds_unknown(what, 2))
    } else {
        table_of(a, extent(a, 0)->0, extent(a, 1)->0, true, what)
    }
}

/// What reading a value as a table gives.
pub open spec fn table(value: VARIANT_VALUE, vt: u16, what: Seq<char>) -> Result<
    GridView,
    Seq<char>,
>
    decreases value,
{
    if oleaut::by_reference(vt) && oleaut::basic(vt) == VT_VARIANT {
        match value {
            VARIANT_VALUE::ByRef(Some(b)) => match *b {
                Referent::Variant(v) => table(v.value, v.vt, what),
                Referent::Value(_) => Err(what + " が空です。"@),
            },
            _ => Err(what + " が空です。"@),
        }
    } else if !oleaut::of_array(vt) {
        Err(
            what
                + " は配列ではありません。\nVBA の Array(...) かシートの範囲（Range(\"A1:C10\").Value）を渡してください。"@,
        )
    } else {
        match value {
            VARIANT_VALUE::Array(Some(a)) => array_table(a, what),
            _ => Err(what + " が空の配列です。"@),
        }
    }
}

/// The outcome is the one described.
pub open spec fn same_table(r: Result<InputGrid, String>, s: Result<GridView, Seq<char>>) -> bool {
    match (r, s) {
        (Ok(g), Ok(v)) => g@ == v,
        (Err(m), Err(t)) => m@ == t,
        _ => false,
    }
}

fn array_to_grid(a: SAFEARRAY, what: &str) -> (r: Result<InputGrid, String>)
    requires
        a.wf(),
    ensures
        same_table(r, array_table(a, what@)),
        r matches Ok(g) ==> g.wf(),
{
    let vartype: u16 = match a.vartype {
        Some(t) => t,
        None => {
            return Err(about(what, " の要素型を取得できませんでした。"));
        },
    };
    if vartype != VT_VARIANT {
        let mut m = about(what, " の要素が Variant ではありません (vt=0x");
        text::push_hex4(&mut m, vartype);
        m.append(
            ")。\nDim arr() As Variant で宣言するか、Range(...).Value を渡してください。",
        );
        return Err(m);
    }
    let dims = a.bounds.len();
    if dims == 0 || dims > 2 {
        let mut m = about(what, " は 1 次元か 2 次元の配列である必要があります（実際: ");
        text::push_dec(&mut m, dims as u128);
        m.append(" 次元）。");
        return Err(m);
    }
    let first: SAFEARRAYBOUND = match a.bounds[0] {
        Some(b) => b,
        None => {
            return Err(bounds_unasked(what, 1));
        },
    };
    let rows: usize;
    let cols: usize;
    if dims == 1 {
        rows = 1;
        cols = first.cElements as usize;
    } else {
        let second: SAFEARRAYBOUND = match a.bounds[1] {
            Some(b) => b,
            None => {
                return Err(bounds_unasked(what, 2));
            },
        };
        rows = first.cElements as usize;
        cols = second.cElements as usize;
    }
    if rows == 0 || cols == 0 {
        return Err(about(what, " が空です。"));
    }
    match a.data {
        Some(SafeArrayData::Variants(d)) => {
            proof {
                assert(rows * cols == cols * rows) by (nonlinear_arith);
            }
            let cells = if dims == 1 {
                d
            } else {
                variant::transpose(d, cols, rows)
            };
            proof {
                if dims == 2 {
                    assert forall|k: int|
                        0 <= k < cells@.len() implies (#[trigger] cells@[k]).wf() by {
                        variant::lemma_split(k, rows as int, cols as int);
                        variant::lemma_inside(
                            k % cols as int,
                            k / cols as int,
                            cols as int,
                            rows as int,
                        );
                    }
                }
            }
            Ok(InputGrid { rows, cols, cells })
        },
        _ => Err(about(what, " の内容を読み取れませんでした。")),
    }
}

fn bounds_unasked(what: &str, d: u32) -> (r: String)
    ensures
        r@ == bounds_unknown(what@, d as int),
{
    let mut m = about(what, " の次元 ");
    text::push_dec(&mut m, d as u128);
    m.append(" の範囲を取得できませんでした。");
    m
}

fn to_grid(value: VARIANT_VALUE, vt: u16, what: &str) -> (r: Result<InputGrid, String>)
    requires
        value.fits(vt),
    ensures
        same_table(r, table(value, vt, what@)),
        r matches Ok(g) ==> g.wf(),
    decreases value,
{
    if oleaut::is_by_reference(vt) && oleaut::basic_type(vt) == VT_VARIANT {
        return match value {
            VARIANT_VALUE::ByRef(Some(b)) => match *b {
                Referent::Variant(v) => to_grid(v.value, v.vt, what),
                Referent::Value(_) => Err(about(what, " が空です。")),
            },
            _ => Err(about(what, " が空です。")),
        };
    }
    if !oleaut::is_of_array(vt) {
        return Err(
            about(
                what,
                " は配列ではありません。\nVBA の Array(...) かシートの範囲（Range(\"A1:C10\").Value）を渡してください。",
            ),
        );
    }
    match value {
        VARIANT_VALUE::Array(Some(a)) => array_to_grid(a, what),
        _ => Err(about(what, " が空の配列です。")),
    }
}

/// Reads a one- or two-dimensional array of variants as a table. `what` names
/// the argument in the messages.
pub fn read_input_grid(v: VARIANT, what: &str) -> (r: Result<InputGrid, String>)
    requires
        v.wf(),
    ensures
        same_table(r, table(v.value, v.vt, what@)),
        r matches Ok(g) ==> g.wf(),
{
    to_grid(v.value, v.vt, what)
}

// ---------------------------------------------------------------------------
// Laws
// ---------------------------------------------------------------------------

/// A table handed out as an array is read back as the same table: each cell at
/// its row and its column.
pub proof fn law_grid_round_trip(g: variant::Grid, v: VARIANT, what: Seq<char>)
    requires
        g.whole(),
        g.fits_excel(),
        g.row_count() > 0,
        g.cols > 0,
        g.is_array_of(v),
    ensures
        table(v.value, v.vt, what) == Ok::<GridView, Seq<char>>(
            GridView { rows: g.row_count(), cols: g.cols as int, cells: g.cells@ },
        ),
{
    variant::law_transposed_twice(g.cells@, g.row_count(), g.cols as int);
}

/// A message names the place of a cell by its row and its column, both counted from 1.
pub proof fn law_positions_count_from_one(row: int, col: int)
    requires
        row >= 0,
        col >= 0,
    ensures
        position_text(row, col) == text::dec((row + 1) as nat) + " 行 "@ + text::dec(
            (col + 1) as nat,
        ) + " 列目"@,
        text::digits_value(text::dec((row + 1) as nat)) == row + 1,
        text::digits_value(text::dec((col + 1) as nat)) == col + 1,
{
    text::law_decimal_digits_are_exact((row + 1) as nat);
    text::law_decimal_digits_are_exact((col + 1) as nat);
}

/// An array of variants in one dimension is one row, in its order.
pub proof fn law_one_dimension_is_a_row(a: SAFEARRAY, d: Vec<VARIANT>, what: Seq<char>)
    requires
        a.vartype == Some(12u16),
        a.data == Some(SafeArrayData::Variants(d)),
        a.bounds@.len() == 1,
        a.bounds@[0] matches Some(b) && b.cElements == d@.len(),
        d@.len() > 0,
    ensures
        table(VARIANT_VALUE::Array(Some(a)), 0x200C, what) == Ok::<GridView, Seq<char>>(
            GridView { rows: 1, cols: d@.len() as int, cells: d@ },
        ),
{
}

/// An array of variants in two dimensions is a table: the first dimension counts its
/// rows, the second its columns. In VBA's memory the rows change fastest; in the table
/// the columns do.
pub proof fn law_two_dimensions_are_a_table(
    a: SAFEARRAY,
    d: Vec<VARIANT>,
    rows: u32,
    cols: u32,
    what: Seq<char>,
)
    requires
        a.vartype == Some(12u16),
        a.data == Some(SafeArrayData::Variants(d)),
        a.bounds@.len() == 2,
        a.bounds@[0] matches Some(b) && b.cElements == rows,
        a.bounds@[1] matches Some(b) && b.cElements == cols,
        rows > 0,
        cols > 0,
        d@.len() == rows * cols,
    ensures
        table(VARIANT_VALUE::Array(Some(a)), 0x200C, what) matches Ok(g) && g.rows == rows && g.cols
            == cols && g.cells.len() == rows * cols && forall|i: int, j: int|
            0 <= i < rows && 0 <= j < cols ==> #[trigger] g.cells[i * cols + j] == d@[j * rows + i],
{
    let g = table(VARIANT_VALUE::Array(Some(a)), 0x200C, what)->Ok_0;
    assert(rows * cols == cols * rows) by (nonlinear_arith);
    assert forall|i: int, j: int| 0 <= i < rows && 0 <= j < cols implies #[trigger] g.cells[i * cols
        + j] == d@[j * rows + i] by {
        variant::law_transposed_at(d@, cols as int, rows as int, j, i);
    }
}

/// What is no array of variants in one or two dimensions with something in it is
/// refused: another value, another type of elements, another number of dimensions, an
/// array whose size cannot be asked, and an empty one.
pub proof fn law_other_arrays_are_refused(a: SAFEARRAY, x: VARIANT_VALUE, vt: u16, what: Seq<char>)
    ensures
        vt & 0x2000 == 0 && vt & 0x4000 == 0 ==> table(x, vt, what) is Err,
        a.vartype != Some(12u16) ==> table(VARIANT_VALUE::Array(Some(a)), 0x200C, what) is Err,
        a.bounds@.len() != 1 && a.bounds@.len() != 2 ==> table(
            VARIANT_VALUE::Array(Some(a)),
            0x200C,
            what,
        ) is Err,
        (exists|d: int|
            0 <= d < a.bounds@.len() && (#[trigger] a.bounds@[d] matches Some(b)
                ==> b.cElements == 0)) ==> table(VARIANT_VALUE::Array(Some(a)), 0x200C, what) is Err,
        table(VARIANT_VALUE::Array(None), 0x200C, what) is Err,
{
    oleaut::law_type_codes_have_flags(vt);
}

/// A pointer to an array of variants is read as that array.
pub proof fn law_pointers_to_arrays_are_followed(v: VARIANT, to: Box<Referent>, what: Seq<char>)
    requires
        *to == Referent::Variant(v),
    ensures
        table(VARIANT_VALUE::ByRef(Some(to)), 0x400C, what) == table(v.value, v.vt, what),
        table(VARIANT_VALUE::ByRef(None), 0x400C, what) is Err,
{
    reveal_with_fuel(table, 2);
}

/// Integers keep their value, whatever their type: a number `n` that its type can
/// hold, stored in the low bytes in two's complement, becomes the integer `n`. Bytes
/// above those of the type do not count.
pub proof fn law_integers_keep_their_value(bits: u64, n: int, place: Seq<char>)
    ensures
        ({
            let taken = |vt: u16| value_of(VARIANT_VALUE::Bits(bits), vt, place);
            let whole = Ok::<EngineValue, Seq<char>>(EngineValue::Integer(n));
            // One byte.
            &&& -0x80 <= n < 0x80 && (bits - n) % 0x100 == 0 ==> taken(16) == whole
            &&& 0 <= n < 0x100 && (bits - n) % 0x100 == 0 ==> taken(17) == whole
            // Two bytes.
            &&& -0x8000 <= n < 0x8000 && (bits - n) % 0x1_0000 == 0 ==> taken(2) == whole
            &&& 0 <= n < 0x1_0000 && (bits - n) % 0x1_0000 == 0 ==> taken(18) == whole
            // Four bytes.
            &&& -0x8000_0000 <= n < 0x8000_0000 && (bits - n) % 0x1_0000_0000 == 0 ==> taken(3)
                == whole && taken(22) == whole
            &&& 0 <= n < 0x1_0000_0000 && (bits - n) % 0x1_0000_0000 == 0 ==> taken(19) == whole
                && taken(23) == whole
            // Eight bytes.
            &&& i64::MIN <= n <= i64::MAX && (bits - n) % 0x1_0000_0000_0000_0000 == 0 ==> taken(20)
                == whole
            &&& 0 <= n <= i64::MAX && n == bits ==> taken(21) == whole
        }),
{
    lemma_congruent(bits as int, n, 0x100);
    lemma_congruent(bits as int, n, 0x1_0000);
    lemma_congruent(bits as int, n, 0x1_0000_0000);
    lemma_congruent(bits as int, n, 0x1_0000_0000_0000_0000);
}

proof fn lemma_congruent(a: int, n: int, size: int)
    requires
        size > 0,
    ensures
        (a - n) % size == 0 && 0 <= n < size ==> a % size == n,
        (a - n) % size == 0 && -size <= n < 0 ==> a % size == n + size,
{
    let q = (a - n) / size;
    vstd::arithmetic::div_mod::lemma_fundamental_div_mod(a - n, size);
    assert(size * q == q * size) by (nonlinear_arith);
    assert((q - 1) * size == q * size - size) by (nonlinear_arith);
    if (a - n) % size == 0 {
        if 0 <= n < size {
            vstd::arithmetic::div_mod::lemma_fundamental_div_mod_converse(a, size, q, n);
        } else if -size <= n < 0 {
            vstd::arithmetic::div_mod::lemma_fundamental_div_mod_converse(
                a,
                size,
                q - 1,
                n + size,
            );
        }
    }
}

/// A number of eight bytes without sign that no integer of the engine holds becomes
/// text with every digit.
pub proof fn law_large_numbers_become_text(bits: u64, place: Seq<char>)
    requires
        bits > i64::MAX,
    ensures
        value_of(VARIANT_VALUE::Bits(bits), 21, place) == Ok::<_, Seq<char>>(
            EngineValue::Text(text::dec(bits as nat)),
        ),
        text::digits_value(text::dec(bits as nat)) == bits,
{
    text::law_decimal_digits_are_exact(bits as nat);
}

/// The other values: an empty cell and NULL are NULL, a flag is true unless its two
/// bytes are zero, a double keeps its bits, a currency or decimal value is the double
/// that OLE makes of it, and a text is the text.
pub proof fn law_other_values_keep_their_meaning(value: VARIANT_VALUE, place: Seq<char>)
    ensures
        value_of(value, 0, place) == Ok::<_, Seq<char>>(EngineValue::Null),
        value_of(value, 1, place) == Ok::<_, Seq<char>>(EngineValue::Null),
        value matches VARIANT_VALUE::Bits(b) ==> value_of(value, 11, place) == Ok::<_, Seq<char>>(
            EngineValue::Bool(b as int % 0x1_0000 != 0),
        ),
        value matches VARIANT_VALUE::Double(x) ==> {
            &&& value_of(value, 4, place) == Ok::<_, Seq<char>>(EngineValue::Double(x))
            &&& value_of(value, 5, place) == Ok::<_, Seq<char>>(EngineValue::Double(x))
        },
        value matches VARIANT_VALUE::Converted(x) ==> match x {
            Some(y) => {
                &&& value_of(value, 6, place) == Ok::<_, Seq<char>>(EngineValue::Double(y))
                &&& value_of(value, 14, place) == Ok::<_, Seq<char>>(EngineValue::Double(y))
            },
            None => value_of(value, 6, place) is Err && value_of(value, 14, place) is Err,
        },
        forall|s: Seq<char>, u: Vec<u16>|
            value == VARIANT_VALUE::Bstr(Some(u)) && u@ == #[trigger] text::utf16(s)
                ==> #[trigger] value_of(VARIANT_VALUE::Bstr(Some(u)), 8, place) == Ok::<_, Seq<char>>(
                EngineValue::Text(s),
            ),
        value == VARIANT_VALUE::Bstr(None) ==> value_of(value, 8, place) == Ok::<_, Seq<char>>(
            EngineValue::Text(Seq::empty()),
        ),
{
    assert forall|s: Seq<char>, u: Vec<u16>|
        value == VARIANT_VALUE::Bstr(Some(u)) && u@ == #[trigger] text::utf16(
            s,
        ) implies #[trigger] value_of(VARIANT_VALUE::Bstr(Some(u)), 8, place) == Ok::<_, Seq<char>>(
        EngineValue::Text(s),
    ) by {
        text::law_utf16_round_trip(s);
    }
}

/// A date becomes its instant: `n` days from 1899-12-30 are `n - 25569` days of
/// 86400 seconds from 1970-01-01, a time of day is on 1899-12-30, and what is no date
/// is an error.
pub proof fn law_dates_become_their_instant(d: OleDate, place: Seq<char>)
    ensures
        d matches OleDate::Serial(n) ==> -100_000_000 <= n <= 100_000_000 ==> value_of(
            VARIANT_VALUE::Date(d),
            7,
            place,
        ) == Ok::<_, Seq<char>>(EngineValue::Timestamp((n - 25_569) * 86_400 * 1_000_000)),
        d matches OleDate::Timestamp(t) ==> value_of(VARIANT_VALUE::Date(d), 7, place) == Ok::<
            _,
            Seq<char>,
        >(EngineValue::Timestamp(t as int)),
        d matches OleDate::TimeOfDay(t) ==> 0 <= t ==> value_of(VARIANT_VALUE::Date(d), 7, place)
            == Ok::<_, Seq<char>>(EngineValue::Timestamp(t - 25_569 * 86_400 * 1_000_000)),
        d is Invalid ==> value_of(VARIANT_VALUE::Date(d), 7, place) is Err,
{
}

/// A pointer stands for what it points to: a variant for that variant, and a bare
/// value for a value of the same type. The null pointer is NULL.
pub proof fn law_pointers_are_followed(
    v: VARIANT,
    to_variant: Box<Referent>,
    x: VARIANT_VALUE,
    to_value: Box<Referent>,
    place: Seq<char>,
)
    requires
        *to_variant == Referent::Variant(v),
        *to_value == Referent::Value(x),
    ensures
        value_of(VARIANT_VALUE::ByRef(Some(to_variant)), 0x400C, place) == value_of(
            v.value,
            v.vt,
            place,
        ),
        forall|vt: u16|
            vt == 3 || vt == 5 || vt == 7 || vt == 8 || vt == 11 || vt == 20 ==> value_of(
                VARIANT_VALUE::ByRef(Some(to_value)),
                (0x4000 + vt) as u16,
                place,
            ) == #[trigger] value_of(x, vt, place),
        value_of(VARIANT_VALUE::ByRef(None), 0x400C, place) == Ok::<_, Seq<char>>(EngineValue::Null),
{
    reveal_with_fuel(value_of, 2);
}

/// An array of bytes becomes a BLOB of the bytes of its first dimension; the null
/// pointer is NULL, and any other array is refused.
pub proof fn law_byte_arrays_become_blobs(a: SAFEARRAY, bytes: Vec<u8>, n: u32, place: Seq<char>)
    requires
        a.bounds@.len() > 0,
        a.bounds@[0] matches Some(b) && b.cElements == n,
        a.data == Some(SafeArrayData::Bytes(bytes)),
    ensures
        value_of(VARIANT_VALUE::Array(Some(a)), 0x2011, place) == Ok::<_, Seq<char>>(
            EngineValue::Blob(bytes@.take(n as int)),
        ),
        value_of(VARIANT_VALUE::Array(None), 0x2011, place) == Ok::<_, Seq<char>>(EngineValue::Null),
        value_of(VARIANT_VALUE::Array(Some(a)), 0x200C, place) is Err,
{
}

/// What is taken for a value at all: nothing but these types, and what a pointer to
/// them or to a variant holds.
pub proof fn law_only_values_are_taken(value: VARIANT_VALUE, vt: u16, place: Seq<char>)
    requires
        !oleaut::by_reference(vt),
        !oleaut::of_array(vt),
        value_of(value, vt, place) is Ok,
    ensures
        0 <= vt <= 8 || vt == 11 || vt == 14 || 16 <= vt <= 23,
{
}

/// A cell with an Excel error, and an object, never becomes a value.
pub proof fn law_errors_and_objects_are_rejected(v: VARIANT, place: Seq<char>)
    requires
        v.vt == VT_ERROR || v.vt == VT_DISPATCH || v.vt == VT_UNKNOWN,
    ensures
        value_of(v.value, v.vt, place) is Err,
{
}

/// What a value becomes does not depend on where it stands; only the message does.
pub(crate) proof fn lemma_place_is_for_messages(
    value: VARIANT_VALUE,
    vt: u16,
    here: Seq<char>,
    there: Seq<char>,
)
    ensures
        value_of(value, vt, here) is Ok <==> value_of(value, vt, there) is Ok,
        value_of(value, vt, here) is Ok ==> value_of(value, vt, here) == value_of(value, vt, there),
    decreases value,
{
    if oleaut::by_reference(vt) {
        match value {
            VARIANT_VALUE::ByRef(Some(b)) => match *b {
                Referent::Variant(v) => {
                    lemma_place_is_for_messages(v.value, v.vt, here, there);
                },
                Referent::Value(x) => {
                    lemma_place_is_for_messages(x, (vt - VT_BYREF) as u16, here, there);
                },
            },
            _ => {},
        }
    }
}

/// Every refusal of a value begins with the place where it stands.
pub proof fn law_refused_values_are_placed(value: VARIANT_VALUE, vt: u16, place: Seq<char>)
    requires
        value_of(value, vt, place) is Err,
    ensures
        place.is_prefix_of(value_of(value, vt, place)->Err_0),
        value_of(value, vt, place)->Err_0 != place,
    decreases value,
{
    lemma_messages_say_something();
    if oleaut::by_reference(vt) {
        match value {
            VARIANT_VALUE::ByRef(Some(b)) => match *b {
                Referent::Variant(v) => {
                    law_refused_values_are_placed(v.value, v.vt, place);
                },
                Referent::Value(x) => {
                    if oleaut::readable_through_pointer((vt - VT_BYREF) as u16) {
                        law_refused_values_are_placed(x, (vt - VT_BYREF) as u16, place);
                    }
                },
            },
            _ => {},
        }
    }
}

proof fn lemma_messages_say_something()
    ensures
        " (vt=0x"@.len() > 0,
        ": バイト配列の範囲を取得できませんでした"@.len() > 0,
        ": バイト配列を読み取れませんでした"@.len() > 0,
        ": 日付の値が不正です"@.len() > 0,
        ": セルがエラー値（#N/A、#DIV/0! など）です。\n修正するか、IFERROR で空欄に置き換えてから渡してください。"@.len()
            > 0,
        ": オブジェクトは値として渡せません。Range ではなく Range.Value を渡してください。"@.len()
            > 0,
        ": 配列は値として渡せません。1 つのセルの値を指定してください。"@.len() > 0,
{
    reveal_strlit(" (vt=0x");
    reveal_strlit(": バイト配列の範囲を取得できませんでした");
    reveal_strlit(": バイト配列を読み取れませんでした");
    reveal_strlit(": 日付の値が不正です");
    reveal_strlit(
        ": セルがエラー値（#N/A、#DIV/0! など）です。\n修正するか、IFERROR で空欄に置き換えてから渡してください。",
    );
    reveal_strlit(
        ": オブジェクトは値として渡せません。Range ではなく Range.Value を渡してください。",
    );
    reveal_strlit(
        ": 配列は値として渡せません。1 つのセルの値を指定してください。",
    );
}

/// Every refusal of an array begins with what the array is for.
pub proof fn law_refused_arrays_are_named(value: VARIANT_VALUE, vt: u16, what: Seq<char>)
    requires
        table(value, vt, what) is Err,
    ensures
        what.is_prefix_of(table(value, vt, what)->Err_0),
    decreases value,
{
    if oleaut::by_reference(vt) && oleaut::basic(vt) == VT_VARIANT {
        if let VARIANT_VALUE::ByRef(Some(b)) = value {
            if let Referent::Variant(v) = *b {
                law_refused_arrays_are_named(v.value, v.vt, what);
            }
        }
    }
}

/// The pointers of a value, followed to its end.
pub open spec fn followed(value: VARIANT_VALUE, vt: u16) -> (VARIANT_VALUE, u16)
    decreases value,
{
    if oleaut::by_reference(vt) {
        match value {
            VARIANT_VALUE::ByRef(Some(b)) => match *b {
                Referent::Variant(v) => followed(v.value, v.vt),
                Referent::Value(x) => (x, (vt - VT_BYREF) as u16),
            },
            _ => (value, vt),
        }
    } else {
        (value, vt)
    }
}

/// NULL is only made of an empty cell, a NULL, or a pointer to nothing: nothing
/// else is lost in silence.
pub proof fn law_null_is_never_made_up(value: VARIANT_VALUE, vt: u16, place: Seq<char>)
    requires
        value.fits(vt),
        value_of(value, vt, place) == Ok::<EngineValue, Seq<char>>(EngineValue::Null),
    ensures
        ({
            let end = followed(value, vt);
            ||| end.1 == VT_EMPTY
            ||| end.1 == VT_NULL
            ||| end.0 == VARIANT_VALUE::ByRef(None)
            ||| end.0 == VARIANT_VALUE::Array(None)
        }),
    decreases value,
{
    if oleaut::by_reference(vt) {
        match value {
            VARIANT_VALUE::ByRef(Some(b)) => match *b {
                Referent::Variant(v) => {
                    law_null_is_never_made_up(v.value, v.vt, place);
                },
                Referent::Value(x) => {
                    if oleaut::readable_through_pointer((vt - VT_BYREF) as u16) {
                        law_null_is_never_made_up(x, (vt - VT_BYREF) as u16, place);
                    }
                },
            },
            _ => {},
        }
    }
}

/// What a query gives can be handed back: each shown value is taken for the same
/// value of the engine. Of an instant this is said in microseconds, before it becomes
/// a double in VBA's memory: from the OLE date 65536 on, in the year 2079,
/// neighbouring doubles are more than a microsecond apart.
pub proof fn law_shown_values_come_back(v: VARIANT, place: Seq<char>)
    ensures
        v@ == oleaut::shown_null() ==> value_of(v.value, v.vt, place) == Ok::<_, Seq<char>>(
            EngineValue::Null,
        ),
        forall|b: bool|
            v@ == #[trigger] oleaut::shown_bool(b) ==> value_of(v.value, v.vt, place) == Ok::<
                _,
                Seq<char>,
            >(EngineValue::Bool(b)),
        forall|n: int|
            -0x8000_0000 <= n < 0x8000_0000 && v@ == #[trigger] oleaut::shown_i32(n) ==> value_of(
                v.value,
                v.vt,
                place,
            ) == Ok::<_, Seq<char>>(EngineValue::Integer(n)),
        forall|n: int|
            i64::MIN <= n <= i64::MAX && v@ == #[trigger] oleaut::shown_i64(n) ==> value_of(
                v.value,
                v.vt,
                place,
            ) == Ok::<_, Seq<char>>(EngineValue::Integer(n)),
        forall|x: Number|
            v@ == #[trigger] oleaut::shown_double(x) ==> value_of(v.value, v.vt, place) == Ok::<
                _,
                Seq<char>,
            >(EngineValue::Double(x)),
        forall|t: i64|
            v@ == #[trigger] oleaut::shown_date(OleDate::Timestamp(t)) ==> value_of(
                v.value,
                v.vt,
                place,
            ) == Ok::<_, Seq<char>>(EngineValue::Timestamp(t as int)),
        forall|s: Seq<char>|
            v@ == #[trigger] oleaut::shown_text(s) ==> value_of(v.value, v.vt, place) == Ok::<
                _,
                Seq<char>,
            >(EngineValue::Text(s)),
        forall|b: Seq<u8>|
            0 < b.len() <= u32::MAX && v@ == #[trigger] oleaut::shown_bytes(b) ==> value_of(
                v.value,
                v.vt,
                place,
            ) == Ok::<_, Seq<char>>(EngineValue::Blob(b)),
{
    assert forall|s: Seq<char>| v@ == #[trigger] oleaut::shown_text(s) implies value_of(
        v.value,
        v.vt,
        place,
    ) == Ok::<_, Seq<char>>(EngineValue::Text(s)) by {
        text::law_utf16_round_trip(s);
    }
    assert forall|b: Seq<u8>|
        0 < b.len() <= u32::MAX && v@ == #[trigger] oleaut::shown_bytes(b) implies value_of(
        v.value,
        v.vt,
        place,
    ) == Ok::<_, Seq<char>>(EngineValue::Blob(b)) by {
        assert(b.take(b.len() as int) == b);
    }
}

} // verus!
