//! OLE Automation values: `VARIANT` and `SAFEARRAY` as VBA knows them.
//!
//! A `VARIANT` here is a type code and what the code says the value holds. The
//! memory behind BSTRs and arrays is held directly, so no pointer is involved;
//! the layout that VBA sees is made at the boundary. Doubles are carried as
//! what they are computed from (or as their bits), never as floating point.
use crate::text;
use vstd::prelude::*;

verus! {

// ---------------------------------------------------------------------------
// Type codes
// ---------------------------------------------------------------------------

pub const VT_EMPTY: u16 = 0;
pub const VT_NULL: u16 = 1;
pub const VT_I2: u16 = 2;
pub const VT_I4: u16 = 3;
pub const VT_R4: u16 = 4;
pub const VT_R8: u16 = 5;
pub const VT_CY: u16 = 6;
pub const VT_DATE: u16 = 7;
pub const VT_BSTR: u16 = 8;
pub const VT_DISPATCH: u16 = 9;
/// What `Range.Value` gives for a cell such as `#N/A`.
pub const VT_ERROR: u16 = 10;
pub const VT_BOOL: u16 = 11;
pub const VT_VARIANT: u16 = 12;
pub const VT_UNKNOWN: u16 = 13;
pub const VT_DECIMAL: u16 = 14;
pub const VT_I1: u16 = 16;
pub const VT_UI1: u16 = 17;
pub const VT_UI2: u16 = 18;
pub const VT_UI4: u16 = 19;
pub const VT_I8: u16 = 20;
pub const VT_UI8: u16 = 21;
pub const VT_INT: u16 = 22;
pub const VT_UINT: u16 = 23;
/// Set where the value is an array.
pub const VT_ARRAY: u16 = 0x2000;
/// Set where the value is a pointer to the value.
pub const VT_BYREF: u16 = 0x4000;
/// How many basic type codes there are: `vt % VT_TYPES` is the basic type.
pub const VT_TYPES: u16 = 0x1000;

/// `True` in VBA: all sixteen bits.
pub const VARIANT_TRUE: i16 = -1;
pub const VARIANT_FALSE: i16 = 0;

/// Whether the code says that the value is behind a pointer.
pub open spec fn by_reference(vt: u16) -> bool {
    vt / VT_BYREF % 2 == 1
}

/// Whether the code says that the value is an array.
pub open spec fn of_array(vt: u16) -> bool {
    vt / VT_ARRAY % 2 == 1
}

/// The basic type of a code, without its flags.
pub open spec fn basic(vt: u16) -> u16 {
    vt % VT_TYPES
}

/// Whether the code says that the value is behind a pointer.
pub fn is_by_reference(vt: u16) -> (r: bool)
    ensures
        r == by_reference(vt),
{
    vt / VT_BYREF % 2 == 1
}

/// Whether the code says that the value is an array.
pub fn is_of_array(vt: u16) -> (r: bool)
    ensures
        r == of_array(vt),
{
    vt / VT_ARRAY % 2 == 1
}

/// The basic type of a code, without its flags.
pub fn basic_type(vt: u16) -> (r: u16)
    ensures
        r == basic(vt),
{
    vt % VT_TYPES
}

// ---------------------------------------------------------------------------
// Values
// ---------------------------------------------------------------------------

/// A double.
#[derive(Debug, Clone, Copy, PartialEq, Eq, Structural)]
pub enum Number {
    /// The double with these bits.
    Bits(u64),
    /// The double equal to the single with these bits.
    Single(u32),
    /// The double nearest to `unscaled`, divided by that of ten to the `scale`.
    Decimal { unscaled: i128, scale: u8 },
}

/// An OLE date: a double that counts days from 1899-12-30.
#[derive(Debug, Clone, Copy, PartialEq, Eq, Structural)]
pub enum OleDate {
    /// A whole number of days.
    Serial(i64),
    /// An instant, in microseconds from 1970-01-01.
    Timestamp(i64),
    /// A time of day, in microseconds from midnight.
    TimeOfDay(i64),
    /// A double that is no finite number.
    Invalid,
}

/// One dimension of an array.
#[derive(Debug, Clone, Copy, PartialEq, Eq, Structural)]
#[allow(non_snake_case)]
pub struct SAFEARRAYBOUND {
    /// How many elements there are.
    pub cElements: u32,
    /// The index of the first.
    pub lLbound: i32,
}

/// The elements of an array, in the order in which they lie in memory: the first
/// index changes fastest.
#[derive(Debug)]
pub enum SafeArrayData {
    Variants(Vec<VARIANT>),
    Bytes(Vec<u8>),
    /// Elements that nothing here reads.
    Other,
}

/// An array. What could not be asked of it is `None`.
#[derive(Debug)]
pub struct SAFEARRAY {
    /// The type code of the elements.
    pub vartype: Option<u16>,
    /// The dimensions, the first one first.
    pub bounds: Vec<Option<SAFEARRAYBOUND>>,
    /// The elements.
    pub data: Option<SafeArrayData>,
}

/// What a pointer in a `VARIANT` points to.
#[derive(Debug)]
pub enum Referent {
    Variant(VARIANT),
    Value(VARIANT_VALUE),
}

/// What a `VARIANT` holds.
#[derive(Debug)]
#[allow(non_camel_case_types)]
pub enum VARIANT_VALUE {
    /// The first eight of the sixteen bytes, in little-endian order. The others
    /// are zero.
    Bits(u64),
    Double(Number),
    Date(OleDate),
    /// The UTF-16 code units; `None` is the null pointer.
    Bstr(Option<Vec<u16>>),
    /// `None` is the null pointer.
    Array(Option<SAFEARRAY>),
    /// `None` is the null pointer.
    ByRef(Option<Box<Referent>>),
    /// A currency or decimal value, as the double that OLE makes of it; `None`
    /// where it makes none.
    Converted(Option<Number>),
}

/// A value of VBA's type `Variant`.
#[derive(Debug)]
pub struct VARIANT {
    pub vt: u16,
    pub value: VARIANT_VALUE,
}

/// What a `VARIANT` holds, without the memory that holds it.
#[verifier::ext_equal]
pub enum Content {
    Bits(u64),
    Double(Number),
    Date(OleDate),
    Text(Option<Seq<u16>>),
    Bytes { vartype: Option<u16>, bounds: Seq<Option<SAFEARRAYBOUND>>, bytes: Seq<u8> },
    Other(VARIANT_VALUE),
}

/// A value as VBA sees it.
#[verifier::ext_equal]
pub struct Shown {
    pub vt: u16,
    pub content: Content,
}

impl View for VARIANT {
    type V = Shown;

    open spec fn view(&self) -> Shown {
        Shown {
            vt: self.vt,
            content: match self.value {
                VARIANT_VALUE::Bits(b) => Content::Bits(b),
                VARIANT_VALUE::Double(x) => Content::Double(x),
                VARIANT_VALUE::Date(d) => Content::Date(d),
                VARIANT_VALUE::Bstr(None) => Content::Text(None),
                VARIANT_VALUE::Bstr(Some(u)) => Content::Text(Some(u@)),
                VARIANT_VALUE::Array(Some(a)) => match a.data {
                    Some(SafeArrayData::Bytes(b)) => Content::Bytes {
                        vartype: a.vartype,
                        bounds: a.bounds@,
                        bytes: b@,
                    },
                    _ => Content::Other(self.value),
                },
                _ => Content::Other(self.value),
            },
        }
    }
}

/// An empty value.
pub open spec fn shown_empty() -> Shown {
    Shown { vt: VT_EMPTY, content: Content::Bits(0) }
}

/// The NULL of SQL.
pub open spec fn shown_null() -> Shown {
    Shown { vt: VT_NULL, content: Content::Bits(0) }
}

/// A `Long`: a number of four bytes, the others zero.
pub open spec fn shown_i32(n: int) -> Shown {
    Shown { vt: VT_I4, content: Content::Bits(complement(n, 0x1_0000_0000) as u64) }
}

/// A `LongLong`: a number of eight bytes.
pub open spec fn shown_i64(n: int) -> Shown {
    Shown { vt: VT_I8, content: Content::Bits(complement(n, 0x1_0000_0000_0000_0000) as u64) }
}

/// A `Double`.
pub open spec fn shown_double(x: Number) -> Shown {
    Shown { vt: VT_R8, content: Content::Double(x) }
}

/// A `Date`.
pub open spec fn shown_date(d: OleDate) -> Shown {
    Shown { vt: VT_DATE, content: Content::Date(d) }
}

/// A `Boolean`: true sets all sixteen bits, and no others.
pub open spec fn shown_bool(b: bool) -> Shown {
    Shown { vt: VT_BOOL, content: Content::Bits(if b { 0xFFFF } else { 0 }) }
}

/// A `String`, in UTF-16.
pub open spec fn shown_text(s: Seq<char>) -> Shown {
    Shown { vt: VT_BSTR, content: Content::Text(Some(text::utf16(s))) }
}

/// An array of bytes, counted from 0.
pub open spec fn shown_bytes(bytes: Seq<u8>) -> Shown {
    Shown {
        vt: (VT_ARRAY + VT_UI1) as u16,
        content: Content::Bytes {
            vartype: Some(VT_UI1),
            bounds: seq![Some(SAFEARRAYBOUND { cElements: bytes.len() as u32, lLbound: 0 })],
            bytes,
        },
    }
}

/// The types that can be read through a pointer to the bare value.
pub open spec fn readable_through_pointer(vt: u16) -> bool {
    ||| vt == VT_I4
    ||| vt == VT_I8
    ||| vt == VT_R8
    ||| vt == VT_DATE
    ||| vt == VT_BOOL
    ||| vt == VT_BSTR
}

/// The types whose value is a number or flag in the first eight bytes.
pub open spec fn is_scalar_type(vt: u16) -> bool {
    ||| vt == VT_BOOL
    ||| vt == VT_I1
    ||| vt == VT_I2
    ||| vt == VT_I4
    ||| vt == VT_INT
    ||| vt == VT_I8
    ||| vt == VT_UI1
    ||| vt == VT_UI2
    ||| vt == VT_UI4
    ||| vt == VT_UINT
    ||| vt == VT_UI8
}

impl VARIANT {
    /// The value is what the type code says.
    pub open spec fn wf(self) -> bool {
        self.value.fits(self.vt)
    }
}

impl VARIANT_VALUE {
    /// The value is what the type code `vt` says.
    pub open spec fn fits(self, vt: u16) -> bool
        decreases self,
    {
        if by_reference(vt) {
            match self {
                VARIANT_VALUE::ByRef(None) => true,
                VARIANT_VALUE::ByRef(Some(b)) => match *b {
                    Referent::Variant(v) => basic(vt) == VT_VARIANT && v.value.fits(v.vt),
                    Referent::Value(x) => basic(vt) != VT_VARIANT && (readable_through_pointer(
                        (vt - VT_BYREF) as u16,
                    ) ==> x.fits((vt - VT_BYREF) as u16)),
                },
                _ => false,
            }
        } else if of_array(vt) {
            match self {
                VARIANT_VALUE::Array(None) => true,
                VARIANT_VALUE::Array(Some(a)) => a.wf() && (basic(vt) == VT_UI1 ==> match a.data {
                    Some(SafeArrayData::Bytes(_)) => true,
                    None => true,
                    _ => false,
                }),
                _ => false,
            }
        } else if is_scalar_type(vt) {
            self is Bits
        } else if vt == VT_R4 || vt == VT_R8 {
            self is Double
        } else if vt == VT_DATE {
            self is Date
        } else if vt == VT_BSTR {
            self is Bstr
        } else if vt == VT_CY || vt == VT_DECIMAL {
            self is Converted
        } else {
            true
        }
    }
}

impl SAFEARRAY {
    /// Upper bounds are 32-bit numbers, and the elements are as many as the
    /// dimensions say.
    pub open spec fn wf(self) -> bool
        decreases self,
    {
        &&& forall|d: int|
            0 <= d < self.bounds@.len() ==> (#[trigger] self.bounds@[d] matches Some(b)
                ==> b.cElements <= 0x7FFF_FFFF)
        &&& match self.data {
            None => true,
            Some(SafeArrayData::Variants(v)) => {
                &&& self.vartype == Some(VT_VARIANT)
                &&& self.bounds@.len() == 1 ==> (self.bounds@[0] matches Some(b)
                    ==> v@.len() == b.cElements)
                &&& self.bounds@.len() == 2 ==> (self.bounds@[0] matches Some(b)
                    ==> self.bounds@[1] matches Some(c) ==> v@.len() == b.cElements * c.cElements)
                &&& forall|i: int|
                    0 <= i < v@.len() ==> (#[trigger] v@[i]).value.fits(v@[i].vt)
            },
            Some(SafeArrayData::Bytes(v)) => {
                &&& self.vartype != Some(VT_VARIANT)
                &&& self.bounds@.len() > 0 ==> (self.bounds@[0] matches Some(b) ==> v@.len()
                    >= b.cElements)
            },
            Some(SafeArrayData::Other) => self.vartype != Some(VT_VARIANT),
        }
    }
}

// ---------------------------------------------------------------------------
// Reading the first eight bytes
// ---------------------------------------------------------------------------

/// The low `size` part of `bits` as a number without sign.
pub open spec fn low_part(bits: u64, size: int) -> int {
    bits as int % size
}

/// The low `size` part of `bits` as a number in two's complement.
pub open spec fn low_part_signed(bits: u64, size: int) -> int {
    let x = bits as int % size;
    if x >= size / 2 {
        x - size
    } else {
        x
    }
}

/// `n` in two's complement, within `size`.
pub open spec fn complement(n: int, size: int) -> int {
    if n < 0 {
        n + size
    } else {
        n
    }
}

/// The low byte as a signed number.
pub fn low_i8(bits: u64) -> (r: i8)
    ensures
        r == low_part_signed(bits, 0x100),
{
    let x = (bits % 0x100) as i16;
    if x >= 0x80 {
        (x - 0x100) as i8
    } else {
        x as i8
    }
}

/// The low two bytes as a signed number.
pub fn low_i16(bits: u64) -> (r: i16)
    ensures
        r == low_part_signed(bits, 0x1_0000),
{
    let x = (bits % 0x1_0000) as i32;
    if x >= 0x8000 {
        (x - 0x1_0000) as i16
    } else {
        x as i16
    }
}

/// The low four bytes as a signed number.
pub fn low_i32(bits: u64) -> (r: i32)
    ensures
        r == low_part_signed(bits, 0x1_0000_0000),
{
    let x = (bits % 0x1_0000_0000) as i64;
    if x >= 0x8000_0000 {
        (x - 0x1_0000_0000) as i32
    } else {
        x as i32
    }
}

/// All eight bytes as a signed number.
pub fn low_i64(bits: u64) -> (r: i64)
    ensures
        r == low_part_signed(bits, 0x1_0000_0000_0000_0000),
{
    if bits >= 0x8000_0000_0000_0000 {
        (bits as i128 - 0x1_0000_0000_0000_0000) as i64
    } else {
        bits as i64
    }
}

#[allow(non_snake_case)]
impl VARIANT_VALUE {
    /// The four-byte number in the value.
    pub fn lVal(&self) -> (r: i32)
        requires
            self is Bits,
        ensures
            r == low_part_signed(self->Bits_0, 0x1_0000_0000),
    {
        match self {
            VARIANT_VALUE::Bits(b) => low_i32(*b),
            _ => 0,
        }
    }

    /// The eight-byte number in the value.
    pub fn llVal(&self) -> (r: i64)
        requires
            self is Bits,
        ensures
            r == low_part_signed(self->Bits_0, 0x1_0000_0000_0000_0000),
    {
        match self {
            VARIANT_VALUE::Bits(b) => low_i64(*b),
            _ => 0,
        }
    }

    /// The flag in the value: zero is false, anything else is true.
    pub fn boolVal(&self) -> (r: i16)
        requires
            self is Bits,
        ensures
            r == low_part_signed(self->Bits_0, 0x1_0000),
    {
        match self {
            VARIANT_VALUE::Bits(b) => low_i16(*b),
            _ => 0,
        }
    }
}

// ---------------------------------------------------------------------------
// Making values
// ---------------------------------------------------------------------------

impl VARIANT {
    /// An empty value.
    pub fn empty() -> (r: Self)
        ensures
            r@ == shown_empty(),
            r.wf(),
    {
        VARIANT { vt: VT_EMPTY, value: VARIANT_VALUE::Bits(0) }
    }

    /// The NULL of SQL: `IsNull()` is true of it, and a cell shows nothing.
    pub fn null() -> (r: Self)
        ensures
            r@ == shown_null(),
            r.wf(),
    {
        VARIANT { vt: VT_NULL, value: VARIANT_VALUE::Bits(0) }
    }

    /// A `Long`. The bytes that it does not fill are zero.
    pub fn i32(v: i32) -> (r: Self)
        ensures
            r@ == shown_i32(v as int),
            r.wf(),
    {
        let b: u64 = if v < 0 {
            (v as i64 + 0x1_0000_0000) as u64
        } else {
            v as u64
        };
        VARIANT { vt: VT_I4, value: VARIANT_VALUE::Bits(b) }
    }

    /// A `LongLong`.
    pub fn i64(v: i64) -> (r: Self)
        ensures
            r@ == shown_i64(v as int),
            r.wf(),
    {
        let b: u64 = if v < 0 {
            (v as i128 + 0x1_0000_0000_0000_0000) as u64
        } else {
            v as u64
        };
        VARIANT { vt: VT_I8, value: VARIANT_VALUE::Bits(b) }
    }

    /// A `Double`.
    pub fn double(v: Number) -> (r: Self)
        ensures
            r@ == shown_double(v),
            r.wf(),
    {
        VARIANT { vt: VT_R8, value: VARIANT_VALUE::Double(v) }
    }

    /// A `Date`.
    pub fn date(v: OleDate) -> (r: Self)
        ensures
            r@ == shown_date(v),
            r.wf(),
    {
        VARIANT { vt: VT_DATE, value: VARIANT_VALUE::Date(v) }
    }

    /// A `Boolean`: true sets all sixteen bits, and no others.
    pub fn bool(v: bool) -> (r: Self)
        ensures
            r@ == shown_bool(v),
            r.wf(),
    {
        VARIANT { vt: VT_BOOL, value: VARIANT_VALUE::Bits(if v { 0xFFFF } else { 0 }) }
    }

    /// A `String`, in UTF-16.
    pub fn bstr(s: &str) -> (r: Self)
        ensures
            r@ == shown_text(s@),
            r.wf(),
    {
        VARIANT { vt: VT_BSTR, value: VARIANT_VALUE::Bstr(Some(text::to_utf16(s))) }
    }

    /// An array of variants.
    pub fn array(psa: SAFEARRAY) -> (r: Self)
        ensures
            r.vt == VT_ARRAY + VT_VARIANT,
            r.value == VARIANT_VALUE::Array(Some(psa)),
    {
        VARIANT { vt: VT_ARRAY + VT_VARIANT, value: VARIANT_VALUE::Array(Some(psa)) }
    }

    /// Gives up what the value holds.
    pub fn clear(&mut self)
        ensures
            final(self)@ == shown_empty(),
            final(self).wf(),
    {
        *self = VARIANT::empty();
    }
}

// ---------------------------------------------------------------------------
// Text at the boundary
// ---------------------------------------------------------------------------

/// The text of a BSTR; the null pointer is the empty text.
pub open spec fn bstr_text(bstr: Option<Vec<u16>>) -> Seq<char> {
    match bstr {
        None => Seq::empty(),
        Some(u) => text::utf16_text(u@),
    }
}

/// The text of a BSTR; the null pointer is the empty text.
pub fn bstr_to_string(bstr: &Option<Vec<u16>>) -> (r: String)
    ensures
        r@ == bstr_text(*bstr),
{
    match bstr {
        None => String::new(),
        Some(u) => text::from_utf16_lossy(u.as_slice()),
    }
}

/// The most code units that are read of a text handed in by pointer.
pub const MAX_WIDE_UNITS: usize = 33_554_432;

/// How many code units stand before the first zero, from `from` on; at most
/// `MAX_WIDE_UNITS`, and no more than there are.
pub open spec fn wide_length(units: Seq<u16>, from: int) -> int
    decreases units.len() - from,
{
    if from < 0 || from >= units.len() || from >= MAX_WIDE_UNITS || units[from] == 0 {
        from
    } else {
        wide_length(units, from + 1)
    }
}

/// The text at a pointer, given the code units found there: it ends before the
/// first zero. The null pointer has no text.
pub fn wide_ptr_to_string(p: Option<&[u16]>) -> (r: Option<String>)
    ensures
        r is Some <==> p is Some,
        p matches Some(units) ==> r->0@ == text::utf16_text(
            units@.take(wide_length(units@, 0)),
        ),
{
    match p {
        None => None,
        Some(units) => {
            let mut len: usize = 0;
            while len < units.len() && len < MAX_WIDE_UNITS && units[len] != 0
                invariant
                    len <= units@.len(),
                    wide_length(units@, 0) == wide_length(units@, len as int),
                decreases units@.len() - len,
            {
                len = len + 1;
            }
            let part = vstd::slice::slice_subrange(units, 0, len);
            Some(text::from_utf16_lossy(part))
        },
    }
}

// ---------------------------------------------------------------------------
// Laws
// ---------------------------------------------------------------------------

/// What VBA sees of each kind of value, by the codes of OLE Automation. Numbers are
/// in two's complement, the bytes that a value does not fill are zero, and `True` has
/// all sixteen bits.
pub proof fn law_values_as_vba_sees_them(n: int, x: Number, d: OleDate, s: Seq<char>, b: Seq<u8>)
    ensures
        shown_empty() == (Shown { vt: 0, content: Content::Bits(0) }),
        shown_null() == (Shown { vt: 1, content: Content::Bits(0) }),
        -0x8000_0000 <= n < 0x8000_0000 ==> {
            &&& shown_i32(n).vt == 3
            &&& shown_i32(n).content matches Content::Bits(bits) && bits < 0x1_0000_0000 && (bits
                - n) % 0x1_0000_0000 == 0
        },
        i64::MIN <= n <= i64::MAX ==> {
            &&& shown_i64(n).vt == 20
            &&& shown_i64(n).content matches Content::Bits(bits) && (bits - n)
                % 0x1_0000_0000_0000_0000 == 0
        },
        shown_double(x) == (Shown { vt: 5, content: Content::Double(x) }),
        shown_date(d) == (Shown { vt: 7, content: Content::Date(d) }),
        shown_bool(false) == (Shown { vt: 11, content: Content::Bits(0) }),
        shown_bool(true) == (Shown { vt: 11, content: Content::Bits(65_535) }),
        shown_text(s).vt == 8,
        shown_text(s).content matches Content::Text(Some(u)) && text::utf16_text(u) == s,
        b.len() <= u32::MAX ==> {
            &&& shown_bytes(b).vt == 0x2011
            &&& shown_bytes(b).content matches Content::Bytes { vartype, bounds, bytes } && vartype
                == Some(17u16) && bytes == b && bounds.len() == 1 && (bounds[0] matches Some(d)
                && d.cElements == b.len() && d.lLbound == 0)
        },
{
    text::law_utf16_round_trip(s);
}

/// The flags of a type code: 0x4000 for a pointer, 0x2000 for an array, and the low
/// twelve bits for the basic type.
pub proof fn law_type_codes_have_flags(vt: u16)
    ensures
        by_reference(vt) <==> vt & 0x4000 != 0,
        of_array(vt) <==> vt & 0x2000 != 0,
        basic(vt) == vt & 0x0FFF,
{
    assert(vt / 0x4000 % 2 == 1 <==> vt & 0x4000 != 0) by (bit_vector);
    assert(vt / 0x2000 % 2 == 1 <==> vt & 0x2000 != 0) by (bit_vector);
    assert(vt % 0x1000 == vt & 0x0FFF) by (bit_vector);
}

/// What is read of a text at a pointer ends at the first zero, and nothing before it
/// is one; without a zero all is read, up to the limit.
pub proof fn law_wide_text_ends_at_the_first_zero(units: Seq<u16>)
    ensures
        ({
            let n = wide_length(units, 0);
            &&& 0 <= n <= units.len()
            &&& n <= 33_554_432
            &&& forall|k: int| 0 <= k < n ==> #[trigger] units[k] != 0
            &&& n < units.len() && n < 33_554_432 ==> units[n] == 0
        }),
{
    lemma_wide_text(units, 0);
}

proof fn lemma_wide_text(units: Seq<u16>, from: int)
    requires
        0 <= from <= units.len(),
        from <= MAX_WIDE_UNITS,
    ensures
        ({
            let n = wide_length(units, from);
            &&& from <= n <= units.len()
            &&& n <= MAX_WIDE_UNITS
            &&& forall|k: int| from <= k < n ==> #[trigger] units[k] != 0
            &&& n < units.len() && n < MAX_WIDE_UNITS ==> units[n] == 0
        }),
    decreases units.len() - from,
{
    if from < units.len() && from < MAX_WIDE_UNITS && units[from] != 0 {
        lemma_wide_text(units, from + 1);
    }
}

/// A number put into a `Long` or `LongLong` is read back from the same bytes.
pub proof fn law_integers_read_back(v: VARIANT, n: int)
    ensures
        -0x8000_0000 <= n < 0x8000_0000 && v@ == shown_i32(n) ==> {
            &&& v.value is Bits
            &&& low_part_signed(v.value->Bits_0, 0x1_0000_0000) == n
            &&& v.value->Bits_0 < 0x1_0000_0000
        },
        -0x8000_0000_0000_0000 <= n < 0x8000_0000_0000_0000 && v@ == shown_i64(n) ==> {
            &&& v.value is Bits
            &&& low_part_signed(v.value->Bits_0, 0x1_0000_0000_0000_0000) == n
        },
{
}

/// A text put into a BSTR is read back unchanged, whatever characters it has.
pub proof fn law_bstr_reads_back(v: VARIANT, s: Seq<char>)
    requires
        v@ == shown_text(s),
    ensures
        v.value matches VARIANT_VALUE::Bstr(b) && bstr_text(b) == s,
{
    text::law_utf16_round_trip(s);
}

/// A text without NUL, in UTF-16 with a zero behind it, is read back unchanged
/// from a pointer, up to the length that is read at all.
pub proof fn law_wide_pointer_reads_back(s: Seq<char>, after: Seq<u16>)
    requires
        !s.contains('\0'),
        text::utf16(s).len() <= MAX_WIDE_UNITS,
        after.len() > 0,
        after[0] == 0,
    ensures
        ({
            let units = text::utf16(s) + after;
            text::utf16_text(units.take(wide_length(units, 0))) == s
        }),
{
    let u = text::utf16(s);
    let units = u + after;
    text::lemma_utf16_zero(s);
    lemma_wide_length(units, u.len() as int, 0);
    assert(units.take(u.len() as int) == u);
    text::law_utf16_round_trip(s);
}

proof fn lemma_wide_length(units: Seq<u16>, end: int, from: int)
    requires
        0 <= from <= end < units.len(),
        end <= MAX_WIDE_UNITS,
        units[end] == 0,
        forall|k: int| from <= k < end ==> units[k] != 0,
    ensures
        wide_length(units, from) == end,
    decreases end - from,
{
    if from < end {
        lemma_wide_length(units, end, from + 1);
    }
}

} // verus!
