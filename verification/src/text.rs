//! Text building: decimal and hexadecimal digits, trimming, searching, and the
//! two encodings that cross the boundary (UTF-16 towards VBA, UTF-8 towards
//! the engine).
use vstd::prelude::*;

verus! {

// ---------------------------------------------------------------------------
// What std provides
// ---------------------------------------------------------------------------

/// `String::push` appends one character and changes nothing else.
pub assume_specification[ String::push ](s: &mut String, c: char)
    ensures
        final(s)@ == old(s)@.push(c),
;

/// `char::from_u32` answers with the character of that scalar value, and with
/// `None` exactly for surrogates and for numbers above `0x10FFFF`.
pub assume_specification[ char::from_u32 ](n: u32) -> (r: Option<char>)
    ensures
        r is Some <==> (n < 0xD800 || 0xE000 <= n <= 0x10FFFF),
        r matches Some(c) ==> c as u32 == n,
;

/// What `String::from_utf8_lossy` makes of these bytes.
pub uninterp spec fn utf8_lossy(bytes: Seq<u8>) -> Seq<char>;

/// `String::from_utf8_lossy`: a function of the bytes alone which decodes valid
/// UTF-8 exactly. Where the replacement characters go in invalid input is left
/// to the name.
#[verifier::external_body]
pub(crate) fn from_utf8_lossy(bytes: &[u8]) -> (r: String)
    ensures
        r@ == utf8_lossy(bytes@),
        vstd::utf8::valid_utf8(bytes@) ==> r@ == vstd::utf8::decode_utf8(bytes@),
{
    String::from_utf8_lossy(bytes).into_owned()
}

/// The text in these bytes: decoded where they are valid UTF-8, else with
/// replacement characters where std puts them.
pub open spec fn lossy(bytes: Seq<u8>) -> Seq<char> {
    if vstd::utf8::valid_utf8(bytes) {
        vstd::utf8::decode_utf8(bytes)
    } else {
        utf8_lossy(bytes)
    }
}

// ---------------------------------------------------------------------------
// Numbers
// ---------------------------------------------------------------------------

/// The decimal digit `d` (0 to 9).
pub open spec fn digit(d: int) -> char {
    ((48 + d) as u8) as char
}

/// `n` in decimal, without leading zeros.
pub open spec fn dec(n: nat) -> Seq<char>
    decreases n,
{
    if n < 10 {
        seq![digit(n as int)]
    } else {
        dec(n / 10).push(digit((n % 10) as int))
    }
}

/// `n` in decimal, with a minus sign where it is negative.
pub open spec fn dec_int(n: int) -> Seq<char> {
    if n < 0 {
        seq!['-'] + dec((-n) as nat)
    } else {
        dec(n as nat)
    }
}

/// `k` zeros.
pub open spec fn zeros(k: int) -> Seq<char> {
    Seq::new(k as nat, |i: int| '0')
}

/// `s` with zeros in front, up to `width` characters.
pub open spec fn zero_filled(s: Seq<char>, width: int) -> Seq<char> {
    if s.len() >= width {
        s
    } else {
        zeros(width - s.len()) + s
    }
}

/// `n` in decimal, its digits filled with zeros to `width`, behind a minus sign
/// where it is negative.
pub open spec fn padded(n: int, width: int) -> Seq<char> {
    if n < 0 {
        seq!['-'] + zero_filled(dec((-n) as nat), width)
    } else {
        zero_filled(dec(n as nat), width)
    }
}

/// The hexadecimal digit `d` (0 to 15), in lower case.
pub open spec fn hex_digit(d: int) -> char {
    if d < 10 {
        ((48 + d) as u8) as char
    } else {
        ((87 + d) as u8) as char
    }
}

/// The hexadecimal digit `d` (0 to 15), in upper case.
pub open spec fn hex_digit_upper(d: int) -> char {
    if d < 10 {
        ((48 + d) as u8) as char
    } else {
        ((55 + d) as u8) as char
    }
}

/// Four upper-case hexadecimal digits.
pub open spec fn hex4(n: int) -> Seq<char> {
    seq![
        hex_digit_upper(n / 4096 % 16),
        hex_digit_upper(n / 256 % 16),
        hex_digit_upper(n / 16 % 16),
        hex_digit_upper(n % 16),
    ]
}

/// Appends `n` in decimal.
pub fn push_dec(s: &mut String, n: u128)
    ensures
        final(s)@ == old(s)@ + dec(n as nat),
    decreases n,
{
    if n >= 10 {
        push_dec(s, n / 10);
    }
    let d: u8 = (n % 10) as u8;
    s.push((48 + d) as char);
}

/// Appends `n` in decimal, with its sign.
pub fn push_int(s: &mut String, n: i128)
    ensures
        final(s)@ == old(s)@ + dec_int(n as int),
{
    if n < 0 {
        s.push('-');
        push_dec(s, magnitude(n));
    } else {
        push_dec(s, n as u128);
    }
}

/// The absolute value, which `i128` itself cannot always hold.
pub fn magnitude(n: i128) -> (r: u128)
    ensures
        r == (if n < 0 { -n } else { n as int }),
{
    if n < 0 {
        ((-(n + 1)) as u128) + 1
    } else {
        n as u128
    }
}

/// `n` in decimal.
pub fn dec_text(n: u128) -> (r: String)
    ensures
        r@ == dec(n as nat),
{
    let mut s = String::new();
    push_dec(&mut s, n);
    s
}

/// `n` in decimal, with its sign.
pub fn int_text(n: i128) -> (r: String)
    ensures
        r@ == dec_int(n as int),
{
    let mut s = String::new();
    push_int(&mut s, n);
    s
}

/// Appends `k` zeros.
pub fn push_zeros(s: &mut String, k: usize)
    ensures
        final(s)@ == old(s)@ + zeros(k as int),
{
    let ghost before = s@;
    let mut i: usize = 0;
    while i < k
        invariant
            i <= k,
            s@ == before + zeros(i as int),
        decreases k - i,
    {
        s.push('0');
        i = i + 1;
    }
}

/// Appends `n`, its digits filled with zeros to `width`, behind a minus sign where
/// it is negative.
pub fn push_padded(s: &mut String, n: i64, width: usize)
    ensures
        final(s)@ == old(s)@ + padded(n as int, width as int),
{
    let digits = dec_text(magnitude(n as i128));
    if n < 0 {
        s.push('-');
    }
    let len = digits.as_str().unicode_len();
    if len < width {
        push_zeros(s, width - len);
    }
    s.append(digits.as_str());
}

/// Appends four upper-case hexadecimal digits.
pub fn push_hex4(s: &mut String, n: u16)
    ensures
        final(s)@ == old(s)@ + hex4(n as int),
{
    push_hex_upper(s, (n / 4096 % 16) as u8);
    push_hex_upper(s, (n / 256 % 16) as u8);
    push_hex_upper(s, (n / 16 % 16) as u8);
    push_hex_upper(s, (n % 16) as u8);
}

fn push_hex_upper(s: &mut String, d: u8)
    requires
        d < 16,
    ensures
        final(s)@ == old(s)@.push(hex_digit_upper(d as int)),
{
    if d < 10 {
        s.push((48 + d) as char);
    } else {
        s.push((55 + d) as char);
    }
}

/// The last `k` hexadecimal digits of `n`, in lower case.
pub open spec fn hex(n: int, k: nat) -> Seq<char>
    decreases k,
{
    if k == 0 {
        Seq::empty()
    } else {
        hex(n / 16, (k - 1) as nat).push(hex_digit(n % 16))
    }
}

/// Appends the last `k` hexadecimal digits of `n`, in lower case.
pub fn push_hex(s: &mut String, n: u64, k: usize)
    ensures
        final(s)@ == old(s)@ + hex(n as int, k as nat),
    decreases k,
{
    if k > 0 {
        push_hex(s, n / 16, k - 1);
        let d: u8 = (n % 16) as u8;
        if d < 10 {
            s.push((48 + d) as char);
        } else {
            s.push((87 + d) as char);
        }
    }
}

// ---------------------------------------------------------------------------
// Characters
// ---------------------------------------------------------------------------

/// The characters of `s`.
pub fn chars_of(s: &str) -> (v: Vec<char>)
    ensures
        v@ == s@,
{
    let mut v: Vec<char> = Vec::new();
    for c in it: s.chars()
        invariant
            it.seq() == s@,
            v@ == it.seq().take(it.index() as int),
    {
        v.push(c);
    }
    v
}

/// The characters `from..to` as text.
pub fn text_of(v: &Vec<char>, from: usize, to: usize) -> (s: String)
    requires
        from <= to <= v@.len(),
    ensures
        s@ == v@.subrange(from as int, to as int),
{
    let mut s = String::new();
    let mut i: usize = from;
    while i < to
        invariant
            from <= i <= to <= v@.len(),
            s@ == v@.subrange(from as int, i as int),
        decreases to - i,
    {
        s.push(v[i]);
        i = i + 1;
    }
    s
}

/// The Unicode property White_Space.
pub open spec fn white_space(c: char) -> bool {
    ||| 0x09 <= c as u32 <= 0x0D
    ||| c as u32 == 0x20
    ||| c as u32 == 0x85
    ||| c as u32 == 0xA0
    ||| c as u32 == 0x1680
    ||| 0x2000 <= c as u32 <= 0x200A
    ||| c as u32 == 0x2028
    ||| c as u32 == 0x2029
    ||| c as u32 == 0x202F
    ||| c as u32 == 0x205F
    ||| c as u32 == 0x3000
}

/// Whether `c` is white space.
pub fn is_white_space(c: char) -> (r: bool)
    ensures
        r == white_space(c),
{
    let n = c as u32;
    (0x09 <= n && n <= 0x0D) || n == 0x20 || n == 0x85 || n == 0xA0 || n == 0x1680 || (0x2000 <= n
        && n <= 0x200A) || n == 0x2028 || n == 0x2029 || n == 0x202F || n == 0x205F || n == 0x3000
}

/// `s` without the white space in front.
pub open spec fn trimmed_front(s: Seq<char>) -> Seq<char>
    decreases s.len(),
{
    if s.len() > 0 && white_space(s[0]) {
        trimmed_front(s.drop_first())
    } else {
        s
    }
}

/// `s` without the white space behind.
pub open spec fn trimmed_back(s: Seq<char>) -> Seq<char>
    decreases s.len(),
{
    if s.len() > 0 && white_space(s.last()) {
        trimmed_back(s.drop_last())
    } else {
        s
    }
}

/// `s` without the white space at either end.
pub open spec fn trimmed(s: Seq<char>) -> Seq<char> {
    trimmed_back(trimmed_front(s))
}

/// Removes the white space at both ends.
pub fn trim(s: &str) -> (r: String)
    ensures
        r@ == trimmed(s@),
{
    let v = chars_of(s);
    let n = v.len();
    let mut i: usize = 0;
    assert(v@.subrange(0, n as int) == v@);
    while i < n && is_white_space(v[i])
        invariant
            i <= n,
            n == v@.len(),
            trimmed_front(v@) == trimmed_front(v@.subrange(i as int, n as int)),
        decreases n - i,
    {
        assert(v@.subrange(i as int, n as int).drop_first() == v@.subrange(i + 1, n as int));
        i = i + 1;
    }
    let mut j: usize = n;
    while i < j && is_white_space(v[j - 1])
        invariant
            i <= j <= n,
            n == v@.len(),
            trimmed(v@) == trimmed_back(v@.subrange(i as int, j as int)),
        decreases j,
    {
        assert(v@.subrange(i as int, j as int).drop_last() == v@.subrange(i as int, j - 1));
        j = j - 1;
    }
    text_of(&v, i, j)
}

/// `c`, in lower case if it is an ASCII letter.
pub open spec fn lower(c: char) -> char {
    if 65 <= c as u32 <= 90 {
        ((c as u32 + 32) as u8) as char
    } else {
        c
    }
}

/// `s` with its ASCII letters in lower case.
pub open spec fn lowered(s: Seq<char>) -> Seq<char> {
    Seq::new(s.len(), |i: int| lower(s[i]))
}

/// Turns ASCII letters into lower case and leaves every other character alone.
pub fn to_lower(s: &str) -> (r: String)
    ensures
        r@ == lowered(s@),
{
    let mut r = String::new();
    for c in it: s.chars()
        invariant
            it.seq() == s@,
            r@ == lowered(s@.take(it.index() as int)),
    {
        let n = c as u32;
        if 65 <= n && n <= 90 {
            r.push((n as u8 + 32) as char);
        } else {
            r.push(c);
        }
    }
    r
}

/// Whether the text `part` occurs in `whole`.
pub open spec fn has_text(whole: Seq<char>, part: Seq<char>) -> bool {
    exists|i: int|
        0 <= i <= whole.len() - part.len() && #[trigger] whole.subrange(i, i + part.len()) == part
}

/// Whether `part` occurs in `whole`.
pub fn contains(whole: &str, part: &str) -> (r: bool)
    ensures
        r == has_text(whole@, part@),
{
    let w = chars_of(whole);
    let p = chars_of(part);
    if p.len() > w.len() {
        return false;
    }
    let last = w.len() - p.len();
    let mut i: usize = 0;
    while i <= last
        invariant
            i <= last + 1,
            last == w@.len() - p@.len(),
            w@ == whole@,
            p@ == part@,
            w@.len() <= usize::MAX,
            forall|k: int|
                0 <= k < i ==> #[trigger] whole@.subrange(k, k + part@.len()) != part@,
        decreases last + 1 - i,
    {
        let mut j: usize = 0;
        while j < p.len() && w[i + j] == p[j]
            invariant
                j <= p@.len(),
                i <= last,
                last == w@.len() - p@.len(),
                w@.len() <= usize::MAX,
                forall|k: int| 0 <= k < j ==> w@[i + k] == p@[k],
            decreases p@.len() - j,
        {
            j = j + 1;
        }
        if j == p.len() {
            assert(whole@.subrange(i as int, i + part@.len()) == part@);
            return true;
        }
        if i == last {
            return false;
        }
        i = i + 1;
    }
    false
}

/// What stands between two texts is in the whole.
pub(crate) proof fn lemma_stands_in(before: Seq<char>, part: Seq<char>, after: Seq<char>, whole: Seq<char>)
    requires
        whole =~= before + part + after,
    ensures
        has_text(whole, part),
{
    let at = before.len() as int;
    assert(whole.subrange(at, at + part.len()) == part);
}

// ---------------------------------------------------------------------------
// UTF-16
// ---------------------------------------------------------------------------

/// The code units of one character.
pub open spec fn units_of(c: char) -> Seq<u16> {
    let n = c as u32;
    if n < 0x10000 {
        seq![n as u16]
    } else {
        seq![(0xD800 + (n - 0x10000) / 0x400) as u16, (0xDC00 + (n - 0x10000) % 0x400) as u16]
    }
}

/// `s` in UTF-16.
pub open spec fn utf16(s: Seq<char>) -> Seq<u16>
    decreases s.len(),
{
    if s.len() == 0 {
        Seq::empty()
    } else {
        units_of(s[0]) + utf16(s.drop_first())
    }
}

/// A leading surrogate.
pub open spec fn leads(u: u16) -> bool {
    0xD800 <= u <= 0xDBFF
}

/// A trailing surrogate.
pub open spec fn trails(u: u16) -> bool {
    0xDC00 <= u <= 0xDFFF
}

/// The character of a surrogate pair.
pub open spec fn paired(hi: u16, lo: u16) -> char {
    ((0x10000 + (hi - 0xD800) * 0x400 + (lo - 0xDC00)) as u32) as char
}

/// The text of UTF-16 code units, each unpaired surrogate replaced by U+FFFD.
pub open spec fn utf16_text(u: Seq<u16>) -> Seq<char>
    decreases u.len(),
{
    if u.len() == 0 {
        Seq::empty()
    } else if leads(u[0]) && u.len() >= 2 && trails(u[1]) {
        seq![paired(u[0], u[1])] + utf16_text(u.skip(2))
    } else if leads(u[0]) || trails(u[0]) {
        seq!['\u{FFFD}'] + utf16_text(u.skip(1))
    } else {
        seq![(u[0] as u32) as char] + utf16_text(u.skip(1))
    }
}

/// Encodes `s` in UTF-16.
pub fn to_utf16(s: &str) -> (r: Vec<u16>)
    ensures
        r@ == utf16(s@),
{
    let mut r: Vec<u16> = Vec::new();
    assert(s@.skip(0) == s@);
    for c in it: s.chars()
        invariant
            it.seq() == s@,
            r@ + utf16(s@.skip(it.index() as int)) == utf16(s@),
    {
        let ghost rest = s@.skip(it.index() as int);
        assert(rest.drop_first() == s@.skip(it.index() + 1));
        let n = c as u32;
        if n < 0x10000 {
            r.push(n as u16);
        } else {
            r.push((0xD800 + (n - 0x10000) / 0x400) as u16);
            r.push((0xDC00 + (n - 0x10000) % 0x400) as u16);
        }
    }
    r
}

/// Decodes UTF-16, with U+FFFD for each unpaired surrogate.
pub fn from_utf16_lossy(u: &[u16]) -> (r: String)
    ensures
        r@ == utf16_text(u@),
{
    let mut r = String::new();
    let n = u.len();
    let mut i: usize = 0;
    assert(u@.skip(0) == u@);
    while i < n
        invariant
            i <= n,
            n == u@.len(),
            r@ + utf16_text(u@.skip(i as int)) == utf16_text(u@),
        decreases n - i,
    {
        let a = u[i];
        let ghost rest = u@.skip(i as int);
        if 0xD800 <= a && a <= 0xDBFF && n - i >= 2 && 0xDC00 <= u[i + 1] && u[i + 1] <= 0xDFFF {
            let b = u[i + 1];
            let code: u32 = 0x10000 + (a as u32 - 0xD800) * 0x400 + (b as u32 - 0xDC00);
            match char::from_u32(code) {
                Some(c) => {
                    r.push(c);
                    proof {
                        vstd::utf8::char_u32_cast(c, code);
                    }
                    assert(rest.skip(2) == u@.skip(i + 2));
                },
                None => {},
            }
            i = i + 2;
        } else {
            assert(rest.skip(1) == u@.skip(i + 1));
            if 0xD800 <= a && a <= 0xDFFF {
                r.push('\u{FFFD}');
            } else {
                match char::from_u32(a as u32) {
                    Some(c) => {
                        r.push(c);
                        proof {
                            vstd::utf8::char_u32_cast(c, a as u32);
                        }
                    },
                    None => {},
                }
            }
            i = i + 1;
        }
    }
    r
}

/// Trimming takes white space from both ends and nothing else: what is left stands
/// in the text as it was, all around it is white space, and it neither begins nor
/// ends with any.
pub proof fn law_trimming_takes_the_ends(s: Seq<char>)
    ensures
        exists|a: int, b: int|
            0 <= a <= b <= s.len() && #[trigger] s.subrange(a, b) == trimmed(s) && (forall|k: int|
                (0 <= k < a || b <= k < s.len()) ==> white_space(#[trigger] s[k])),
        trimmed(s).len() > 0 ==> !white_space(trimmed(s)[0]) && !white_space(trimmed(s).last()),
{
    let a = lemma_trimmed_front(s);
    let t = trimmed_front(s);
    let n = lemma_trimmed_back(t);
    let b = a + n;
    assert(s.subrange(a, b) == t.subrange(0, n));
    assert forall|k: int| 0 <= k < a || b <= k < s.len() implies white_space(#[trigger] s[k]) by {
        if k >= b {
            assert(t[k - a] == s[k]);
        }
    }
    if trimmed(s).len() > 0 {
        assert(trimmed(s)[0] == t[0]);
    }
}

/// Trimming a trimmed text changes nothing.
pub proof fn law_trimmed_twice(s: Seq<char>)
    ensures
        trimmed(trimmed(s)) == trimmed(s),
{
    law_trimming_takes_the_ends(s);
}

/// White space is what Unicode calls by that name.
pub proof fn law_white_space(c: char)
    ensures
        white_space(c) <==> seq![
            '\u{9}',
            '\u{A}',
            '\u{B}',
            '\u{C}',
            '\u{D}',
            ' ',
            '\u{85}',
            '\u{A0}',
            '\u{1680}',
            '\u{2000}',
            '\u{2001}',
            '\u{2002}',
            '\u{2003}',
            '\u{2004}',
            '\u{2005}',
            '\u{2006}',
            '\u{2007}',
            '\u{2008}',
            '\u{2009}',
            '\u{200A}',
            '\u{2028}',
            '\u{2029}',
            '\u{202F}',
            '\u{205F}',
            '\u{3000}',
        ].contains(c),
{
    let all = seq![
        '\u{9}',
        '\u{A}',
        '\u{B}',
        '\u{C}',
        '\u{D}',
        ' ',
        '\u{85}',
        '\u{A0}',
        '\u{1680}',
        '\u{2000}',
        '\u{2001}',
        '\u{2002}',
        '\u{2003}',
        '\u{2004}',
        '\u{2005}',
        '\u{2006}',
        '\u{2007}',
        '\u{2008}',
        '\u{2009}',
        '\u{200A}',
        '\u{2028}',
        '\u{2029}',
        '\u{202F}',
        '\u{205F}',
        '\u{3000}',
    ];
    let n = c as u32;
    if white_space(c) {
        let at = if n <= 0xD {
            n - 9
        } else if n == 0x20 {
            5
        } else if n == 0x85 {
            6
        } else if n == 0xA0 {
            7
        } else if n == 0x1680 {
            8
        } else if n <= 0x200A {
            n - 0x2000 + 9
        } else if n == 0x2028 {
            20
        } else if n == 0x2029 {
            21
        } else if n == 0x202F {
            22
        } else if n == 0x205F {
            23
        } else {
            24int
        };
        assert(all[at] as u32 == n);
        assert(all[at] == c);
    }
}

proof fn lemma_trimmed_front(s: Seq<char>) -> (a: int)
    ensures
        0 <= a <= s.len(),
        trimmed_front(s) == s.subrange(a, s.len() as int),
        forall|k: int| 0 <= k < a ==> white_space(#[trigger] s[k]),
        trimmed_front(s).len() > 0 ==> !white_space(trimmed_front(s)[0]),
    decreases s.len(),
{
    if s.len() > 0 && white_space(s[0]) {
        let rest = s.drop_first();
        let a = lemma_trimmed_front(rest);
        assert(rest.subrange(a, rest.len() as int) == s.subrange(a + 1, s.len() as int));
        assert forall|k: int| 0 <= k < a + 1 implies white_space(#[trigger] s[k]) by {
            if k > 0 {
                assert(rest[k - 1] == s[k]);
            }
        }
        a + 1
    } else {
        assert(s.subrange(0, s.len() as int) == s);
        0
    }
}

proof fn lemma_trimmed_back(s: Seq<char>) -> (b: int)
    ensures
        0 <= b <= s.len(),
        trimmed_back(s) == s.subrange(0, b),
        forall|k: int| b <= k < s.len() ==> white_space(#[trigger] s[k]),
        trimmed_back(s).len() > 0 ==> !white_space(trimmed_back(s).last()),
    decreases s.len(),
{
    if s.len() > 0 && white_space(s.last()) {
        let rest = s.drop_last();
        let b = lemma_trimmed_back(rest);
        assert(rest.subrange(0, b) == s.subrange(0, b));
        assert forall|k: int| b <= k < s.len() implies white_space(#[trigger] s[k]) by {
            if k < rest.len() {
                assert(rest[k] == s[k]);
            }
        }
        b
    } else {
        assert(s.subrange(0, s.len() as int) == s);
        s.len() as int
    }
}

/// Every text survives the way through UTF-16 unchanged, characters beyond the
/// basic plane included.
pub proof fn law_utf16_round_trip(s: Seq<char>)
    ensures
        utf16_text(utf16(s)) == s,
    decreases s.len(),
{
    if s.len() > 0 {
        let c = s[0];
        let rest = s.drop_first();
        law_utf16_round_trip(rest);
        let n = c as u32;
        vstd::utf8::char_is_scalar(c);
        vstd::utf8::char_u32_cast(c, n);
        let whole = utf16(s);
        if n < 0x10000 {
            assert(whole.skip(1) == utf16(rest));
        } else {
            assert(whole.skip(2) == utf16(rest));
        }
    }
}

/// The number that decimal digits stand for.
pub open spec fn digits_value(s: Seq<char>) -> int
    decreases s.len(),
{
    if s.len() == 0 {
        0
    } else {
        10 * digits_value(s.drop_last()) + (s.last() as u32 - 48)
    }
}

/// The decimal digits of a number stand for that number: no digit is lost.
pub proof fn law_decimal_digits_are_exact(n: nat)
    ensures
        digits_value(dec(n)) == n,
        dec(n).len() > 0,
    decreases n,
{
    if n >= 10 {
        law_decimal_digits_are_exact(n / 10);
        assert(dec(n).drop_last() == dec(n / 10));
    } else {
        assert(digits_value(dec(n).drop_last()) == 0);
    }
}

/// Decimal text is written with the digits alone, without zeros in front, and a minus
/// sign stands before a negative number.
pub proof fn law_decimal_digits_are_plain(n: nat)
    ensures
        forall|i: int| 0 <= i < dec(n).len() ==> '0' <= #[trigger] dec(n)[i] <= '9',
        n > 0 ==> dec(n)[0] != '0',
        n == 0 ==> dec(n) == seq!['0'],
        dec_int(n as int) == dec(n),
        n > 0 ==> dec_int(-n) == seq!['-'] + dec(n),
    decreases n,
{
    if n >= 10 {
        law_decimal_digits_are_plain(n / 10);
        assert forall|i: int| 0 <= i < dec(n).len() implies '0' <= #[trigger] dec(n)[i] <= '9' by {
            if i < dec(n / 10).len() {
                assert(dec(n)[i] == dec(n / 10)[i]);
            }
        }
    }
}

/// A number filled to a width keeps its value; it has that many digits where it needs
/// no more, and they are digits.
pub proof fn law_padded_numbers_keep_their_value(n: nat, width: int)
    requires
        width >= 1,
    ensures
        digits_value(padded(n as int, width)) == n,
        padded(n as int, width).len() >= width,
        n < vstd::arithmetic::power::pow(10, width as nat) ==> padded(n as int, width).len()
            == width,
        n > 0 ==> padded(-n, width) == seq!['-'] + padded(n as int, width),
        forall|i: int|
            0 <= i < padded(n as int, width).len() ==> '0' <= #[trigger] padded(n as int, width)[i]
                <= '9',
{
    let digits = dec(n);
    law_decimal_digits_are_exact(n);
    law_decimal_digits_are_plain(n);
    if digits.len() < width {
        law_leading_zeros(width - digits.len(), digits);
    }
    if n < vstd::arithmetic::power::pow(10, width as nat) {
        lemma_digits_needed(n, width as nat);
    }
}

proof fn lemma_digits_needed(n: nat, width: nat)
    requires
        width >= 1,
        n < vstd::arithmetic::power::pow(10, width),
    ensures
        dec(n).len() <= width,
    decreases n,
{
    reveal(vstd::arithmetic::power::pow);
    if n >= 10 {
        if width == 1 {
            assert(vstd::arithmetic::power::pow(10, 0) == 1);
            assert(vstd::arithmetic::power::pow(10, 1) == 10);
        }
        lemma_digits_needed(n / 10, (width - 1) as nat);
    }
}

/// The value of a hexadecimal digit.
pub open spec fn hex_digit_value(c: char) -> int {
    if '0' <= c <= '9' {
        c as u32 - 48
    } else if 'a' <= c <= 'f' {
        c as u32 - 97 + 10
    } else if 'A' <= c <= 'F' {
        c as u32 - 65 + 10
    } else {
        0
    }
}

/// The number that hexadecimal digits stand for.
pub open spec fn hex_value(s: Seq<char>) -> int
    decreases s.len(),
{
    if s.len() == 0 {
        0
    } else {
        16 * hex_value(s.drop_last()) + hex_digit_value(s.last())
    }
}

/// `k` hexadecimal digits stand for the number, where it needs no more.
pub proof fn law_hex_digits_are_exact(n: int, k: nat)
    requires
        0 <= n < vstd::arithmetic::power::pow(16, k),
    ensures
        hex(n, k).len() == k,
        hex_value(hex(n, k)) == n,
        forall|i: int|
            0 <= i < k ==> '0' <= #[trigger] hex(n, k)[i] <= '9' || 'a' <= hex(n, k)[i] <= 'f',
    decreases k,
{
    reveal(vstd::arithmetic::power::pow);
    if k > 0 {
        law_hex_digits_are_exact(n / 16, (k - 1) as nat);
        assert(hex(n, k).drop_last() == hex(n / 16, (k - 1) as nat));
        assert forall|i: int| 0 <= i < k implies '0' <= #[trigger] hex(n, k)[i] <= '9' || 'a' <= hex(
            n,
            k,
        )[i] <= 'f' by {
            if i < k - 1 {
                assert(hex(n, k)[i] == hex(n / 16, (k - 1) as nat)[i]);
            }
        }
    }
}

/// Four digits in upper case stand for a number of sixteen bits.
pub proof fn law_type_codes_are_exact(n: u16)
    ensures
        hex4(n as int).len() == 4,
        hex_value(hex4(n as int)) == n,
        forall|i: int|
            0 <= i < 4 ==> '0' <= #[trigger] hex4(n as int)[i] <= '9' || 'A' <= hex4(n as int)[i]
                <= 'F',
{
    let a = n as int / 4096 % 16;
    let b = n as int / 256 % 16;
    let c = n as int / 16 % 16;
    let d = n as int % 16;
    let s = hex4(n as int);
    lemma_upper_digit(a);
    lemma_upper_digit(b);
    lemma_upper_digit(c);
    lemma_upper_digit(d);
    lemma_four_digits(s[0], s[1], s[2], s[3]);
    assert(s == seq![s[0], s[1], s[2], s[3]]);
    assert(n == 4096 * a + 256 * b + 16 * c + d);
}

proof fn lemma_upper_digit(d: int)
    requires
        0 <= d < 16,
    ensures
        hex_digit_value(hex_digit_upper(d)) == d,
        '0' <= hex_digit_upper(d) <= '9' || 'A' <= hex_digit_upper(d) <= 'F',
{
}

proof fn lemma_four_digits(a: char, b: char, c: char, d: char)
    ensures
        hex_value(seq![a, b, c, d]) == 4096 * hex_digit_value(a) + 256 * hex_digit_value(b) + 16
            * hex_digit_value(c) + hex_digit_value(d),
{
    assert(seq![a, b, c, d].drop_last() == seq![a, b, c]);
    assert(seq![a, b, c].drop_last() == seq![a, b]);
    assert(seq![a, b].drop_last() == seq![a]);
    assert(seq![a].drop_last() == Seq::<char>::empty());
    assert(hex_value(Seq::empty()) == 0);
    assert(hex_value(seq![a]) == hex_digit_value(a));
    assert(hex_value(seq![a, b]) == 16 * hex_digit_value(a) + hex_digit_value(b));
    assert(hex_value(seq![a, b, c]) == 16 * hex_value(seq![a, b]) + hex_digit_value(c));
    assert(hex_value(seq![a, b, c, d]) == 16 * hex_value(seq![a, b, c]) + hex_digit_value(d));
}

/// The digits of two numbers, one behind the other.
pub proof fn law_hex_digits_in_groups(a: Seq<char>, b: Seq<char>)
    ensures
        hex_value(a + b) == hex_value(a) * vstd::arithmetic::power::pow(16, b.len()) + hex_value(b),
    decreases b.len(),
{
    reveal(vstd::arithmetic::power::pow);
    if b.len() == 0 {
        assert(a + b == a);
    } else {
        law_hex_digits_in_groups(a, b.drop_last());
        assert((a + b).drop_last() == a + b.drop_last());
        let x = hex_value(a);
        let p = vstd::arithmetic::power::pow(16, (b.len() - 1) as nat);
        assert(16 * (x * p) == x * (16 * p)) by (nonlinear_arith);
    }
}

/// UTF-16 as it is defined: a character of the basic plane is one unit with its
/// number, any other is a leading and a trailing surrogate, and texts are encoded
/// character by character.
pub proof fn law_utf16_units(c: char, s: Seq<char>, t: Seq<char>)
    ensures
        utf16(Seq::empty()) == Seq::<u16>::empty(),
        utf16(s + t) == utf16(s) + utf16(t),
        c as u32 <= 0xFFFF ==> utf16(seq![c]) == seq![c as u16],
        c as u32 > 0xFFFF ==> {
            let u = utf16(seq![c]);
            &&& u.len() == 2
            &&& 0xD800 <= u[0] <= 0xDBFF
            &&& 0xDC00 <= u[1] <= 0xDFFF
            &&& 0x10000 + (u[0] - 0xD800) * 0x400 + (u[1] - 0xDC00) == c as u32
        },
    decreases s.len(),
{
    let one = seq![c];
    assert(one.drop_first() == Seq::<char>::empty());
    assert(utf16(one) == units_of(c) + utf16(one.drop_first()));
    assert(utf16(one) == units_of(c));
    vstd::utf8::char_is_scalar(c);
    if s.len() > 0 {
        law_utf16_units(c, s.drop_first(), t);
        assert((s + t).drop_first() == s.drop_first() + t);
        assert(utf16(s + t) == units_of(s[0]) + utf16(s.drop_first() + t));
    } else {
        assert(s + t == t);
    }
}

/// A unit that is no half of a pair is replaced by one U+FFFD, and the text goes on
/// behind it.
pub proof fn law_unpaired_surrogates_are_replaced(u: Seq<u16>)
    requires
        u.len() > 0,
        0xD800 <= u[0] <= 0xDFFF,
        u[0] >= 0xDC00 || u.len() == 1 || !(0xDC00 <= u[1] <= 0xDFFF),
    ensures
        utf16_text(u) == seq!['\u{FFFD}'] + utf16_text(u.skip(1)),
{
}

/// Lower case changes the letters A (65) to Z (90) and nothing else.
pub proof fn law_lower_case(s: Seq<char>, i: int)
    requires
        0 <= i < s.len(),
    ensures
        lowered(s).len() == s.len(),
        65 <= s[i] as u32 <= 90 ==> lowered(s)[i] as u32 == s[i] as u32 + 32,
        !(65 <= s[i] as u32 <= 90) ==> lowered(s)[i] == s[i],
        lowered(lowered(s)) == lowered(s),
{
    assert(lowered(lowered(s)) == lowered(s));
}

/// Zeros in front do not change the number.
pub proof fn law_leading_zeros(k: int, s: Seq<char>)
    requires
        k >= 0,
    ensures
        digits_value(zeros(k) + s) == digits_value(s),
    decreases k + s.len(),
{
    let all = zeros(k) + s;
    if s.len() > 0 {
        law_leading_zeros(k, s.drop_last());
        assert(all.drop_last() == zeros(k) + s.drop_last());
    } else if k > 0 {
        law_leading_zeros(k - 1, s);
        assert(all.drop_last() == zeros(k - 1) + s);
    }
}

pub(crate) proof fn lemma_utf16_zero(s: Seq<char>)
    requires
        !s.contains('\0'),
    ensures
        forall|k: int| 0 <= k < utf16(s).len() ==> #[trigger] utf16(s)[k] != 0,
    decreases s.len(),
{
    if s.len() > 0 {
        let rest = s.drop_first();
        assert(!rest.contains('\0')) by {
            if rest.contains('\0') {
                let i = choose|i: int| 0 <= i < rest.len() && rest[i] == '\0';
                assert(s[i + 1] == '\0');
            }
        }
        lemma_utf16_zero(rest);
        let c = s[0];
        assert(c != '\0');
        vstd::utf8::char_is_scalar(c);
        vstd::utf8::char_u32_cast(c, c as u32);
        assert(c as u32 != 0);
        assert(utf16(s) == units_of(c) + utf16(rest));
        assert(forall|k: int| 0 <= k < units_of(c).len() ==> #[trigger] units_of(c)[k] != 0);
    }
}

} // verus!
