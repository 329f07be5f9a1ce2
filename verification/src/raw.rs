//! What the engine answers, as plain values, and the messages that its failures
//! turn into.
use crate::text;
use vstd::arithmetic::power::pow;
use vstd::prelude::*;

verus! {

// ---------------------------------------------------------------------------
// Statements
// ---------------------------------------------------------------------------

/// What came of preparing one statement.
#[derive(Debug)]
pub struct PrepareReply {
    /// Whether the engine accepted the statement.
    pub ok: bool,
    /// The engine's message where it did not.
    pub message: String,
    /// The kind of statement, as the engine's parser sees it.
    pub statement_type: u32,
    /// How many parameters the statement takes.
    pub param_count: usize,
}

/// What came of splitting an SQL text into statements and preparing each.
#[derive(Debug)]
pub struct ParseReply {
    /// The engine's message where there is no statement.
    pub message: String,
    /// The statements, in the order of the text.
    pub statements: Vec<PrepareReply>,
}

/// A statement that the engine accepted.
#[derive(Debug, Clone, Copy)]
pub struct Prepared {
    pub statement_type: u32,
    pub param_count: usize,
}

/// The statements of an SQL text.
#[derive(Debug)]
pub struct Extracted {
    pub statements: Vec<PrepareReply>,
}

/// `message`, or `fallback` where the engine gave none.
pub open spec fn message_or(message: Seq<char>, fallback: Seq<char>) -> Seq<char> {
    if message.len() == 0 {
        fallback
    } else {
        message
    }
}

/// `message`, or `fallback` where the engine gave none.
pub fn error_or(message: String, fallback: &str) -> (r: String)
    ensures
        r@ == message_or(message@, fallback@),
{
    if message.as_str().is_empty() {
        fallback.to_owned()
    } else {
        message
    }
}

/// The message for an SQL text without statements.
pub open spec fn parse_failure(message: Seq<char>) -> Seq<char> {
    if message.len() == 0 {
        "SQL を解析できませんでした（空の文の可能性があります）"@
    } else {
        "SQL の構文エラー: "@ + message
    }
}

/// The message for a statement that the engine did not accept.
pub open spec fn prepare_failure(index: int, message: Seq<char>) -> Seq<char> {
    if message.len() == 0 {
        text::dec((index + 1) as nat) + " 文目を解析できませんでした"@
    } else {
        message
    }
}

impl Extracted {
    /// Takes over the engine's answer. A text without statements is an error.
    pub fn extract(reply: ParseReply) -> (r: Result<Extracted, String>)
        ensures
            reply.statements@.len() == 0 ==> (r matches Err(m) && m@ == parse_failure(
                reply.message@,
            )),
            reply.statements@.len() > 0 ==> (r matches Ok(x) && x.statements == reply.statements),
    {
        if reply.statements.len() == 0 {
            if reply.message.as_str().is_empty() {
                return Err("SQL を解析できませんでした（空の文の可能性があります）".to_owned());
            }
            let mut m = "SQL の構文エラー: ".to_owned();
            m.append(reply.message.as_str());
            return Err(m);
        }
        Ok(Extracted { statements: reply.statements })
    }

    /// How many statements there are.
    pub fn count(&self) -> (r: usize)
        ensures
            r == self.statements@.len(),
    {
        self.statements.len()
    }

    /// What came of preparing the statement at `index`. Where there is none, the
    /// engine has no message for it.
    pub fn prepare(&self, index: usize) -> (r: Result<Prepared, String>)
        ensures
            index >= self.statements@.len() ==> (r matches Err(m) && m@ == prepare_failure(
                index as int,
                Seq::empty(),
            )),
            index < self.statements@.len() ==> {
                let s = self.statements@[index as int];
                if s.ok {
                    r matches Ok(p) && p.statement_type == s.statement_type && p.param_count
                        == s.param_count
                } else {
                    r matches Err(m) && m@ == prepare_failure(index as int, s.message@)
                }
            },
    {
        if index < self.statements.len() {
            let s = &self.statements[index];
            if s.ok {
                return Ok(
                    Prepared { statement_type: s.statement_type, param_count: s.param_count },
                );
            }
            if !s.message.as_str().is_empty() {
                return Err(s.message.as_str().to_owned());
            }
        }
        let mut m = text::dec_text(index as u128 + 1);
        m.append(" 文目を解析できませんでした");
        Err(m)
    }
}

impl Prepared {
    /// The kind of statement, as the engine's parser sees it.
    pub fn statement_type(&self) -> (r: u32)
        ensures
            r == self.statement_type,
    {
        self.statement_type
    }

    /// How many parameters the statement takes.
    pub fn param_count(&self) -> (r: usize)
        ensures
            r == self.param_count,
    {
        self.param_count
    }
}

// ---------------------------------------------------------------------------
// Text for the engine
// ---------------------------------------------------------------------------

/// The message for a text with a NUL in it.
pub const NUL_MESSAGE: &'static str = "文字列に NUL 文字が含まれています";

/// The engine's bytes of the text hold a NUL.
pub open spec fn has_nul(s: Seq<char>) -> bool {
    vstd::utf8::encode_utf8(s).contains(0u8)
}

/// Whether the engine's bytes of the text hold a NUL. The engine would read only
/// what stands before it, which is not the text that was checked.
pub fn contains_nul(s: &str) -> (r: bool)
    ensures
        r == has_nul(s@),
{
    let bytes = s.as_bytes();
    let ghost all = vstd::utf8::encode_utf8(s@);
    let mut i: usize = 0;
    while i < bytes.len()
        invariant
            i <= bytes@.len(),
            bytes@ == all,
            all == vstd::utf8::encode_utf8(s@),
            forall|k: int| 0 <= k < i ==> all[k] != 0,
        decreases bytes@.len() - i,
    {
        if bytes[i] == 0 {
            return true;
        }
        i = i + 1;
    }
    false
}

/// The bytes of the text with a NUL behind them. A text with a NUL in it is
/// refused, never cut off.
pub fn to_cstring(s: &str) -> (r: Result<Vec<u8>, String>)
    ensures
        r is Err <==> has_nul(s@),
        r matches Ok(b) ==> b@ == vstd::utf8::encode_utf8(s@).push(0u8),
        r matches Err(m) ==> m@ == NUL_MESSAGE@,
{
    if contains_nul(s) {
        return Err(NUL_MESSAGE.to_owned());
    }
    let bytes = s.as_bytes();
    let mut out: Vec<u8> = Vec::new();
    let mut i: usize = 0;
    while i < bytes.len()
        invariant
            i <= bytes@.len(),
            out@ == bytes@.take(i as int),
        decreases bytes@.len() - i,
    {
        out.push(bytes[i]);
        i = i + 1;
    }
    out.push(0);
    Ok(out)
}

// ---------------------------------------------------------------------------
// Failures
// ---------------------------------------------------------------------------

/// The message for a setting that the engine did not take.
pub open spec fn setting_failure(name: Seq<char>, value: Seq<char>) -> Seq<char> {
    "DuckDB の設定 '"@ + name + "' = '"@ + value + "' に失敗しました"@
}

/// The message for a setting that the engine did not take.
pub fn setting_refused(name: &str, value: &str) -> (r: String)
    ensures
        r@ == setting_failure(name@, value@),
{
    let mut m = "DuckDB の設定 '".to_owned();
    m.append(name);
    m.append("' = '");
    m.append(value);
    m.append("' に失敗しました");
    m
}

/// The message for a database that did not open.
pub open spec fn open_failure(path: Seq<char>, message: Seq<char>) -> Seq<char> {
    if message.len() == 0 {
        "データベース '"@ + path + "' を開けませんでした"@
    } else {
        "データベース '"@ + path + "' を開けませんでした: "@ + message
    }
}

/// The message for a database that did not open.
pub fn not_opened(path: &str, message: &str) -> (r: String)
    ensures
        r@ == open_failure(path@, message@),
{
    let mut m = "データベース '".to_owned();
    m.append(path);
    if message.is_empty() {
        m.append("' を開けませんでした");
    } else {
        m.append("' を開けませんでした: ");
        m.append(message);
    }
    m
}

/// The message for a text that did not run.
pub open spec fn run_failure(message: Seq<char>) -> Seq<char> {
    message_or(message, "SQL の実行に失敗しました"@)
}

/// The message for a text that did not run.
pub fn not_run(message: String) -> (r: String)
    ensures
        r@ == run_failure(message@),
{
    error_or(message, "SQL の実行に失敗しました")
}

/// The message for a parameter that the engine did not take.
pub open spec fn bind_failure(index: int, message: Seq<char>) -> Seq<char> {
    if message.len() == 0 {
        text::dec(index as nat) + " 番目のパラメータをバインドできませんでした"@
    } else {
        text::dec(index as nat) + " 番目のパラメータ: "@ + message
    }
}

/// The message for a parameter that the engine did not take.
pub fn not_bound(index: usize, message: &str) -> (r: String)
    ensures
        r@ == bind_failure(index as int, message@),
{
    let mut m = text::dec_text(index as u128);
    if message.is_empty() {
        m.append(" 番目のパラメータをバインドできませんでした");
    } else {
        m.append(" 番目のパラメータ: ");
        m.append(message);
    }
    m
}

/// The message for a table that cannot be appended to.
pub open spec fn appender_failure(table: Seq<char>, message: Seq<char>) -> Seq<char> {
    if message.len() == 0 {
        "テーブル「"@ + table + "」を開けませんでした。名前を確認してください。"@
    } else {
        message
    }
}

/// The message for a table that cannot be appended to.
pub fn no_appender(table: &str, message: String) -> (r: String)
    ensures
        r@ == appender_failure(table@, message@),
{
    if message.as_str().is_empty() {
        let mut m = "テーブル「".to_owned();
        m.append(table);
        m.append("」を開けませんでした。名前を確認してください。");
        m
    } else {
        message
    }
}

// ---------------------------------------------------------------------------
// Results
// ---------------------------------------------------------------------------

/// One column of a result.
#[derive(Debug)]
pub struct Column {
    pub name: String,
    /// The number that the engine gives the column's type.
    pub type_id: u32,
}

/// The number that the engine gives to what has no type.
pub const TYPE_INVALID: u32 = 0;

/// The head of a result: all but its rows.
#[derive(Debug)]
pub struct QueryResult {
    pub columns: Vec<Column>,
    /// How many rows the statement changed, as the engine counts them.
    pub changed: u64,
}

/// `n` read as a signed number of 64 bits.
pub open spec fn signed_64(n: u64) -> int {
    if n > i64::MAX {
        n - 0x1_0000_0000_0000_0000
    } else {
        n as int
    }
}

/// `n` read as a signed number of 64 bits.
pub fn to_signed(n: u64) -> (r: i64)
    ensures
        r == signed_64(n),
{
    if n > i64::MAX as u64 {
        (n as i128 - 0x1_0000_0000_0000_0000) as i64
    } else {
        n as i64
    }
}

impl QueryResult {
    /// How many columns there are.
    pub fn column_count(&self) -> (r: usize)
        ensures
            r == self.columns@.len(),
    {
        self.columns.len()
    }

    /// The name of a column; empty where there is no such column.
    pub fn column_name(&self, col: usize) -> (r: String)
        ensures
            r@ == (if col < self.columns@.len() {
                self.columns@[col as int].name@
            } else {
                Seq::empty()
            }),
    {
        if col < self.columns.len() {
            self.columns[col].name.as_str().to_owned()
        } else {
            String::new()
        }
    }

    /// The type of a column, which is known before any row is; `TYPE_INVALID` where
    /// there is no such column.
    pub fn column_type(&self, col: usize) -> (r: u32)
        ensures
            r == (if col < self.columns@.len() {
                self.columns@[col as int].type_id
            } else {
                TYPE_INVALID
            }),
    {
        if col < self.columns.len() {
            self.columns[col].type_id
        } else {
            TYPE_INVALID
        }
    }

    /// How many rows an INSERT, UPDATE or DELETE changed.
    pub fn rows_changed(&self) -> (r: i64)
        ensures
            r == signed_64(self.changed),
    {
        to_signed(self.changed)
    }
}

/// A date and a time of day in the fields of a calendar.
#[derive(Debug, Clone, Copy, PartialEq, Eq, Structural)]
pub struct CalendarFields {
    pub year: i32,
    pub month: i8,
    pub day: i8,
    pub hour: i8,
    pub min: i8,
    pub sec: i8,
}

/// One column of a chunk of rows.
#[derive(Debug)]
pub struct Vector {
    /// The number that the engine gives the column's type.
    pub type_id: u32,
    /// Of a DECIMAL: its declared digits, and those behind the point.
    pub decimal_width: u8,
    pub decimal_scale: u8,
    /// Of a DECIMAL: the type that its values are stored as.
    pub decimal_internal: u32,
    /// Of an ENUM: the type that its indices are stored as.
    pub enum_internal: u32,
    /// Of an ENUM: the bytes of its values; `None` is a null pointer.
    pub dictionary: Vec<Option<Vec<u8>>>,
    /// One bit for each row, 64 to a word, the lowest first: set where the row
    /// has a value. `None` where all rows have one.
    pub validity: Option<Vec<u64>>,
    /// The values one after the other, each with its lowest byte first. Empty
    /// where the values have no fixed size.
    pub data: Vec<u8>,
    /// The bytes of the values of a VARCHAR or a BLOB.
    pub strings: Vec<Vec<u8>>,
    /// The calendar fields of the dates that are shown as text.
    pub calendar: Vec<Option<CalendarFields>>,
}

/// How many numbers `n` bytes tell apart.
pub open spec fn byte_range(n: nat) -> int
    decreases n,
{
    if n == 0 {
        1
    } else {
        256 * byte_range((n - 1) as nat)
    }
}

/// The number in the `n` bytes from `at` on, the lowest byte first.
pub open spec fn little_endian(bytes: Seq<u8>, at: int, n: nat) -> int
    decreases n,
{
    if n == 0 {
        0
    } else {
        bytes[at] + 256 * little_endian(bytes, at + 1, (n - 1) as nat)
    }
}

/// The same bytes read in two's complement.
pub open spec fn little_endian_signed(bytes: Seq<u8>, at: int, n: nat) -> int {
    let x = little_endian(bytes, at, n);
    if x >= byte_range(n) / 2 {
        x - byte_range(n)
    } else {
        x
    }
}

pub(crate) proof fn lemma_byte_range()
    ensures
        byte_range(0) == 1,
        byte_range(1) == 0x100,
        byte_range(2) == 0x1_0000,
        byte_range(3) == 0x100_0000,
        byte_range(4) == 0x1_0000_0000,
        byte_range(5) == 0x100_0000_0000,
        byte_range(6) == 0x1_0000_0000_0000,
        byte_range(7) == 0x100_0000_0000_0000,
        byte_range(8) == 0x1_0000_0000_0000_0000,
{
    reveal_with_fuel(byte_range, 9);
}

/// What `n` bytes hold is one of the numbers that they tell apart.
pub(crate) proof fn lemma_little_endian(bytes: Seq<u8>, at: int, n: nat)
    ensures
        0 <= little_endian(bytes, at, n) < byte_range(n),
    decreases n,
{
    if n > 0 {
        lemma_little_endian(bytes, at + 1, (n - 1) as nat);
    }
}

/// The number in the `n` bytes from `at` on, the lowest byte first.
pub fn read_unsigned(bytes: &Vec<u8>, at: usize, n: usize) -> (r: u64)
    requires
        n <= 8,
        at + n <= bytes@.len(),
    ensures
        r == little_endian(bytes@, at as int, n as nat),
        r < byte_range(n as nat),
    decreases n,
{
    proof {
        lemma_byte_range();
    }
    if n == 0 {
        0
    } else {
        assert(bytes.len() <= usize::MAX);
        let rest = read_unsigned(bytes, at + 1, n - 1);
        bytes[at] as u64 + 256 * rest
    }
}

/// The same bytes read in two's complement.
pub fn read_signed(bytes: &Vec<u8>, at: usize, n: usize) -> (r: i64)
    requires
        1 <= n <= 8,
        at + n <= bytes@.len(),
    ensures
        r == little_endian_signed(bytes@, at as int, n as nat),
        -byte_range(n as nat) <= 2 * r < byte_range(n as nat),
{
    proof {
        lemma_byte_range();
    }
    let x = read_unsigned(bytes, at, n) as i128;
    let mut full: i128 = 1;
    let mut i: usize = 0;
    while i < n
        invariant
            i <= n <= 8,
            full == byte_range(i as nat),
            full <= 0x1_0000_0000_0000_0000,
        decreases n - i,
    {
        proof {
            lemma_byte_range();
        }
        full = full * 256;
        i = i + 1;
    }
    if x >= full / 2 {
        (x - full) as i64
    } else {
        x as i64
    }
}

impl Vector {
    /// The type of the column.
    pub fn type_id(&self) -> (r: u32)
        ensures
            r == self.type_id,
    {
        self.type_id
    }

    /// The declared digits of a DECIMAL, and those behind the point.
    pub fn decimal_width_scale(&self) -> (r: (u8, u8))
        ensures
            r == (self.decimal_width, self.decimal_scale),
    {
        (self.decimal_width, self.decimal_scale)
    }

    /// The type that the values of a DECIMAL are stored as.
    pub fn decimal_internal_type(&self) -> (r: u32)
        ensures
            r == self.decimal_internal,
    {
        self.decimal_internal
    }

    /// The row has a value.
    pub open spec fn valid_at(self, row: int) -> bool {
        match self.validity {
            None => true,
            Some(mask) => (mask@[row / 64] >> ((row % 64) as u64)) & 1 == 1,
        }
    }

    /// There is a bit for each of the rows.
    pub open spec fn validity_covers(self, rows: int) -> bool {
        self.validity matches Some(mask) ==> mask@.len() * 64 >= rows
    }

    /// Whether the row has a value. Without a mask every row has one.
    pub fn is_valid(&self, row: usize) -> (r: bool)
        requires
            self.validity_covers(row + 1),
        ensures
            r == self.valid_at(row as int),
    {
        match &self.validity {
            None => true,
            Some(mask) => (mask[row / 64] >> ((row % 64) as u64)) & 1 == 1,
        }
    }
}

/// Some rows of a result.
#[derive(Debug)]
pub struct DataChunk {
    pub rows: usize,
    pub vectors: Vec<Vector>,
}

impl DataChunk {
    /// How many rows there are.
    pub fn len(&self) -> (r: usize)
        ensures
            r == self.rows,
    {
        self.rows
    }

    /// Whether there is no row.
    pub fn is_empty(&self) -> (r: bool)
        ensures
            r == (self.rows == 0),
    {
        self.rows == 0
    }

    /// How many columns there are.
    pub fn column_count(&self) -> (r: usize)
        ensures
            r == self.vectors@.len(),
    {
        self.vectors.len()
    }

    /// One column.
    pub fn vector(&self, col: usize) -> (r: &Vector)
        requires
            col < self.vectors@.len(),
        ensures
            *r == self.vectors@[col as int],
    {
        &self.vectors[col]
    }
}

// ---------------------------------------------------------------------------
// Laws
// ---------------------------------------------------------------------------

/// A number in `n` bytes is made of them: the byte at `i` is its digit at `i` to the
/// base 256, and it has no others.
pub proof fn law_bytes_are_digits(bytes: Seq<u8>, at: int, n: nat, i: int)
    requires
        0 <= i < n,
    ensures
        0 <= little_endian(bytes, at, n) < pow(256, n),
        little_endian(bytes, at, n) / pow(256, i as nat) % 256 == bytes[at + i],
    decreases n,
{
    lemma_byte_range_is_power(n);
    lemma_little_endian(bytes, at, n);
    let x = little_endian(bytes, at, n);
    let rest = little_endian(bytes, at + 1, (n - 1) as nat);
    lemma_little_endian(bytes, at + 1, (n - 1) as nat);
    reveal(pow);
    if i == 0 {
        assert(pow(256, 0) == 1);
    } else {
        law_bytes_are_digits(bytes, at + 1, (n - 1) as nat, i - 1);
        vstd::arithmetic::power::lemma_pow_positive(256, (i - 1) as nat);
        vstd::arithmetic::div_mod::lemma_div_denominator(x, 256, pow(256, (i - 1) as nat));
        assert(pow(256, i as nat) == 256 * pow(256, (i - 1) as nat));
        assert(x / 256 == rest);
    }
}

/// The same bytes in two's complement stand for a number that differs by a multiple
/// of what the bytes can count, and lies around zero.
pub proof fn law_two_s_complement(bytes: Seq<u8>, at: int, n: nat)
    requires
        n > 0,
    ensures
        (little_endian_signed(bytes, at, n) - little_endian(bytes, at, n)) % pow(256, n) == 0,
        -pow(256, n) <= 2 * little_endian_signed(bytes, at, n) < pow(256, n),
{
    lemma_byte_range_is_power(n);
    lemma_little_endian(bytes, at, n);
    let size = byte_range(n);
    assert(size == 256 * byte_range((n - 1) as nat));
    vstd::arithmetic::div_mod::lemma_fundamental_div_mod_converse(-size, size, -1, 0);
    vstd::arithmetic::div_mod::lemma_fundamental_div_mod_converse(0, size, 0, 0);
}

proof fn lemma_byte_range_is_power(n: nat)
    ensures
        byte_range(n) == pow(256, n),
        byte_range(n) > 0,
    decreases n,
{
    reveal(pow);
    if n > 0 {
        lemma_byte_range_is_power((n - 1) as nat);
    }
}

/// A row has a value where its bit is set: the bits stand 64 to a word, and the row
/// `r` has the bit `r % 64` of the word `r / 64`. Without words every row has one.
pub proof fn law_validity_is_a_bit(v: Vector, row: int)
    requires
        row >= 0,
    ensures
        v.validity is None ==> v.valid_at(row),
        v.validity matches Some(mask) ==> (v.valid_at(row) <==> (mask@[row / 64] as int
            / vstd::arithmetic::power2::pow2((row % 64) as nat) as int) % 2 == 1),
{
    if let Some(mask) = v.validity {
        let word = mask@[row / 64];
        let k = (row % 64) as u64;
        vstd::bits::lemma_u64_shr_is_div(word, k);
        let x = word >> k;
        assert(x & 1 == x % 2) by (bit_vector);
    }
}

/// What the engine says of a failure is never lost: where it has a message, that is the
/// message or stands in it, and so do the path, the setting and the number that it is
/// about.
pub proof fn law_the_engine_is_quoted(m: Seq<char>, path: Seq<char>, name: Seq<char>, index: int)
    requires
        m.len() > 0,
        index >= 0,
    ensures
        text::has_text(parse_failure(m), m),
        prepare_failure(index, m) == m,
        text::has_text(open_failure(path, m), m),
        text::has_text(open_failure(path, m), path),
        run_failure(m) == m,
        text::has_text(bind_failure(index, m), m),
        text::dec(index as nat).is_prefix_of(bind_failure(index, m)),
        appender_failure(path, m) == m,
        text::has_text(setting_failure(path, name), path),
        text::has_text(setting_failure(path, name), name),
{
    text::lemma_stands_in("SQL の構文エラー: "@, m, Seq::empty(), parse_failure(m));
    let open = open_failure(path, m);
    let opened = "データベース '"@;
    text::lemma_stands_in(opened, path, "' を開けませんでした: "@ + m, open);
    text::lemma_stands_in(opened + path + "' を開けませんでした: "@, m, Seq::empty(), open);
    let number = text::dec(index as nat);
    text::lemma_stands_in(number + " 番目のパラメータ: "@, m, Seq::empty(), bind_failure(index, m));
    let set = setting_failure(path, name);
    let head = "DuckDB の設定 '"@;
    text::lemma_stands_in(head, path, "' = '"@ + name + "' に失敗しました"@, set);
    text::lemma_stands_in(head + path + "' = '"@, name, "' に失敗しました"@, set);
}

/// Where the engine is silent, the message still says what failed: which statement and
/// which parameter, counted from 1, which path and which table.
pub proof fn law_silent_failures_are_named(path: Seq<char>, index: int)
    requires
        index >= 0,
    ensures
        text::dec((index + 1) as nat).is_prefix_of(prepare_failure(index, Seq::empty())),
        text::dec(index as nat).is_prefix_of(bind_failure(index, Seq::empty())),
        text::has_text(open_failure(path, Seq::empty()), path),
        text::has_text(appender_failure(path, Seq::empty()), path),
        parse_failure(Seq::empty()).len() > 0,
        run_failure(Seq::empty()).len() > 0,
{
    reveal_strlit("SQL を解析できませんでした（空の文の可能性があります）");
    reveal_strlit("SQL の実行に失敗しました");
    text::lemma_stands_in(
        "データベース '"@,
        path,
        "' を開けませんでした"@,
        open_failure(path, Seq::empty()),
    );
    text::lemma_stands_in(
        "テーブル「"@,
        path,
        "」を開けませんでした。名前を確認してください。"@,
        appender_failure(path, Seq::empty()),
    );
}

/// The count of the engine has 64 bits without sign; what is answered has the same
/// bits with sign.
pub proof fn law_counts_keep_their_bits(n: u64)
    ensures
        n <= i64::MAX ==> signed_64(n) == n,
        i64::MIN <= signed_64(n) <= i64::MAX,
        (signed_64(n) - n) % 0x1_0000_0000_0000_0000 == 0,
{
}

/// What is looked for in the bytes is the character NUL: the bytes of a text hold
/// a NUL exactly where the text does.
pub proof fn law_nul_bytes_are_nul_characters(s: Seq<char>)
    ensures
        has_nul(s) <==> s.contains('\0'),
    decreases s.len(),
{
    if s.len() > 0 {
        let c = s[0] as u32;
        let first = vstd::utf8::encode_scalar(c);
        let rest = vstd::utf8::encode_utf8(s.drop_first());
        let all = vstd::utf8::encode_utf8(s);
        assert(all == first + rest);
        law_nul_bytes_are_nul_characters(s.drop_first());
        lemma_nul_scalar(s[0]);
        if has_nul(s) {
            let k = choose|k: int| 0 <= k < all.len() && all[k] == 0;
            if k < first.len() {
                assert(first[k] == 0);
                assert(s[0] == '\0');
            } else {
                assert(rest[k - first.len()] == 0);
                let i = choose|i: int| 0 <= i < s.drop_first().len() && s.drop_first()[i] == '\0';
                assert(s[i + 1] == '\0');
            }
        }
        if s.contains('\0') {
            let i = choose|i: int| 0 <= i < s.len() && s[i] == '\0';
            if i == 0 {
                assert(all[0] == 0);
            } else {
                assert(s.drop_first()[i - 1] == '\0');
                let k = choose|k: int| 0 <= k < rest.len() && rest[k] == 0;
                assert(all[first.len() + k] == 0);
            }
        }
    }
}

proof fn lemma_nul_scalar(c: char)
    ensures
        ({
            let bytes = vstd::utf8::encode_scalar(c as u32);
            &&& c == '\0' ==> bytes.len() == 1 && bytes[0] == 0
            &&& forall|k: int| 0 <= k < bytes.len() && #[trigger] bytes[k] == 0 ==> c == '\0'
        }),
{
    let n = c as u32;
    vstd::utf8::char_is_scalar(c);
    assert((0u32 & 0x7F) as u8 == 0) by (bit_vector);
    assert(0 < n <= 0x7F ==> (n & 0x7F) as u8 != 0) by (bit_vector);
    assert(0x80u8 | (n & 0x3F) as u8 != 0) by (bit_vector);
    assert(0x80u8 | ((n >> 6) & 0x3F) as u8 != 0) by (bit_vector);
    assert(0x80u8 | ((n >> 12) & 0x3F) as u8 != 0) by (bit_vector);
    assert(0xC0u8 | ((n >> 6) & 0x1F) as u8 != 0) by (bit_vector);
    assert(0xE0u8 | ((n >> 12) & 0x0F) as u8 != 0) by (bit_vector);
    assert(0xF0u8 | ((n >> 18) & 0x7) as u8 != 0) by (bit_vector);
}

} // verus!
