//! Two-dimensional arrays of variants, as `Range.Value` takes and gives them.
use crate::oleaut;
use crate::oleaut::{SafeArrayData, Shown, SAFEARRAY, SAFEARRAYBOUND, VARIANT, VT_VARIANT};
use crate::text;
use vstd::prelude::*;

verus! {

/// The size of an Excel sheet.
pub const MAX_EXCEL_ROWS: usize = 1_048_576;
pub const MAX_EXCEL_COLS: usize = 16_384;

// ---------------------------------------------------------------------------
// Row order and column order
// ---------------------------------------------------------------------------

/// The elements of an `m` by `n` table, given row by row, column by column.
pub open spec fn transposed<T>(s: Seq<T>, m: int, n: int) -> Seq<T> {
    Seq::new((m * n) as nat, |k: int| s[(k % m) * n + k / m])
}

pub(crate) proof fn lemma_place(i: int, j: int, n: int)
    requires
        0 <= i,
        0 <= j < n,
    ensures
        (i * n + j) / n == i,
        (i * n + j) % n == j,
        0 <= i * n,
{
    vstd::arithmetic::div_mod::lemma_fundamental_div_mod_converse(i * n + j, n, i, j);
    assert(0 <= i * n) by (nonlinear_arith)
        requires
            0 <= i,
            0 <= n,
    ;
}

pub(crate) proof fn lemma_inside(i: int, j: int, m: int, n: int)
    requires
        0 <= i < m,
        0 <= j < n,
    ensures
        0 <= i * n + j < m * n,
{
    assert(0 <= i * n + j < m * n) by (nonlinear_arith)
        requires
            0 <= i < m,
            0 <= j < n,
    ;
}

pub(crate) proof fn lemma_split(k: int, m: int, n: int)
    requires
        0 <= k < m * n,
        0 < n,
    ensures
        0 <= k / n < m,
        0 <= k % n < n,
        k == (k / n) * n + k % n,
{
    vstd::arithmetic::div_mod::lemma_fundamental_div_mod(k, n);
    assert(n * (k / n) == (k / n) * n) by (nonlinear_arith);
    assert(0 <= k / n < m) by (nonlinear_arith)
        requires
            0 <= k < m * n,
            0 < n,
            k == n * (k / n) + k % n,
            0 <= k % n < n,
    ;
}

/// Where the element at row `i` and column `j` lies in either order.
pub proof fn law_transposed_at<T>(s: Seq<T>, m: int, n: int, i: int, j: int)
    requires
        s.len() == m * n,
        0 <= i < m,
        0 <= j < n,
    ensures
        0 <= j * m + i < transposed(s, m, n).len(),
        0 <= i * n + j < s.len(),
        transposed(s, m, n)[j * m + i] == s[i * n + j],
{
    lemma_place(j, i, m);
    lemma_inside(j, i, n, m);
    lemma_inside(i, j, m, n);
    assert(m * n == n * m) by (nonlinear_arith);
}

/// Changing the order and changing it back gives the same elements in the same
/// places.
pub proof fn law_transposed_twice<T>(s: Seq<T>, m: int, n: int)
    requires
        s.len() == m * n,
        0 < m,
        0 < n,
    ensures
        transposed(transposed(s, m, n), n, m) == s,
{
    assert(m * n == n * m) by (nonlinear_arith);
    let t = transposed(s, m, n);
    let u = transposed(t, n, m);
    assert forall|k: int| 0 <= k < s.len() implies u[k] == s[k] by {
        lemma_split(k, m, n);
        law_transposed_at(s, m, n, k / n, k % n);
    }
}

/// Reorders the elements of an `m` by `n` table from row order to column order.
pub fn transpose(cells: Vec<VARIANT>, m: usize, n: usize) -> (out: Vec<VARIANT>)
    requires
        cells@.len() == m * n,
    ensures
        out@ == transposed(cells@, m as int, n as int),
{
    let ghost orig = cells@;
    let len = cells.len();
    let mut cells = cells;
    let mut out: Vec<VARIANT> = Vec::new();
    let mut j: usize = 0;
    while j < n
        invariant
            j <= n,
            len == m * n,
            orig.len() == m * n,
            cells@.len() == m * n,
            out@.len() == j * m,
            forall|k: int| #![trigger out@[k]]
                0 <= k < out@.len() ==> out@[k] == orig[(k % m as int) * n + k / m as int],
            forall|p: int| #![trigger cells@[p]]
                0 <= p < orig.len() && p % n as int >= j ==> cells@[p] == orig[p],
        decreases n - j,
    {
        let mut i: usize = 0;
        while i < m
            invariant
                i <= m,
                j < n,
                len == m * n,
                orig.len() == m * n,
                cells@.len() == m * n,
                out@.len() == j * m + i,
                forall|k: int| #![trigger out@[k]]
                    0 <= k < out@.len() ==> out@[k] == orig[(k % m as int) * n + k / m as int],
                forall|p: int| #![trigger cells@[p]]
                    0 <= p < orig.len() && (p % n as int > j || (p % n as int == j && p / n as int
                        >= i)) ==> cells@[p] == orig[p],
            decreases m - i,
        {
            proof {
                lemma_inside(i as int, j as int, m as int, n as int);
                lemma_place(i as int, j as int, n as int);
                lemma_place(j as int, i as int, m as int);
            }
            let p: usize = i * n + j;
            let mut v = VARIANT::empty();
            std::mem::swap(&mut cells[p], &mut v);
            out.push(v);
            i = i + 1;
        }
        proof {
            assert((j + 1) * m == j * m + m) by (nonlinear_arith);
            assert forall|p: int| #![trigger cells@[p]]
                0 <= p < orig.len() && p % n as int >= j + 1 implies cells@[p] == orig[p] by {}
        }
        j = j + 1;
    }
    proof {
        assert(n * m == m * n) by (nonlinear_arith);
    }
    out
}

// ---------------------------------------------------------------------------
// Grid
// ---------------------------------------------------------------------------

/// How many whole rows of `cols` cells `len` cells make.
pub open spec fn rows_in(len: int, cols: int) -> int {
    if cols == 0 {
        0
    } else {
        len / cols
    }
}

/// A table of this size fits on a sheet.
pub open spec fn fits_sheet(rows: int, cols: int) -> bool {
    rows <= MAX_EXCEL_ROWS && cols <= MAX_EXCEL_COLS
}

/// Why a table of this size does not fit on a sheet.
pub open spec fn sheet_objection(rows: int, cols: int) -> Seq<char> {
    if rows > MAX_EXCEL_ROWS {
        "結果が "@ + text::dec(rows as nat) + " 行あり、Excel シートの上限 "@ + text::dec(
            MAX_EXCEL_ROWS as nat,
        ) + " 行を超えています。SQL に LIMIT を付けて絞り込んでください。"@
    } else {
        "結果が "@ + text::dec(cols as nat) + " 列あり、Excel シートの上限 "@ + text::dec(
            MAX_EXCEL_COLS as nat,
        ) + " 列を超えています。"@
    }
}

/// The values as VBA sees them.
pub open spec fn shown_cells(s: Seq<VARIANT>) -> Seq<Shown> {
    Seq::new(s.len(), |i: int| s[i]@)
}

/// What VBA gets back: a value, or an array of values.
#[verifier::ext_equal]
pub enum Answer {
    Value(Shown),
    Array {
        vt: u16,
        vartype: Option<u16>,
        bounds: Seq<Option<SAFEARRAYBOUND>>,
        cells: Seq<Shown>,
    },
}

/// What VBA sees of a value.
pub open spec fn answer_of(v: VARIANT) -> Answer {
    match v.value {
        oleaut::VARIANT_VALUE::Array(Some(a)) => match a.data {
            Some(SafeArrayData::Variants(d)) => Answer::Array {
                vt: v.vt,
                vartype: a.vartype,
                bounds: a.bounds@,
                cells: shown_cells(d@),
            },
            _ => Answer::Value(v@),
        },
        _ => Answer::Value(v@),
    }
}

/// The array that stands for a table: dimension 1 counts its rows, dimension 2
/// its columns, both from 1, and the cells, given row by row, lie column by
/// column.
pub open spec fn table_answer(rows: int, cols: int, cells: Seq<Shown>) -> Answer {
    Answer::Array {
        vt: (oleaut::VT_ARRAY + VT_VARIANT) as u16,
        vartype: Some(VT_VARIANT),
        bounds: seq![
            Some(SAFEARRAYBOUND { cElements: rows as u32, lLbound: 1 }),
            Some(SAFEARRAYBOUND { cElements: cols as u32, lLbound: 1 }),
        ],
        cells: transposed(cells, rows, cols),
    }
}

/// What comes of a table with these cells, given row by row: an array, unless it
/// is too large for a sheet or has no cells.
pub open spec fn table_outcome(cols: int, cells: Seq<Shown>) -> Result<Answer, Seq<char>> {
    let rows = rows_in(cells.len() as int, cols);
    if !fits_sheet(rows, cols) {
        Err(sheet_objection(rows, cols))
    } else if rows == 0 || cols == 0 {
        Err("結果が空です（0 行または 0 列）"@)
    } else {
        Ok(table_answer(rows, cols, cells))
    }
}

/// What VBA sees of an outcome.
pub open spec fn outcome_of(r: Result<VARIANT, String>) -> Result<Answer, Seq<char>> {
    match r {
        Ok(v) => Ok(answer_of(v)),
        Err(m) => Err(m@),
    }
}

/// A table that is being filled, row by row.
#[derive(Debug)]
pub struct Grid {
    pub cols: usize,
    /// The cells, row by row.
    pub cells: Vec<VARIANT>,
}

impl Grid {
    /// How many whole rows there are.
    pub open spec fn row_count(self) -> int {
        rows_in(self.cells@.len() as int, self.cols as int)
    }

    /// The rows are whole.
    pub open spec fn whole(self) -> bool {
        self.cells@.len() == self.row_count() * self.cols
    }

    /// Each cell is what its type code says.
    pub open spec fn cells_wf(self) -> bool {
        forall|i: int| 0 <= i < self.cells@.len() ==> (#[trigger] self.cells@[i]).wf()
    }

    /// The table fits on a sheet.
    pub open spec fn fits_excel(self) -> bool {
        fits_sheet(self.row_count(), self.cols as int)
    }

    /// Starts with a row of column names.
    pub fn with_header(headers: &Vec<String>) -> (r: Grid)
        ensures
            r.cols == headers@.len(),
            r.cells@.len() == headers@.len(),
            forall|i: int|
                0 <= i < headers@.len() ==> (#[trigger] r.cells@[i])@ == oleaut::shown_text(
                    headers@[i]@,
                ),
            r.whole(),
            r.cells_wf(),
    {
        let cols = headers.len();
        let mut cells: Vec<VARIANT> = Vec::new();
        let mut i: usize = 0;
        while i < cols
            invariant
                i <= cols,
                cols == headers@.len(),
                cells@.len() == i,
                forall|k: int|
                    0 <= k < i ==> (#[trigger] cells@[k]).wf() && cells@[k]@ == oleaut::shown_text(
                        headers@[k]@,
                    ),
            decreases cols - i,
        {
            cells.push(VARIANT::bstr(headers[i].as_str()));
            i = i + 1;
        }
        proof {
            if cols > 0 {
                lemma_place(1, 0, cols as int);
            }
        }
        Grid { cols, cells }
    }

    /// Starts without a header.
    pub fn with_cols(cols: usize) -> (r: Grid)
        ensures
            r.cols == cols,
            r.cells@.len() == 0,
            r.whole(),
            r.cells_wf(),
    {
        let r = Grid { cols, cells: Vec::new() };
        proof {
            if cols > 0 {
                lemma_place(0, 0, cols as int);
            }
        }
        r
    }

    /// How many columns there are.
    pub fn cols(&self) -> (r: usize)
        ensures
            r == self.cols,
    {
        self.cols
    }

    /// How many whole rows there are.
    pub fn rows(&self) -> (r: usize)
        ensures
            r == self.row_count(),
    {
        if self.cols == 0 {
            0
        } else {
            self.cells.len() / self.cols
        }
    }

    /// Adds one cell. The caller adds whole rows.
    pub fn push(&mut self, v: VARIANT)
        ensures
            final(self).cols == old(self).cols,
            final(self).cells@ == old(self).cells@.push(v),
    {
        self.cells.push(v);
    }

    /// Adds a row.
    pub fn push_row(&mut self, row: Vec<VARIANT>)
        requires
            row@.len() == old(self).cols,
        ensures
            final(self).cols == old(self).cols,
            final(self).cells@ == old(self).cells@ + row@,
            old(self).whole() && old(self).cols > 0 ==> {
                &&& final(self).whole()
                &&& final(self).row_count() == old(self).row_count() + 1
            },
    {
        let ghost before = *self;
        let mut row = row;
        self.cells.append(&mut row);
        proof {
            if before.whole() && before.cols > 0 {
                let n = before.cols as int;
                let k = before.row_count();
                assert((k + 1) * n == k * n + n) by (nonlinear_arith);
                assert(k >= 0) by {
                    vstd::arithmetic::div_mod::lemma_div_pos_is_pos(
                        before.cells@.len() as int,
                        n,
                    );
                }
                lemma_place(k + 1, 0, n);
            }
        }
    }

    /// Refuses a table that does not fit on a sheet.
    pub fn check_excel_limits(&self) -> (r: Result<(), String>)
        ensures
            r is Ok <==> self.fits_excel(),
            r matches Err(m) ==> m@ == sheet_objection(self.row_count(), self.cols as int),
    {
        let rows = self.rows();
        if rows > MAX_EXCEL_ROWS {
            let mut m = "結果が ".to_owned();
            text::push_dec(&mut m, rows as u128);
            m.append(" 行あり、Excel シートの上限 ");
            text::push_dec(&mut m, MAX_EXCEL_ROWS as u128);
            m.append(" 行を超えています。SQL に LIMIT を付けて絞り込んでください。");
            return Err(m);
        }
        if self.cols > MAX_EXCEL_COLS {
            let mut m = "結果が ".to_owned();
            text::push_dec(&mut m, self.cols as u128);
            m.append(" 列あり、Excel シートの上限 ");
            text::push_dec(&mut m, MAX_EXCEL_COLS as u128);
            m.append(" 列を超えています。");
            return Err(m);
        }
        Ok(())
    }

    /// The array is the table: dimension 1 counts its rows, dimension 2 its
    /// columns, both from 1, and the elements lie column by column.
    pub open spec fn is_array_of(self, v: VARIANT) -> bool {
        &&& v.vt == oleaut::VT_ARRAY + VT_VARIANT
        &&& v.value matches oleaut::VARIANT_VALUE::Array(Some(a))
        &&& a.vartype == Some(VT_VARIANT)
        &&& a.bounds@ == seq![
            Some(SAFEARRAYBOUND { cElements: self.row_count() as u32, lLbound: 1 }),
            Some(SAFEARRAYBOUND { cElements: self.cols as u32, lLbound: 1 }),
        ]
        &&& a.data matches Some(SafeArrayData::Variants(d))
        &&& d@ == transposed(self.cells@, self.row_count(), self.cols as int)
    }

    /// Turns the table into an array for VBA. A table too large for a sheet and
    /// a table without cells are refused.
    pub fn into_variant(self) -> (r: Result<VARIANT, String>)
        requires
            self.whole(),
        ensures
            outcome_of(r) == table_outcome(self.cols as int, shown_cells(self.cells@)),
            r is Ok <==> self.fits_excel() && self.row_count() > 0 && self.cols > 0,
            r matches Ok(v) ==> self.is_array_of(v),
            r matches Ok(v) ==> (self.cells_wf() ==> v.wf()),
    {
        match self.check_excel_limits() {
            Ok(()) => {},
            Err(m) => {
                return Err(m);
            },
        }
        let rows = self.rows();
        let cols = self.cols;
        if rows == 0 || cols == 0 {
            return Err("結果が空です（0 行または 0 列）".to_owned());
        }
        let ghost before = self;
        let mut bounds: Vec<Option<SAFEARRAYBOUND>> = Vec::new();
        bounds.push(Some(SAFEARRAYBOUND { cElements: rows as u32, lLbound: 1 }));
        bounds.push(Some(SAFEARRAYBOUND { cElements: cols as u32, lLbound: 1 }));
        let data = transpose(self.cells, rows, cols);
        proof {
            if before.cells_wf() {
                assert forall|k: int| 0 <= k < data@.len() implies (#[trigger] data@[k]).wf() by {
                    assert(rows * cols == cols * rows) by (nonlinear_arith);
                    lemma_split(k, cols as int, rows as int);
                    lemma_inside(k % rows as int, k / rows as int, rows as int, cols as int);
                }
            }
        }
        let a = SAFEARRAY {
            vartype: Some(VT_VARIANT),
            bounds,
            data: Some(SafeArrayData::Variants(data)),
        };
        assert(before.cells_wf() ==> a.wf());
        let v = VARIANT::array(a);
        proof {
            lemma_shown_transposed(before.cells@, rows as int, cols as int);
            assert(answer_of(v) == table_answer(
                rows as int,
                cols as int,
                shown_cells(before.cells@),
            ));
        }
        Ok(v)
    }
}

proof fn lemma_shown_transposed(s: Seq<VARIANT>, m: int, n: int)
    requires
        s.len() == m * n,
        0 < m,
        0 < n,
    ensures
        shown_cells(transposed(s, m, n)) == transposed(shown_cells(s), m, n),
{
    assert forall|k: int| 0 <= k < m * n implies #[trigger] shown_cells(transposed(s, m, n))[k]
        == transposed(shown_cells(s), m, n)[k] by {
        assert(m * n == n * m) by (nonlinear_arith);
        lemma_split(k, n, m);
        lemma_inside(k % m, k / m, m, n);
    }
}

/// A sheet has 1048576 rows and 16384 columns, and nothing larger fits on it.
pub proof fn law_sheet_size(rows: int, cols: int)
    ensures
        fits_sheet(rows, cols) <==> rows <= 1_048_576 && cols <= 16_384,
{
}

/// A table that has cells and fits on a sheet becomes an array of variants in two
/// dimensions, both counted from 1: the cell at row `i` and column `j` of the table,
/// counted from 0, lies where VBA finds it, with the rows changing fastest. A table
/// that is larger, or has no cells, becomes none.
pub proof fn law_tables_become_arrays(rows: int, cols: int, cells: Seq<Shown>)
    requires
        rows >= 0,
        cols > 0,
        cells.len() == rows * cols,
    ensures
        table_outcome(cols, cells) is Ok <==> 1 <= rows <= 1_048_576 && cols <= 16_384,
        table_outcome(cols, cells) matches Ok(x) ==> {
            &&& x matches Answer::Array { vt, vartype, bounds, cells: c }
            &&& vt == 0x200C
            &&& vartype == Some(12u16)
            &&& bounds == seq![
                Some(SAFEARRAYBOUND { cElements: rows as u32, lLbound: 1 }),
                Some(SAFEARRAYBOUND { cElements: cols as u32, lLbound: 1 }),
            ]
            &&& c.len() == rows * cols
            &&& forall|i: int, j: int|
                0 <= i < rows && 0 <= j < cols ==> #[trigger] c[j * rows + i] == cells[i * cols + j]
        },
{
    lemma_place(rows, 0, cols);
    assert(rows_in(cells.len() as int, cols) == rows);
    if fits_sheet(rows, cols) && rows > 0 {
        let c = transposed(cells, rows, cols);
        assert forall|i: int, j: int| 0 <= i < rows && 0 <= j < cols implies #[trigger] c[j * rows
            + i] == cells[i * cols + j] by {
            law_transposed_at(cells, rows, cols, i, j);
        }
        assert(table_outcome(cols, cells) == Ok::<Answer, Seq<char>>(
            table_answer(rows, cols, cells),
        ));
    }
}

/// The message for an array that could not be allocated.
pub fn allocation_failure(rows: usize, cols: usize) -> (r: String)
    ensures
        r@ == "SAFEARRAY の確保に失敗しました（"@ + text::dec(rows as nat) + " 行 x "@ + text::dec(
            cols as nat,
        ) + " 列）。メモリ不足の可能性があります。"@,
{
    let mut m = "SAFEARRAY の確保に失敗しました（".to_owned();
    text::push_dec(&mut m, rows as u128);
    m.append(" 行 x ");
    text::push_dec(&mut m, cols as u128);
    m.append(" 列）。メモリ不足の可能性があります。");
    m
}

/// A single number, which is handed over as such and not as an array.
pub fn scalar_i64(v: i64) -> (r: VARIANT)
    ensures
        r@ == oleaut::shown_i64(v as int),
{
    VARIANT::i64(v)
}

/// Puts a value where the caller wants it, over what was there. Without a place
/// the value is given up.
pub fn write_out(out: Option<&mut VARIANT>, value: VARIANT)
    ensures
        out matches Some(place) ==> *final(place) == value,
{
    match out {
        None => {},
        Some(place) => {
            place.clear();
            *place = value;
        },
    }
}

} // verus!
