//! Running SQL texts, and turning what comes of them into tables.
use crate::classify;
use crate::classify::ApiKind;
use crate::conn::ConnState;
use crate::inbound;
use crate::inbound::{GridView, InputGrid};
use crate::level::Level;
use crate::oleaut;
use crate::oleaut::{Shown, VARIANT, VARIANT_VALUE, VT_BSTR};
use crate::raw;
use crate::raw::{Column, DataChunk, Extracted, ParseReply, QueryResult};
use crate::schema;
use crate::task;
use crate::task::{Action, ActionView, Handover, Reply, Step, StepView, Task, TaskView};
use crate::text;
use crate::value;
use crate::variant;
use crate::variant::{Answer, Grid};
use vstd::prelude::*;

verus! {

/// What is wanted of a result.
#[derive(Debug, Clone, Copy, PartialEq, Eq, Structural)]
pub enum Goal {
    /// Its rows, as a table.
    Rows,
    /// How many rows were changed.
    Count,
    /// That the schema was changed, for which no rows are counted.
    Schema,
    /// Nothing but that it went well.
    Nothing,
    /// The text in its first cell, which holds CREATE statements.
    Text,
}

/// A text that is being run, and what was asked last.
#[derive(Debug)]
pub enum QueryTask {
    Parsing { level: Level, api: ApiKind, sql: String, goal: Goal },
    ParsingWithParams { level: Level, api: ApiKind, params: InputGrid, goal: Goal },
    /// The value at the index `at` was handed over.
    Binding { params: InputGrid, at: usize, goal: Goal },
    Running { goal: Goal },
    Fetching { grid: Grid },
    FetchingText,
}

/// The contents of a `QueryTask`.
#[verifier::ext_equal]
pub enum QueryTaskView {
    Parsing { level: Level, api: ApiKind, sql: Seq<char>, goal: Goal },
    ParsingWithParams { level: Level, api: ApiKind, params: GridView, goal: Goal },
    Binding { params: GridView, at: int, goal: Goal },
    Running { goal: Goal },
    Fetching { cols: int, cells: Seq<Shown> },
    FetchingText,
}

impl View for QueryTask {
    type V = QueryTaskView;

    open spec fn view(&self) -> QueryTaskView {
        match *self {
            QueryTask::Parsing { level, api, sql, goal } => QueryTaskView::Parsing {
                level,
                api,
                sql: sql@,
                goal,
            },
            QueryTask::ParsingWithParams { level, api, params, goal } => {
                QueryTaskView::ParsingWithParams { level, api, params: params@, goal }
            },
            QueryTask::Binding { params, at, goal } => QueryTaskView::Binding {
                params: params@,
                at: at as int,
                goal,
            },
            QueryTask::Running { goal } => QueryTaskView::Running { goal },
            QueryTask::Fetching { grid } => QueryTaskView::Fetching {
                cols: grid.cols as int,
                cells: variant::shown_cells(grid.cells@),
            },
            QueryTask::FetchingText => QueryTaskView::FetchingText,
        }
    }
}

impl QueryTask {
    /// What the task holds is whole.
    pub open spec fn wf(self) -> bool {
        match self {
            QueryTask::ParsingWithParams { level, api, params, goal } => params.wf(),
            QueryTask::Binding { params, at, goal } => params.wf() && at < params.cells@.len(),
            QueryTask::Fetching { grid } => grid.whole() && grid.cols > 0,
            _ => true,
        }
    }
}

// ---------------------------------------------------------------------------
// Tables
// ---------------------------------------------------------------------------

/// The row of column names.
pub open spec fn header(columns: Seq<Column>) -> Seq<Shown> {
    Seq::new(columns.len(), |i: int| oleaut::shown_text(columns[i].name@))
}

/// The index of the first column, from `from` on, that a cell cannot show; the
/// number of columns where there is none.
pub open spec fn first_unshowable(columns: Seq<Column>, from: int) -> int
    decreases columns.len() - from,
{
    if from < 0 || from >= columns.len() {
        columns.len() as int
    } else if value::unsupported(columns[from].type_id) is Some {
        from
    } else {
        first_unshowable(columns, from + 1)
    }
}

/// The cells of some rows, row by row.
pub open spec fn chunk_cells(chunk: DataChunk, cols: int) -> Seq<Shown> {
    Seq::new(
        (chunk.rows * cols) as nat,
        |k: int| value::cell_at(chunk.vectors@[k % cols], k / cols),
    )
}

/// Each cell of the rows can be read.
pub open spec fn chunk_readable(chunk: DataChunk, cols: int) -> bool {
    &&& chunk.vectors@.len() >= cols
    &&& forall|c: int, r: int| #![trigger value::readable(chunk.vectors@[c], r)]
        0 <= c < cols && 0 <= r < chunk.rows ==> value::readable(chunk.vectors@[c], r)
}

/// The next rows of a table are wanted.
pub open spec fn ask_rows(cols: int, cells: Seq<Shown>) -> StepView {
    StepView::Ask {
        action: ActionView::Fetch,
        task: TaskView::Query(QueryTaskView::Fetching { cols, cells }),
    }
}

/// How a table begins: a result without columns, or with one that a cell cannot
/// show, is refused before any row is fetched.
pub open spec fn table_start(columns: Seq<Column>) -> StepView {
    let bad = first_unshowable(columns, 0);
    if columns.len() == 0 {
        task::failed(
            "この SQL は結果セットを返しません。DackExecute を使ってください。"@,
        )
    } else if bad < columns.len() {
        task::failed(
            value::column_objection(
                columns[bad].name@,
                value::unsupported(columns[bad].type_id)->0,
            ),
        )
    } else {
        ask_rows(columns.len() as int, header(columns))
    }
}

/// How a table goes on with more rows. It ends as soon as it is too large for a
/// sheet, and not only behind the last row.
pub open spec fn table_after(cols: int, cells: Seq<Shown>, chunk: Option<DataChunk>) -> StepView {
    match chunk {
        None => StepView::Done(variant::table_outcome(cols, cells)),
        Some(c) => if c.rows == 0 {
            ask_rows(cols, cells)
        } else {
            let all = cells + chunk_cells(c, cols);
            let rows = variant::rows_in(all.len() as int, cols);
            if variant::fits_sheet(rows, cols) {
                ask_rows(cols, all)
            } else {
                task::failed(variant::sheet_objection(rows, cols))
            }
        },
    }
}

proof fn lemma_more_rows(len: int, rows: int, cols: int)
    requires
        cols > 0,
        rows >= 0,
        len >= 0,
        len == variant::rows_in(len, cols) * cols,
    ensures
        variant::rows_in(len + rows * cols, cols) == variant::rows_in(len, cols) + rows,
        len + rows * cols == variant::rows_in(len + rows * cols, cols) * cols,
{
    let k = len / cols;
    assert(k >= 0) by {
        vstd::arithmetic::div_mod::lemma_div_pos_is_pos(len, cols);
    }
    assert((k + rows) * cols == k * cols + rows * cols) by (nonlinear_arith);
    variant::lemma_place(k + rows, 0, cols);
}

fn push_chunk(grid: &mut Grid, chunk: &DataChunk)
    requires
        old(grid).whole(),
        old(grid).cols > 0,
        chunk_readable(*chunk, old(grid).cols as int),
    ensures
        final(grid).cols == old(grid).cols,
        final(grid).whole(),
        variant::shown_cells(final(grid).cells@) == variant::shown_cells(old(grid).cells@)
            + chunk_cells(*chunk, old(grid).cols as int),
{
    let ghost before = grid.cells@;
    let cols = grid.cols();
    let rows = chunk.len();
    let mut r: usize = 0;
    while r < rows
        invariant
            r <= rows,
            rows == chunk.rows,
            cols > 0,
            grid.cols == cols,
            chunk_readable(*chunk, cols as int),
            grid.cells@.len() == before.len() + r * cols,
            forall|k: int| 0 <= k < before.len() ==> grid.cells@[k] == before[k],
            forall|k: int| #![trigger grid.cells@[before.len() + k]]
                0 <= k < r * cols ==> grid.cells@[before.len() + k]@ == value::cell_at(
                    chunk.vectors@[k % cols as int],
                    k / cols as int,
                ),
        decreases rows - r,
    {
        let mut c: usize = 0;
        while c < cols
            invariant
                c <= cols,
                r < rows,
                rows == chunk.rows,
                cols > 0,
                grid.cols == cols,
                chunk_readable(*chunk, cols as int),
                grid.cells@.len() == before.len() + r * cols + c,
                forall|k: int| 0 <= k < before.len() ==> grid.cells@[k] == before[k],
                forall|k: int| #![trigger grid.cells@[before.len() + k]]
                    0 <= k < r * cols + c ==> grid.cells@[before.len() + k]@ == value::cell_at(
                        chunk.vectors@[k % cols as int],
                        k / cols as int,
                    ),
            decreases cols - c,
        {
            let v = chunk.vector(c);
            grid.push(value::cell_to_variant(v, r));
            proof {
                variant::lemma_place(r as int, c as int, cols as int);
            }
            c = c + 1;
        }
        proof {
            assert((r + 1) * cols == r * cols + cols) by (nonlinear_arith);
        }
        r = r + 1;
    }
    proof {
        lemma_more_rows(before.len() as int, rows as int, cols as int);
        assert(0 <= rows * cols) by (nonlinear_arith);
        let shown = variant::shown_cells(grid.cells@);
        let want = variant::shown_cells(before) + chunk_cells(*chunk, cols as int);
        assert forall|i: int| 0 <= i < shown.len() implies shown[i] == want[i] by {
            if i >= before.len() {
                let k = i - before.len();
                assert(grid.cells@[before.len() + k]@ == want[i]);
            }
        }
    }
}

fn fetch_rows(grid: Grid) -> (r: Step)
    requires
        grid.whole(),
        grid.cols > 0,
    ensures
        r@ == ask_rows(grid.cols as int, variant::shown_cells(grid.cells@)),
        r.wf(),
{
    Step::Ask { action: Action::Fetch, task: Task::Query(QueryTask::Fetching { grid }) }
}

/// Begins to turn a result into a table.
pub fn result_to_grid(result: &QueryResult) -> (r: Step)
    ensures
        r@ == table_start(result.columns@),
        r.wf(),
{
    let ncols = result.column_count();
    if ncols == 0 {
        return Step::Done(
            Err("この SQL は結果セットを返しません。DackExecute を使ってください。".to_owned()),
        );
    }
    let ghost columns = result.columns@;
    let mut headers: Vec<String> = Vec::new();
    let mut c: usize = 0;
    while c < ncols
        invariant
            c <= ncols,
            ncols == columns.len(),
            columns == result.columns@,
            headers@.len() == c,
            forall|k: int| 0 <= k < c ==> (#[trigger] headers@[k])@ == columns[k].name@,
            first_unshowable(columns, 0) == first_unshowable(columns, c as int),
        decreases ncols - c,
    {
        let name = result.column_name(c);
        match value::check_column_supported(name.as_str(), result.column_type(c)) {
            Ok(()) => {},
            Err(m) => {
                return Step::Done(Err(m));
            },
        }
        headers.push(name);
        c = c + 1;
    }
    let grid = Grid::with_header(&headers);
    fetch_rows(grid)
}

/// Goes on with more rows.
fn more_rows(grid: Grid, chunk: Option<DataChunk>) -> (r: Step)
    requires
        grid.whole(),
        grid.cols > 0,
        chunk matches Some(c) ==> chunk_readable(c, grid.cols as int),
    ensures
        r@ == table_after(grid.cols as int, variant::shown_cells(grid.cells@), chunk),
        r.wf(),
{
    match chunk {
        None => Step::Done(grid.into_variant()),
        Some(c) => {
            if c.is_empty() {
                return fetch_rows(grid);
            }
            let mut grid = grid;
            push_chunk(&mut grid, &c);
            match grid.check_excel_limits() {
                Ok(()) => fetch_rows(grid),
                Err(m) => Step::Done(Err(m)),
            }
        },
    }
}

// ---------------------------------------------------------------------------
// Results
// ---------------------------------------------------------------------------

/// The text is run next.
pub open spec fn ask_run(sql: Seq<char>, goal: Goal) -> StepView {
    StepView::Ask {
        action: ActionView::Run(sql),
        task: TaskView::Query(QueryTaskView::Running { goal }),
    }
}

/// The text of a cell; `None` where the cell is no text.
pub open spec fn cell_text(cell: Shown) -> Option<Seq<char>> {
    if cell.vt == VT_BSTR {
        match cell.content {
            oleaut::Content::Text(Some(u)) => Some(text::utf16_text(u)),
            _ => Some(Seq::empty()),
        }
    } else {
        None
    }
}

/// How a result is used.
pub open spec fn run_after(goal: Goal, result: Result<QueryResult, String>) -> StepView {
    match result {
        Err(m) => task::failed(raw::run_failure(m@)),
        Ok(q) => match goal {
            Goal::Rows => table_start(q.columns@),
            Goal::Count => StepView::Done(
                Ok(Answer::Value(oleaut::shown_i64(raw::signed_64(q.changed)))),
            ),
            Goal::Schema => StepView::Done(Ok(Answer::Value(oleaut::shown_i64(0)))),
            Goal::Nothing => StepView::Done(Ok(Answer::Value(oleaut::shown_empty()))),
            Goal::Text => if q.columns@.len() == 0 {
                StepView::Done(Ok(Answer::Value(schema::shown_ddl(None))))
            } else {
                StepView::Ask {
                    action: ActionView::Fetch,
                    task: TaskView::Query(QueryTaskView::FetchingText),
                }
            },
        },
    }
}

/// The text in the first cell of the rows that came first; `None` where there is
/// none.
pub open spec fn first_text(chunk: Option<DataChunk>) -> Option<Seq<char>> {
    match chunk {
        None => None,
        Some(c) => if c.rows == 0 {
            None
        } else {
            cell_text(value::cell_at(c.vectors@[0], 0))
        },
    }
}

fn run(sql: String, goal: Goal) -> (r: Step)
    ensures
        r@ == ask_run(sql@, goal),
        r.wf(),
{
    Step::Ask { action: Action::Run(sql), task: Task::Query(QueryTask::Running { goal }) }
}

fn use_result(goal: Goal, result: Result<QueryResult, String>) -> (r: Step)
    ensures
        r@ == run_after(goal, result),
        r.wf(),
{
    match result {
        Err(m) => Step::Done(Err(raw::not_run(m))),
        Ok(q) => match goal {
            Goal::Rows => result_to_grid(&q),
            Goal::Count => Step::Done(Ok(variant::scalar_i64(q.rows_changed()))),
            Goal::Schema => Step::Done(Ok(variant::scalar_i64(0))),
            Goal::Nothing => Step::Done(Ok(VARIANT::empty())),
            Goal::Text => {
                if q.column_count() == 0 {
                    Step::Done(Ok(schema::ddl_answer(None)))
                } else {
                    Step::Ask {
                        action: Action::Fetch,
                        task: Task::Query(QueryTask::FetchingText),
                    }
                }
            },
        },
    }
}

/// The text in the first cell of the rows that came first; `None` where there is
/// none.
pub fn scalar_string(chunk: Option<DataChunk>) -> (r: Option<String>)
    requires
        chunk matches Some(c) ==> chunk_readable(c, 1),
    ensures
        r is Some <==> first_text(chunk) is Some,
        r matches Some(s) ==> first_text(chunk) == Some(s@),
{
    match chunk {
        None => None,
        Some(c) => {
            if c.is_empty() {
                return None;
            }
            let cell = value::cell_to_variant(c.vector(0), 0);
            if cell.vt != VT_BSTR {
                return None;
            }
            match &cell.value {
                VARIANT_VALUE::Bstr(b) => Some(oleaut::bstr_to_string(b)),
                _ => Some(String::new()),
            }
        },
    }
}

// ---------------------------------------------------------------------------
// Admission
// ---------------------------------------------------------------------------

/// How running a text begins: the engine takes it apart, and nothing runs yet.
pub open spec fn admission(level: Level, api: ApiKind, sql: Seq<char>, goal: Goal) -> StepView {
    if raw::has_nul(sql) {
        task::failed(raw::NUL_MESSAGE@)
    } else {
        StepView::Ask {
            action: ActionView::Parse(sql),
            task: TaskView::Query(QueryTaskView::Parsing { level, api, sql, goal }),
        }
    }
}

/// How a text that was taken apart goes on: it runs only where every statement in
/// it may.
pub open spec fn admission_after(
    level: Level,
    api: ApiKind,
    sql: Seq<char>,
    goal: Goal,
    parsed: ParseReply,
) -> StepView {
    if parsed.statements@.len() == 0 {
        task::failed(raw::parse_failure(parsed.message@))
    } else if classify::all_pass(level, api, parsed.statements@) {
        ask_run(sql, goal)
    } else {
        task::failed(classify::objection(level, api, parsed.statements@))
    }
}

fn begin_admission(level: Level, api: ApiKind, sql: &str, goal: Goal) -> (r: Step)
    ensures
        r@ == admission(level, api, sql@, goal),
        r.wf(),
{
    if raw::contains_nul(sql) {
        return Step::Done(Err(raw::NUL_MESSAGE.to_owned()));
    }
    Step::Ask {
        action: Action::Parse(sql.to_owned()),
        task: Task::Query(QueryTask::Parsing { level, api, sql: sql.to_owned(), goal }),
    }
}

fn end_admission(
    level: Level,
    api: ApiKind,
    sql: String,
    goal: Goal,
    parsed: ParseReply,
) -> (r: Step)
    ensures
        r@ == admission_after(level, api, sql@, goal, parsed),
        r.wf(),
{
    let extracted = match Extracted::extract(parsed) {
        Ok(x) => x,
        Err(m) => {
            return Step::Done(Err(m));
        },
    };
    match classify::check(level, api, &extracted) {
        Ok(()) => run(sql, goal),
        Err(m) => Step::Done(Err(m)),
    }
}

// ---------------------------------------------------------------------------
// Parameters
// ---------------------------------------------------------------------------

/// The parameters stand in one row or in one column.
pub open spec fn in_line(g: GridView) -> bool {
    g.rows == 1 || g.cols == 1
}

/// Where the parameter at the index `k` stands.
pub open spec fn param_place(g: GridView, k: int) -> Seq<char> {
    if g.rows == 1 {
        inbound::position_text(0, k)
    } else {
        inbound::position_text(k, 0)
    }
}

/// What the parameter at the index `k` becomes.
pub open spec fn param_value(g: GridView, k: int) -> Result<inbound::EngineValue, Seq<char>> {
    inbound::value_of(g.cells[k].value, g.cells[k].vt, param_place(g, k))
}

/// How running a text with parameters begins.
pub open spec fn admission_with_params(
    level: Level,
    api: ApiKind,
    sql: Seq<char>,
    params: GridView,
    goal: Goal,
) -> StepView {
    if raw::has_nul(sql) {
        task::failed(raw::NUL_MESSAGE@)
    } else {
        StepView::Ask {
            action: ActionView::Parse(sql),
            task: TaskView::Query(QueryTaskView::ParsingWithParams { level, api, params, goal }),
        }
    }
}

/// The parameters from the index `at` on are bound, each when its turn comes, and
/// behind the last one the statement runs.
pub open spec fn bind_from(params: GridView, at: int, goal: Goal) -> StepView {
    if at >= params.cells.len() {
        StepView::Ask {
            action: ActionView::RunPrepared,
            task: TaskView::Query(QueryTaskView::Running { goal }),
        }
    } else {
        match param_value(params, at) {
            Err(m) => task::failed(m),
            Ok(v) => StepView::Ask {
                action: ActionView::Bind { index: at + 1, value: v },
                task: TaskView::Query(QueryTaskView::Binding { params, at, goal }),
            },
        }
    }
}

/// How a statement with parameters goes on: there has to be exactly one, it has to
/// be allowed, and the parameters have to be in line and as many as it takes.
pub open spec fn admission_with_params_after(
    level: Level,
    api: ApiKind,
    params: GridView,
    goal: Goal,
    parsed: ParseReply,
) -> StepView {
    let s = parsed.statements@;
    if s.len() == 0 {
        task::failed(raw::parse_failure(parsed.message@))
    } else if s.len() != 1 {
        task::failed(
            "パラメータ付きの実行では SQL を 1 文だけ指定してください（"@ + text::dec(s.len())
                + " 文ありました）。"@,
        )
    } else if !classify::statement_passes(level, api, s[0]) {
        task::failed(classify::statement_objection(level, api, 0, s[0]))
    } else if !in_line(params) {
        task::failed(
            "パラメータは 1 行または 1 列で渡してください（"@ + text::dec(params.rows as nat) + " 行 "@
                + text::dec(params.cols as nat) + " 列が渡されました）。"@,
        )
    } else if params.cells.len() != s[0].param_count {
        task::failed(
            "SQL の ? は "@ + text::dec(s[0].param_count as nat) + " 個ですが、パラメータが "@
                + text::dec(params.cells.len()) + " 個渡されました。"@,
        )
    } else {
        bind_from(params, 0, goal)
    }
}

/// How binding goes on.
pub open spec fn bind_after(params: GridView, at: int, goal: Goal, outcome: Handover) -> StepView {
    match outcome {
        Handover::Taken => bind_from(params, at + 1, goal),
        Handover::NoValue => task::failed(inbound::untaken_text(param_place(params, at))),
        Handover::Refused(m) => task::failed(raw::bind_failure(at + 1, m@)),
    }
}

fn begin_admission_with_params(
    level: Level,
    api: ApiKind,
    sql: &str,
    params: InputGrid,
    goal: Goal,
) -> (r: Step)
    requires
        params.wf(),
    ensures
        r@ == admission_with_params(level, api, sql@, params@, goal),
        r.wf(),
{
    if raw::contains_nul(sql) {
        return Step::Done(Err(raw::NUL_MESSAGE.to_owned()));
    }
    Step::Ask {
        action: Action::Parse(sql.to_owned()),
        task: Task::Query(QueryTask::ParsingWithParams { level, api, params, goal }),
    }
}

fn place_of_param(params: &InputGrid, at: usize) -> (r: String)
    ensures
        r@ == param_place(params@, at as int),
{
    if params.rows == 1 {
        params.position(0, at)
    } else {
        params.position(at, 0)
    }
}

fn bind_next(params: InputGrid, at: usize, goal: Goal) -> (r: Step)
    requires
        params.wf(),
    ensures
        r@ == bind_from(params@, at as int, goal),
        r.wf(),
{
    if at >= params.cells.len() {
        return Step::Ask {
            action: Action::RunPrepared,
            task: Task::Query(QueryTask::Running { goal }),
        };
    }
    let place = place_of_param(&params, at);
    match inbound::variant_to_value(&params.cells[at], place.as_str()) {
        Err(m) => Step::Done(Err(m)),
        Ok(value) => {
            assert(params.cells.len() <= usize::MAX);
            Step::Ask {
                action: Action::Bind { index: at + 1, value },
                task: Task::Query(QueryTask::Binding { params, at, goal }),
            }
        },
    }
}

fn prepare_checked(level: Level, api: ApiKind, parsed: ParseReply) -> (r: Result<usize, String>)
    ensures
        ({
            let s = parsed.statements@;
            &&& s.len() == 0 ==> (r matches Err(m) && m@ == raw::parse_failure(parsed.message@))
            &&& s.len() > 1 ==> (r matches Err(m) && m@
                == "パラメータ付きの実行では SQL を 1 文だけ指定してください（"@ + text::dec(s.len())
                + " 文ありました）。"@)
            &&& s.len() == 1 ==> if classify::statement_passes(level, api, s[0]) {
                r == Ok::<usize, String>(s[0].param_count)
            } else {
                r matches Err(m) && m@ == classify::statement_objection(level, api, 0, s[0])
            }
        }),
{
    let extracted = match Extracted::extract(parsed) {
        Ok(x) => x,
        Err(m) => {
            return Err(m);
        },
    };
    let count = extracted.count();
    if count != 1 {
        let mut m = "パラメータ付きの実行では SQL を 1 文だけ指定してください（".to_owned();
        text::push_dec(&mut m, count as u128);
        m.append(" 文ありました）。");
        return Err(m);
    }
    let prepared = match extracted.prepare(0) {
        Ok(p) => p,
        Err(m) => {
            return Err(m);
        },
    };
    match classify::check_statement_type(level, api, prepared.statement_type()) {
        Ok(()) => Ok(prepared.param_count()),
        Err(m) => Err(m),
    }
}

fn bind_all(
    level: Level,
    api: ApiKind,
    params: InputGrid,
    goal: Goal,
    parsed: ParseReply,
) -> (r: Step)
    requires
        params.wf(),
    ensures
        r@ == admission_with_params_after(level, api, params@, goal, parsed),
        r.wf(),
{
    let expected: usize = match prepare_checked(level, api, parsed) {
        Ok(n) => n,
        Err(m) => {
            return Step::Done(Err(m));
        },
    };
    if params.rows != 1 && params.cols != 1 {
        let mut m = "パラメータは 1 行または 1 列で渡してください（".to_owned();
        text::push_dec(&mut m, params.rows as u128);
        m.append(" 行 ");
        text::push_dec(&mut m, params.cols as u128);
        m.append(" 列が渡されました）。");
        return Step::Done(Err(m));
    }
    let given = params.cells.len();
    if given != expected {
        let mut m = "SQL の ? は ".to_owned();
        text::push_dec(&mut m, expected as u128);
        m.append(" 個ですが、パラメータが ");
        text::push_dec(&mut m, given as u128);
        m.append(" 個渡されました。");
        return Step::Done(Err(m));
    }
    bind_next(params, 0, goal)
}

fn bound(params: InputGrid, at: usize, goal: Goal, outcome: Handover) -> (r: Step)
    requires
        params.wf(),
        at < params.cells@.len(),
    ensures
        r@ == bind_after(params@, at as int, goal, outcome),
        r.wf(),
{
    assert(params.cells.len() <= usize::MAX);
    match outcome {
        Handover::Taken => bind_next(params, at + 1, goal),
        Handover::NoValue => {
            let place = place_of_param(&params, at);
            Step::Done(Err(inbound::untaken(place.as_str())))
        },
        Handover::Refused(m) => Step::Done(Err(raw::not_bound(at + 1, m.as_str()))),
    }
}

// ---------------------------------------------------------------------------
// Steps
// ---------------------------------------------------------------------------

/// The reply answers what was asked.
pub open spec fn answers(q: QueryTaskView, reply: Reply) -> bool {
    match q {
        QueryTaskView::Parsing { .. } => reply is Parsed,
        QueryTaskView::ParsingWithParams { .. } => reply is Parsed,
        QueryTaskView::Binding { .. } => reply is Bound,
        QueryTaskView::Running { .. } => reply is Ran,
        QueryTaskView::Fetching { cols, cells } => reply matches Reply::Fetched(chunk) && (
        chunk matches Some(c) ==> chunk_readable(c, cols)),
        QueryTaskView::FetchingText => reply matches Reply::Fetched(chunk) && (chunk matches Some(c)
            ==> chunk_readable(c, 1)),
    }
}

/// How the work goes on.
pub open spec fn step_after(q: QueryTaskView, reply: Reply) -> StepView {
    match q {
        QueryTaskView::Parsing { level, api, sql, goal } => admission_after(
            level,
            api,
            sql,
            goal,
            reply->Parsed_0,
        ),
        QueryTaskView::ParsingWithParams { level, api, params, goal } => {
            admission_with_params_after(level, api, params, goal, reply->Parsed_0)
        },
        QueryTaskView::Binding { params, at, goal } => bind_after(params, at, goal, reply->Bound_0),
        QueryTaskView::Running { goal } => run_after(goal, reply->Ran_0),
        QueryTaskView::Fetching { cols, cells } => table_after(cols, cells, reply->Fetched_0),
        QueryTaskView::FetchingText => StepView::Done(
            Ok(Answer::Value(schema::shown_ddl(first_text(reply->Fetched_0)))),
        ),
    }
}

/// Goes on with what came of the last action.
pub fn step(q: QueryTask, reply: Reply) -> (r: Step)
    requires
        q.wf(),
        answers(q@, reply),
    ensures
        r@ == step_after(q@, reply),
        r.wf(),
{
    match (q, reply) {
        (QueryTask::Parsing { level, api, sql, goal }, Reply::Parsed(p)) => end_admission(
            level,
            api,
            sql,
            goal,
            p,
        ),
        (QueryTask::ParsingWithParams { level, api, params, goal }, Reply::Parsed(p)) => bind_all(
            level,
            api,
            params,
            goal,
            p,
        ),
        (QueryTask::Binding { params, at, goal }, Reply::Bound(outcome)) => bound(
            params,
            at,
            goal,
            outcome,
        ),
        (QueryTask::Running { goal }, Reply::Ran(result)) => use_result(goal, result),
        (QueryTask::Fetching { grid }, Reply::Fetched(chunk)) => more_rows(grid, chunk),
        (QueryTask::FetchingText, Reply::Fetched(chunk)) => Step::Done(
            Ok(schema::ddl_answer(scalar_string(chunk))),
        ),
        _ => Step::Done(Err(String::new())),
    }
}

// ---------------------------------------------------------------------------
// The functions
// ---------------------------------------------------------------------------

/// Runs a reading text; the answer is a table with the column names in its first
/// row.
pub fn query<C>(state: &ConnState<C>, sql: &str) -> (r: Step)
    ensures
        r@ == admission(state.level, ApiKind::Query, sql@, Goal::Rows),
        r.wf(),
{
    begin_admission(state.level, ApiKind::Query, sql, Goal::Rows)
}

/// Runs a text that changes rows; the answer is how many.
pub fn execute<C>(state: &ConnState<C>, sql: &str) -> (r: Step)
    ensures
        r@ == admission(state.level, ApiKind::Execute, sql@, Goal::Count),
        r.wf(),
{
    begin_admission(state.level, ApiKind::Execute, sql, Goal::Count)
}

/// Runs a text that changes the schema. No rows are counted for it: the answer is
/// 0.
pub fn execute_ddl<C>(state: &ConnState<C>, sql: &str) -> (r: Step)
    ensures
        r@ == admission(state.level, ApiKind::ExecuteDdl, sql@, Goal::Schema),
        r.wf(),
{
    begin_admission(state.level, ApiKind::ExecuteDdl, sql, Goal::Schema)
}

/// Runs one reading statement with parameters.
pub fn query_params<C>(state: &ConnState<C>, sql: &str, params: InputGrid) -> (r: Step)
    requires
        params.wf(),
    ensures
        r@ == admission_with_params(state.level, ApiKind::Query, sql@, params@, Goal::Rows),
        r.wf(),
{
    begin_admission_with_params(state.level, ApiKind::Query, sql, params, Goal::Rows)
}

/// Runs one statement that changes rows, with parameters; the answer is how many.
pub fn execute_params<C>(state: &ConnState<C>, sql: &str, params: InputGrid) -> (r: Step)
    requires
        params.wf(),
    ensures
        r@ == admission_with_params(state.level, ApiKind::Execute, sql@, params@, Goal::Count),
        r.wf(),
{
    begin_admission_with_params(state.level, ApiKind::Execute, sql, params, Goal::Count)
}

/// Runs a text of the library's own, which no user wrote: it is not checked.
pub fn run_internal(sql: &'static str, goal: Goal) -> (r: Step)
    ensures
        r@ == ask_run(sql@, goal),
        r.wf(),
{
    run(sql.to_owned(), goal)
}

/// The text that lists the tables.
pub const LIST_TABLES_SQL: &'static str = "SELECT table_schema AS スキーマ, table_name AS テーブル名, table_type AS 種別 FROM information_schema.tables ORDER BY table_schema, table_name";

/// Lists the tables.
pub fn list_tables() -> (r: Step)
    ensures
        r@ == ask_run(LIST_TABLES_SQL@, Goal::Rows),
        r.wf(),
{
    run_internal(LIST_TABLES_SQL, Goal::Rows)
}

/// What stands before the table's name in the text that lists columns.
pub const DESCRIBE_SQL_HEAD: &'static str = "SELECT column_name AS 列名, data_type AS 型, is_nullable AS NULL可, column_default AS 既定値, ordinal_position AS 位置 FROM information_schema.columns WHERE table_name = ";

/// What stands behind it.
pub const DESCRIBE_SQL_TAIL: &'static str = " ORDER BY ordinal_position";

/// The text that lists the columns of a table. The name is a literal in it.
pub open spec fn describe_sql(table: Seq<char>) -> Seq<char> {
    DESCRIBE_SQL_HEAD@ + quoted(table, '\'') + DESCRIBE_SQL_TAIL@
}

/// How listing the columns of a table begins.
pub open spec fn describing(table: Seq<char>) -> StepView {
    if raw::has_nul(describe_sql(table)) {
        task::failed(raw::NUL_MESSAGE@)
    } else {
        ask_run(describe_sql(table), Goal::Rows)
    }
}

/// Lists the columns of a table.
pub fn describe(table: &str) -> (r: Step)
    ensures
        r@ == describing(table@),
        r.wf(),
{
    let mut sql = DESCRIBE_SQL_HEAD.to_owned();
    sql.append(quote_literal(table).as_str());
    sql.append(DESCRIBE_SQL_TAIL);
    if raw::contains_nul(sql.as_str()) {
        return Step::Done(Err(raw::NUL_MESSAGE.to_owned()));
    }
    run(sql, Goal::Rows)
}

// ---------------------------------------------------------------------------
// Quoting
// ---------------------------------------------------------------------------

/// `s` with each `q` doubled.
pub open spec fn doubled(s: Seq<char>, q: char) -> Seq<char>
    decreases s.len(),
{
    if s.len() == 0 {
        Seq::empty()
    } else if s.last() == q {
        doubled(s.drop_last(), q).push(q).push(q)
    } else {
        doubled(s.drop_last(), q).push(s.last())
    }
}

/// `s` between two `q`, with each `q` in it doubled.
pub open spec fn quoted(s: Seq<char>, q: char) -> Seq<char> {
    seq![q] + doubled(s, q) + seq![q]
}

fn quote(s: &str, q: char) -> (r: String)
    ensures
        r@ == quoted(s@, q),
{
    let chars = text::chars_of(s);
    let mut out = String::new();
    out.push(q);
    let mut i: usize = 0;
    while i < chars.len()
        invariant
            i <= chars@.len(),
            chars@ == s@,
            out@ == seq![q] + doubled(s@.take(i as int), q),
        decreases chars@.len() - i,
    {
        let c = chars[i];
        if c == q {
            out.push(q);
        }
        out.push(c);
        i = i + 1;
        proof {
            let now = s@.take(i as int);
            assert(now.drop_last() == s@.take(i - 1));
        }
    }
    assert(s@.take(i as int) == s@);
    out.push(q);
    out
}

/// Quotes `s` as a literal of SQL: single quotes are doubled.
pub fn quote_literal(s: &str) -> (r: String)
    ensures
        r@ == quoted(s@, '\''),
{
    quote(s, '\'')
}

/// Quotes `s` as an identifier of SQL: double quotes are doubled.
pub fn quote_ident(s: &str) -> (r: String)
    ensures
        r@ == quoted(s@, '"'),
{
    quote(s, '"')
}

// ---------------------------------------------------------------------------
// Laws: admission
// ---------------------------------------------------------------------------

/// The text has run: its rows are being read, and no SQL is left to run.
pub open spec fn only_reading_on(now: StepView) -> bool {
    match now {
        StepView::Done(_) => true,
        StepView::Ask { action, task } => {
            &&& task matches TaskView::Query(q)
            &&& q is Fetching || q is FetchingText
            &&& action == ActionView::Fetch
        },
    }
}

/// Whatever the engine answers: a user's text runs only after the engine has taken
/// it apart and every statement in it was allowed, it runs as it was given, and it
/// runs once. Nothing else is ever run.
pub proof fn law_nothing_runs_unadmitted(
    level: Level,
    api: ApiKind,
    sql: Seq<char>,
    goal: Goal,
    replies: Seq<Reply>,
)
    requires
        task::conversation(admission(level, api, sql, goal), replies),
    ensures
        ({
            let now = task::after(admission(level, api, sql, goal), replies);
            &&& replies.len() == 0 ==> now == admission(level, api, sql, goal)
            &&& replies.len() == 1 ==> now == admission_after(
                level,
                api,
                sql,
                goal,
                replies[0]->Parsed_0,
            )
            &&& replies.len() >= 2 ==> {
                &&& only_reading_on(now)
                &&& replies[0]->Parsed_0.statements@.len() > 0
                &&& classify::all_pass(level, api, replies[0]->Parsed_0.statements@)
            }
        }),
    decreases replies.len(),
{
    let start = admission(level, api, sql, goal);
    if replies.len() > 0 {
        task::lemma_conversation(start, replies);
        law_nothing_runs_unadmitted(level, api, sql, goal, replies.drop_last());
    }
}

/// A text with a statement that is not allowed does not run at all, not even the
/// statements before it: the work is over with the refusal.
pub proof fn law_one_bad_statement_refuses_the_text(
    level: Level,
    api: ApiKind,
    sql: Seq<char>,
    goal: Goal,
    parsed: ParseReply,
    i: int,
)
    requires
        0 <= i < parsed.statements@.len(),
        !classify::statement_passes(level, api, parsed.statements@[i]),
    ensures
        admission_after(level, api, sql, goal, parsed) == task::failed(
            classify::objection(level, api, parsed.statements@),
        ),
{
}

/// `DackQuery` never changes anything: whatever it runs, at any level, consists of
/// reading statements.
pub proof fn law_query_never_writes(
    level: Level,
    sql: Seq<char>,
    replies: Seq<Reply>,
    i: int,
)
    requires
        task::conversation(admission(level, ApiKind::Query, sql, Goal::Rows), replies),
        task::after(admission(level, ApiKind::Query, sql, Goal::Rows), replies) == ask_run(
            sql,
            Goal::Rows,
        ),
        0 <= i < replies[0]->Parsed_0.statements@.len(),
    ensures
        replies.len() == 1,
        replies[0]->Parsed_0.statements@[i].ok,
        classify::reads(replies[0]->Parsed_0.statements@[i].statement_type),
{
    law_nothing_runs_unadmitted(level, ApiKind::Query, sql, Goal::Rows, replies);
}

/// The reading level never changes anything: whatever text it runs, through
/// whatever function, consists of reading statements.
pub proof fn law_read_level_never_writes(
    api: ApiKind,
    sql: Seq<char>,
    goal: Goal,
    replies: Seq<Reply>,
    i: int,
)
    requires
        task::conversation(admission(Level::Read, api, sql, goal), replies),
        task::after(admission(Level::Read, api, sql, goal), replies) == ask_run(sql, goal),
        0 <= i < replies[0]->Parsed_0.statements@.len(),
    ensures
        replies.len() == 1,
        replies[0]->Parsed_0.statements@[i].ok,
        classify::reads(replies[0]->Parsed_0.statements@[i].statement_type),
{
    law_nothing_runs_unadmitted(Level::Read, api, sql, goal, replies);
}

/// A text that changes the schema and runs is answered with 0, whatever number of
/// rows the engine counts.
pub proof fn law_schema_changes_count_no_rows(
    level: Level,
    sql: Seq<char>,
    parsed: ParseReply,
    result: QueryResult,
)
    requires
        !raw::has_nul(sql),
        parsed.statements@.len() > 0,
        classify::all_pass(level, ApiKind::ExecuteDdl, parsed.statements@),
    ensures
        task::after(
            admission(level, ApiKind::ExecuteDdl, sql, Goal::Schema),
            seq![Reply::Parsed(parsed), Reply::Ran(Ok(result))],
        ) == StepView::Done(Ok(Answer::Value(oleaut::shown_i64(0)))),
{
    let start = admission(level, ApiKind::ExecuteDdl, sql, Goal::Schema);
    let first = seq![Reply::Parsed(parsed)];
    let both = seq![Reply::Parsed(parsed), Reply::Ran(Ok(result))];
    assert(both.drop_last() == first);
    assert(first.drop_last() == Seq::<Reply>::empty());
    assert(task::after(start, first.drop_last()) == start);
    assert(task::after(start, first) == ask_run(sql, Goal::Schema));
}

/// A text whose statements the engine accepts, and which are all on the lists, runs
/// as it was given: those that read (1, 4) through `DackQuery` at every level, and
/// those and the ones that change rows (2, 3, 5, 10, 30) through `DackExecute` from the
/// writing level on.
pub proof fn law_admitted_texts_run(
    level: Level,
    api: ApiKind,
    sql: Seq<char>,
    goal: Goal,
    parsed: ParseReply,
)
    requires
        !sql.contains('\0'),
        parsed.statements@.len() > 0,
        ({
            ||| api == ApiKind::Query && forall|i: int|
                0 <= i < parsed.statements@.len() ==> (#[trigger] parsed.statements@[i]).ok && (
                parsed.statements@[i].statement_type == 1 || parsed.statements@[i].statement_type
                    == 4)
            ||| api == ApiKind::Execute && level != Level::Read && forall|i: int|
                0 <= i < parsed.statements@.len() ==> (#[trigger] parsed.statements@[i]).ok && (1
                    <= parsed.statements@[i].statement_type <= 5
                    || parsed.statements@[i].statement_type == 10
                    || parsed.statements@[i].statement_type == 30)
            ||| api == ApiKind::ExecuteDdl && level == Level::Admin && forall|i: int|
                0 <= i < parsed.statements@.len() ==> (#[trigger] parsed.statements@[i]).ok
                    && parsed.statements@[i].statement_type >= 1
        }),
    ensures
        ({
            let start = admission(level, api, sql, goal);
            let now = task::after(start, seq![Reply::Parsed(parsed)]);
            &&& start matches StepView::Ask { action, task } && action == ActionView::Parse(sql)
            &&& now matches StepView::Ask { action, task } && action == ActionView::Run(sql)
            &&& now == ask_run(sql, goal)
        }),
{
    raw::law_nul_bytes_are_nul_characters(sql);
    classify::law_admitted_texts(level, parsed.statements@);
    task::lemma_after_one(admission(level, api, sql, goal), Reply::Parsed(parsed));
}

/// A text with NUL in it, and one in which the engine finds no statement, do not run.
pub proof fn law_texts_without_sense_are_refused(
    level: Level,
    api: ApiKind,
    sql: Seq<char>,
    goal: Goal,
    parsed: ParseReply,
)
    ensures
        sql.contains('\0') ==> (admission(level, api, sql, goal) matches StepView::Done(r)
            && r is Err),
        parsed.statements@.len() == 0 ==> (admission_after(level, api, sql, goal, parsed)
            matches StepView::Done(r) && r is Err),
{
    raw::law_nul_bytes_are_nul_characters(sql);
}

/// What becomes of a text that ran: the number of rows that the engine counts, or
/// nothing but success; a text that fails is an error, with the engine's message where
/// it has one.
pub proof fn law_results_are_answered(sql: Seq<char>, goal: Goal, q: QueryResult, m: String)
    ensures
        task::after(ask_run(sql, Goal::Count), seq![Reply::Ran(Ok(q))]) == StepView::Done(
            Ok(Answer::Value(oleaut::shown_i64(raw::signed_64(q.changed)))),
        ),
        q.changed <= i64::MAX ==> task::after(ask_run(sql, Goal::Count), seq![Reply::Ran(Ok(q))])
            == StepView::Done(Ok(Answer::Value(oleaut::shown_i64(q.changed as int)))),
        task::after(ask_run(sql, Goal::Nothing), seq![Reply::Ran(Ok(q))]) == StepView::Done(
            Ok(Answer::Value(oleaut::shown_empty())),
        ),
        task::after(ask_run(sql, goal), seq![Reply::Ran(Err(m))]) matches StepView::Done(r) && r
            is Err && (m@.len() > 0 ==> r->Err_0 == m@),
{
    task::lemma_after_one(ask_run(sql, Goal::Count), Reply::Ran(Ok(q)));
    task::lemma_after_one(ask_run(sql, Goal::Nothing), Reply::Ran(Ok(q)));
    task::lemma_after_one(ask_run(sql, goal), Reply::Ran(Err(m)));
}

/// A query gives its table: where the text is admitted and runs, each column can be
/// shown, and the rows fit on a sheet, the answer is the table of the column names and
/// all rows, in whatever chunks they came.
#[verifier::spinoff_prover]
pub proof fn law_queries_give_their_table(
    sql: Seq<char>,
    q: QueryResult,
    chunks: Seq<DataChunk>,
)
    requires
        0 < q.columns@.len() <= 16_384,
        forall|i: int|
            0 <= i < q.columns@.len() ==> value::unsupported(
                (#[trigger] q.columns@[i]).type_id,
            ) is None,
        1 + rows_of(chunks) <= 1_048_576,
    ensures
        task::after(
            ask_run(sql, Goal::Rows),
            seq![Reply::Ran(Ok(q))] + fetched(chunks).push(Reply::Fetched(None)),
        ) == StepView::Done(
            Ok(
                variant::table_answer(
                    1 + rows_of(chunks),
                    q.columns@.len() as int,
                    header(q.columns@) + cells_of(chunks, q.columns@.len() as int),
                ),
            ),
        ),
        header(q.columns@).len() == q.columns@.len(),
        forall|i: int|
            0 <= i < q.columns@.len() ==> #[trigger] header(q.columns@)[i] == oleaut::shown_text(
                q.columns@[i].name@,
            ),
{
    let start = ask_run(sql, Goal::Rows);
    let rest = fetched(chunks).push(Reply::Fetched(None));
    lemma_first_unshowable(q.columns@, 0);
    task::lemma_after_both(start, seq![Reply::Ran(Ok(q))], rest);
    task::lemma_after_one(start, Reply::Ran(Ok(q)));
    law_table_holds_every_row(q.columns@, chunks);
}

/// A result is refused before any row is fetched where it has no columns, or one that
/// a cell cannot show; the message is about the first such column.
pub proof fn law_unshowable_columns_are_refused(columns: Seq<Column>, i: int)
    requires
        0 <= i < columns.len(),
        value::unsupported(columns[i].type_id) is Some,
        forall|k: int| 0 <= k < i ==> value::unsupported((#[trigger] columns[k]).type_id) is None,
    ensures
        table_start(columns) == task::failed(
            value::column_objection(columns[i].name@, value::unsupported(columns[i].type_id)->0),
        ),
        table_start(Seq::empty()) matches StepView::Done(r) && r is Err,
{
    lemma_first_unshowable(columns, 0);
}

proof fn lemma_first_unshowable(columns: Seq<Column>, from: int)
    requires
        0 <= from <= columns.len(),
    ensures
        ({
            let i = first_unshowable(columns, from);
            &&& from <= i <= columns.len()
            &&& i < columns.len() ==> value::unsupported(columns[i].type_id) is Some
            &&& forall|k: int|
                from <= k < i ==> value::unsupported((#[trigger] columns[k]).type_id) is None
        }),
    decreases columns.len() - from,
{
    if from < columns.len() && value::unsupported(columns[from].type_id) is None {
        lemma_first_unshowable(columns, from + 1);
    }
}

/// Each of `n` values was taken.
pub open spec fn all_taken(n: int) -> Seq<Reply> {
    Seq::new(n as nat, |i: int| Reply::Bound(Handover::Taken))
}

/// Parameters are bound one after the other and then the statement runs: where the
/// engine accepts the only statement, it is allowed, it takes as many parameters as
/// there are, they are in line, and each can be converted, the first `k` of them being
/// taken asks for the next one, counted from 1, and all of them being taken runs the
/// statement. What comes of it is what comes of a text without parameters.
#[verifier::spinoff_prover]
pub proof fn law_parameters_are_bound_in_order(
    level: Level,
    api: ApiKind,
    sql: Seq<char>,
    params: GridView,
    goal: Goal,
    parsed: ParseReply,
    k: int,
    result: Result<QueryResult, String>,
)
    requires
        !sql.contains('\0'),
        params.rows == 1 || params.cols == 1,
        parsed.statements@.len() == 1,
        parsed.statements@[0].ok,
        classify::may_run(level, api, parsed.statements@[0].statement_type),
        parsed.statements@[0].param_count == params.cells.len(),
        forall|i: int|
            0 <= i < params.cells.len() ==> inbound::value_of(
                (#[trigger] params.cells[i]).value,
                params.cells[i].vt,
                param_place(params, i),
            ) is Ok,
        0 <= k <= params.cells.len(),
    ensures
        ({
            let start = admission_with_params(level, api, sql, params, goal);
            let replies = seq![Reply::Parsed(parsed)] + all_taken(k);
            let now = task::after(start, replies);
            &&& start matches StepView::Ask { action, task } && action == ActionView::Parse(sql)
            &&& now is Ask
            &&& k < params.cells.len() ==> (now->action matches ActionView::Bind { index, value }
                && index == k + 1 && Ok::<_, Seq<char>>(value) == inbound::value_of(
                params.cells[k].value,
                params.cells[k].vt,
                param_place(params, k),
            ))
            &&& k == params.cells.len() ==> {
                &&& now->action == ActionView::RunPrepared
                &&& task::after(start, replies.push(Reply::Ran(result))) == task::after(
                    ask_run(sql, goal),
                    seq![Reply::Ran(result)],
                )
            }
        }),
{
    let start = admission_with_params(level, api, sql, params, goal);
    let first = seq![Reply::Parsed(parsed)];
    raw::law_nul_bytes_are_nul_characters(sql);
    task::lemma_after_both(start, first, all_taken(k));
    task::lemma_after_one(start, Reply::Parsed(parsed));
    lemma_bound_in_order(params, goal, k);
    if k == params.cells.len() {
        let replies = first + all_taken(k);
        let all = replies.push(Reply::Ran(result));
        assert(all == replies + seq![Reply::Ran(result)]);
        task::lemma_after_both(start, replies, seq![Reply::Ran(result)]);
        task::lemma_after_one(task::after(start, replies), Reply::Ran(result));
        task::lemma_after_one(ask_run(sql, goal), Reply::Ran(result));
    }
}

proof fn lemma_bound_in_order(params: GridView, goal: Goal, k: int)
    requires
        forall|i: int|
            0 <= i < params.cells.len() ==> inbound::value_of(
                (#[trigger] params.cells[i]).value,
                params.cells[i].vt,
                param_place(params, i),
            ) is Ok,
        0 <= k <= params.cells.len(),
    ensures
        task::after(bind_from(params, 0, goal), all_taken(k)) == bind_from(params, k, goal),
    decreases k,
{
    if k > 0 {
        lemma_bound_in_order(params, goal, k - 1);
        assert(all_taken(k).drop_last() == all_taken(k - 1));
        let cell = params.cells[k - 1];
        assert(inbound::value_of(cell.value, cell.vt, param_place(params, k - 1)) is Ok);
    }
}

/// A parameter that the engine does not take is named: by its number, counted from 1,
/// with what the engine says, or by its place.
pub proof fn law_untaken_parameters_are_named(params: GridView, at: int, goal: Goal, m: String)
    requires
        at >= 0,
        m@.len() > 0,
    ensures
        bind_after(params, at, goal, Handover::Refused(m)) matches StepView::Done(Err(e))
            && text::has_text(e, m@) && text::dec((at + 1) as nat).is_prefix_of(e),
        bind_after(params, at, goal, Handover::NoValue) matches StepView::Done(Err(e))
            && param_place(params, at).is_prefix_of(e),
{
    raw::law_the_engine_is_quoted(m@, m@, m@, at + 1);
}

/// More than one statement, another number of parameters than the statement takes, a
/// parameter that cannot be converted and one that the engine does not take are
/// errors, and nothing runs.
pub proof fn law_parameters_that_do_not_fit_are_refused(
    level: Level,
    api: ApiKind,
    params: GridView,
    goal: Goal,
    parsed: ParseReply,
    at: int,
    outcome: Handover,
)
    ensures
        parsed.statements@.len() != 1 ==> (admission_with_params_after(
            level,
            api,
            params,
            goal,
            parsed,
        ) matches StepView::Done(r) && r is Err),
        parsed.statements@.len() == 1 && parsed.statements@[0].param_count != params.cells.len()
            ==> (admission_with_params_after(level, api, params, goal, parsed)
            matches StepView::Done(r) && r is Err),
        0 <= at < params.cells.len() && param_value(params, at) is Err ==> (bind_from(
            params,
            at,
            goal,
        ) matches StepView::Done(r) && r is Err),
        !(outcome is Taken) ==> (bind_after(params, at, goal, outcome) matches StepView::Done(r)
            && r is Err),
{
}

/// Whatever the engine answers: a statement with parameters is bound and run only
/// where it is the only one and is allowed. No text is ever run for it, so no
/// parameter can become SQL.
pub proof fn law_parameters_are_never_sql(
    level: Level,
    api: ApiKind,
    sql: Seq<char>,
    params: GridView,
    goal: Goal,
    replies: Seq<Reply>,
)
    requires
        task::conversation(admission_with_params(level, api, sql, params, goal), replies),
    ensures
        ({
            let start = admission_with_params(level, api, sql, params, goal);
            let now = task::after(start, replies);
            &&& replies.len() == 0 ==> now == start
            &&& replies.len() >= 1 ==> {
                ||| now is Done
                ||| {
                    &&& replies[0]->Parsed_0.statements@.len() == 1
                    &&& classify::statement_passes(level, api, replies[0]->Parsed_0.statements@[0])
                    &&& replies[0]->Parsed_0.statements@[0].param_count == params.cells.len()
                    &&& bound_so_far(params, now)
                }
            }
        }),
    decreases replies.len(),
{
    let start = admission_with_params(level, api, sql, params, goal);
    if replies.len() > 0 {
        task::lemma_conversation(start, replies);
        law_parameters_are_never_sql(level, api, sql, params, goal, replies.drop_last());
    }
}

/// What can be asked once a statement with parameters was allowed: to bind a
/// parameter, to run the statement, or to fetch rows.
pub open spec fn bound_so_far(params: GridView, now: StepView) -> bool {
    &&& now matches StepView::Ask { action, task }
    &&& task matches TaskView::Query(q)
    &&& match q {
        QueryTaskView::Binding { params: p, at, goal } => {
            &&& p == params
            &&& 0 <= at < params.cells.len()
            &&& param_value(params, at) is Ok
            &&& action == ActionView::Bind { index: at + 1, value: param_value(params, at)->Ok_0 }
        },
        QueryTaskView::Running { goal } => action == ActionView::RunPrepared,
        QueryTaskView::Fetching { cols, cells } => action == ActionView::Fetch,
        QueryTaskView::FetchingText => action == ActionView::Fetch,
        _ => false,
    }
}

/// The task with the parameters `params` in place of its own.
pub open spec fn with_params(task: TaskView, params: GridView) -> TaskView {
    match task {
        TaskView::Query(QueryTaskView::ParsingWithParams { level, api, params: _, goal }) => {
            TaskView::Query(QueryTaskView::ParsingWithParams { level, api, params, goal })
        },
        TaskView::Query(QueryTaskView::Binding { params: _, at, goal }) => TaskView::Query(
            QueryTaskView::Binding { params, at, goal },
        ),
        _ => task,
    }
}

/// Two courses of work do the same, the second with the parameters `params`: the
/// same is asked of the engine, or both give the same answer, or both fail.
pub open spec fn do_the_same(one: StepView, other: StepView, params: GridView) -> bool {
    match (one, other) {
        (StepView::Ask { action: a, task: t }, StepView::Ask { action: b, task: u }) => a == b && u
            == with_params(t, params),
        (StepView::Done(Ok(x)), StepView::Done(Ok(y))) => x == y,
        (StepView::Done(Err(_)), StepView::Done(Err(_))) => true,
        _ => false,
    }
}

/// Where `one` waits with parameters, they are `params`.
pub open spec fn works_with(one: StepView, params: GridView) -> bool {
    one matches StepView::Ask { action, task } ==> task == with_params(task, params)
}

/// Parameters in a row and the same parameters in a column are bound alike: whatever
/// the engine answers, the same values are bound in the same order, and the same
/// comes of it. Only the place that a message names is that of the row or that of
/// the column.
#[verifier::spinoff_prover]
pub proof fn law_rows_and_columns_bind_alike(
    level: Level,
    api: ApiKind,
    sql: Seq<char>,
    row: InputGrid,
    column: InputGrid,
    goal: Goal,
    replies: Seq<Reply>,
)
    requires
        row.wf(),
        column.wf(),
        row.rows == 1,
        column.cols == 1,
        row.cols == column.rows,
        forall|i: int| 0 <= i < row.cols ==> row.at(0, i) == #[trigger] column.at(i, 0),
    ensures
        in_line(row@),
        in_line(column@),
        row@.cells.len() == row.cols,
        column@.cells == row@.cells,
        forall|i: int|
            0 <= i < row.cols ==> {
                &&& #[trigger] row@.cells[i] == row.at(0, i)
                &&& param_place(row@, i) == inbound::position_text(0, i)
                &&& param_place(column@, i) == inbound::position_text(i, 0)
            },
        do_the_same(
            task::after(admission_with_params(level, api, sql, row@, goal), replies),
            task::after(admission_with_params(level, api, sql, column@, goal), replies),
            column@,
        ),
{
    assert forall|i: int| 0 <= i < row.cols implies row.cells@[i] == column.cells@[i] by {
        assert(row.at(0, i) == column.at(i, 0));
    }
    assert(row@.cells == column@.cells);
    lemma_bind_alike(level, api, sql, row@, column@, goal, replies);
}

#[verifier::spinoff_prover]
proof fn lemma_bind_alike(
    level: Level,
    api: ApiKind,
    sql: Seq<char>,
    p: GridView,
    q: GridView,
    goal: Goal,
    replies: Seq<Reply>,
)
    requires
        in_line(p),
        in_line(q),
        p.cells == q.cells,
    ensures
        ({
            let one = task::after(admission_with_params(level, api, sql, p, goal), replies);
            let other = task::after(admission_with_params(level, api, sql, q, goal), replies);
            works_with(one, p) && do_the_same(one, other, q)
        }),
    decreases replies.len(),
{
    if replies.len() > 0 {
        lemma_bind_alike(level, api, sql, p, q, goal, replies.drop_last());
        let one = task::after(
            admission_with_params(level, api, sql, p, goal),
            replies.drop_last(),
        );
        if let StepView::Ask { action, task } = one {
            match task {
                TaskView::Query(QueryTaskView::ParsingWithParams { .. }) => {
                    lemma_same_value(p, q, 0);
                },
                TaskView::Query(QueryTaskView::Binding { params, at, goal }) => {
                    lemma_same_value(p, q, at + 1);
                },
                _ => {},
            }
        }
    }
}

proof fn lemma_same_value(p: GridView, q: GridView, k: int)
    requires
        p.cells == q.cells,
    ensures
        param_value(p, k) is Ok <==> param_value(q, k) is Ok,
        param_value(p, k) is Ok ==> param_value(p, k) == param_value(q, k),
{
    inbound::lemma_place_is_for_messages(
        p.cells[k].value,
        p.cells[k].vt,
        param_place(p, k),
        param_place(q, k),
    );
}

/// Parameters in a block of several rows and columns are refused, whatever the engine
/// answers: nothing is bound and nothing runs.
pub proof fn law_a_block_of_parameters_is_refused(
    level: Level,
    api: ApiKind,
    sql: Seq<char>,
    params: GridView,
    goal: Goal,
    replies: Seq<Reply>,
)
    requires
        params.rows > 1,
        params.cols > 1,
        replies.len() > 0,
    ensures
        task::after(admission_with_params(level, api, sql, params, goal), replies)
            matches StepView::Done(r) && r is Err,
    decreases replies.len(),
{
    if replies.len() > 1 {
        law_a_block_of_parameters_is_refused(level, api, sql, params, goal, replies.drop_last());
    } else {
        let start = admission_with_params(level, api, sql, params, goal);
        assert(task::after(start, replies.drop_last()) == start);
    }
}

// ---------------------------------------------------------------------------
// Laws: tables
// ---------------------------------------------------------------------------

/// The rows in some chunks.
pub open spec fn rows_of(chunks: Seq<DataChunk>) -> int
    decreases chunks.len(),
{
    if chunks.len() == 0 {
        0
    } else {
        rows_of(chunks.drop_last()) + chunks.last().rows
    }
}

/// The cells in some chunks, row by row.
pub open spec fn cells_of(chunks: Seq<DataChunk>, cols: int) -> Seq<Shown>
    decreases chunks.len(),
{
    if chunks.len() == 0 {
        Seq::empty()
    } else {
        cells_of(chunks.drop_last(), cols) + chunk_cells(chunks.last(), cols)
    }
}

/// The replies that bring these chunks.
pub open spec fn fetched(chunks: Seq<DataChunk>) -> Seq<Reply> {
    Seq::new(chunks.len(), |i: int| Reply::Fetched(Some(chunks[i])))
}

/// All rows so far, in their order, stand below the column names.
#[verifier::spinoff_prover]
proof fn lemma_rows_so_far(columns: Seq<Column>, chunks: Seq<DataChunk>)
    requires
        0 < columns.len() <= variant::MAX_EXCEL_COLS,
        first_unshowable(columns, 0) == columns.len(),
        1 + rows_of(chunks) <= variant::MAX_EXCEL_ROWS,
    ensures
        task::after(table_start(columns), fetched(chunks)) == ask_rows(
            columns.len() as int,
            header(columns) + cells_of(chunks, columns.len() as int),
        ),
    decreases chunks.len(),
{
    let cols = columns.len() as int;
    let cells = header(columns) + cells_of(chunks, cols);
    if chunks.len() > 0 {
        let before = chunks.drop_last();
        lemma_cells_of(before, cols);
        lemma_cells_of(chunks, cols);
        lemma_more_rows_than_header(cols, rows_of(chunks));
        lemma_rows_so_far(columns, before);
        assert(fetched(chunks).drop_last() == fetched(before));
        let c = chunks.last();
        let prior = header(columns) + cells_of(before, cols);
        assert(prior + chunk_cells(c, cols) == cells);
        assert(table_after(cols, prior, Some(c)) == ask_rows(cols, cells));
    }
}

/// A result with columns that a cell can show, fetched in any number of chunks,
/// becomes the table of all its rows, in their order, below the column names, as
/// long as it fits on a sheet.
#[verifier::spinoff_prover]
pub proof fn law_table_holds_every_row(columns: Seq<Column>, chunks: Seq<DataChunk>)
    requires
        0 < columns.len() <= variant::MAX_EXCEL_COLS,
        first_unshowable(columns, 0) == columns.len(),
        1 + rows_of(chunks) <= variant::MAX_EXCEL_ROWS,
    ensures
        task::after(table_start(columns), fetched(chunks)) == ask_rows(
            columns.len() as int,
            header(columns) + cells_of(chunks, columns.len() as int),
        ),
        task::after(table_start(columns), fetched(chunks).push(Reply::Fetched(None)))
            == StepView::Done(
            Ok(
                variant::table_answer(
                    1 + rows_of(chunks),
                    columns.len() as int,
                    header(columns) + cells_of(chunks, columns.len() as int),
                ),
            ),
        ),
{
    let cols = columns.len() as int;
    let cells = header(columns) + cells_of(chunks, cols);
    lemma_rows_so_far(columns, chunks);
    lemma_cells_of(chunks, cols);
    lemma_more_rows_than_header(cols, rows_of(chunks));
    assert(cells.len() == cols + rows_of(chunks) * cols);
    assert(fetched(chunks).push(Reply::Fetched(None)).drop_last() == fetched(chunks));
}

proof fn lemma_cells_of(chunks: Seq<DataChunk>, cols: int)
    requires
        cols > 0,
    ensures
        cells_of(chunks, cols).len() == rows_of(chunks) * cols,
        rows_of(chunks) >= 0,
    decreases chunks.len(),
{
    if chunks.len() > 0 {
        lemma_cells_of(chunks.drop_last(), cols);
        let a = rows_of(chunks.drop_last());
        let b = chunks.last().rows as int;
        assert((a + b) * cols == a * cols + b * cols) by (nonlinear_arith);
        assert(0 <= b * cols) by (nonlinear_arith)
            requires
                0 <= b,
                0 < cols,
        ;
    }
}

proof fn lemma_more_rows_than_header(cols: int, rows: int)
    requires
        cols > 0,
        rows >= 0,
    ensures
        variant::rows_in(cols + rows * cols, cols) == 1 + rows,
{
    variant::lemma_place(1, 0, cols);
    lemma_more_rows(cols, rows, cols);
}

/// A result with more rows than a sheet has is refused, however it is fetched: no
/// table comes of it.
#[verifier::spinoff_prover]
pub proof fn law_too_many_rows_are_refused(columns: Seq<Column>, chunks: Seq<DataChunk>)
    requires
        0 < columns.len() <= variant::MAX_EXCEL_COLS,
        first_unshowable(columns, 0) == columns.len(),
        1 + rows_of(chunks) > variant::MAX_EXCEL_ROWS,
    ensures
        task::after(table_start(columns), fetched(chunks)) matches StepView::Done(r) && r is Err,
    decreases chunks.len(),
{
    let cols = columns.len() as int;
    if chunks.len() > 0 {
        let before = chunks.drop_last();
        assert(fetched(chunks).drop_last() == fetched(before));
        lemma_cells_of(before, cols);
        lemma_cells_of(chunks, cols);
        if 1 + rows_of(before) > variant::MAX_EXCEL_ROWS {
            law_too_many_rows_are_refused(columns, before);
        } else {
            lemma_rows_so_far(columns, before);
            lemma_more_rows_than_header(cols, rows_of(chunks));
            let prior = header(columns) + cells_of(before, cols);
            let all = prior + chunk_cells(chunks.last(), cols);
            assert(all == header(columns) + cells_of(chunks, cols));
            assert(all.len() == cols + rows_of(chunks) * cols);
            assert(table_after(cols, prior, Some(chunks.last())) == task::failed(
                variant::sheet_objection(1 + rows_of(chunks), cols),
            ));
        }
    }
}

/// The cells of several chunks stand one behind the other, chunk by chunk.
pub proof fn law_chunks_stand_in_order(chunks: Seq<DataChunk>, more: Seq<DataChunk>, cols: int)
    ensures
        cells_of(chunks + more, cols) == cells_of(chunks, cols) + cells_of(more, cols),
        rows_of(chunks + more) == rows_of(chunks) + rows_of(more),
    decreases more.len(),
{
    if more.len() == 0 {
        assert(chunks + more == chunks);
    } else {
        law_chunks_stand_in_order(chunks, more.drop_last(), cols);
        assert((chunks + more).drop_last() == chunks + more.drop_last());
    }
}

/// Each row stands in its place among the cells: column by column within the row.
pub proof fn law_rows_stand_in_order(chunk: DataChunk, cols: int, row: int, col: int)
    requires
        0 <= row < chunk.rows,
        0 <= col < cols,
    ensures
        0 <= row * cols + col < chunk_cells(chunk, cols).len(),
        chunk_cells(chunk, cols)[row * cols + col] == value::cell_at(chunk.vectors@[col], row),
{
    variant::lemma_inside(row, col, chunk.rows as int, cols);
    variant::lemma_place(row, col, cols);
}

// ---------------------------------------------------------------------------
// Laws: quoting
// ---------------------------------------------------------------------------

/// What a reader of SQL takes for the body of a quoted text: up to the first `q`
/// that is not doubled, where two `q` stand for one. The second part is what
/// follows behind the closing `q`.
pub open spec fn read_quoted(s: Seq<char>, q: char) -> Option<(Seq<char>, Seq<char>)>
    decreases s.len(),
{
    if s.len() == 0 {
        None
    } else if s[0] == q {
        if s.len() > 1 && s[1] == q {
            match read_quoted(s.skip(2), q) {
                Some((body, rest)) => Some((seq![q] + body, rest)),
                None => None,
            }
        } else {
            Some((Seq::empty(), s.skip(1)))
        }
    } else {
        match read_quoted(s.skip(1), q) {
            Some((body, rest)) => Some((seq![s[0]] + body, rest)),
            None => None,
        }
    }
}

/// Whatever is quoted is read as itself: the text between the quotes comes back
/// unchanged, and what stood behind it is all that is left. Nothing in the text
/// can end it early.
pub proof fn law_quoted_text_reads_back(s: Seq<char>, q: char, rest: Seq<char>)
    requires
        rest.len() == 0 || rest[0] != q,
    ensures
        (quoted(s, q) + rest)[0] == q,
        read_quoted((quoted(s, q) + rest).skip(1), q) == Some((s, rest)),
{
    lemma_read_doubled(s, q, rest);
    assert((quoted(s, q) + rest).skip(1) == doubled(s, q) + seq![q] + rest);
}

proof fn lemma_read_doubled(s: Seq<char>, q: char, rest: Seq<char>)
    requires
        rest.len() == 0 || rest[0] != q,
    ensures
        read_quoted(doubled(s, q) + seq![q] + rest, q) == Some((s, rest)),
    decreases s.len(),
{
    let all = doubled(s, q) + seq![q] + rest;
    if s.len() > 0 {
        let tail = s.drop_first();
        lemma_doubled_front(s, q);
        lemma_read_doubled(tail, q, rest);
        if s[0] == q {
            assert(all.skip(2) == doubled(tail, q) + seq![q] + rest);
        } else {
            assert(all.skip(1) == doubled(tail, q) + seq![q] + rest);
        }
    }
}

proof fn lemma_doubled_front(s: Seq<char>, q: char)
    requires
        s.len() > 0,
    ensures
        doubled(s, q) == (if s[0] == q {
            seq![q, q]
        } else {
            seq![s[0]]
        }) + doubled(s.drop_first(), q),
    decreases s.len(),
{
    reveal_with_fuel(doubled, 2);
    if s.len() > 1 {
        lemma_doubled_front(s.drop_last(), q);
        assert(s.drop_last().drop_first() == s.drop_first().drop_last());
    }
}

/// The texts that the engine is asked to run for the lists of tables and columns.
pub proof fn law_texts_of_the_lists(table: Seq<char>)
    requires
        !table.contains('\0'),
    ensures
        ask_run(LIST_TABLES_SQL@, Goal::Rows) == ask_run(
            "SELECT table_schema AS スキーマ, table_name AS テーブル名, table_type AS 種別 FROM information_schema.tables ORDER BY table_schema, table_name"@,
            Goal::Rows,
        ),
        describing(table) == ask_run(
            "SELECT column_name AS 列名, data_type AS 型, is_nullable AS NULL可, column_default AS 既定値, ordinal_position AS 位置 FROM information_schema.columns WHERE table_name = "@
                + quoted(table, '\'') + " ORDER BY ordinal_position"@,
            Goal::Rows,
        ),
{
    raw::law_nul_bytes_are_nul_characters(describe_sql(table));
    reveal_strlit("SELECT column_name AS 列名, data_type AS 型, is_nullable AS NULL可, column_default AS 既定値, ordinal_position AS 位置 FROM information_schema.columns WHERE table_name = ");
    reveal_strlit(" ORDER BY ordinal_position");
    lemma_quoted_has_no_nul(table);
    let head = DESCRIBE_SQL_HEAD@;
    let tail = DESCRIBE_SQL_TAIL@;
    assert forall|k: int| 0 <= k < head.len() implies head[k] != '\0' by {}
    assert forall|k: int| 0 <= k < tail.len() implies tail[k] != '\0' by {}
    let all = describe_sql(table);
    let name = quoted(table, '\'');
    assert forall|k: int| 0 <= k < all.len() implies all[k] != '\0' by {
        if k < head.len() {
            assert(all[k] == head[k]);
        } else if k < head.len() + name.len() {
            assert(all[k] == name[k - head.len()]);
        } else {
            assert(all[k] == tail[k - head.len() - name.len()]);
        }
    }
}

proof fn lemma_quoted_has_no_nul(s: Seq<char>)
    requires
        !s.contains('\0'),
    ensures
        forall|k: int| 0 <= k < doubled(s, '\'').len() ==> #[trigger] doubled(s, '\'')[k] != '\0',
        forall|k: int| 0 <= k < quoted(s, '\'').len() ==> #[trigger] quoted(s, '\'')[k] != '\0',
    decreases s.len(),
{
    if s.len() > 0 {
        assert(s.last() != '\0') by {
            assert(s[s.len() - 1] == s.last());
        }
        assert(!s.drop_last().contains('\0')) by {
            if s.drop_last().contains('\0') {
                let i = choose|i: int| 0 <= i < s.drop_last().len() && s.drop_last()[i] == '\0';
                assert(s[i] == '\0');
            }
        }
        lemma_quoted_has_no_nul(s.drop_last());
        let before = doubled(s.drop_last(), '\'');
        let d = doubled(s, '\'');
        assert forall|k: int| 0 <= k < d.len() implies #[trigger] d[k] != '\0' by {
            if k < before.len() {
                assert(d[k] == before[k]);
            }
        }
    }
    let d = doubled(s, '\'');
    let q = quoted(s, '\'');
    assert forall|k: int| 0 <= k < q.len() implies #[trigger] q[k] != '\0' by {
        if 0 < k <= d.len() {
            assert(q[k] == d[k - 1]);
        }
    }
}

/// The name of a table is a literal in the text that lists its columns, and
/// nothing else: whatever the name holds, what follows it is the rest of that
/// text.
pub proof fn law_table_name_stays_a_literal(table: Seq<char>)
    ensures
        ({
            let after_head = describe_sql(table).skip(DESCRIBE_SQL_HEAD@.len() as int);
            &&& after_head[0] == '\''
            &&& read_quoted(after_head.skip(1), '\'') == Some((table, DESCRIBE_SQL_TAIL@))
        }),
{
    reveal_strlit(" ORDER BY ordinal_position");
    let after_head = describe_sql(table).skip(DESCRIBE_SQL_HEAD@.len() as int);
    assert(after_head == quoted(table, '\'') + DESCRIBE_SQL_TAIL@);
    law_quoted_text_reads_back(table, '\'', DESCRIBE_SQL_TAIL@);
}

} // verus!
