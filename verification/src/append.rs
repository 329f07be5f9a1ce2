//! Writing a whole array into a table, all of it or nothing.
//!
//! The engine's appender writes its buffer to the table whenever it is full, so
//! the whole is kept within a transaction: it is committed only behind the last
//! row, and rolled back by any failure before that.
use crate::inbound;
use crate::inbound::{GridView, InputGrid};
use crate::oleaut;
use crate::raw;
use crate::task;
use crate::task::{Action, ActionView, Handover, Reply, Step, StepView, Task, TaskView};
use crate::text;
use crate::variant;
use crate::variant::Answer;
use vstd::prelude::*;

verus! {

/// The text that begins a transaction.
pub const BEGIN_SQL: &'static str = "BEGIN TRANSACTION";

/// The text that commits it.
pub const COMMIT_SQL: &'static str = "COMMIT";

/// The text that rolls it back.
pub const ROLLBACK_SQL: &'static str = "ROLLBACK";

/// An array that is being written, and what was asked last.
#[derive(Debug)]
pub enum AppendTask {
    Opening { table: String, data: InputGrid },
    Beginning { data: InputGrid },
    /// The cell at this row and column was handed over.
    Appending { data: InputGrid, row: usize, col: usize },
    EndingRow { data: InputGrid, row: usize },
    Flushing { rows: usize },
    ClosingToCommit { rows: usize },
    Committing { rows: usize },
    ClosingToRollBack { error: String },
    RollingBack { error: String, close_after: bool },
    ClosingWith { error: String },
}

/// The contents of an `AppendTask`.
#[verifier::ext_equal]
pub enum AppendTaskView {
    Opening { table: Seq<char>, data: GridView },
    Beginning { data: GridView },
    Appending { data: GridView, row: int, col: int },
    EndingRow { data: GridView, row: int },
    Flushing { rows: int },
    ClosingToCommit { rows: int },
    Committing { rows: int },
    ClosingToRollBack { error: Seq<char> },
    RollingBack { error: Seq<char>, close_after: bool },
    ClosingWith { error: Seq<char> },
}

impl View for AppendTask {
    type V = AppendTaskView;

    open spec fn view(&self) -> AppendTaskView {
        match *self {
            AppendTask::Opening { table, data } => AppendTaskView::Opening {
                table: table@,
                data: data@,
            },
            AppendTask::Beginning { data } => AppendTaskView::Beginning { data: data@ },
            AppendTask::Appending { data, row, col } => AppendTaskView::Appending {
                data: data@,
                row: row as int,
                col: col as int,
            },
            AppendTask::EndingRow { data, row } => AppendTaskView::EndingRow {
                data: data@,
                row: row as int,
            },
            AppendTask::Flushing { rows } => AppendTaskView::Flushing { rows: rows as int },
            AppendTask::ClosingToCommit { rows } => AppendTaskView::ClosingToCommit {
                rows: rows as int,
            },
            AppendTask::Committing { rows } => AppendTaskView::Committing { rows: rows as int },
            AppendTask::ClosingToRollBack { error } => AppendTaskView::ClosingToRollBack {
                error: error@,
            },
            AppendTask::RollingBack { error, close_after } => AppendTaskView::RollingBack {
                error: error@,
                close_after,
            },
            AppendTask::ClosingWith { error } => AppendTaskView::ClosingWith { error: error@ },
        }
    }
}

impl AppendTask {
    /// What the task holds is whole.
    pub open spec fn wf(self) -> bool {
        match self {
            AppendTask::Opening { table, data } => data.wf(),
            AppendTask::Beginning { data } => data.wf(),
            AppendTask::Appending { data, row, col } => data.wf() && row < data.rows && col
                < data.cols,
            AppendTask::EndingRow { data, row } => data.wf() && row < data.rows,
            _ => true,
        }
    }
}

// ---------------------------------------------------------------------------
// What comes next
// ---------------------------------------------------------------------------

/// The action is asked for, and the task waits for what comes of it.
pub open spec fn ask(action: ActionView, task: AppendTaskView) -> StepView {
    StepView::Ask { action, task: TaskView::Append(task) }
}

/// How writing begins.
pub open spec fn appending(table: Seq<char>, data: GridView) -> StepView {
    if raw::has_nul(table) {
        task::failed(raw::NUL_MESSAGE@)
    } else {
        ask(ActionView::OpenAppender(table), AppendTaskView::Opening { table, data })
    }
}

/// The message for an array with another number of columns than the table.
pub open spec fn columns_differ(table: Seq<char>, table_cols: int, cols: int) -> Seq<char> {
    "テーブル「"@ + table + "」は "@ + text::dec(table_cols as nat)
        + " 列ですが、渡された範囲は "@ + text::dec(cols as nat)
        + " 列です。\n列数を合わせてください（見出し行は含めず、テーブルの列順に並べます）。"@
}

/// The table is closed, and the error is the answer.
pub open spec fn close_with(error: Seq<char>) -> StepView {
    ask(ActionView::CloseAppender, AppendTaskView::ClosingWith { error })
}

/// The table is closed and the transaction rolled back, and the error is the
/// answer.
pub open spec fn give_up(error: Seq<char>) -> StepView {
    ask(ActionView::CloseAppender, AppendTaskView::ClosingToRollBack { error })
}

/// The transaction is rolled back, then the table is closed where it is still
/// open, and the error is the answer.
pub open spec fn roll_back(error: Seq<char>, close_after: bool) -> StepView {
    ask(ActionView::Run(ROLLBACK_SQL@), AppendTaskView::RollingBack { error, close_after })
}

/// What the cell at this row and column becomes.
pub open spec fn cell_value(data: GridView, row: int, col: int) -> Result<
    inbound::EngineValue,
    Seq<char>,
> {
    let cell = data.cells[row * data.cols + col];
    inbound::value_of(cell.value, cell.vt, inbound::position_text(row, col))
}

/// What follows when the cells before this row and column have been written: the
/// cell, or the end of the row, or the end of all.
pub open spec fn fill_from(data: GridView, row: int, col: int) -> StepView {
    if row >= data.rows {
        ask(ActionView::Flush, AppendTaskView::Flushing { rows: data.rows })
    } else if col >= data.cols {
        ask(ActionView::EndRow, AppendTaskView::EndingRow { data, row })
    } else {
        match cell_value(data, row, col) {
            Err(m) => give_up(m),
            Ok(v) => ask(ActionView::Append(v), AppendTaskView::Appending { data, row, col }),
        }
    }
}

/// The reply answers what was asked.
pub open spec fn answers(a: AppendTaskView, reply: Reply) -> bool {
    match a {
        AppendTaskView::Opening { .. } => reply is AppenderOpened,
        AppendTaskView::Beginning { .. } => reply is Ran,
        AppendTaskView::Appending { .. } => reply is Appended,
        AppendTaskView::EndingRow { .. } => reply is RowEnded,
        AppendTaskView::Flushing { .. } => reply is Flushed,
        AppendTaskView::ClosingToCommit { .. } => reply is AppenderClosed,
        AppendTaskView::Committing { .. } => reply is Ran,
        AppendTaskView::ClosingToRollBack { .. } => reply is AppenderClosed,
        AppendTaskView::RollingBack { .. } => reply is Ran,
        AppendTaskView::ClosingWith { .. } => reply is AppenderClosed,
    }
}

/// How the work goes on.
pub open spec fn step_after(a: AppendTaskView, reply: Reply) -> StepView {
    match a {
        AppendTaskView::Opening { table, data } => match reply->AppenderOpened_0 {
            Err(m) => task::failed(raw::appender_failure(table, m@)),
            Ok(n) => if n != data.cols {
                close_with(columns_differ(table, n as int, data.cols))
            } else {
                ask(ActionView::Run(BEGIN_SQL@), AppendTaskView::Beginning { data })
            },
        },
        AppendTaskView::Beginning { data } => match reply->Ran_0 {
            Err(m) => close_with(raw::run_failure(m@)),
            Ok(_) => fill_from(data, 0, 0),
        },
        AppendTaskView::Appending { data, row, col } => match reply->Appended_0 {
            Handover::Taken => fill_from(data, row, col + 1),
            Handover::NoValue => give_up(inbound::untaken_text(inbound::position_text(row, col))),
            Handover::Refused(m) => give_up(
                inbound::position_text(row, col) + ": "@ + raw::message_or(
                    m@,
                    "値を追加できませんでした"@,
                ),
            ),
        },
        AppendTaskView::EndingRow { data, row } => match reply->RowEnded_0 {
            Ok(()) => fill_from(data, row + 1, 0),
            Err(m) => give_up(
                text::dec((row + 1) as nat) + " 行目: "@ + raw::message_or(
                    m@,
                    "行を確定できませんでした"@,
                ),
            ),
        },
        AppendTaskView::Flushing { rows } => match reply->Flushed_0 {
            Ok(()) => ask(ActionView::CloseAppender, AppendTaskView::ClosingToCommit { rows }),
            Err(m) => roll_back(
                raw::message_or(m@, "テーブルへの書き出しに失敗しました"@),
                true,
            ),
        },
        AppendTaskView::ClosingToCommit { rows } => ask(
            ActionView::Run(COMMIT_SQL@),
            AppendTaskView::Committing { rows },
        ),
        AppendTaskView::Committing { rows } => match reply->Ran_0 {
            Ok(_) => StepView::Done(
                Ok(Answer::Value(oleaut::shown_i64(raw::signed_64(rows as u64)))),
            ),
            Err(m) => task::failed(raw::run_failure(m@)),
        },
        AppendTaskView::ClosingToRollBack { error } => roll_back(error, false),
        AppendTaskView::RollingBack { error, close_after } => if close_after {
            close_with(error)
        } else {
            task::failed(error)
        },
        AppendTaskView::ClosingWith { error } => task::failed(error),
    }
}

// ---------------------------------------------------------------------------
// Doing it
// ---------------------------------------------------------------------------

fn closing_with(error: String) -> (r: Step)
    ensures
        r@ == close_with(error@),
        r.wf(),
{
    Step::Ask {
        action: Action::CloseAppender,
        task: Task::Append(AppendTask::ClosingWith { error }),
    }
}

fn giving_up(error: String) -> (r: Step)
    ensures
        r@ == give_up(error@),
        r.wf(),
{
    Step::Ask {
        action: Action::CloseAppender,
        task: Task::Append(AppendTask::ClosingToRollBack { error }),
    }
}

fn rolling_back(error: String, close_after: bool) -> (r: Step)
    ensures
        r@ == roll_back(error@, close_after),
        r.wf(),
{
    Step::Ask {
        action: Action::Run(ROLLBACK_SQL.to_owned()),
        task: Task::Append(AppendTask::RollingBack { error, close_after }),
    }
}

/// Begins to write the array into the table. Its columns go to the table's
/// columns by position; the answer is the number of rows.
pub fn append_array(table: &str, data: InputGrid) -> (r: Step)
    requires
        data.wf(),
    ensures
        r@ == appending(table@, data@),
        r.wf(),
{
    if raw::contains_nul(table) {
        return Step::Done(Err(raw::NUL_MESSAGE.to_owned()));
    }
    Step::Ask {
        action: Action::OpenAppender(table.to_owned()),
        task: Task::Append(AppendTask::Opening { table: table.to_owned(), data }),
    }
}

fn fill(data: InputGrid, row: usize, col: usize) -> (r: Step)
    requires
        data.wf(),
        row <= data.rows,
        col <= data.cols,
    ensures
        r@ == fill_from(data@, row as int, col as int),
        r.wf(),
{
    if row >= data.rows {
        return Step::Ask {
            action: Action::Flush,
            task: Task::Append(AppendTask::Flushing { rows: data.rows }),
        };
    }
    if col >= data.cols {
        return Step::Ask {
            action: Action::EndRow,
            task: Task::Append(AppendTask::EndingRow { data, row }),
        };
    }
    let pos = data.position(row, col);
    let cell = data.get(row, col);
    match inbound::variant_to_value(cell, pos.as_str()) {
        Err(m) => giving_up(m),
        Ok(value) => Step::Ask {
            action: Action::Append(value),
            task: Task::Append(AppendTask::Appending { data, row, col }),
        },
    }
}

fn opened(table: String, data: InputGrid, outcome: Result<usize, String>) -> (r: Step)
    requires
        data.wf(),
    ensures
        r@ == step_after(
            (AppendTaskView::Opening { table: table@, data: data@ }),
            Reply::AppenderOpened(outcome),
        ),
        r.wf(),
{
    let n: usize = match outcome {
        Err(m) => {
            return Step::Done(Err(raw::no_appender(table.as_str(), m)));
        },
        Ok(n) => n,
    };
    if n != data.cols {
        let mut m = "テーブル「".to_owned();
        m.append(table.as_str());
        m.append("」は ");
        text::push_dec(&mut m, n as u128);
        m.append(" 列ですが、渡された範囲は ");
        text::push_dec(&mut m, data.cols as u128);
        m.append(
            " 列です。\n列数を合わせてください（見出し行は含めず、テーブルの列順に並べます）。",
        );
        return closing_with(m);
    }
    Step::Ask {
        action: Action::Run(BEGIN_SQL.to_owned()),
        task: Task::Append(AppendTask::Beginning { data }),
    }
}

fn appended(data: InputGrid, row: usize, col: usize, outcome: Handover) -> (r: Step)
    requires
        data.wf(),
        row < data.rows,
        col < data.cols,
    ensures
        r@ == step_after(
            (AppendTaskView::Appending { data: data@, row: row as int, col: col as int }),
            Reply::Appended(outcome),
        ),
        r.wf(),
{
    match outcome {
        Handover::Taken => fill(data, row, col + 1),
        Handover::NoValue => giving_up(inbound::untaken(data.position(row, col).as_str())),
        Handover::Refused(m) => {
            let mut e = data.position(row, col);
            e.append(": ");
            e.append(raw::error_or(m, "値を追加できませんでした").as_str());
            giving_up(e)
        },
    }
}

fn row_ended(data: InputGrid, row: usize, outcome: Result<(), String>) -> (r: Step)
    requires
        data.wf(),
        row < data.rows,
    ensures
        r@ == step_after(
            (AppendTaskView::EndingRow { data: data@, row: row as int }),
            Reply::RowEnded(outcome),
        ),
        r.wf(),
{
    match outcome {
        Ok(()) => fill(data, row + 1, 0),
        Err(m) => {
            let mut e = text::dec_text(row as u128 + 1);
            e.append(" 行目: ");
            e.append(raw::error_or(m, "行を確定できませんでした").as_str());
            giving_up(e)
        },
    }
}

/// Goes on with what came of the last action.
pub fn step(a: AppendTask, reply: Reply) -> (r: Step)
    requires
        a.wf(),
        answers(a@, reply),
    ensures
        r@ == step_after(a@, reply),
        r.wf(),
{
    match (a, reply) {
        (AppendTask::Opening { table, data }, Reply::AppenderOpened(outcome)) => opened(
            table,
            data,
            outcome,
        ),
        (AppendTask::Beginning { data }, Reply::Ran(outcome)) => match outcome {
            Err(m) => closing_with(raw::not_run(m)),
            Ok(_) => fill(data, 0, 0),
        },
        (AppendTask::Appending { data, row, col }, Reply::Appended(outcome)) => appended(
            data,
            row,
            col,
            outcome,
        ),
        (AppendTask::EndingRow { data, row }, Reply::RowEnded(outcome)) => row_ended(
            data,
            row,
            outcome,
        ),
        (AppendTask::Flushing { rows }, Reply::Flushed(outcome)) => match outcome {
            Ok(()) => Step::Ask {
                action: Action::CloseAppender,
                task: Task::Append(AppendTask::ClosingToCommit { rows }),
            },
            Err(m) => rolling_back(
                raw::error_or(m, "テーブルへの書き出しに失敗しました"),
                true,
            ),
        },
        (AppendTask::ClosingToCommit { rows }, Reply::AppenderClosed) => Step::Ask {
            action: Action::Run(COMMIT_SQL.to_owned()),
            task: Task::Append(AppendTask::Committing { rows }),
        },
        (AppendTask::Committing { rows }, Reply::Ran(outcome)) => match outcome {
            Ok(_) => Step::Done(Ok(variant::scalar_i64(raw::to_signed(rows as u64)))),
            Err(m) => Step::Done(Err(raw::not_run(m))),
        },
        (AppendTask::ClosingToRollBack { error }, Reply::AppenderClosed) => rolling_back(
            error,
            false,
        ),
        (AppendTask::RollingBack { error, close_after }, Reply::Ran(_)) => {
            if close_after {
                closing_with(error)
            } else {
                Step::Done(Err(error))
            }
        },
        (AppendTask::ClosingWith { error }, Reply::AppenderClosed) => Step::Done(Err(error)),
        _ => Step::Done(Err(String::new())),
    }
}

// ---------------------------------------------------------------------------
// Laws
// ---------------------------------------------------------------------------

/// What has become of the transaction.
pub enum Transaction {
    NotBegun,
    Open,
    Committed,
    /// The engine was told to commit and could not.
    CommitFailed,
    RolledBack,
}

/// What the engine has been handed.
#[verifier::ext_equal]
pub struct Progress {
    pub transaction: Transaction,
    /// The rows that were ended.
    pub rows: Seq<Seq<inbound::EngineValue>>,
    /// The values of the row that was not ended yet.
    pub row: Seq<inbound::EngineValue>,
    /// The rows were written to the table.
    pub flushed: bool,
    /// The table is open for appending.
    pub open: bool,
}

/// Nothing has been handed over.
pub open spec fn no_progress() -> Progress {
    Progress {
        transaction: Transaction::NotBegun,
        rows: Seq::empty(),
        row: Seq::empty(),
        flushed: false,
        open: false,
    }
}

/// What an action that was answered this way adds.
pub open spec fn progress_by(p: Progress, action: ActionView, reply: Reply) -> Progress {
    match action {
        ActionView::Run(sql) => Progress {
            transaction: if sql == BEGIN_SQL@ {
                if reply->Ran_0 is Ok {
                    Transaction::Open
                } else {
                    p.transaction
                }
            } else if sql == COMMIT_SQL@ {
                if reply->Ran_0 is Ok {
                    Transaction::Committed
                } else {
                    Transaction::CommitFailed
                }
            } else if sql == ROLLBACK_SQL@ {
                Transaction::RolledBack
            } else {
                p.transaction
            },
            ..p
        },
        ActionView::Append(v) => if reply->Appended_0 is Taken {
            Progress { row: p.row.push(v), ..p }
        } else {
            p
        },
        ActionView::EndRow => if reply->RowEnded_0 is Ok {
            Progress { rows: p.rows.push(p.row), row: Seq::empty(), ..p }
        } else {
            p
        },
        ActionView::Flush => Progress { flushed: reply->Flushed_0 is Ok, ..p },
        ActionView::OpenAppender(_) => Progress { open: reply->AppenderOpened_0 is Ok, ..p },
        ActionView::CloseAppender => Progress { open: false, ..p },
        _ => p,
    }
}

/// What the engine has been handed by the time of these replies.
pub open spec fn progress(start: StepView, replies: Seq<Reply>) -> Progress
    decreases replies.len(),
{
    if replies.len() == 0 {
        no_progress()
    } else {
        let before = replies.drop_last();
        progress_by(
            progress(start, before),
            task::after(start, before)->action,
            replies.last(),
        )
    }
}

/// The cell can be converted.
pub open spec fn converts(data: GridView, row: int, col: int) -> bool {
    cell_value(data, row, col) is Ok
}

/// The first `n` values of a row of the array.
pub open spec fn row_values(data: GridView, row: int, n: int) -> Seq<inbound::EngineValue> {
    Seq::new(n as nat, |c: int| cell_value(data, row, c)->Ok_0)
}

/// The first `n` rows of the array, as the engine gets them.
pub open spec fn table_values(data: GridView, n: int) -> Seq<Seq<inbound::EngineValue>> {
    Seq::new(n as nat, |r: int| row_values(data, r, data.cols))
}

/// All cells before this row and column can be converted.
pub open spec fn converted_before(data: GridView, row: int, col: int) -> bool {
    forall|r: int, c: int| #![trigger converts(data, r, c)]
        0 <= r < data.rows && 0 <= c < data.cols && (r < row || r == row && c < col) ==> converts(
            data,
            r,
            c,
        )
}

/// What has been handed over where the array stands in order up to this row and
/// column.
pub open spec fn filled(p: Progress, data: GridView, row: int, col: int) -> bool {
    &&& p.transaction == Transaction::Open
    &&& p.open
    &&& p.rows == table_values(data, row)
    &&& p.row == row_values(data, row, col)
    &&& converted_before(data, row, col)
}

/// All of the array has been handed over.
pub open spec fn complete(p: Progress, data: GridView) -> bool {
    &&& p.rows == table_values(data, data.rows)
    &&& p.row == Seq::<inbound::EngineValue>::empty()
    &&& converted_before(data, data.rows, 0)
}

/// The answer to an array that was written: how many rows it has.
pub open spec fn appended_answer(data: GridView) -> Answer {
    Answer::Value(oleaut::shown_i64(raw::signed_64(data.rows as u64)))
}

/// What holds between the work and what has been handed over, at every moment.
pub open spec fn in_step(now: StepView, p: Progress, data: GridView) -> bool {
    match now {
        StepView::Done(r) => !p.open && match p.transaction {
            Transaction::Committed => r == Ok::<Answer, Seq<char>>(appended_answer(data)) && p.flushed
                && complete(p, data),
            Transaction::Open => false,
            _ => r is Err,
        },
        StepView::Ask { action, task } => match task {
            TaskView::Query(_) => false,
            TaskView::Append(a) => match a {
                AppendTaskView::Opening { table, data: d } => d == data && p == no_progress()
                    && action == ActionView::OpenAppender(table),
                AppendTaskView::Beginning { data: d } => d == data && p == (Progress {
                    open: true,
                    ..no_progress()
                }) && action == ActionView::Run(BEGIN_SQL@),
                AppendTaskView::Appending { data: d, row, col } => {
                    &&& d == data
                    &&& 0 <= row < data.rows
                    &&& 0 <= col < data.cols
                    &&& filled(p, data, row, col)
                    &&& converts(data, row, col)
                    &&& action == ActionView::Append(cell_value(data, row, col)->Ok_0)
                },
                AppendTaskView::EndingRow { data: d, row } => {
                    &&& d == data
                    &&& 0 <= row < data.rows
                    &&& filled(p, data, row, data.cols)
                    &&& action == ActionView::EndRow
                },
                AppendTaskView::Flushing { rows } => {
                    &&& rows == data.rows
                    &&& p.transaction == Transaction::Open
                    &&& p.open
                    &&& complete(p, data)
                    &&& action == ActionView::Flush
                },
                AppendTaskView::ClosingToCommit { rows } => {
                    &&& rows == data.rows
                    &&& p.transaction == Transaction::Open
                    &&& p.open
                    &&& complete(p, data)
                    &&& p.flushed
                    &&& action == ActionView::CloseAppender
                },
                AppendTaskView::Committing { rows } => {
                    &&& rows == data.rows
                    &&& p.transaction == Transaction::Open
                    &&& !p.open
                    &&& complete(p, data)
                    &&& p.flushed
                    &&& action == ActionView::Run(COMMIT_SQL@)
                },
                AppendTaskView::ClosingToRollBack { error } => {
                    &&& p.transaction == Transaction::Open
                    &&& p.open
                    &&& action == ActionView::CloseAppender
                },
                AppendTaskView::RollingBack { error, close_after } => {
                    &&& p.transaction == Transaction::Open
                    &&& p.open == close_after
                    &&& action == ActionView::Run(ROLLBACK_SQL@)
                },
                AppendTaskView::ClosingWith { error } => {
                    &&& p.transaction == Transaction::NotBegun || p.transaction
                        == Transaction::RolledBack
                    &&& p.open
                    &&& action == ActionView::CloseAppender
                },
            },
        },
    }
}

proof fn lemma_transaction_texts()
    ensures
        BEGIN_SQL@ != COMMIT_SQL@,
        BEGIN_SQL@ != ROLLBACK_SQL@,
        COMMIT_SQL@ != ROLLBACK_SQL@,
{
    reveal_strlit("BEGIN TRANSACTION");
    reveal_strlit("COMMIT");
    reveal_strlit("ROLLBACK");
    assert(BEGIN_SQL@.len() == 17);
    assert(COMMIT_SQL@.len() == 6);
    assert(ROLLBACK_SQL@.len() == 8);
}

proof fn lemma_fill(p: Progress, data: GridView, row: int, col: int)
    requires
        0 <= row < data.rows && 0 <= col <= data.cols || row == data.rows && col == 0,
        data.cols > 0,
        filled(p, data, row, col),
    ensures
        in_step(fill_from(data, row, col), p, data),
{
    if row == data.rows {
        assert(row_values(data, row, 0) == Seq::<inbound::EngineValue>::empty());
    }
}

proof fn lemma_step_by_step(
    action: ActionView,
    a: AppendTaskView,
    reply: Reply,
    p: Progress,
    data: GridView,
)
    requires
        data.rows > 0,
        data.cols > 0,
        in_step(ask(action, a), p, data),
        answers(a, reply),
    ensures
        in_step(step_after(a, reply), progress_by(p, action, reply), data),
{
    lemma_transaction_texts();
    let q = progress_by(p, action, reply);
    match a {
        AppendTaskView::Beginning { data: d } => {
            if reply->Ran_0 is Ok {
                assert(q.rows == table_values(data, 0));
                assert(q.row == row_values(data, 0, 0));
                lemma_fill(q, data, 0, 0);
            }
        },
        AppendTaskView::Appending { data: d, row, col } => {
            if reply->Appended_0 is Taken {
                assert(row_values(data, row, col + 1) == row_values(data, row, col).push(
                    cell_value(data, row, col)->Ok_0,
                ));
                lemma_fill(q, data, row, col + 1);
            }
        },
        AppendTaskView::EndingRow { data: d, row } => {
            if reply->RowEnded_0 is Ok {
                assert(table_values(data, row + 1) == table_values(data, row).push(
                    row_values(data, row, data.cols),
                ));
                assert(row_values(data, row + 1, 0) == Seq::<inbound::EngineValue>::empty());
                lemma_fill(q, data, row + 1, 0);
            }
        },
        _ => {},
    }
}

/// The work and what has been handed over stay in step, whatever the engine
/// answers: cells go over in order, row by row, within the transaction.
pub proof fn law_append_keeps_in_step(table: Seq<char>, data: GridView, replies: Seq<Reply>)
    requires
        data.rows > 0,
        data.cols > 0,
        task::conversation(appending(table, data), replies),
    ensures
        in_step(
            task::after(appending(table, data), replies),
            progress(appending(table, data), replies),
            data,
        ),
    decreases replies.len(),
{
    let start = appending(table, data);
    if replies.len() > 0 {
        let before = replies.drop_last();
        task::lemma_conversation(start, replies);
        law_append_keeps_in_step(table, data, before);
        let was = task::after(start, before);
        lemma_step_by_step(
            was->action,
            was->task->Append_0,
            replies.last(),
            progress(start, before),
            data,
        );
    }
}

/// All or nothing: when the work is over, it was a success exactly where the
/// transaction was committed, and then every cell of the array could be converted
/// and was handed over, row by row and in its place, and the answer is the number of
/// rows. Otherwise the transaction was never begun, was rolled back, or the engine
/// itself refused to commit: it is never left open, and neither is the table.
pub proof fn law_append_is_all_or_nothing(table: Seq<char>, data: GridView, replies: Seq<Reply>)
    requires
        data.rows > 0,
        data.cols > 0,
        task::conversation(appending(table, data), replies),
        task::after(appending(table, data), replies) is Done,
    ensures
        ({
            let outcome = task::after(appending(table, data), replies)->Done_0;
            let p = progress(appending(table, data), replies);
            &&& p.transaction != Transaction::Open
            &&& !p.open
            &&& outcome is Ok <==> p.transaction == Transaction::Committed
            &&& outcome is Ok ==> {
                &&& p.flushed
                &&& p.rows == table_values(data, data.rows)
                &&& outcome == Ok::<Answer, Seq<char>>(appended_answer(data))
                &&& data.rows <= i64::MAX ==> outcome == Ok::<Answer, Seq<char>>(
                    Answer::Value(oleaut::shown_i64(data.rows)),
                )
                &&& forall|r: int, c: int| #![trigger converts(data, r, c)]
                    0 <= r < data.rows && 0 <= c < data.cols ==> converts(data, r, c)
            }
        }),
{
    law_append_keeps_in_step(table, data, replies);
}

/// Nothing failed: the table has `cols` columns, and the engine did what it was
/// asked.
pub open spec fn went_well(reply: Reply, cols: int) -> bool {
    match reply {
        Reply::AppenderOpened(r) => r matches Ok(n) && n == cols,
        Reply::Ran(r) => r is Ok,
        Reply::Appended(h) => h is Taken,
        Reply::RowEnded(r) => r is Ok,
        Reply::Flushed(r) => r is Ok,
        Reply::AppenderClosed => true,
        _ => false,
    }
}

/// How many things are asked of the engine for an array of this size: the table is
/// opened and the transaction begun, each row has its cells and its end, and then
/// the table is written, closed, and the transaction committed.
pub open spec fn actions_needed(rows: int, cols: int) -> int {
    rows * (cols + 1) + 5
}

/// Success is owed: where the name holds no NUL, the table has as many columns as the
/// array, every cell can be converted, and the engine does what it is asked, the
/// array is written. The table is opened, then the transaction begun, then each row
/// is handed over cell by cell and ended, then the rows are written, the table is
/// closed and the transaction committed. Then all is done, the transaction is
/// committed, and the answer is the number of rows.
#[verifier::spinoff_prover]
pub proof fn law_append_succeeds(table: Seq<char>, data: GridView, replies: Seq<Reply>)
    requires
        0 < data.rows <= i64::MAX,
        data.cols > 0,
        !raw::has_nul(table),
        forall|r: int, c: int| #![trigger data.cells[r * data.cols + c]]
            0 <= r < data.rows && 0 <= c < data.cols ==> inbound::value_of(
                data.cells[r * data.cols + c].value,
                data.cells[r * data.cols + c].vt,
                inbound::position_text(r, c),
            ) is Ok,
        task::conversation(appending(table, data), replies),
        forall|i: int| 0 <= i < replies.len() ==> went_well(#[trigger] replies[i], data.cols),
    ensures
        replies.len() <= actions_needed(data.rows, data.cols),
        replies.len() < actions_needed(data.rows, data.cols) ==> (task::after(
            appending(table, data),
            replies,
        ) matches StepView::Ask { action, task } && is_next(
            action,
            table,
            data,
            replies.len() as int,
        )),
        replies.len() == actions_needed(data.rows, data.cols) ==> {
            &&& task::after(appending(table, data), replies) == StepView::Done(
                Ok(Answer::Value(oleaut::shown_i64(data.rows))),
            )
            &&& progress(appending(table, data), replies).transaction == Transaction::Committed
        },
{
    assert forall|r: int, c: int| 0 <= r < data.rows && 0 <= c < data.cols implies #[trigger]
        converts(data, r, c) by {
        let cell = data.cells[r * data.cols + c];
        assert(inbound::value_of(cell.value, cell.vt, inbound::position_text(r, c)) is Ok);
    }
    lemma_append_succeeds(table, data, replies);
    law_append_keeps_in_step(table, data, replies);
}

/// What is asked as number `k`, counted from 0.
pub open spec fn is_next(action: ActionView, table: Seq<char>, data: GridView, k: int) -> bool {
    let last = 2 + data.rows * (data.cols + 1);
    &&& k == 0 ==> action == ActionView::OpenAppender(table)
    &&& k == 1 ==> action == ActionView::Run("BEGIN TRANSACTION"@)
    &&& forall|r: int, c: int| #![trigger data.cells[r * data.cols + c]]
        0 <= r < data.rows && 0 <= c < data.cols && k == 2 + r * (data.cols + 1) + c ==> Ok::<
            inbound::EngineValue,
            Seq<char>,
        >(action->Append_0) == inbound::value_of(
            data.cells[r * data.cols + c].value,
            data.cells[r * data.cols + c].vt,
            inbound::position_text(r, c),
        ) && action is Append
    &&& forall|r: int|
        0 <= r < data.rows && k == 2 + #[trigger] (r * (data.cols + 1)) + data.cols ==> action
            == ActionView::EndRow
    &&& k == last ==> action == ActionView::Flush
    &&& k == last + 1 ==> action == ActionView::CloseAppender
    &&& k == last + 2 ==> action == ActionView::Run("COMMIT"@)
}

/// Where the work stands after `k` things went well.
spec fn stands_at(now: StepView, table: Seq<char>, data: GridView, k: int) -> bool {
    let w = data.cols + 1;
    let last = 2 + data.rows * w;
    match now {
        StepView::Done(r) => k == last + 3 && r == Ok::<Answer, Seq<char>>(appended_answer(data)),
        StepView::Ask { action, task } => match task {
            TaskView::Query(_) => false,
            TaskView::Append(a) => match a {
                AppendTaskView::Opening { table: t, data: d } => k == 0 && t == table && d == data
                    && action == ActionView::OpenAppender(table),
                AppendTaskView::Beginning { data: d } => k == 1 && d == data && action
                    == ActionView::Run(BEGIN_SQL@),
                AppendTaskView::Appending { data: d, row, col } => {
                    &&& d == data
                    &&& 0 <= row < data.rows
                    &&& 0 <= col < data.cols
                    &&& k == 2 + row * w + col
                    &&& action == ActionView::Append(cell_value(data, row, col)->Ok_0)
                },
                AppendTaskView::EndingRow { data: d, row } => {
                    &&& d == data
                    &&& 0 <= row < data.rows
                    &&& k == 2 + row * w + data.cols
                    &&& action == ActionView::EndRow
                },
                AppendTaskView::Flushing { rows } => rows == data.rows && k == last && action
                    == ActionView::Flush,
                AppendTaskView::ClosingToCommit { rows } => rows == data.rows && k == last + 1
                    && action == ActionView::CloseAppender,
                AppendTaskView::Committing { rows } => rows == data.rows && k == last + 2 && action
                    == ActionView::Run(COMMIT_SQL@),
                _ => false,
            },
        },
    }
}

#[verifier::spinoff_prover]
proof fn lemma_append_succeeds(table: Seq<char>, data: GridView, replies: Seq<Reply>)
    requires
        0 < data.rows <= i64::MAX,
        data.cols > 0,
        !raw::has_nul(table),
        forall|r: int, c: int|
            0 <= r < data.rows && 0 <= c < data.cols ==> #[trigger] converts(data, r, c),
        task::conversation(appending(table, data), replies),
        forall|i: int| 0 <= i < replies.len() ==> went_well(#[trigger] replies[i], data.cols),
    ensures
        ({
            let now = task::after(appending(table, data), replies);
            let k = replies.len() as int;
            &&& stands_at(now, table, data, k)
            &&& k <= actions_needed(data.rows, data.cols)
            &&& now is Done <==> k == actions_needed(data.rows, data.cols)
            &&& now matches StepView::Ask { action, task } ==> is_next(action, table, data, k)
        }),
    decreases replies.len(),
{
    let start = appending(table, data);
    let now = task::after(start, replies);
    if replies.len() > 0 {
        let before = replies.drop_last();
        task::lemma_conversation(start, replies);
        assert forall|i: int| 0 <= i < before.len() implies went_well(
            #[trigger] before[i],
            data.cols,
        ) by {
            assert(before[i] == replies[i]);
        }
        lemma_append_succeeds(table, data, before);
        let was = task::after(start, before);
        assert(went_well(replies[replies.len() - 1], data.cols));
        lemma_stands_on(was, table, data, before.len() as int, replies.last());
    }
    lemma_next_is_asked(now, table, data, replies.len() as int);
}

#[verifier::spinoff_prover]
proof fn lemma_stands_on(was: StepView, table: Seq<char>, data: GridView, k: int, reply: Reply)
    requires
        0 < data.rows <= i64::MAX,
        data.cols > 0,
        forall|r: int, c: int|
            0 <= r < data.rows && 0 <= c < data.cols ==> #[trigger] converts(data, r, c),
        was is Ask,
        stands_at(was, table, data, k),
        task::answers(was->task, reply),
        went_well(reply, data.cols),
    ensures
        stands_at(task::step_after(was->task, reply), table, data, k + 1),
{
    let w = data.cols + 1;
    let a = was->task->Append_0;
    assert(task::step_after(was->task, reply) == step_after(a, reply));
    match a {
        AppendTaskView::Opening { table: t, data: d } => {
            lemma_opening_taken(table, data, reply->AppenderOpened_0->Ok_0);
        },
        AppendTaskView::Beginning { data: d } => {
            assert(converts(data, 0, 0));
            assert(0 * w == 0) by (nonlinear_arith);
            assert(step_after(a, reply) == fill_from(data, 0, 0));
        },
        AppendTaskView::Appending { data: d, row, col } => {
            if col + 1 < data.cols {
                assert(converts(data, row, col + 1));
            }
            assert(step_after(a, reply) == fill_from(data, row, col + 1));
        },
        AppendTaskView::EndingRow { data: d, row } => {
            assert((row + 1) * w == row * w + w) by (nonlinear_arith);
            if row + 1 < data.rows {
                assert(converts(data, row + 1, 0));
            }
            assert(step_after(a, reply) == fill_from(data, row + 1, 0));
        },
        _ => {},
    }
}

#[verifier::spinoff_prover]
proof fn lemma_next_is_asked(now: StepView, table: Seq<char>, data: GridView, k: int)
    requires
        data.rows > 0,
        data.cols > 0,
        forall|r: int, c: int|
            0 <= r < data.rows && 0 <= c < data.cols ==> #[trigger] converts(data, r, c),
        stands_at(now, table, data, k),
    ensures
        k <= actions_needed(data.rows, data.cols),
        now is Done <==> k == actions_needed(data.rows, data.cols),
        now matches StepView::Ask { action, task } ==> is_next(action, table, data, k),
{
    let w = data.cols + 1;
    if let StepView::Ask { action, task } = now {
        assert forall|r: int, c: int| #![trigger data.cells[r * data.cols + c]]
            0 <= r < data.rows && 0 <= c < data.cols && k == 2 + r * w + c implies Ok::<
            inbound::EngineValue,
            Seq<char>,
        >(action->Append_0) == inbound::value_of(
            data.cells[r * data.cols + c].value,
            data.cells[r * data.cols + c].vt,
            inbound::position_text(r, c),
        ) && action is Append by {
            lemma_which_cell(now, table, data, k, r, c);
            assert(converts(data, r, c));
        }
        assert forall|r: int|
            0 <= r < data.rows && k == 2 + #[trigger] (r * w) + data.cols implies action
            == ActionView::EndRow by {
            lemma_which_cell(now, table, data, k, r, data.cols);
        }
        lemma_not_later(now, table, data, k);
    }
}

/// The cell, or the end of a row, that is due at `k` is the one that is handed over.
proof fn lemma_which_cell(now: StepView, table: Seq<char>, data: GridView, k: int, r: int, c: int)
    requires
        data.cols > 0,
        stands_at(now, table, data, k),
        now is Ask,
        0 <= r < data.rows,
        0 <= c <= data.cols,
        k == 2 + r * (data.cols + 1) + c,
    ensures
        c < data.cols ==> now->action == ActionView::Append(cell_value(data, r, c)->Ok_0),
        c == data.cols ==> now->action == ActionView::EndRow,
{
    let w = data.cols + 1;
    crate::variant::lemma_place(r, c, w);
    crate::variant::lemma_inside(r, c, data.rows, w);
    match now->task->Append_0 {
        AppendTaskView::Appending { data: d, row, col } => {
            crate::variant::lemma_place(row, col, w);
        },
        AppendTaskView::EndingRow { data: d, row } => {
            crate::variant::lemma_place(row, data.cols, w);
        },
        _ => {},
    }
}

/// Before the last row has ended, it is not time to write and to commit.
proof fn lemma_not_later(now: StepView, table: Seq<char>, data: GridView, k: int)
    requires
        data.rows > 0,
        data.cols > 0,
        stands_at(now, table, data, k),
        now is Ask,
    ensures
        k < actions_needed(data.rows, data.cols),
        k == 0 ==> now->action == ActionView::OpenAppender(table),
        k == 1 ==> now->action == ActionView::Run(BEGIN_SQL@),
        k == 2 + data.rows * (data.cols + 1) ==> now->action == ActionView::Flush,
        k == 3 + data.rows * (data.cols + 1) ==> now->action == ActionView::CloseAppender,
        k == 4 + data.rows * (data.cols + 1) ==> now->action == ActionView::Run(COMMIT_SQL@),
{
    let w = data.cols + 1;
    assert(data.rows * w >= w) by (nonlinear_arith)
        requires
            data.rows > 0,
            w > 0,
    ;
    match now->task->Append_0 {
        AppendTaskView::Appending { data: d, row, col } => {
            crate::variant::lemma_inside(row, col, data.rows, w);
            crate::variant::lemma_place(row, col, w);
        },
        AppendTaskView::EndingRow { data: d, row } => {
            crate::variant::lemma_inside(row, data.cols, data.rows, w);
            crate::variant::lemma_place(row, data.cols, w);
        },
        _ => {},
    }
}

/// A table with as many columns as the array has is taken: the next thing is the
/// transaction, however many rows there are.
pub proof fn law_tables_that_fit_are_taken(table: Seq<char>, data: GridView, n: usize)
    requires
        !raw::has_nul(table),
        n == data.cols,
    ensures
        task::after(appending(table, data), seq![Reply::AppenderOpened(Ok(n))])
            matches StepView::Ask { action, task } && action == ActionView::Run(
            "BEGIN TRANSACTION"@,
        ),
{
    lemma_opening_taken(table, data, n);
    task::lemma_after_one(appending(table, data), Reply::AppenderOpened(Ok(n)));
}

proof fn lemma_opening_taken(table: Seq<char>, data: GridView, n: usize)
    requires
        n == data.cols,
    ensures
        step_after(AppendTaskView::Opening { table, data }, Reply::AppenderOpened(Ok(n))) == ask(
            ActionView::Run(BEGIN_SQL@),
            AppendTaskView::Beginning { data },
        ),
{
}

/// A failure on the way is told with its place and with what the engine says: for a
/// cell its row and column, for a row its number, all counted from 1. Whatever has to
/// be closed and rolled back before, that error is the answer.
pub proof fn law_failures_name_their_place(data: GridView, row: int, col: int, m: String)
    requires
        row >= 0,
        m@.len() > 0,
    ensures
        ends_with(
            step_after(
                AppendTaskView::Appending { data, row, col },
                Reply::Appended(Handover::Refused(m)),
            ),
            inbound::position_text(row, col),
            m@,
        ),
        ends_with(
            step_after(
                AppendTaskView::EndingRow { data, row },
                Reply::RowEnded(Err(m)),
            ),
            text::dec((row + 1) as nat),
            m@,
        ),
        ends_with(
            step_after(AppendTaskView::Flushing { rows: row }, Reply::Flushed(Err(m))),
            Seq::empty(),
            m@,
        ),
        ends_with(
            step_after(AppendTaskView::Beginning { data }, Reply::Ran(Err(m))),
            Seq::empty(),
            m@,
        ),
        step_after(AppendTaskView::Committing { rows: row }, Reply::Ran(Err(m)))
            == StepView::Done(Err(m@)),
{
    let place = inbound::position_text(row, col);
    let number = text::dec((row + 1) as nat);
    text::lemma_stands_in(place + ": "@, m@, Seq::empty(), place + ": "@ + m@);
    text::lemma_stands_in(number + " 行目: "@, m@, Seq::empty(), number + " 行目: "@ + m@);
    text::lemma_stands_in(Seq::empty(), m@, Seq::empty(), m@);
}

/// The error that the work is going to end with begins with `place` and holds `m`.
pub open spec fn ends_with(now: StepView, place: Seq<char>, m: Seq<char>) -> bool {
    &&& now matches StepView::Ask { action, task }
    &&& task matches TaskView::Append(a)
    &&& {
        let error = match a {
            AppendTaskView::ClosingToRollBack { error } => error,
            AppendTaskView::RollingBack { error, .. } => error,
            AppendTaskView::ClosingWith { error } => error,
            _ => Seq::empty(),
        };
        &&& place.is_prefix_of(error)
        &&& text::has_text(error, m)
    }
}

/// The error that the work is going to end with stays the same to the end.
pub proof fn law_the_first_error_is_the_answer(error: Seq<char>, close_after: bool, reply: Reply)
    ensures
        step_after(AppendTaskView::ClosingToRollBack { error }, reply) == roll_back(error, false),
        step_after(AppendTaskView::RollingBack { error, close_after: true }, reply) == close_with(
            error,
        ),
        step_after(AppendTaskView::RollingBack { error, close_after: false }, reply)
            == StepView::Done(Err(error)),
        step_after(AppendTaskView::ClosingWith { error }, reply) == StepView::Done(Err(error)),
{
}

/// What was begun and cannot go on is rolled back, by that text.
pub proof fn law_failures_are_rolled_back(error: Seq<char>, close_after: bool)
    ensures
        roll_back(error, close_after) matches StepView::Ask { action, task } && action
            == ActionView::Run("ROLLBACK"@),
        task::after(give_up(error), seq![Reply::AppenderClosed]) == roll_back(error, false),
{
    task::lemma_after_one(give_up(error), Reply::AppenderClosed);
}

/// A table with another number of columns than the array is refused before the
/// transaction begins: it is closed, and the message is the answer.
pub proof fn law_other_columns_are_refused(table: Seq<char>, data: GridView, n: usize)
    requires
        !raw::has_nul(table),
        n != data.cols,
    ensures
        ({
            let opened = seq![Reply::AppenderOpened(Ok(n))];
            let closed = seq![Reply::AppenderOpened(Ok(n)), Reply::AppenderClosed];
            let waiting = task::after(appending(table, data), opened);
            &&& waiting is Ask
            &&& waiting->action == ActionView::CloseAppender
            &&& task::after(appending(table, data), closed) == task::failed(
                columns_differ(table, n as int, data.cols),
            )
        }),
{
    let start = appending(table, data);
    let opened = seq![Reply::AppenderOpened(Ok(n))];
    let closed = seq![Reply::AppenderOpened(Ok(n)), Reply::AppenderClosed];
    assert(opened.drop_last() == Seq::<Reply>::empty());
    assert(task::after(start, opened.drop_last()) == start);
    assert(closed.drop_last() == opened);
}

/// Any failure ends in an error: once the engine has not done what it was asked, no
/// further reply makes a success of it.
#[verifier::spinoff_prover]
pub proof fn law_one_failure_fails_the_array(
    table: Seq<char>,
    data: GridView,
    replies: Seq<Reply>,
    i: int,
)
    requires
        task::conversation(appending(table, data), replies),
        0 <= i < replies.len(),
        !went_well(replies[i], data.cols),
    ensures
        lost(task::after(appending(table, data), replies)),
    decreases replies.len(),
{
    let start = appending(table, data);
    let before = replies.drop_last();
    task::lemma_conversation(start, replies);
    let was = task::after(start, before);
    lemma_appending_goes_on(table, data, before);
    if i < before.len() {
        assert(before[i] == replies[i]);
        law_one_failure_fails_the_array(table, data, before, i);
    }
    lemma_failure_is_final(was->action, was->task->Append_0, replies.last(), data);
}

/// The work on an array stays work on an array, and it opens the table once.
proof fn lemma_appending_goes_on(table: Seq<char>, data: GridView, replies: Seq<Reply>)
    ensures
        task::after(appending(table, data), replies) matches StepView::Ask { action, task } ==> task
            is Append && (task->Append_0 matches AppendTaskView::Opening { table: t, data: d } ==> d
            == data),
    decreases replies.len(),
{
    if replies.len() > 0 {
        lemma_appending_goes_on(table, data, replies.drop_last());
        let was = task::after(appending(table, data), replies.drop_last());
        if was is Ask {
            lemma_opened_once(was->task->Append_0, replies.last());
        }
    }
}

proof fn lemma_opened_once(a: AppendTaskView, reply: Reply)
    ensures
        step_after(a, reply) matches StepView::Ask { action, task } ==> task is Append && !(
        task->Append_0 is Opening),
{
}

proof fn lemma_failure_is_final(
    action: ActionView,
    a: AppendTaskView,
    reply: Reply,
    data: GridView,
)
    requires
        answers(a, reply),
        a matches AppendTaskView::Opening { table, data: d } ==> d == data,
        lost(ask(action, a)) || !went_well(reply, data.cols),
    ensures
        lost(step_after(a, reply)),
{
}

/// The work ends, or will end, with an error.
pub open spec fn lost(now: StepView) -> bool {
    match now {
        StepView::Done(r) => r is Err,
        StepView::Ask { action, task } => task matches TaskView::Append(a) && (
        a is ClosingToRollBack || a is RollingBack || a is ClosingWith),
    }
}

/// One cell that cannot be converted fails the whole array: no conversation ends
/// in success.
pub proof fn law_one_bad_cell_fails_the_array(
    table: Seq<char>,
    data: GridView,
    replies: Seq<Reply>,
    row: int,
    col: int,
)
    requires
        0 <= row < data.rows,
        0 <= col < data.cols,
        cell_value(data, row, col) is Err,
        task::conversation(appending(table, data), replies),
        task::after(appending(table, data), replies) is Done,
    ensures
        task::after(appending(table, data), replies)->Done_0 is Err,
        progress(appending(table, data), replies).transaction != Transaction::Committed,
{
    law_append_is_all_or_nothing(table, data, replies);
    assert(!converts(data, row, col));
}

} // verus!
