//! The exported functions.
//!
//! Every function is there at every level; one that the level does not have
//! answers with a message that says where to find it.
use crate::append;
use crate::classify::ApiKind;
use crate::conn;
use crate::conn::{OpenOptions, Opening, OpeningView, Registry};
use crate::ffi;
use crate::inbound;
use crate::inbound::GridView;
use crate::level;
use crate::level::Level;
use crate::oleaut;
use crate::oleaut::VARIANT;
use crate::query;
use crate::query::Goal;
use crate::raw;
use crate::raw::{ParseReply, QueryResult};
use crate::schema;
use crate::task;
use crate::task::{ActionView, Reply, Step, StepView};
use crate::text;
use crate::variant;
use crate::variant::Answer;
use vstd::prelude::*;

verus! {

/// Success.
pub const DACK_OK: i32 = 0;

/// An error; the result says which.
pub const DACK_E_GENERAL: i32 = -1;

/// The level does not have the function.
pub const DACK_E_FORBIDDEN: i32 = -403;

/// A panic, which should not happen.
pub const DACK_E_PANIC: i32 = -999;

/// Where to find the writing functions.
pub const NEEDS_WRITE: &'static str = "書き込みには dackdb_rw.dll（読み書き可）を使ってください。";

/// Where to find transactions.
pub const NEEDS_WRITE_FOR_TRANSACTION: &'static str = "トランザクションには dackdb_rw.dll（読み書き可）以上を使ってください。";

/// The message for parameters that are a null pointer.
pub const NO_PARAMS: &'static str = "パラメータが空です。Array(...) か Range(...).Value を渡してください。";

/// The message for data that are a null pointer.
pub const NO_DATA: &'static str = "データが空です。Range(\"A2:F100\").Value のように範囲を渡してください。";

/// The message for a function that the level does not have.
pub open spec fn forbidden_text(level: Level, func: Seq<char>, needed: Seq<char>) -> Seq<char> {
    func + " はこの DLL では使えません。この DLL は"@ + level.description_text() + "（"@
        + level.name_text() + "）です。\n"@ + needed
}

fn forbidden(level: Level, func: &str, needed: &str) -> (r: String)
    ensures
        r@ == forbidden_text(level, func@, needed@),
{
    let mut m = func.to_owned();
    m.append(" はこの DLL では使えません。この DLL は");
    m.append(level.description_ja());
    m.append("（");
    m.append(level.name());
    m.append("）です。\n");
    m.append(needed);
    m
}

/// The functions that change rows are there.
pub open spec fn may_write(level: Level) -> bool {
    level.rank() >= Level::ReadWrite.rank()
}

// ---------------------------------------------------------------------------
// At every level
// ---------------------------------------------------------------------------

/// The version, given the engine's.
pub fn version(level: Level, engine: &str) -> (r: Result<VARIANT, String>)
    ensures
        variant::outcome_of(r) == Ok::<Answer, Seq<char>>(
            Answer::Value(oleaut::shown_text(crate::version_text(level, engine@))),
        ),
{
    Ok(VARIANT::bstr(crate::version_string(level, engine).as_str()))
}

/// The texts with `separator` between them.
pub open spec fn joined(parts: Seq<Seq<char>>, separator: Seq<char>) -> Seq<char>
    decreases parts.len(),
{
    if parts.len() == 0 {
        Seq::empty()
    } else if parts.len() == 1 {
        parts[0]
    } else {
        joined(parts.drop_last(), separator) + separator + parts.last()
    }
}

/// The functions of the level, with commas between them.
pub fn capabilities(level: Level) -> (r: Result<VARIANT, String>)
    ensures
        variant::outcome_of(r) == Ok::<Answer, Seq<char>>(
            Answer::Value(oleaut::shown_text(joined(level::functions_at(level), ", "@))),
        ),
{
    let names = level::capabilities(level);
    let ghost parts = level::texts(names@);
    let mut s = String::new();
    let mut i: usize = 0;
    while i < names.len()
        invariant
            i <= names@.len(),
            parts == level::texts(names@),
            s@ == joined(parts.take(i as int), ", "@),
        decreases names@.len() - i,
    {
        if i > 0 {
            s.append(", ");
        }
        s.append(names[i]);
        i = i + 1;
        proof {
            let now = parts.take(i as int);
            assert(now.drop_last() == parts.take(i - 1));
        }
    }
    assert(parts.take(i as int) == parts);
    Ok(VARIANT::bstr(s.as_str()))
}

/// Opens a database.
pub fn open(level: Level, path: &str) -> (r: Opening)
    ensures
        r@ == conn::opening(level, path@, (OpenOptions { allow_external_access: false })),
{
    conn::open(level, path, OpenOptions { allow_external_access: false })
}

/// Takes in the connection that was opened; the answer is its handle.
pub fn opened<C>(
    registry: &mut Registry<C>,
    level: Level,
    path: String,
    connection: C,
) -> (r: Result<VARIANT, String>)
    ensures
        variant::outcome_of(r) == Ok::<Answer, Seq<char>>(
            Answer::Value(oleaut::shown_i64(old(registry).next_handle() as int)),
        ),
        final(registry).connections() == old(registry).connections().insert(
            old(registry).next_handle(),
            (conn::ConnState { conn: connection, level, path }),
        ),
        final(registry).next_handle() == (if old(registry).next_handle() == i64::MAX {
            i64::MIN as int
        } else {
            old(registry).next_handle() + 1
        }),
{
    Ok(VARIANT::i64(registry.register(level, path, connection)))
}

/// Closes a connection.
pub fn close<C>(registry: &mut Registry<C>, handle: i64) -> (r: Result<VARIANT, String>)
    ensures
        variant::outcome_of(r) == (if old(registry).connections().dom().contains(handle) {
            Ok::<Answer, Seq<char>>(Answer::Value(oleaut::shown_empty()))
        } else {
            Err(conn::bad_handle_text(handle as int))
        }),
        final(registry).connections() == old(registry).connections().remove(handle),
        final(registry).next_handle() == old(registry).next_handle(),
{
    match conn::close(registry, handle) {
        Ok(()) => Ok(VARIANT::empty()),
        Err(m) => Err(m),
    }
}

/// What begins on the connection with this handle, given what begins at its
/// level.
pub open spec fn on_connection<C>(
    registry: Registry<C>,
    handle: i64,
    start: spec_fn(Level) -> StepView,
) -> StepView {
    if registry.connections().dom().contains(handle) {
        start(registry.connections()[handle].level)
    } else {
        task::failed(conn::bad_handle_text(handle as int))
    }
}

/// Runs a reading text.
pub fn query<C>(registry: &Registry<C>, handle: i64, sql: &str) -> (r: Step)
    ensures
        r@ == on_connection(
            *registry,
            handle,
            |l: Level| query::admission(l, ApiKind::Query, sql@, Goal::Rows),
        ),
        r.wf(),
{
    match registry.get(handle) {
        Ok(state) => query::query(state, sql),
        Err(m) => Step::Done(Err(m)),
    }
}

/// What begins with an array argument, given what begins with its table. `None` is
/// the null pointer.
pub open spec fn with_array(
    array: Option<VARIANT>,
    missing: Seq<char>,
    what: Seq<char>,
    start: spec_fn(GridView) -> StepView,
) -> StepView {
    match array {
        None => task::failed(missing),
        Some(v) => match inbound::table(v.value, v.vt, what) {
            Err(m) => task::failed(m),
            Ok(g) => start(g),
        },
    }
}

/// Runs a reading statement with parameters. They are values to the engine and
/// never SQL.
pub fn query_params<C>(
    registry: &Registry<C>,
    handle: i64,
    sql: &str,
    params: Option<VARIANT>,
) -> (r: Step)
    requires
        params matches Some(v) ==> v.wf(),
    ensures
        r@ == with_array(
            params,
            NO_PARAMS@,
            "パラメータ"@,
            |g: GridView|
                on_connection(
                    *registry,
                    handle,
                    |l: Level| query::admission_with_params(l, ApiKind::Query, sql@, g, Goal::Rows),
                ),
        ),
        r.wf(),
{
    let v = match params {
        Some(v) => v,
        None => {
            return Step::Done(Err(NO_PARAMS.to_owned()));
        },
    };
    let grid = match inbound::read_input_grid(v, "パラメータ") {
        Ok(g) => g,
        Err(m) => {
            return Step::Done(Err(m));
        },
    };
    match registry.get(handle) {
        Ok(state) => query::query_params(state, sql, grid),
        Err(m) => Step::Done(Err(m)),
    }
}

/// Lists the tables.
pub fn list_tables<C>(registry: &Registry<C>, handle: i64) -> (r: Step)
    ensures
        r@ == on_connection(
            *registry,
            handle,
            |l: Level| query::ask_run(query::LIST_TABLES_SQL@, Goal::Rows),
        ),
        r.wf(),
{
    match registry.get(handle) {
        Ok(_) => query::list_tables(),
        Err(m) => Step::Done(Err(m)),
    }
}

/// Lists the columns of a table.
pub fn describe<C>(registry: &Registry<C>, handle: i64, table: &str) -> (r: Step)
    ensures
        r@ == on_connection(*registry, handle, |l: Level| query::describing(table@)),
        r.wf(),
{
    match registry.get(handle) {
        Ok(_) => query::describe(table),
        Err(m) => Step::Done(Err(m)),
    }
}

// ---------------------------------------------------------------------------
// From the writing level on
// ---------------------------------------------------------------------------

/// What begins where the level may write.
pub open spec fn if_may_write(
    level: Level,
    func: Seq<char>,
    needed: Seq<char>,
    start: StepView,
) -> StepView {
    if may_write(level) {
        start
    } else {
        task::failed(forbidden_text(level, func, needed))
    }
}

/// Runs a text that changes rows.
pub fn execute<C>(registry: &Registry<C>, level: Level, handle: i64, sql: &str) -> (r: Step)
    ensures
        r@ == if_may_write(
            level,
            "DackExecute"@,
            NEEDS_WRITE@,
            on_connection(
                *registry,
                handle,
                |l: Level| query::admission(l, ApiKind::Execute, sql@, Goal::Count),
            ),
        ),
        r.wf(),
{
    if !level.allows_write() {
        return Step::Done(Err(forbidden(level, "DackExecute", NEEDS_WRITE)));
    }
    match registry.get(handle) {
        Ok(state) => query::execute(state, sql),
        Err(m) => Step::Done(Err(m)),
    }
}

/// Runs a statement that changes rows, with parameters.
pub fn execute_params<C>(
    registry: &Registry<C>,
    level: Level,
    handle: i64,
    sql: &str,
    params: Option<VARIANT>,
) -> (r: Step)
    requires
        params matches Some(v) ==> v.wf(),
    ensures
        r@ == if_may_write(
            level,
            "DackExecuteParams"@,
            NEEDS_WRITE@,
            with_array(
                params,
                NO_PARAMS@,
                "パラメータ"@,
                |g: GridView|
                    on_connection(
                        *registry,
                        handle,
                        |l: Level|
                            query::admission_with_params(l, ApiKind::Execute, sql@, g, Goal::Count),
                    ),
            ),
        ),
        r.wf(),
{
    if !level.allows_write() {
        return Step::Done(Err(forbidden(level, "DackExecuteParams", NEEDS_WRITE)));
    }
    let v = match params {
        Some(v) => v,
        None => {
            return Step::Done(Err(NO_PARAMS.to_owned()));
        },
    };
    let grid = match inbound::read_input_grid(v, "パラメータ") {
        Ok(g) => g,
        Err(m) => {
            return Step::Done(Err(m));
        },
    };
    match registry.get(handle) {
        Ok(state) => query::execute_params(state, sql, grid),
        Err(m) => Step::Done(Err(m)),
    }
}

/// Writes a range of a sheet into a table.
pub fn append_array<C>(
    registry: &Registry<C>,
    level: Level,
    handle: i64,
    table: &str,
    data: Option<VARIANT>,
) -> (r: Step)
    requires
        data matches Some(v) ==> v.wf(),
    ensures
        r@ == if_may_write(
            level,
            "DackAppendArray"@,
            NEEDS_WRITE@,
            with_array(
                data,
                NO_DATA@,
                "データ"@,
                |g: GridView|
                    on_connection(*registry, handle, |l: Level| append::appending(table@, g)),
            ),
        ),
        r.wf(),
{
    if !level.allows_write() {
        return Step::Done(Err(forbidden(level, "DackAppendArray", NEEDS_WRITE)));
    }
    let v = match data {
        Some(v) => v,
        None => {
            return Step::Done(Err(NO_DATA.to_owned()));
        },
    };
    let grid = match inbound::read_input_grid(v, "データ") {
        Ok(g) => g,
        Err(m) => {
            return Step::Done(Err(m));
        },
    };
    match registry.get(handle) {
        Ok(_) => append::append_array(table, grid),
        Err(m) => Step::Done(Err(m)),
    }
}

/// How a statement about transactions begins.
pub open spec fn transaction<C>(
    registry: Registry<C>,
    level: Level,
    handle: i64,
    sql: Seq<char>,
    func: Seq<char>,
) -> StepView {
    if_may_write(
        level,
        func,
        NEEDS_WRITE_FOR_TRANSACTION@,
        on_connection(registry, handle, |l: Level| query::ask_run(sql, Goal::Nothing)),
    )
}

fn transaction_stmt<C>(
    registry: &Registry<C>,
    level: Level,
    handle: i64,
    sql: &'static str,
    func: &str,
) -> (r: Step)
    ensures
        r@ == transaction(*registry, level, handle, sql@, func@),
        r.wf(),
{
    if !level.allows_write() {
        return Step::Done(Err(forbidden(level, func, NEEDS_WRITE_FOR_TRANSACTION)));
    }
    match registry.get(handle) {
        Ok(_) => query::run_internal(sql, Goal::Nothing),
        Err(m) => Step::Done(Err(m)),
    }
}

/// Begins a transaction.
pub fn begin<C>(registry: &Registry<C>, level: Level, handle: i64) -> (r: Step)
    ensures
        r@ == transaction(*registry, level, handle, append::BEGIN_SQL@, "DackBegin"@),
        r.wf(),
{
    transaction_stmt(registry, level, handle, append::BEGIN_SQL, "DackBegin")
}

/// Commits the transaction.
pub fn commit<C>(registry: &Registry<C>, level: Level, handle: i64) -> (r: Step)
    ensures
        r@ == transaction(*registry, level, handle, append::COMMIT_SQL@, "DackCommit"@),
        r.wf(),
{
    transaction_stmt(registry, level, handle, append::COMMIT_SQL, "DackCommit")
}

/// Rolls the transaction back.
pub fn rollback<C>(registry: &Registry<C>, level: Level, handle: i64) -> (r: Step)
    ensures
        r@ == transaction(*registry, level, handle, append::ROLLBACK_SQL@, "DackRollback"@),
        r.wf(),
{
    transaction_stmt(registry, level, handle, append::ROLLBACK_SQL, "DackRollback")
}

// ---------------------------------------------------------------------------
// At the administrator's level
// ---------------------------------------------------------------------------

/// What begins where the level may change the schema.
pub open spec fn if_may_ddl(
    level: Level,
    func: Seq<char>,
    needed: Seq<char>,
    start: StepView,
) -> StepView {
    if level == Level::Admin {
        start
    } else {
        task::failed(forbidden_text(level, func, needed))
    }
}

/// Where to find the making of databases.
pub const NEEDS_ADMIN_TO_CREATE: &'static str = "データベースの作成には dackdb_admin.dll（管理者）を使ってください。";

/// Where to find schema changes.
pub const NEEDS_ADMIN_TO_CHANGE: &'static str = "スキーマ変更には dackdb_admin.dll（管理者）を使ってください。";

/// Where to find the output of the schema.
pub const NEEDS_ADMIN_TO_EXPORT: &'static str = "スキーマ情報の出力には dackdb_admin.dll（管理者）を使ってください。";

/// Where to find CHECKPOINT.
pub const NEEDS_ADMIN_TO_CHECKPOINT: &'static str = "CHECKPOINT には dackdb_admin.dll（管理者）を使ってください。";

/// Makes a new database. A file that is there is an error.
pub fn create_database(level: Level, path: &str) -> (r: Opening)
    ensures
        r@ == (if level == Level::Admin {
            conn::creating(level, path@, (OpenOptions { allow_external_access: false }))
        } else {
            OpeningView::Refused(
                forbidden_text(level, "DackCreateDatabase"@, NEEDS_ADMIN_TO_CREATE@),
            )
        }),
{
    if !level.allows_ddl() {
        return Opening::Refused(forbidden(level, "DackCreateDatabase", NEEDS_ADMIN_TO_CREATE));
    }
    conn::create(level, path, OpenOptions { allow_external_access: false })
}

/// Runs a text that changes the schema; the answer is 0.
pub fn execute_ddl<C>(registry: &Registry<C>, level: Level, handle: i64, sql: &str) -> (r: Step)
    ensures
        r@ == if_may_ddl(
            level,
            "DackExecuteDDL"@,
            NEEDS_ADMIN_TO_CHANGE@,
            on_connection(
                *registry,
                handle,
                |l: Level| query::admission(l, ApiKind::ExecuteDdl, sql@, Goal::Schema),
            ),
        ),
        r.wf(),
{
    if !level.allows_ddl() {
        return Step::Done(Err(forbidden(level, "DackExecuteDDL", NEEDS_ADMIN_TO_CHANGE)));
    }
    match registry.get(handle) {
        Ok(state) => query::execute_ddl(state, sql),
        Err(m) => Step::Done(Err(m)),
    }
}

/// Outputs the schema.
pub fn export_schema<C>(
    registry: &Registry<C>,
    level: Level,
    handle: i64,
    format: &str,
) -> (r: Step)
    ensures
        r@ == if_may_ddl(
            level,
            "DackExportSchema"@,
            NEEDS_ADMIN_TO_EXPORT@,
            on_connection(*registry, handle, |l: Level| schema::exporting(format@)),
        ),
        r.wf(),
{
    if !level.allows_ddl() {
        return Step::Done(Err(forbidden(level, "DackExportSchema", NEEDS_ADMIN_TO_EXPORT)));
    }
    match registry.get(handle) {
        Ok(_) => schema::export(format),
        Err(m) => Step::Done(Err(m)),
    }
}

/// Writes the log into the database file.
pub fn checkpoint<C>(registry: &Registry<C>, level: Level, handle: i64) -> (r: Step)
    ensures
        r@ == if_may_ddl(
            level,
            "DackCheckpoint"@,
            NEEDS_ADMIN_TO_CHECKPOINT@,
            on_connection(
                *registry,
                handle,
                |l: Level| query::ask_run("CHECKPOINT"@, Goal::Nothing),
            ),
        ),
        r.wf(),
{
    if !level.allows_ddl() {
        return Step::Done(Err(forbidden(level, "DackCheckpoint", NEEDS_ADMIN_TO_CHECKPOINT)));
    }
    match registry.get(handle) {
        Ok(_) => query::run_internal("CHECKPOINT", Goal::Nothing),
        Err(m) => Step::Done(Err(m)),
    }
}

// ---------------------------------------------------------------------------
// Laws
// ---------------------------------------------------------------------------

/// A function that the level does not have begins nothing and answers with its own
/// code, whatever the function, the connection and the arguments.
pub proof fn law_forbidden_functions_are_told_apart(
    level: Level,
    func: Seq<char>,
    needed: Seq<char>,
    start: StepView,
    m: String,
)
    requires
        m@ == forbidden_text(level, func, needed),
    ensures
        !may_write(level) ==> if_may_write(level, func, needed, start) == task::failed(m@),
        level != Level::Admin ==> if_may_ddl(level, func, needed, start) == task::failed(m@),
        ffi::code_of(ffi::Ending::Returned(Err(m))) == DACK_E_FORBIDDEN,
{
    reveal_strlit("この DLL では使えません");
    reveal_strlit(" はこの DLL では使えません。この DLL は");
    let mark = ffi::FORBIDDEN_MARK@;
    let at = func.len() as int + 2;
    assert(m@.subrange(at, at + mark.len()) == mark);
}

/// The list of functions can be taken apart again: any two parts of a list that are
/// joined have the separator between them, and one text alone has none.
pub proof fn law_joined_texts(parts: Seq<Seq<char>>, separator: Seq<char>, k: int)
    requires
        0 < k < parts.len(),
    ensures
        joined(parts, separator) == joined(parts.take(k), separator) + separator + joined(
            parts.skip(k),
            separator,
        ),
        joined(parts.take(1), separator) == parts[0],
        joined(Seq::empty(), separator) == Seq::<char>::empty(),
    decreases parts.len(),
{
    assert(parts.take(1)[0] == parts[0]);
    let a = parts.take(k);
    let b = parts.skip(k);
    if b.len() == 1 {
        assert(parts.drop_last() == a);
    } else {
        law_joined_texts(parts.drop_last(), separator, k);
        assert(parts.drop_last().take(k) == a);
        assert(parts.drop_last().skip(k) == b.drop_last());
        assert(joined(b, separator) == joined(b.drop_last(), separator) + separator + b.last());
        assert(joined(parts, separator) == joined(a, separator) + separator + joined(b, separator));
    }
}

/// `DackQuery` asks the engine to take the text apart at the level of the connection,
/// and a text that only reads runs next, for its rows.
pub proof fn law_what_query_does<C>(
    registry: &Registry<C>,
    handle: i64,
    sql: &str,
    r: Step,
    parsed: ParseReply,
)
    requires
        call_ensures(query::<C>, (registry, handle, sql), r),
        registry.connections().dom().contains(handle),
        !sql@.contains('\0'),
        parsed.statements@.len() > 0,
        forall|i: int|
            0 <= i < parsed.statements@.len() ==> (#[trigger] parsed.statements@[i]).ok && (
            parsed.statements@[i].statement_type == 1 || parsed.statements@[i].statement_type == 4),
    ensures
        r@ is Ask,
        r@->action == ActionView::Parse(sql@),
        task::after(r@, seq![Reply::Parsed(parsed)]) == query::ask_run(sql@, Goal::Rows),
{
    query::law_admitted_texts_run(
        registry.connections()[handle].level,
        ApiKind::Query,
        sql@,
        Goal::Rows,
        parsed,
    );
}

/// `DackExecute` and `DackExecuteDDL` ask the engine to take the text apart; a text that
/// the level and the function accept runs next. `DackExecute` answers with the number of
/// rows, `DackExecuteDDL` with 0.
pub proof fn law_what_execute_does<C>(
    registry: &Registry<C>,
    level: Level,
    handle: i64,
    sql: &str,
    rows: Step,
    ddl: Step,
    parsed: ParseReply,
    q: QueryResult,
)
    requires
        call_ensures(execute::<C>, (registry, level, handle, sql), rows),
        call_ensures(execute_ddl::<C>, (registry, level, handle, sql), ddl),
        level == Level::Admin,
        registry.connections().dom().contains(handle),
        registry.connections()[handle].level == Level::Admin,
        !sql@.contains('\0'),
        parsed.statements@.len() > 0,
        q.changed <= i64::MAX,
    ensures
        rows@ is Ask,
        rows@->action == ActionView::Parse(sql@),
        ddl@ is Ask,
        ddl@->action == ActionView::Parse(sql@),
        (forall|i: int|
            0 <= i < parsed.statements@.len() ==> (#[trigger] parsed.statements@[i]).ok && (1
                <= parsed.statements@[i].statement_type <= 5
                || parsed.statements@[i].statement_type == 10
                || parsed.statements@[i].statement_type == 30)) ==> {
            let ran = task::after(rows@, seq![Reply::Parsed(parsed)]);
            &&& ran is Ask
            &&& ran->action == ActionView::Run(sql@)
            &&& task::after(ran, seq![Reply::Ran(Ok(q))]) == StepView::Done(
                Ok(Answer::Value(oleaut::shown_i64(q.changed as int))),
            )
        },
        (forall|i: int|
            0 <= i < parsed.statements@.len() ==> (#[trigger] parsed.statements@[i]).ok
                && parsed.statements@[i].statement_type >= 1) ==> {
            let ran = task::after(ddl@, seq![Reply::Parsed(parsed)]);
            &&& ran is Ask
            &&& ran->action == ActionView::Run(sql@)
            &&& task::after(ran, seq![Reply::Ran(Ok(q))]) == StepView::Done(
                Ok(Answer::Value(oleaut::shown_i64(0))),
            )
        },
{
    let s = parsed.statements@;
    raw::law_nul_bytes_are_nul_characters(sql@);
    if forall|i: int|
        0 <= i < s.len() ==> (#[trigger] s[i]).ok && (1 <= s[i].statement_type <= 5
            || s[i].statement_type == 10 || s[i].statement_type == 30) {
        query::law_admitted_texts_run(Level::Admin, ApiKind::Execute, sql@, Goal::Count, parsed);
        task::lemma_after_one(query::ask_run(sql@, Goal::Count), Reply::Ran(Ok(q)));
    }
    if forall|i: int| 0 <= i < s.len() ==> (#[trigger] s[i]).ok && s[i].statement_type >= 1 {
        query::law_admitted_texts_run(Level::Admin, ApiKind::ExecuteDdl, sql@, Goal::Schema, parsed);
        task::lemma_after_one(query::ask_run(sql@, Goal::Schema), Reply::Ran(Ok(q)));
    }
}

/// Transactions and checkpoints run their one text, and the answer is empty.
pub proof fn law_what_transactions_do<C>(
    registry: &Registry<C>,
    level: Level,
    handle: i64,
    began: Step,
    committed: Step,
    rolled_back: Step,
    q: QueryResult,
)
    requires
        call_ensures(begin::<C>, (registry, level, handle), began),
        call_ensures(commit::<C>, (registry, level, handle), committed),
        call_ensures(rollback::<C>, (registry, level, handle), rolled_back),
        level != Level::Read,
        registry.connections().dom().contains(handle),
    ensures
        runs_only(began@, "BEGIN TRANSACTION"@, q),
        runs_only(committed@, "COMMIT"@, q),
        runs_only(rolled_back@, "ROLLBACK"@, q),
{
    task::lemma_after_one(began@, Reply::Ran(Ok(q)));
    task::lemma_after_one(committed@, Reply::Ran(Ok(q)));
    task::lemma_after_one(rolled_back@, Reply::Ran(Ok(q)));
}

/// The text runs, and then all is done.
pub open spec fn runs_only(start: StepView, sql: Seq<char>, q: QueryResult) -> bool {
    &&& start is Ask
    &&& start->action == ActionView::Run(sql)
    &&& task::after(start, seq![Reply::Ran(Ok(q))]) == StepView::Done(
        Ok(Answer::Value(oleaut::shown_empty())),
    )
}

/// The other functions of the administrator: a checkpoint runs its text, the schema is
/// put out in the format, and a new database is made at the path.
pub proof fn law_what_the_administrator_does<C>(
    registry: &Registry<C>,
    handle: i64,
    format: &str,
    path: &str,
    written: Step,
    exported: Step,
    created: Opening,
    q: QueryResult,
)
    requires
        call_ensures(checkpoint::<C>, (registry, Level::Admin, handle), written),
        call_ensures(export_schema::<C>, (registry, Level::Admin, handle, format), exported),
        call_ensures(create_database, (Level::Admin, path), created),
        registry.connections().dom().contains(handle),
    ensures
        runs_only(written@, "CHECKPOINT"@, q),
        exported@ == schema::exporting(format@),
        created@ == conn::creating(
            Level::Admin,
            path@,
            (OpenOptions { allow_external_access: false }),
        ),
{
    task::lemma_after_one(written@, Reply::Ran(Ok(q)));
}

/// The lists of tables and columns run their texts for the rows, and a database is
/// opened at its path without access to other files.
pub proof fn law_what_the_lists_do<C>(
    registry: &Registry<C>,
    level: Level,
    handle: i64,
    table: &str,
    path: &str,
    tables: Step,
    columns: Step,
    opening: Opening,
)
    requires
        call_ensures(list_tables::<C>, (registry, handle), tables),
        call_ensures(describe::<C>, (registry, handle, table), columns),
        call_ensures(open, (level, path), opening),
        registry.connections().dom().contains(handle),
    ensures
        tables@ == query::ask_run(query::LIST_TABLES_SQL@, Goal::Rows),
        columns@ == query::describing(table@),
        opening@ == conn::opening(level, path@, (OpenOptions { allow_external_access: false })),
{
}

/// The functions with an array read it as a table and hand it on: the parameters of a
/// statement, for its rows or for their number, and the rows of a table.
pub proof fn law_what_arrays_do<C>(
    registry: &Registry<C>,
    level: Level,
    handle: i64,
    sql: &str,
    array: Option<VARIANT>,
    g: GridView,
    rows: Step,
    count: Step,
    appended: Step,
)
    requires
        call_ensures(query_params::<C>, (registry, handle, sql, array), rows),
        call_ensures(execute_params::<C>, (registry, level, handle, sql, array), count),
        call_ensures(append_array::<C>, (registry, level, handle, sql, array), appended),
        level != Level::Read,
        registry.connections().dom().contains(handle),
        array matches Some(v) && inbound::table(v.value, v.vt, "パラメータ"@) == Ok::<
            GridView,
            Seq<char>,
        >(g) && inbound::table(v.value, v.vt, "データ"@) == Ok::<GridView, Seq<char>>(g),
    ensures
        rows@ == query::admission_with_params(
            registry.connections()[handle].level,
            ApiKind::Query,
            sql@,
            g,
            Goal::Rows,
        ),
        count@ == query::admission_with_params(
            registry.connections()[handle].level,
            ApiKind::Execute,
            sql@,
            g,
            Goal::Count,
        ),
        appended@ == append::appending(sql@, g),
{
}

/// A handle stands for one connection: what is begun is begun at the level that this
/// connection was opened with, and a handle that is not open begins nothing.
pub proof fn law_handles_stand_for_connections<C>(
    registry: Registry<C>,
    handle: i64,
    start: spec_fn(Level) -> StepView,
)
    ensures
        registry.connections().dom().contains(handle) ==> on_connection(registry, handle, start)
            == start(registry.connections()[handle].level),
        !registry.connections().dom().contains(handle) ==> (on_connection(registry, handle, start)
            matches StepView::Done(r) && r is Err),
{
}

/// An array argument is read as a table and handed on; a null pointer and what is no
/// table are errors.
pub proof fn law_array_arguments(
    array: Option<VARIANT>,
    missing: Seq<char>,
    what: Seq<char>,
    start: spec_fn(GridView) -> StepView,
)
    ensures
        array is None ==> with_array(array, missing, what, start) == task::failed(missing),
        array matches Some(v) ==> match inbound::table(v.value, v.vt, what) {
            Ok(g) => with_array(array, missing, what, start) == start(g),
            Err(m) => with_array(array, missing, what, start) == task::failed(m),
        },
{
}

/// The writing functions are there from the writing level on, and those that change
/// the schema at the administrator's alone; there they begin what they are for.
pub proof fn law_who_may_do_what(level: Level, func: Seq<char>, needed: Seq<char>, start: StepView)
    ensures
        level != Level::Read ==> if_may_write(level, func, needed, start) == start,
        level == Level::Read ==> if_may_write(level, func, needed, start) is Done,
        level == Level::Admin ==> if_may_ddl(level, func, needed, start) == start,
        level != Level::Admin ==> if_may_ddl(level, func, needed, start) is Done,
{
}

/// A function that a level has, every higher level has too, and there it begins
/// the same.
pub proof fn law_functions_stay_available(
    lower: Level,
    higher: Level,
    func: Seq<char>,
    needed: Seq<char>,
    start: StepView,
)
    requires
        lower.rank() <= higher.rank(),
    ensures
        may_write(lower) ==> if_may_write(higher, func, needed, start) == if_may_write(
            lower,
            func,
            needed,
            start,
        ),
        lower == Level::Admin ==> if_may_ddl(higher, func, needed, start) == if_may_ddl(
            lower,
            func,
            needed,
            start,
        ),
{
}

/// The list of functions is true: a writing function is on it exactly where it is
/// not forbidden, and so is a function that changes the schema.
pub proof fn law_capabilities_are_true(level: Level, func: Seq<char>)
    ensures
        level::writing_functions().contains(func) ==> (level::functions_at(level).contains(func)
            <==> may_write(level)),
        level::schema_functions().contains(func) ==> (level::functions_at(level).contains(func)
            <==> level == Level::Admin),
{
    let reading = level::reading_functions();
    let writing = level::writing_functions();
    let changing = level::schema_functions();
    lemma_functions_differ();
    if writing.contains(func) {
        let j = choose|j: int| 0 <= j < writing.len() && writing[j] == func;
        if may_write(level) {
            assert(level::functions_at(level)[reading.len() + j] == func);
        }
    }
    if changing.contains(func) {
        let j = choose|j: int| 0 <= j < changing.len() && changing[j] == func;
        if level == Level::Admin {
            assert(level::functions_at(level)[reading.len() + writing.len() + j] == func);
        }
    }
}

proof fn lemma_functions_differ()
    ensures
        forall|i: int, j: int|
            #![trigger level::reading_functions()[i], level::writing_functions()[j]]
            0 <= i < 8 && 0 <= j < 6 ==> level::reading_functions()[i]
                != level::writing_functions()[j],
        forall|i: int, j: int|
            #![trigger level::reading_functions()[i], level::schema_functions()[j]]
            0 <= i < 8 && 0 <= j < 4 ==> level::reading_functions()[i]
                != level::schema_functions()[j],
        forall|i: int, j: int|
            #![trigger level::writing_functions()[i], level::schema_functions()[j]]
            0 <= i < 6 && 0 <= j < 4 ==> level::writing_functions()[i]
                != level::schema_functions()[j],
{
    reveal_strlit("DackVersion");
    reveal_strlit("DackCapabilities");
    reveal_strlit("DackOpen");
    reveal_strlit("DackClose");
    reveal_strlit("DackQuery");
    reveal_strlit("DackQueryParams");
    reveal_strlit("DackListTables");
    reveal_strlit("DackDescribe");
    reveal_strlit("DackExecute");
    reveal_strlit("DackExecuteParams");
    reveal_strlit("DackAppendArray");
    reveal_strlit("DackBegin");
    reveal_strlit("DackCommit");
    reveal_strlit("DackRollback");
    reveal_strlit("DackCreateDatabase");
    reveal_strlit("DackExecuteDDL");
    reveal_strlit("DackExportSchema");
    reveal_strlit("DackCheckpoint");
    assert("DackVersion"@.len() == 11 && "DackVersion"@[4] == 'V');
    assert("DackCapabilities"@.len() == 16 && "DackCapabilities"@[4] == 'C');
    assert("DackOpen"@.len() == 8);
    assert("DackClose"@.len() == 9 && "DackClose"@[4] == 'C');
    assert("DackQuery"@.len() == 9 && "DackQuery"@[4] == 'Q');
    assert("DackQueryParams"@.len() == 15 && "DackQueryParams"@[4] == 'Q');
    assert("DackListTables"@.len() == 14 && "DackListTables"@[4] == 'L');
    assert("DackDescribe"@.len() == 12 && "DackDescribe"@[4] == 'D');
    assert("DackExecute"@.len() == 11 && "DackExecute"@[4] == 'E');
    assert("DackExecuteParams"@.len() == 17);
    assert("DackAppendArray"@.len() == 15 && "DackAppendArray"@[4] == 'A');
    assert("DackBegin"@.len() == 9 && "DackBegin"@[4] == 'B');
    assert("DackCommit"@.len() == 10);
    assert("DackRollback"@.len() == 12 && "DackRollback"@[4] == 'R');
    assert("DackCreateDatabase"@.len() == 18);
    assert("DackExecuteDDL"@.len() == 14 && "DackExecuteDDL"@[4] == 'E');
    assert("DackExportSchema"@.len() == 16 && "DackExportSchema"@[4] == 'E');
    assert("DackCheckpoint"@.len() == 14 && "DackCheckpoint"@[4] == 'C');
}

} // verus!
