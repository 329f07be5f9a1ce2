//! Which kinds of statements a level and a function accept.
//!
//! What is accepted is an allow list over the kinds that the engine's own parser
//! reports, so a statement hidden behind another one, behind `WITH` or behind a
//! comment is seen for what it is, and a kind that nobody has heard of is
//! refused below the administrator's level.
use crate::level::Level;
use crate::raw;
use crate::raw::{Extracted, PrepareReply};
use crate::text::{has_text, lemma_stands_in};
use vstd::prelude::*;

verus! {

// The numbers that the engine gives the kinds of statements.
pub const STATEMENT_INVALID: u32 = 0;
pub const STATEMENT_SELECT: u32 = 1;
pub const STATEMENT_INSERT: u32 = 2;
pub const STATEMENT_UPDATE: u32 = 3;
pub const STATEMENT_EXPLAIN: u32 = 4;
pub const STATEMENT_DELETE: u32 = 5;
pub const STATEMENT_PREPARE: u32 = 6;
pub const STATEMENT_CREATE: u32 = 7;
pub const STATEMENT_EXECUTE: u32 = 8;
pub const STATEMENT_ALTER: u32 = 9;
pub const STATEMENT_TRANSACTION: u32 = 10;
pub const STATEMENT_COPY: u32 = 11;
pub const STATEMENT_ANALYZE: u32 = 12;
pub const STATEMENT_VARIABLE_SET: u32 = 13;
pub const STATEMENT_CREATE_FUNC: u32 = 14;
pub const STATEMENT_DROP: u32 = 15;
pub const STATEMENT_EXPORT: u32 = 16;
pub const STATEMENT_PRAGMA: u32 = 17;
pub const STATEMENT_VACUUM: u32 = 18;
pub const STATEMENT_CALL: u32 = 19;
pub const STATEMENT_SET: u32 = 20;
pub const STATEMENT_LOAD: u32 = 21;
pub const STATEMENT_RELATION: u32 = 22;
pub const STATEMENT_EXTENSION: u32 = 23;
pub const STATEMENT_LOGICAL_PLAN: u32 = 24;
pub const STATEMENT_ATTACH: u32 = 25;
pub const STATEMENT_DETACH: u32 = 26;
pub const STATEMENT_MULTI: u32 = 27;
pub const STATEMENT_COPY_DATABASE: u32 = 28;
pub const STATEMENT_UPDATE_EXTENSIONS: u32 = 29;
pub const STATEMENT_MERGE_INTO: u32 = 30;

/// The function through which an SQL text came.
#[derive(Debug, Clone, Copy, PartialEq, Eq, Structural)]
pub enum ApiKind {
    /// `DackQuery` and `DackQueryParams`: reading, with a result set.
    Query,
    /// `DackExecute` and `DackExecuteParams`: changing rows.
    Execute,
    /// `DackExecuteDDL`: changing the schema.
    ExecuteDdl,
}

impl ApiKind {
    /// The exported name of the function.
    pub open spec fn name_text(self) -> Seq<char> {
        match self {
            ApiKind::Query => "DackQuery"@,
            ApiKind::Execute => "DackExecute"@,
            ApiKind::ExecuteDdl => "DackExecuteDDL"@,
        }
    }

    /// The exported name of the function.
    pub fn api_name(self) -> (r: &'static str)
        ensures
            r@ == self.name_text(),
    {
        match self {
            ApiKind::Query => "DackQuery",
            ApiKind::Execute => "DackExecute",
            ApiKind::ExecuteDdl => "DackExecuteDDL",
        }
    }
}

/// What a kind of statement is called in messages.
pub open spec fn type_text(t: u32) -> Seq<char> {
    match t {
        1 => "SELECT（参照）"@,
        2 => "INSERT（挿入）"@,
        3 => "UPDATE（更新）"@,
        4 => "EXPLAIN（実行計画）"@,
        5 => "DELETE（削除）"@,
        6 => "PREPARE（文の準備）"@,
        7 => "CREATE（作成）"@,
        8 => "EXECUTE（準備文の実行）"@,
        9 => "ALTER（変更）"@,
        10 => "トランザクション制御"@,
        11 => "COPY（外部入出力）"@,
        12 => "ANALYZE（統計収集）"@,
        13 => "SET VARIABLE（変数設定）"@,
        14 => "CREATE FUNCTION（関数作成）"@,
        15 => "DROP（削除）"@,
        16 => "EXPORT（書き出し）"@,
        17 => "PRAGMA（設定）"@,
        18 => "VACUUM（再構成）"@,
        19 => "CALL（関数呼び出し）"@,
        20 => "SET（設定変更）"@,
        21 => "LOAD / INSTALL（拡張）"@,
        22 => "RELATION"@,
        23 => "EXTENSION"@,
        24 => "LOGICAL PLAN"@,
        25 => "ATTACH（DB 接続）"@,
        26 => "DETACH（DB 切断）"@,
        27 => "複合文"@,
        28 => "COPY DATABASE"@,
        29 => "UPDATE EXTENSIONS"@,
        30 => "MERGE INTO（併合）"@,
        _ => "不明な種別"@,
    }
}

/// What a kind of statement is called in messages.
pub fn statement_type_name(t: u32) -> (r: &'static str)
    ensures
        r@ == type_text(t),
{
    match t {
        STATEMENT_SELECT => "SELECT（参照）",
        STATEMENT_INSERT => "INSERT（挿入）",
        STATEMENT_UPDATE => "UPDATE（更新）",
        STATEMENT_DELETE => "DELETE（削除）",
        STATEMENT_MERGE_INTO => "MERGE INTO（併合）",
        STATEMENT_EXPLAIN => "EXPLAIN（実行計画）",
        STATEMENT_CREATE => "CREATE（作成）",
        STATEMENT_CREATE_FUNC => "CREATE FUNCTION（関数作成）",
        STATEMENT_DROP => "DROP（削除）",
        STATEMENT_ALTER => "ALTER（変更）",
        STATEMENT_ATTACH => "ATTACH（DB 接続）",
        STATEMENT_DETACH => "DETACH（DB 切断）",
        STATEMENT_COPY => "COPY（外部入出力）",
        STATEMENT_COPY_DATABASE => "COPY DATABASE",
        STATEMENT_EXPORT => "EXPORT（書き出し）",
        STATEMENT_PRAGMA => "PRAGMA（設定）",
        STATEMENT_SET => "SET（設定変更）",
        STATEMENT_VARIABLE_SET => "SET VARIABLE（変数設定）",
        STATEMENT_LOAD => "LOAD / INSTALL（拡張）",
        STATEMENT_TRANSACTION => "トランザクション制御",
        STATEMENT_PREPARE => "PREPARE（文の準備）",
        STATEMENT_EXECUTE => "EXECUTE（準備文の実行）",
        STATEMENT_VACUUM => "VACUUM（再構成）",
        STATEMENT_ANALYZE => "ANALYZE（統計収集）",
        STATEMENT_CALL => "CALL（関数呼び出し）",
        STATEMENT_MULTI => "複合文",
        STATEMENT_UPDATE_EXTENSIONS => "UPDATE EXTENSIONS",
        STATEMENT_RELATION => "RELATION",
        STATEMENT_EXTENSION => "EXTENSION",
        STATEMENT_LOGICAL_PLAN => "LOGICAL PLAN",
        _ => "不明な種別",
    }
}

/// Statements that only read. Every level may run them.
pub open spec fn reads(t: u32) -> bool {
    t == STATEMENT_SELECT || t == STATEMENT_EXPLAIN
}

/// Statements that change rows and leave the schema alone.
pub open spec fn changes_rows(t: u32) -> bool {
    ||| t == STATEMENT_INSERT
    ||| t == STATEMENT_UPDATE
    ||| t == STATEMENT_DELETE
    ||| t == STATEMENT_MERGE_INTO
    ||| t == STATEMENT_TRANSACTION
}

/// The allow list of a level.
pub open spec fn level_allows(level: Level, t: u32) -> bool {
    match level {
        Level::Read => reads(t),
        Level::ReadWrite => reads(t) || changes_rows(t),
        Level::Admin => t != STATEMENT_INVALID,
    }
}

/// The allow list of a function.
pub open spec fn function_allows(api: ApiKind, t: u32) -> bool {
    match api {
        ApiKind::Query => reads(t),
        ApiKind::Execute => reads(t) || changes_rows(t),
        ApiKind::ExecuteDdl => true,
    }
}

/// Whether a statement of this kind may run.
pub open spec fn may_run(level: Level, api: ApiKind, t: u32) -> bool {
    level_allows(level, t) && function_allows(api, t)
}

/// Where to turn with a statement that the level does not accept.
pub open spec fn level_hint(level: Level, t: u32) -> Seq<char> {
    match level {
        Level::Read => if changes_rows(t) {
            "書き込みには dackdb_rw.dll（読み書き可）を使ってください。"@
        } else {
            "スキーマ変更には dackdb_admin.dll（管理者）を使ってください。"@
        },
        Level::ReadWrite => "スキーマ変更には dackdb_admin.dll（管理者）を使ってください。"@,
        Level::Admin => ""@,
    }
}

/// Where to turn with a statement that the function does not accept.
pub open spec fn function_hint(t: u32) -> Seq<char> {
    if changes_rows(t) {
        "DackExecute を使ってください。"@
    } else {
        "DackExecuteDDL を使ってください。"@
    }
}

/// The message that refuses a statement which may not run.
pub open spec fn refusal(level: Level, api: ApiKind, t: u32) -> Seq<char> {
    if !level_allows(level, t) {
        "この DLL は"@ + level.description_text() + "（"@ + level.name_text() + "）です。"@
            + type_text(t) + " は実行できません。"@ + level_hint(level, t)
    } else {
        api.name_text() + " では "@ + type_text(t) + " を実行できません。"@ + function_hint(t)
    }
}

fn is_read_only_type(t: u32) -> (r: bool)
    ensures
        r == reads(t),
{
    matches!(t, STATEMENT_SELECT | STATEMENT_EXPLAIN)
}

fn is_dml_type(t: u32) -> (r: bool)
    ensures
        r == changes_rows(t),
{
    matches!(
        t,
        STATEMENT_INSERT | STATEMENT_UPDATE | STATEMENT_DELETE | STATEMENT_MERGE_INTO
            | STATEMENT_TRANSACTION
    )
}

/// Whether the level accepts statements of this kind. Unknown kinds are refused
/// below `Admin`.
pub fn is_allowed(level: Level, t: u32) -> (r: bool)
    ensures
        r == level_allows(level, t),
{
    match level {
        Level::Read => is_read_only_type(t),
        Level::ReadWrite => is_read_only_type(t) || is_dml_type(t),
        Level::Admin => t != STATEMENT_INVALID,
    }
}

/// Whether the function accepts statements of this kind. `DackQuery` accepts
/// reading only, at every level, so that VBA code shows where it writes.
pub fn api_allows(api: ApiKind, t: u32) -> (r: bool)
    ensures
        r == function_allows(api, t),
{
    match api {
        ApiKind::Query => is_read_only_type(t),
        ApiKind::Execute => is_read_only_type(t) || is_dml_type(t),
        ApiKind::ExecuteDdl => true,
    }
}

fn upgrade_hint(level: Level, t: u32) -> (r: &'static str)
    ensures
        r@ == level_hint(level, t),
{
    match level {
        Level::Read => {
            if is_dml_type(t) {
                "書き込みには dackdb_rw.dll（読み書き可）を使ってください。"
            } else {
                "スキーマ変更には dackdb_admin.dll（管理者）を使ってください。"
            }
        },
        Level::ReadWrite => "スキーマ変更には dackdb_admin.dll（管理者）を使ってください。",
        Level::Admin => "",
    }
}

fn api_hint(t: u32) -> (r: &'static str)
    ensures
        r@ == function_hint(t),
{
    if is_dml_type(t) {
        "DackExecute を使ってください。"
    } else {
        "DackExecuteDDL を使ってください。"
    }
}

/// Decides on one statement, from its kind.
pub fn check_statement_type(level: Level, api: ApiKind, t: u32) -> (r: Result<(), String>)
    ensures
        r is Ok <==> may_run(level, api, t),
        r matches Err(m) ==> m@ == refusal(level, api, t),
{
    let kind_name = statement_type_name(t);
    if !is_allowed(level, t) {
        let mut m = "この DLL は".to_owned();
        m.append(level.description_ja());
        m.append("（");
        m.append(level.name());
        m.append("）です。");
        m.append(kind_name);
        m.append(" は実行できません。");
        m.append(upgrade_hint(level, t));
        return Err(m);
    }
    if !api_allows(api, t) {
        let mut m = api.api_name().to_owned();
        m.append(" では ");
        m.append(kind_name);
        m.append(" を実行できません。");
        m.append(api_hint(t));
        return Err(m);
    }
    Ok(())
}

// ---------------------------------------------------------------------------
// Whole SQL texts
// ---------------------------------------------------------------------------

/// Whether the statement was accepted by the engine and may run.
pub open spec fn statement_passes(level: Level, api: ApiKind, s: PrepareReply) -> bool {
    s.ok && may_run(level, api, s.statement_type)
}

/// The message about a statement that does not pass.
pub open spec fn statement_objection(
    level: Level,
    api: ApiKind,
    index: int,
    s: PrepareReply,
) -> Seq<char> {
    if s.ok {
        refusal(level, api, s.statement_type)
    } else {
        raw::prepare_failure(index, s.message@)
    }
}

/// The index of the first statement that does not pass, from `from` on; the
/// number of statements where all pass.
pub open spec fn first_objection(
    level: Level,
    api: ApiKind,
    statements: Seq<PrepareReply>,
    from: int,
) -> int
    decreases statements.len() - from,
{
    if from < 0 || from >= statements.len() {
        statements.len() as int
    } else if statement_passes(level, api, statements[from]) {
        first_objection(level, api, statements, from + 1)
    } else {
        from
    }
}

/// Every statement of the text passes.
pub open spec fn all_pass(level: Level, api: ApiKind, statements: Seq<PrepareReply>) -> bool {
    forall|i: int|
        0 <= i < statements.len() ==> statement_passes(level, api, #[trigger] statements[i])
}

/// The message that refuses a text: it is about the first statement that does
/// not pass.
pub open spec fn objection(level: Level, api: ApiKind, statements: Seq<PrepareReply>) -> Seq<char> {
    let i = first_objection(level, api, statements, 0);
    statement_objection(level, api, i, statements[i])
}

/// Decides on an SQL text before any of it runs: one statement that does not
/// pass refuses the whole text, and the message is about the first such
/// statement.
pub fn check(level: Level, api: ApiKind, extracted: &Extracted) -> (r: Result<(), String>)
    ensures
        r is Ok <==> all_pass(level, api, extracted.statements@),
        r matches Err(m) ==> m@ == objection(level, api, extracted.statements@),
{
    let n = extracted.count();
    let ghost all = extracted.statements@;
    let mut i: usize = 0;
    while i < n
        invariant
            i <= n,
            n == all.len(),
            all == extracted.statements@,
            forall|k: int| 0 <= k < i ==> statement_passes(level, api, #[trigger] all[k]),
            first_objection(level, api, all, 0) == first_objection(level, api, all, i as int),
        decreases n - i,
    {
        let prepared = match extracted.prepare(i) {
            Ok(p) => p,
            Err(m) => {
                return Err(m);
            },
        };
        match check_statement_type(level, api, prepared.statement_type()) {
            Ok(()) => {},
            Err(m) => {
                return Err(m);
            },
        }
        i = i + 1;
    }
    Ok(())
}

// ---------------------------------------------------------------------------
// Laws
// ---------------------------------------------------------------------------

/// What a level accepts, every higher level accepts too.
pub proof fn law_levels_grow(lower: Level, higher: Level, t: u32)
    requires
        lower.rank() <= higher.rank(),
        level_allows(lower, t),
    ensures
        level_allows(higher, t),
{
}

/// An SQL text that runs at a level runs at every higher level too.
pub proof fn law_admitted_texts_stay_admitted(
    lower: Level,
    higher: Level,
    api: ApiKind,
    statements: Seq<PrepareReply>,
)
    requires
        lower.rank() <= higher.rank(),
        all_pass(lower, api, statements),
    ensures
        all_pass(higher, api, statements),
{
}

/// Below `Admin`, a kind outside the two lists is refused, whatever it is: a
/// kind added to the engine later cannot slip through.
pub proof fn law_unknown_kinds_are_refused(level: Level, api: ApiKind, t: u32)
    requires
        level != Level::Admin,
        !reads(t),
        !changes_rows(t),
    ensures
        !may_run(level, api, t),
{
}

/// `DackQuery` runs nothing but reading statements, at every level.
pub proof fn law_query_only_reads(level: Level, t: u32)
    requires
        may_run(level, ApiKind::Query, t),
    ensures
        reads(t),
{
}

/// The read-only level runs nothing but reading statements, through whatever
/// function they come.
pub proof fn law_read_level_only_reads(api: ApiKind, t: u32)
    requires
        may_run(Level::Read, api, t),
    ensures
        reads(t),
{
}

/// The schema changes only at the administrator's level and through
/// `DackExecuteDDL`: a statement that runs and neither reads nor changes rows
/// came that way.
pub proof fn law_schema_changes_need_admin_and_ddl(level: Level, api: ApiKind, t: u32)
    requires
        may_run(level, api, t),
        !reads(t),
        !changes_rows(t),
    ensures
        level == Level::Admin,
        api == ApiKind::ExecuteDdl,
{
}

/// The allow lists, by the numbers of the engine: what only reads is SELECT (1) and
/// EXPLAIN (4); INSERT (2), UPDATE (3), DELETE (5), transactions (10) and MERGE INTO
/// (30) come with writing. `DackQuery` runs the first at every level.
/// `DackExecute` runs both from the writing level on, and the first at the reading
/// level. `DackExecuteDDL` runs what its level accepts, and that is everything with a
/// number at the administrator's.
pub proof fn law_allow_lists(level: Level, t: u32)
    ensures
        may_run(level, ApiKind::Query, t) <==> t == 1 || t == 4,
        may_run(Level::Read, ApiKind::Execute, t) <==> t == 1 || t == 4,
        level != Level::Read ==> (may_run(level, ApiKind::Execute, t) <==> 1 <= t <= 5 || t == 10
            || t == 30),
        may_run(Level::Read, ApiKind::ExecuteDdl, t) <==> t == 1 || t == 4,
        may_run(Level::ReadWrite, ApiKind::ExecuteDdl, t) <==> 1 <= t <= 5 || t == 10 || t == 30,
        may_run(Level::Admin, ApiKind::ExecuteDdl, t) <==> t >= 1,
{
}

/// A text is admitted exactly where the engine accepts every statement in it and
/// each is of a kind on the list.
pub proof fn law_admitted_texts(level: Level, statements: Seq<PrepareReply>)
    ensures
        all_pass(level, ApiKind::Query, statements) <==> forall|i: int|
            0 <= i < statements.len() ==> (#[trigger] statements[i]).ok && (
            statements[i].statement_type == 1 || statements[i].statement_type == 4),
        level != Level::Read ==> (all_pass(level, ApiKind::Execute, statements) <==> forall|i: int|
            0 <= i < statements.len() ==> (#[trigger] statements[i]).ok && (1
                <= statements[i].statement_type <= 5 || statements[i].statement_type == 10
                || statements[i].statement_type == 30)),
        all_pass(Level::Admin, ApiKind::ExecuteDdl, statements) <==> forall|i: int|
            0 <= i < statements.len() ==> (#[trigger] statements[i]).ok
                && statements[i].statement_type >= 1,
{
    let q = all_pass(level, ApiKind::Query, statements);
    let e = all_pass(level, ApiKind::Execute, statements);
    let d = all_pass(Level::Admin, ApiKind::ExecuteDdl, statements);
    assert forall|i: int| 0 <= i < statements.len() && q implies (#[trigger] statements[i]).ok && (
    statements[i].statement_type == 1 || statements[i].statement_type == 4) by {
        assert(statement_passes(level, ApiKind::Query, statements[i]));
    }
    assert forall|i: int|
        0 <= i < statements.len() && e && level != Level::Read implies (#[trigger] statements[i]).ok
        && (1 <= statements[i].statement_type <= 5 || statements[i].statement_type == 10
        || statements[i].statement_type == 30) by {
        assert(statement_passes(level, ApiKind::Execute, statements[i]));
    }
    assert forall|i: int| 0 <= i < statements.len() && d implies (#[trigger] statements[i]).ok
        && statements[i].statement_type >= 1 by {
        assert(statement_passes(Level::Admin, ApiKind::ExecuteDdl, statements[i]));
    }
}

/// What each kind of statement is called, in the order of the engine's numbers from 1
/// on; every other number is unknown.
pub proof fn law_kinds_by_name(t: u32)
    ensures
        1 <= t <= 30 ==> type_text(t) == seq![
            "SELECT（参照）"@,
            "INSERT（挿入）"@,
            "UPDATE（更新）"@,
            "EXPLAIN（実行計画）"@,
            "DELETE（削除）"@,
            "PREPARE（文の準備）"@,
            "CREATE（作成）"@,
            "EXECUTE（準備文の実行）"@,
            "ALTER（変更）"@,
            "トランザクション制御"@,
            "COPY（外部入出力）"@,
            "ANALYZE（統計収集）"@,
            "SET VARIABLE（変数設定）"@,
            "CREATE FUNCTION（関数作成）"@,
            "DROP（削除）"@,
            "EXPORT（書き出し）"@,
            "PRAGMA（設定）"@,
            "VACUUM（再構成）"@,
            "CALL（関数呼び出し）"@,
            "SET（設定変更）"@,
            "LOAD / INSTALL（拡張）"@,
            "RELATION"@,
            "EXTENSION"@,
            "LOGICAL PLAN"@,
            "ATTACH（DB 接続）"@,
            "DETACH（DB 切断）"@,
            "複合文"@,
            "COPY DATABASE"@,
            "UPDATE EXTENSIONS"@,
            "MERGE INTO（併合）"@,
        ][t - 1],
        t == 0 || t > 30 ==> type_text(t) == "不明な種別"@,
{
}

/// A refusal says what was refused and where to turn. At the reading level this is the
/// DLL that writes for a statement that changes rows (2, 3, 5, 10, 30), and the
/// administrator's for any other; at the writing level it is the administrator's. A
/// statement that the level has and the function has not is for `DackExecute` or
/// `DackExecuteDDL`.
pub proof fn law_refusals_say_where_to_turn(level: Level, api: ApiKind, t: u32)
    requires
        !may_run(level, api, t),
    ensures
        has_text(refusal(level, api, t), type_text(t)),
        level == Level::Read ==> has_text(refusal(level, api, t), level.name_text()),
        level == Level::Read && (2 <= t <= 3 || t == 5 || t == 10 || t == 30) ==> has_text(
            refusal(level, api, t),
            "dackdb_rw.dll"@,
        ),
        level == Level::Read && !(2 <= t <= 3 || t == 5 || t == 10 || t == 30) ==> has_text(
            refusal(level, api, t),
            "dackdb_admin.dll"@,
        ),
        level == Level::ReadWrite && !level_allows(level, t) ==> has_text(
            refusal(level, api, t),
            "dackdb_admin.dll"@,
        ),
        level_allows(level, t) ==> has_text(refusal(level, api, t), api.name_text()) && has_text(
            refusal(level, api, t),
            if 2 <= t <= 3 || t == 5 || t == 10 || t == 30 {
                "DackExecute を使ってください。"@
            } else {
                "DackExecuteDDL を使ってください。"@
            },
        ),
{
    let r = refusal(level, api, t);
    reveal_strlit("書き込みには dackdb_rw.dll（読み書き可）を使ってください。");
    reveal_strlit("スキーマ変更には dackdb_admin.dll（管理者）を使ってください。");
    reveal_strlit("dackdb_rw.dll");
    reveal_strlit("dackdb_admin.dll");
    if !level_allows(level, t) {
        let head = "この DLL は"@ + level.description_text() + "（"@;
        let named = head + level.name_text() + "）です。"@;
        let told = named + type_text(t) + " は実行できません。"@;
        let hint = level_hint(level, t);
        lemma_stands_in(
            head,
            level.name_text(),
            "）です。"@ + type_text(t) + " は実行できません。"@ + hint,
            r,
        );
        lemma_stands_in(named, type_text(t), " は実行できません。"@ + hint, r);
        if level == Level::Read && changes_rows(t) {
            lemma_stands_in(told + hint.take(7), "dackdb_rw.dll"@, hint.skip(20), r);
        } else if level != Level::Admin {
            lemma_stands_in(told + hint.take(9), "dackdb_admin.dll"@, hint.skip(25), r);
        }
    } else {
        let head = api.name_text() + " では "@;
        let told = head + type_text(t) + " を実行できません。"@;
        lemma_stands_in(
            Seq::empty(),
            api.name_text(),
            " では "@ + type_text(t) + " を実行できません。"@ + function_hint(t),
            r,
        );
        lemma_stands_in(head, type_text(t), " を実行できません。"@ + function_hint(t), r);
        lemma_stands_in(told, function_hint(t), Seq::empty(), r);
    }
}

/// A text is refused with what is said of its first statement that does not pass: the
/// engine's own message where the engine does not accept it, else the refusal of its
/// kind.
pub proof fn law_objections_are_about_their_statement(
    level: Level,
    api: ApiKind,
    statements: Seq<PrepareReply>,
    i: int,
)
    requires
        0 <= i < statements.len(),
        forall|k: int| 0 <= k < i ==> statement_passes(level, api, #[trigger] statements[k]),
        !statement_passes(level, api, statements[i]),
    ensures
        statements[i].ok ==> objection(level, api, statements) == refusal(
            level,
            api,
            statements[i].statement_type,
        ),
        !statements[i].ok && statements[i].message@.len() > 0 ==> objection(level, api, statements)
            == statements[i].message@,
{
    lemma_first_objection(level, api, statements, 0);
    let first = first_objection(level, api, statements, 0);
    assert(first == i) by {
        if first < i {
            assert(statement_passes(level, api, statements[first]));
        }
    }
}

/// The first objection is indeed the first: everything before it passes, and it
/// does not.
pub proof fn law_objection_is_about_the_first_offender(
    level: Level,
    api: ApiKind,
    statements: Seq<PrepareReply>,
)
    requires
        !all_pass(level, api, statements),
    ensures
        ({
            let i = first_objection(level, api, statements, 0);
            &&& 0 <= i < statements.len()
            &&& !statement_passes(level, api, statements[i])
            &&& forall|k: int|
                0 <= k < i ==> statement_passes(level, api, #[trigger] statements[k])
        }),
{
    lemma_first_objection(level, api, statements, 0);
}

proof fn lemma_first_objection(level: Level, api: ApiKind, statements: Seq<PrepareReply>, from: int)
    requires
        0 <= from <= statements.len(),
    ensures
        ({
            let i = first_objection(level, api, statements, from);
            &&& from <= i <= statements.len()
            &&& i < statements.len() ==> !statement_passes(level, api, statements[i])
            &&& forall|k: int|
                from <= k < i ==> statement_passes(level, api, #[trigger] statements[k])
        }),
    decreases statements.len() - from,
{
    if from < statements.len() && statement_passes(level, api, statements[from]) {
        lemma_first_objection(level, api, statements, from + 1);
    }
}

} // verus!
