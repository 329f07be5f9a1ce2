use dackdb::classify::{
    api_allows, check, check_statement_type, is_allowed, statement_type_name, ApiKind,
    STATEMENT_ATTACH as ATTACH, STATEMENT_COPY as COPY, STATEMENT_CREATE as CREATE,
    STATEMENT_DELETE as DELETE, STATEMENT_DROP as DROP, STATEMENT_EXECUTE as EXECUTE,
    STATEMENT_EXPLAIN as EXPLAIN, STATEMENT_INSERT as INSERT, STATEMENT_INVALID as INVALID,
    STATEMENT_LOAD as LOAD, STATEMENT_MULTI as MULTI, STATEMENT_PRAGMA as PRAGMA,
    STATEMENT_PREPARE as PREPARE, STATEMENT_SELECT as SELECT, STATEMENT_SET as SET,
};
use dackdb::raw::{Extracted, ParseReply, PrepareReply};
use dackdb::Level;

fn statement(t: u32) -> PrepareReply {
    PrepareReply { ok: true, message: String::new(), statement_type: t, param_count: 0 }
}

fn extracted(statements: Vec<PrepareReply>) -> Extracted {
    Extracted::extract(ParseReply { message: String::new(), statements }).unwrap()
}

#[test]
fn read_level_allows_only_select_and_explain() {
    assert!(is_allowed(Level::Read, SELECT));
    for t in [INSERT, CREATE, DROP, ATTACH, SET, PRAGMA, LOAD, COPY, MULTI] {
        assert!(!is_allowed(Level::Read, t), "Read が {t} を許可している");
    }
}

#[test]
fn readwrite_allows_dml_but_never_ddl() {
    assert!(is_allowed(Level::ReadWrite, SELECT));
    assert!(is_allowed(Level::ReadWrite, INSERT));
    for t in [CREATE, DROP, ATTACH, SET, PRAGMA, LOAD, COPY, MULTI] {
        assert!(!is_allowed(Level::ReadWrite, t), "ReadWrite が {t} を許可している");
    }
}

#[test]
fn prepare_and_execute_are_denied_below_admin() {
    for level in [Level::Read, Level::ReadWrite] {
        assert!(!is_allowed(level, PREPARE), "{level:?} が PREPARE を許可している");
        assert!(!is_allowed(level, EXECUTE), "{level:?} が EXECUTE を許可している");
    }
}

#[test]
fn admin_allows_everything_except_invalid() {
    for t in [SELECT, INSERT, CREATE, DROP, ATTACH, SET, PRAGMA, LOAD, COPY, MULTI] {
        assert!(is_allowed(Level::Admin, t), "Admin が {t} を拒否している");
    }
    assert!(!is_allowed(Level::Admin, INVALID));
}

#[test]
fn unknown_future_statement_types_fail_closed() {
    let future: u32 = 9999;
    assert!(!is_allowed(Level::Read, future));
    assert!(!is_allowed(Level::ReadWrite, future));
}

#[test]
fn dack_query_never_permits_writes_even_for_admin() {
    assert!(api_allows(ApiKind::Query, SELECT));
    assert!(!api_allows(ApiKind::Query, INSERT));
    assert!(!api_allows(ApiKind::Query, CREATE));
    assert!(api_allows(ApiKind::Execute, INSERT));
    assert!(!api_allows(ApiKind::Execute, CREATE));
    assert!(api_allows(ApiKind::ExecuteDdl, CREATE));
}

#[test]
fn every_statement_type_has_a_japanese_name() {
    for t in 1..=30u32 {
        assert_ne!(statement_type_name(t), "不明な種別", "種別 {t} に日本語名が無い");
    }
}

#[test]
fn unknown_statement_types_are_called_unknown() {
    assert_eq!(statement_type_name(0), "不明な種別");
    assert_eq!(statement_type_name(31), "不明な種別");
    assert_eq!(statement_type_name(SELECT), "SELECT（参照）");
    assert_eq!(statement_type_name(30), "MERGE INTO（併合）");
}

#[test]
fn explain_only_reads() {
    assert!(is_allowed(Level::Read, EXPLAIN));
    assert!(api_allows(ApiKind::Query, EXPLAIN));
}

#[test]
fn refusals_name_the_level_the_statement_and_the_way_out() {
    assert_eq!(
        check_statement_type(Level::Read, ApiKind::Execute, INSERT).unwrap_err(),
        "この DLL は読み取り専用（READ_ONLY）です。INSERT（挿入） は実行できません。\
         書き込みには dackdb_rw.dll（読み書き可）を使ってください。"
    );
    assert_eq!(
        check_statement_type(Level::Read, ApiKind::Execute, DROP).unwrap_err(),
        "この DLL は読み取り専用（READ_ONLY）です。DROP（削除） は実行できません。\
         スキーマ変更には dackdb_admin.dll（管理者）を使ってください。"
    );
    assert_eq!(
        check_statement_type(Level::ReadWrite, ApiKind::ExecuteDdl, CREATE).unwrap_err(),
        "この DLL は読み書き可（DDL 不可）（READ_WRITE）です。CREATE（作成） は実行できません。\
         スキーマ変更には dackdb_admin.dll（管理者）を使ってください。"
    );
    assert_eq!(
        check_statement_type(Level::Admin, ApiKind::Query, DELETE).unwrap_err(),
        "DackQuery では DELETE（削除） を実行できません。DackExecute を使ってください。"
    );
    assert_eq!(
        check_statement_type(Level::Admin, ApiKind::Execute, DROP).unwrap_err(),
        "DackExecute では DROP（削除） を実行できません。DackExecuteDDL を使ってください。"
    );
    assert_eq!(
        check_statement_type(Level::Admin, ApiKind::ExecuteDdl, INVALID).unwrap_err(),
        "この DLL は管理者（全機能）（ADMIN）です。不明な種別 は実行できません。"
    );
    assert!(check_statement_type(Level::Read, ApiKind::Query, SELECT).is_ok());
}

#[test]
fn the_first_offender_decides_on_a_text() {
    let text = extracted(vec![statement(SELECT), statement(DROP), statement(CREATE)]);
    let err = check(Level::ReadWrite, ApiKind::Execute, &text).unwrap_err();
    assert!(err.contains("DROP"), "{err}");
    assert!(!err.contains("CREATE"), "{err}");

    let text = extracted(vec![statement(SELECT), statement(INSERT), statement(SELECT)]);
    assert!(check(Level::ReadWrite, ApiKind::Execute, &text).is_ok());
    assert!(check(Level::Read, ApiKind::Execute, &text).is_err());
}

#[test]
fn what_runs_at_a_level_runs_at_every_higher_one() {
    let levels = [Level::Read, Level::ReadWrite, Level::Admin];
    for t in 0..=31u32 {
        for api in [ApiKind::Query, ApiKind::Execute, ApiKind::ExecuteDdl] {
            let text = extracted(vec![statement(t)]);
            for pair in levels.windows(2) {
                if check(pair[0], api, &text).is_ok() {
                    assert!(check(pair[1], api, &text).is_ok());
                }
            }
        }
    }
}

#[test]
fn statements_that_the_engine_cannot_prepare_are_refused() {
    let bad = PrepareReply {
        ok: false,
        message: "Table does not exist".to_string(),
        statement_type: SELECT,
        param_count: 0,
    };
    let text = extracted(vec![statement(SELECT), bad]);
    assert_eq!(
        check(Level::Admin, ApiKind::Query, &text).unwrap_err(),
        "Table does not exist"
    );
    let silent =
        PrepareReply { ok: false, message: String::new(), statement_type: SELECT, param_count: 0 };
    let text = extracted(vec![statement(SELECT), silent]);
    assert_eq!(
        check(Level::Admin, ApiKind::Query, &text).unwrap_err(),
        "2 文目を解析できませんでした"
    );
}

#[test]
fn texts_without_statements_are_refused() {
    let none = ParseReply { message: String::new(), statements: vec![] };
    assert_eq!(
        Extracted::extract(none).unwrap_err(),
        "SQL を解析できませんでした（空の文の可能性があります）"
    );
    let broken = ParseReply { message: "syntax error at SELEC".to_string(), statements: vec![] };
    assert_eq!(
        Extracted::extract(broken).unwrap_err(),
        "SQL の構文エラー: syntax error at SELEC"
    );
}
