use dackdb::api::{self, DACK_E_FORBIDDEN};
use dackdb::conn::{OpenAction, Opening, Registry};
use dackdb::ffi::{guard, Ending};
use dackdb::oleaut::{bstr_to_string, VARIANT, VARIANT_VALUE, VT_EMPTY};
use dackdb::raw::QueryResult;
use dackdb::task::{Action, Reply, Step};
use dackdb::variant::Grid;
use dackdb::Level;

fn text(v: &VARIANT) -> String {
    match &v.value {
        VARIANT_VALUE::Bstr(b) => bstr_to_string(b),
        _ => panic!("not a text: {v:?}"),
    }
}

fn registry(level: Level) -> Registry<()> {
    let mut r = Registry::new();
    assert_eq!(r.register(level, "a.db".to_string(), ()), 1);
    r
}

fn done(step: Step) -> Result<VARIANT, String> {
    match step {
        Step::Done(r) => r,
        other => panic!("{other:?}"),
    }
}

fn asked(step: Step) -> Action {
    match step {
        Step::Ask { action, .. } => action,
        other => panic!("{other:?}"),
    }
}

fn data() -> VARIANT {
    let mut g = Grid::with_cols(1);
    g.push_row(vec![VARIANT::i32(1)]);
    g.into_variant().unwrap()
}

#[test]
fn the_reading_level_refuses_every_other_function() {
    let r = registry(Level::Read);
    let l = Level::Read;
    for (step, name) in [
        (api::execute(&r, l, 1, "x"), "DackExecute"),
        (api::execute_params(&r, l, 1, "x", Some(data())), "DackExecuteParams"),
        (api::append_array(&r, l, 1, "t", Some(data())), "DackAppendArray"),
        (api::begin(&r, l, 1), "DackBegin"),
        (api::commit(&r, l, 1), "DackCommit"),
        (api::rollback(&r, l, 1), "DackRollback"),
        (api::execute_ddl(&r, l, 1, "x"), "DackExecuteDDL"),
        (api::export_schema(&r, l, 1, "table"), "DackExportSchema"),
        (api::checkpoint(&r, l, 1), "DackCheckpoint"),
    ] {
        let err = done(step).unwrap_err();
        assert!(err.starts_with(name), "{err}");
        assert_eq!(guard(Ending::Returned(Err(err))).0, DACK_E_FORBIDDEN);
    }
    match api::create_database(l, "new.db") {
        Opening::Refused(m) => assert_eq!(guard(Ending::Returned(Err(m))).0, DACK_E_FORBIDDEN),
        other => panic!("{other:?}"),
    }
}

#[test]
fn forbidden_messages_are_exact() {
    let r = registry(Level::ReadWrite);
    assert_eq!(
        done(api::execute_ddl(&r, Level::ReadWrite, 1, "x")).unwrap_err(),
        "DackExecuteDDL はこの DLL では使えません。\
         この DLL は読み書き可（DDL 不可）（READ_WRITE）です。\n\
         スキーマ変更には dackdb_admin.dll（管理者）を使ってください。"
    );
    let r = registry(Level::Read);
    assert_eq!(
        done(api::begin(&r, Level::Read, 1)).unwrap_err(),
        "DackBegin はこの DLL では使えません。この DLL は読み取り専用（READ_ONLY）です。\n\
         トランザクションには dackdb_rw.dll（読み書き可）以上を使ってください。"
    );
}

#[test]
fn the_listed_functions_are_those_that_are_not_forbidden() {
    for level in [Level::Read, Level::ReadWrite, Level::Admin] {
        let listed = text(&api::capabilities(level).unwrap());
        let names: Vec<&str> = listed.split(", ").collect();
        assert_eq!(names, dackdb::level::capabilities(level));
        let r = registry(level);
        let writes = !matches!(api::execute(&r, level, 1, "x"), Step::Done(_));
        assert_eq!(names.contains(&"DackExecute"), writes);
        let changes = !matches!(api::execute_ddl(&r, level, 1, "x"), Step::Done(_));
        assert_eq!(names.contains(&"DackExecuteDDL"), changes);
    }
}

#[test]
fn wrong_handles_are_errors_everywhere() {
    let r = registry(Level::Admin);
    let l = Level::Admin;
    let want = "接続ハンドル 7 は無効です。\
                DackOpen が成功していないか、既に DackClose 済みの可能性があります。";
    for step in [
        api::query(&r, 7, "x"),
        api::query_params(&r, 7, "x", Some(data())),
        api::list_tables(&r, 7),
        api::describe(&r, 7, "t"),
        api::execute(&r, l, 7, "x"),
        api::execute_params(&r, l, 7, "x", Some(data())),
        api::append_array(&r, l, 7, "t", Some(data())),
        api::begin(&r, l, 7),
        api::execute_ddl(&r, l, 7, "x"),
        api::export_schema(&r, l, 7, "json"),
        api::checkpoint(&r, l, 7),
    ] {
        assert_eq!(done(step).unwrap_err(), want);
    }
}

#[test]
fn null_arrays_are_refused() {
    let r = registry(Level::Admin);
    let params = "パラメータが空です。Array(...) か Range(...).Value を渡してください。";
    assert_eq!(done(api::query_params(&r, 1, "x", None)).unwrap_err(), params);
    assert_eq!(
        done(api::execute_params(&r, Level::Admin, 1, "x", None)).unwrap_err(),
        params
    );
    assert_eq!(
        done(api::append_array(&r, Level::Admin, 1, "t", None)).unwrap_err(),
        "データが空です。Range(\"A2:F100\").Value のように範囲を渡してください。"
    );
    assert!(done(api::append_array(&r, Level::Admin, 1, "t", Some(VARIANT::i32(1))))
        .unwrap_err()
        .starts_with("データ は配列ではありません。"));
}

#[test]
fn transactions_and_checkpoints_run_their_own_texts() {
    let r = registry(Level::Admin);
    let l = Level::Admin;
    for (step, sql) in [
        (api::begin(&r, l, 1), "BEGIN TRANSACTION"),
        (api::commit(&r, l, 1), "COMMIT"),
        (api::rollback(&r, l, 1), "ROLLBACK"),
        (api::checkpoint(&r, l, 1), "CHECKPOINT"),
    ] {
        match step {
            Step::Ask { action: Action::Run(s), task } => {
                assert_eq!(s, sql);
                let reply = Reply::Ran(Ok(QueryResult { columns: vec![], changed: 0 }));
                assert_eq!(done(task.step(reply)).unwrap().vt, VT_EMPTY);
            }
            other => panic!("{other:?}"),
        }
    }
    let ran = asked(api::list_tables(&r, 1));
    assert!(matches!(ran, Action::Run(s) if s.contains("information_schema.tables")));
}

#[test]
fn opening_gives_a_handle_and_closing_takes_it_back() {
    match api::open(Level::Admin, "a.db") {
        Opening::Ask { action: OpenAction::Configure(s), .. } => assert_eq!(s.len(), 5),
        other => panic!("{other:?}"),
    }
    let mut r: Registry<()> = Registry::new();
    let v = api::opened(&mut r, Level::Admin, "a.db".to_string(), ()).unwrap();
    assert_eq!(v.value.llVal(), 1);
    assert_eq!(api::close(&mut r, 1).unwrap().vt, VT_EMPTY);
    assert!(api::close(&mut r, 1).is_err());
}

#[test]
fn the_version_is_a_text() {
    assert_eq!(
        text(&api::version(Level::Read, "v1.4.1").unwrap()),
        "dackdb 0.1.0 / DuckDB v1.4.1 / 権限: READ_ONLY (読み取り専用)"
    );
}
