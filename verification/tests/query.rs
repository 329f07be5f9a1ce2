use dackdb::classify::{
    STATEMENT_ALTER, STATEMENT_ATTACH, STATEMENT_CREATE, STATEMENT_DELETE, STATEMENT_DROP,
    STATEMENT_INSERT, STATEMENT_LOAD, STATEMENT_SELECT, STATEMENT_SET,
};
use dackdb::conn::{self, ConnState, Registry};
use dackdb::inbound::{self, DuckValue, InputGrid};
use dackdb::oleaut::{
    bstr_to_string, OleDate, SafeArrayData, SAFEARRAY, VARIANT, VARIANT_VALUE, VT_DATE, VT_I8,
    VT_NULL,
};
use dackdb::query::{
    self, describe, execute, execute_ddl, execute_params, list_tables, query_params, quote_ident,
    quote_literal,
};
use dackdb::raw::{
    Column, DataChunk, Extracted, ParseReply, PrepareReply, QueryResult, Vector, TYPE_INVALID,
};
use dackdb::task::{Action, Handover, Reply, Step};
use dackdb::value::{TYPE_BIGINT, TYPE_DATE, TYPE_INTEGER, TYPE_LIST, TYPE_VARCHAR};
use dackdb::variant::Grid;
use dackdb::Level;

fn state(level: Level) -> ConnState<()> {
    ConnState { conn: (), level, path: "test.db".to_string() }
}

/// Goes through the work with these replies; gives what was asked and how it ended.
fn drive(step: Step, replies: Vec<Reply>) -> (Vec<Action>, Result<VARIANT, String>) {
    let mut asked = Vec::new();
    let mut replies = replies.into_iter();
    let mut now = step;
    loop {
        now = match now {
            Step::Done(r) => {
                assert!(replies.next().is_none(), "replies are left after {asked:?}");
                return (asked, r);
            }
            Step::Ask { action, task } => {
                let reply = match replies.next() {
                    Some(r) => r,
                    None => panic!("no reply to {action:?}"),
                };
                asked.push(action);
                task.step(reply)
            }
        };
    }
}

fn parsed(types: &[u32]) -> Reply {
    parsed_with(types, 0)
}

fn parsed_with(types: &[u32], param_count: usize) -> Reply {
    Reply::Parsed(ParseReply {
        message: String::new(),
        statements: types
            .iter()
            .map(|t| PrepareReply {
                ok: true,
                message: String::new(),
                statement_type: *t,
                param_count,
            })
            .collect(),
    })
}

fn ran(columns: &[(&str, u32)], changed: u64) -> Reply {
    Reply::Ran(Ok(QueryResult {
        columns: columns
            .iter()
            .map(|(name, type_id)| Column { name: name.to_string(), type_id: *type_id })
            .collect(),
        changed,
    }))
}

fn vector(type_id: u32, validity: u64, data: Vec<u8>, strings: Vec<Vec<u8>>) -> Vector {
    Vector {
        type_id,
        decimal_width: 0,
        decimal_scale: 0,
        decimal_internal: 0,
        enum_internal: 0,
        dictionary: vec![],
        validity: Some(vec![validity]),
        data,
        strings,
        calendar: vec![],
    }
}

fn ints(values: &[i32]) -> Vector {
    let data = values.iter().flat_map(|n| n.to_le_bytes()).collect();
    vector(TYPE_INTEGER, u64::MAX, data, vec![])
}

fn chunk(rows: usize, vectors: Vec<Vector>) -> Reply {
    Reply::Fetched(Some(DataChunk { rows, vectors }))
}

fn array(v: &VARIANT) -> &SAFEARRAY {
    match &v.value {
        VARIANT_VALUE::Array(Some(a)) => a,
        _ => panic!("not an array: {v:?}"),
    }
}

fn size(v: &VARIANT) -> (u32, u32) {
    let b = &array(v).bounds;
    (b[0].unwrap().cElements, b[1].unwrap().cElements)
}

fn cell(v: &VARIANT, row: usize, col: usize) -> &VARIANT {
    let rows = size(v).0 as usize;
    match &array(v).data {
        Some(SafeArrayData::Variants(d)) => &d[(col - 1) * rows + row - 1],
        _ => panic!("no variants"),
    }
}

fn text(v: &VARIANT) -> String {
    match &v.value {
        VARIANT_VALUE::Bstr(b) => bstr_to_string(b),
        _ => panic!("not a text: {v:?}"),
    }
}

fn runs(asked: &[Action]) -> usize {
    asked.iter().filter(|a| matches!(a, Action::Run(_) | Action::RunPrepared)).count()
}

const SALES: [(&str, u32); 4] =
    [("id", TYPE_INTEGER), ("部署", TYPE_VARCHAR), ("金額", TYPE_BIGINT), ("日付", TYPE_DATE)];

fn sales_rows() -> Reply {
    let amounts = [1000i64, 2000, 0].iter().flat_map(|n| n.to_le_bytes()).collect();
    let days = [19737i32, 19773, 0].iter().flat_map(|n| n.to_le_bytes()).collect();
    chunk(
        3,
        vec![
            ints(&[1, 2, 3]),
            vector(
                TYPE_VARCHAR,
                0b011,
                vec![],
                vec!["営業部".into(), "技術部𠮷😀".into(), vec![]],
            ),
            vector(TYPE_BIGINT, 0b011, amounts, vec![]),
            vector(TYPE_DATE, 0b011, days, vec![]),
        ],
    )
}

#[test]
fn query_returns_header_plus_rows_with_japanese_intact() {
    let sql = "SELECT * FROM 売上 ORDER BY id";
    let (asked, r) = drive(
        query::query(&state(Level::Read), sql),
        vec![
            parsed(&[STATEMENT_SELECT]),
            ran(&SALES, 0),
            sales_rows(),
            Reply::Fetched(None),
        ],
    );
    let v = r.unwrap();
    assert!(matches!(&asked[0], Action::Parse(s) if s == sql));
    assert!(matches!(&asked[1], Action::Run(s) if s == sql));
    assert_eq!(asked.len(), 4);

    assert_eq!(size(&v), (4, 4), "ヘッダ1行 + データ3行, 4列");
    assert_eq!(text(cell(&v, 1, 2)), "部署");
    assert_eq!(text(cell(&v, 3, 2)), "技術部𠮷😀");
    assert_eq!(cell(&v, 4, 2).vt, VT_NULL);
    assert_eq!(cell(&v, 4, 3).vt, VT_NULL);
    assert_eq!(cell(&v, 2, 3).vt, VT_I8);
    assert_eq!(cell(&v, 2, 3).value.llVal(), 1000);
    let d = cell(&v, 2, 4);
    assert_eq!(d.vt, VT_DATE);
    assert!(matches!(&d.value, VARIANT_VALUE::Date(OleDate::Serial(n)) if *n as f64 == 45306.0));
}

#[test]
fn empty_result_returns_header_only() {
    let (_, r) = drive(
        query::query(&state(Level::Read), "SELECT * FROM 売上 WHERE id = 999"),
        vec![parsed(&[STATEMENT_SELECT]), ran(&SALES, 0), Reply::Fetched(None)],
    );
    assert_eq!(size(&r.unwrap()).0, 1, "ヘッダ行だけが返るはず");
}

#[test]
fn multi_statement_smuggling_is_blocked() {
    let (asked, r) = drive(
        execute(
            &state(Level::ReadWrite),
            "INSERT INTO 売上 VALUES (9,'x',1,NULL); DROP TABLE 売上;",
        ),
        vec![parsed(&[STATEMENT_INSERT, STATEMENT_DROP])],
    );
    let err = r.unwrap_err();
    assert!(err.contains("DROP"), "DROP が検出されていない: {err}");
    assert_eq!(runs(&asked), 0, "拒否されたのに INSERT が実行されている");
}

#[test]
fn cte_wrapped_insert_is_detected_as_insert_not_select() {
    let (asked, r) = drive(
        query::query(
            &state(Level::Read),
            "WITH x AS (SELECT 9 AS id) INSERT INTO 売上 SELECT id,'z',1,NULL FROM x",
        ),
        vec![parsed(&[STATEMENT_INSERT])],
    );
    let err = r.unwrap_err();
    assert!(!err.is_empty(), "CTE で包んだ INSERT が通ってしまった");
    assert_eq!(runs(&asked), 0);
}

#[test]
fn comment_disguised_ddl_is_blocked() {
    let (asked, r) = drive(
        execute(&state(Level::ReadWrite), "/* SELECT 1 */ DROP TABLE 売上"),
        vec![parsed(&[STATEMENT_DROP])],
    );
    let err = r.unwrap_err();
    assert!(err.contains("DROP"), "{err}");
    assert_eq!(runs(&asked), 0);
}

#[test]
fn dack_query_refuses_writes_even_at_admin_level() {
    let (_, r) = drive(
        query::query(&state(Level::Admin), "INSERT INTO 売上 VALUES (9,'x',1,NULL)"),
        vec![parsed(&[STATEMENT_INSERT])],
    );
    let err = r.unwrap_err();
    assert!(err.contains("DackQuery"), "{err}");
    assert!(err.contains("DackExecute"), "代替 API の案内が無い: {err}");
}

#[test]
fn readwrite_cannot_create_or_drop() {
    for (sql, t) in [
        ("CREATE TABLE t2 (a INTEGER)", STATEMENT_CREATE),
        ("DROP TABLE 売上", STATEMENT_DROP),
        ("ALTER TABLE 売上 ADD COLUMN 備考 VARCHAR", STATEMENT_ALTER),
        ("ATTACH 'other.db' AS o", STATEMENT_ATTACH),
        ("SET access_mode='READ_WRITE'", STATEMENT_SET),
        ("INSTALL httpfs", STATEMENT_LOAD),
    ] {
        let (_, r) = drive(execute_ddl(&state(Level::ReadWrite), sql), vec![parsed(&[t])]);
        let err = match r {
            Ok(_) => panic!("「{sql}」が読み書き DLL で実行できてしまった"),
            Err(e) => e,
        };
        assert!(
            err.contains("dackdb_admin.dll"),
            "「{sql}」が管理者 DLL への案内無しに扱われた: {err}"
        );
    }
}

#[test]
fn read_level_cannot_insert_through_execute() {
    let (_, r) = drive(
        execute(&state(Level::Read), "INSERT INTO 売上 VALUES (9,'x',1,NULL)"),
        vec![parsed(&[STATEMENT_INSERT])],
    );
    let err = r.unwrap_err();
    assert!(err.contains("dackdb_rw.dll"), "上位 DLL の案内が無い: {err}");
}

#[test]
fn admin_can_do_ddl() {
    let s = state(Level::Admin);
    for (sql, t) in [
        ("CREATE TABLE 新表 (a INTEGER PRIMARY KEY, b VARCHAR)", STATEMENT_CREATE),
        ("ALTER TABLE 新表 ADD COLUMN c DATE", STATEMENT_ALTER),
        ("DROP TABLE 新表", STATEMENT_DROP),
    ] {
        let (asked, r) = drive(execute_ddl(&s, sql), vec![parsed(&[t]), ran(&[], 0)]);
        assert_eq!(r.unwrap().value.llVal(), 0);
        assert!(matches!(&asked[1], Action::Run(text) if text == sql));
    }
    let (_, r) = drive(
        execute(&s, "INSERT INTO 新表 VALUES (1,'あ',NULL)"),
        vec![parsed(&[STATEMENT_INSERT]), ran(&[], 1)],
    );
    assert_eq!(r.unwrap().value.llVal(), 1);
}

#[test]
fn syntax_errors_report_duckdb_message() {
    let reply = Reply::Parsed(ParseReply {
        message: "syntax error at or near \"SELEC\"".to_string(),
        statements: vec![],
    });
    let (_, r) = drive(query::query(&state(Level::Read), "SELEC * FROM 売上"), vec![reply]);
    let err = r.unwrap_err();
    assert!(err.contains("構文エラー"), "{err}");
}

/// One row of parameters, as VBA hands it over.
fn params_of(values: Vec<VARIANT>) -> InputGrid {
    let mut g = Grid::with_cols(values.len());
    g.push_row(values);
    inbound::read_input_grid(g.into_variant().unwrap(), "パラメータ").unwrap()
}

#[test]
fn query_params_binds_values_including_japanese() {
    let sql = "SELECT id FROM 売上 WHERE 部署 = ?";
    let (asked, r) = drive(
        query_params(&state(Level::Read), sql, params_of(vec![VARIANT::bstr("技術部𠮷😀")])),
        vec![
            parsed_with(&[STATEMENT_SELECT], 1),
            Reply::Bound(Handover::Taken),
            ran(&[("id", TYPE_INTEGER)], 0),
            chunk(1, vec![ints(&[2])]),
            Reply::Fetched(None),
        ],
    );
    let v = r.unwrap();
    assert!(matches!(
        &asked[1],
        Action::Bind { index: 1, value: DuckValue::Varchar(s) } if s == "技術部𠮷😀"
    ));
    assert!(matches!(&asked[2], Action::RunPrepared));
    assert_eq!(size(&v).0, 2, "ヘッダ + 1 件ヒットするはず");
    assert_eq!(cell(&v, 2, 1).value.lVal(), 2);
}

#[test]
fn injection_payload_in_a_parameter_is_treated_as_data() {
    let payload = "' OR 1=1; DROP TABLE 売上; --";
    let sql = "SELECT id FROM 売上 WHERE 部署 = ?";
    let (asked, r) = drive(
        query_params(&state(Level::ReadWrite), sql, params_of(vec![VARIANT::bstr(payload)])),
        vec![
            parsed_with(&[STATEMENT_SELECT], 1),
            Reply::Bound(Handover::Taken),
            ran(&[("id", TYPE_INTEGER)], 0),
            Reply::Fetched(None),
        ],
    );
    assert_eq!(size(&r.unwrap()).0, 1, "ヘッダのみ（0 件ヒット）のはず");
    assert!(matches!(&asked[0], Action::Parse(s) if s == sql));
    assert!(matches!(&asked[1], Action::Bind { value: DuckValue::Varchar(s), .. } if s == payload));
    assert!(asked.iter().all(|a| !matches!(a, Action::Run(_))));
}

#[test]
fn parameter_count_mismatch_is_reported() {
    let params = params_of(vec![VARIANT::i32(1), VARIANT::i32(2)]);
    let (_, r) = drive(
        query_params(&state(Level::Read), "SELECT * FROM 売上 WHERE id = ?", params),
        vec![parsed_with(&[STATEMENT_SELECT], 1)],
    );
    let err = r.unwrap_err();
    assert!(err.contains("1 個"), "SQL 側の個数が示されていない: {err}");
    assert!(err.contains("2 個"), "渡された個数が示されていない: {err}");
}

#[test]
fn params_path_still_enforces_permissions() {
    let (asked, r) = drive(
        execute_params(
            &state(Level::Read),
            "DELETE FROM 売上 WHERE id = ?",
            params_of(vec![VARIANT::i32(9)]),
        ),
        vec![parsed_with(&[STATEMENT_DELETE], 1)],
    );
    let err = r.unwrap_err();
    assert!(err.contains("dackdb_rw.dll"), "権限ゲートが効いていない: {err}");
    assert_eq!(asked.len(), 1);
}

#[test]
fn params_path_rejects_multiple_statements() {
    let (asked, r) = drive(
        execute_params(
            &state(Level::ReadWrite),
            "DELETE FROM 売上 WHERE id = ?; DROP TABLE 売上;",
            params_of(vec![VARIANT::i32(1)]),
        ),
        vec![parsed_with(&[STATEMENT_DELETE, STATEMENT_DROP], 1)],
    );
    let err = r.unwrap_err();
    assert!(err.contains("1 文だけ"), "{err}");
    assert_eq!(asked.len(), 1);
}

#[test]
fn params_accept_both_row_and_column_orientation() {
    let horizontal = params_of(vec![VARIANT::i32(1), VARIANT::i32(2)]);
    let mut g2 = Grid::with_cols(1);
    g2.push_row(vec![VARIANT::i32(1)]);
    g2.push_row(vec![VARIANT::i32(2)]);
    let vertical = inbound::read_input_grid(g2.into_variant().unwrap(), "パラメータ").unwrap();

    for (params, label) in [(horizontal, "1 行 2 列"), (vertical, "2 行 1 列")] {
        let (asked, r) = drive(
            query_params(
                &state(Level::Read),
                "SELECT id FROM 売上 WHERE id IN (?, ?) ORDER BY id",
                params,
            ),
            vec![
                parsed_with(&[STATEMENT_SELECT], 2),
                Reply::Bound(Handover::Taken),
                Reply::Bound(Handover::Taken),
                ran(&[("id", TYPE_INTEGER)], 0),
                chunk(2, vec![ints(&[1, 2])]),
                Reply::Fetched(None),
            ],
        );
        let v = r.unwrap_or_else(|e| panic!("{label} で失敗: {e}"));
        assert!(matches!(&asked[1], Action::Bind { index: 1, value: DuckValue::Int64(1) }));
        assert!(matches!(&asked[2], Action::Bind { index: 2, value: DuckValue::Int64(2) }));
        assert_eq!(size(&v).0, 3, "{label}: ヘッダ + 2 件");
    }
}

#[test]
fn quoting_helpers_escape_correctly() {
    assert_eq!(quote_literal("O'Brien"), "'O''Brien'");
    assert_eq!(quote_ident("my\"col"), "\"my\"\"col\"");
    assert_eq!(quote_literal("売上"), "'売上'");
}

#[test]
fn describe_returns_column_metadata() {
    let columns = [
        ("列名", TYPE_VARCHAR),
        ("型", TYPE_VARCHAR),
        ("NULL可", TYPE_VARCHAR),
        ("既定値", TYPE_VARCHAR),
        ("位置", TYPE_INTEGER),
    ];
    let names = || {
        let s = ["id", "部署", "金額", "日付"].iter().map(|s| s.as_bytes().to_vec()).collect();
        vector(TYPE_VARCHAR, u64::MAX, vec![], s)
    };
    let (asked, r) = drive(
        describe("売上"),
        vec![
            ran(&columns, 0),
            chunk(4, vec![names(), names(), names(), names(), ints(&[1, 2, 3, 4])]),
            Reply::Fetched(None),
        ],
    );
    assert!(matches!(
        &asked[0],
        Action::Run(s) if s == "SELECT column_name AS 列名, data_type AS 型, is_nullable AS NULL可, \
            column_default AS 既定値, ordinal_position AS 位置 \
            FROM information_schema.columns WHERE table_name = '売上' ORDER BY ordinal_position"
    ));
    assert_eq!(size(&r.unwrap()).0, 5, "ヘッダ + 4 列");
}

#[test]
fn list_tables_includes_seeded_table() {
    let column = |s: &str| vector(TYPE_VARCHAR, u64::MAX, vec![], vec![s.as_bytes().to_vec()]);
    let (asked, r) = drive(
        list_tables(),
        vec![
            ran(
                &[
                    ("スキーマ", TYPE_VARCHAR),
                    ("テーブル名", TYPE_VARCHAR),
                    ("種別", TYPE_VARCHAR),
                ],
                0,
            ),
            chunk(1, vec![column("main"), column("売上"), column("BASE TABLE")]),
            Reply::Fetched(None),
        ],
    );
    assert!(matches!(
        &asked[0],
        Action::Run(s) if s == "SELECT table_schema AS スキーマ, table_name AS テーブル名, \
            table_type AS 種別 FROM information_schema.tables \
            ORDER BY table_schema, table_name"
    ));
    assert_eq!(text(cell(&r.unwrap(), 2, 2)), "売上");
}

#[test]
fn quoted_names_cannot_leave_their_literal() {
    let (asked, _) = drive(
        describe("x' OR '1'='1"),
        vec![Reply::Ran(Err("no".to_string()))],
    );
    assert!(matches!(
        &asked[0],
        Action::Run(s) if s.contains("WHERE table_name = 'x'' OR ''1''=''1' ORDER BY")
    ));
    assert_eq!(quote_literal(""), "''");
    assert_eq!(quote_literal("'"), "''''");
}

#[test]
fn texts_with_nul_never_reach_the_engine() {
    let nul = "文字列に NUL 文字が含まれています";
    for step in [
        query::query(&state(Level::Admin), "SELECT 1\0; DROP TABLE 売上"),
        execute(&state(Level::Admin), "\0"),
        query_params(&state(Level::Admin), "\0", params_of(vec![VARIANT::i32(1)])),
        describe("a\0b"),
    ] {
        let (asked, r) = drive(step, vec![]);
        assert!(asked.is_empty());
        assert_eq!(r.unwrap_err(), nul);
    }
}

#[test]
fn rows_come_in_any_number_of_chunks() {
    let (_, r) = drive(
        query::query(&state(Level::Read), "SELECT n FROM t"),
        vec![
            parsed(&[STATEMENT_SELECT]),
            ran(&[("n", TYPE_INTEGER), ("m", TYPE_INTEGER)], 0),
            chunk(2, vec![ints(&[1, 2]), ints(&[10, 20])]),
            chunk(0, vec![ints(&[]), ints(&[])]),
            chunk(1, vec![ints(&[3]), ints(&[30])]),
            Reply::Fetched(None),
        ],
    );
    let v = r.unwrap();
    assert_eq!(size(&v), (4, 2));
    let column: Vec<i32> = (2..=4).map(|r| cell(&v, r, 1).value.lVal()).collect();
    assert_eq!(column, vec![1, 2, 3]);
    let column: Vec<i32> = (2..=4).map(|r| cell(&v, r, 2).value.lVal()).collect();
    assert_eq!(column, vec![10, 20, 30]);
}

#[test]
fn too_many_rows_end_the_work_early() {
    let mut replies = vec![parsed(&[STATEMENT_SELECT]), ran(&[("n", TYPE_INTEGER)], 0)];
    for _ in 0..16 {
        let v = Vector { validity: None, ..ints(&vec![7; 65_536]) };
        replies.push(chunk(65_536, vec![v]));
    }
    let (_, r) = drive(query::query(&state(Level::Read), "SELECT n FROM t"), replies);
    assert_eq!(
        r.unwrap_err(),
        "結果が 1048577 行あり、Excel シートの上限 1048576 行を超えています。\
         SQL に LIMIT を付けて絞り込んでください。"
    );
}

#[test]
fn columns_are_checked_before_any_row_is_fetched() {
    let (asked, r) = drive(
        query::query(&state(Level::Read), "SELECT * FROM t"),
        vec![
            parsed(&[STATEMENT_SELECT]),
            ran(&[("id", TYPE_INTEGER), ("明細", TYPE_LIST)], 0),
        ],
    );
    let err = r.unwrap_err();
    assert!(err.contains("明細") && err.contains("LIST"), "{err}");
    assert_eq!(asked.len(), 2);

    let (_, r) = drive(
        query::query(&state(Level::Read), "EXPLAIN SELECT 1"),
        vec![parsed(&[STATEMENT_SELECT]), ran(&[], 0)],
    );
    assert_eq!(
        r.unwrap_err(),
        "この SQL は結果セットを返しません。DackExecute を使ってください。"
    );
}

#[test]
fn engine_failures_keep_their_message() {
    for (message, want) in [("Conversion Error", "Conversion Error"), ("", "SQL の実行に失敗しました")]
    {
        let (_, r) = drive(
            execute(&state(Level::Admin), "UPDATE t SET a = 1"),
            vec![parsed(&[STATEMENT_INSERT]), Reply::Ran(Err(message.to_string()))],
        );
        assert_eq!(r.unwrap_err(), want);
    }
}

#[test]
fn counts_above_the_signed_range_wrap() {
    let (_, r) = drive(
        execute(&state(Level::Admin), "x"),
        vec![parsed(&[STATEMENT_INSERT]), ran(&[], u64::MAX)],
    );
    assert_eq!(r.unwrap().value.llVal(), -1);
}

#[test]
fn parameters_that_do_not_bind_are_named() {
    let start = || {
        query_params(
            &state(Level::Read),
            "SELECT ?, ?",
            params_of(vec![VARIANT::i32(1), VARIANT::bstr("x")]),
        )
    };
    let two = || parsed_with(&[STATEMENT_SELECT], 2);
    let fail = |outcome: Handover| {
        drive(start(), vec![two(), Reply::Bound(Handover::Taken), Reply::Bound(outcome)])
            .1
            .unwrap_err()
    };
    assert_eq!(
        fail(Handover::Refused(String::new())),
        "2 番目のパラメータをバインドできませんでした"
    );
    assert_eq!(fail(Handover::Refused("bad".to_string())), "2 番目のパラメータ: bad");
    assert_eq!(
        fail(Handover::NoValue),
        "1 行 2 列目 を DuckDB の値に変換できませんでした"
    );

    let error_cell = VARIANT { vt: dackdb::oleaut::VT_ERROR, value: VARIANT_VALUE::Bits(0) };
    let (asked, r) = drive(
        query_params(
            &state(Level::Read),
            "SELECT ?, ?",
            params_of(vec![VARIANT::i32(1), error_cell]),
        ),
        vec![two(), Reply::Bound(Handover::Taken)],
    );
    assert!(r.unwrap_err().starts_with("1 行 2 列目: セルがエラー値"));
    assert_eq!(asked.len(), 2);
}

#[test]
fn a_block_of_parameters_is_refused() {
    let mut g = Grid::with_cols(2);
    g.push_row(vec![VARIANT::i32(1), VARIANT::i32(2)]);
    g.push_row(vec![VARIANT::i32(3), VARIANT::i32(4)]);
    let params = inbound::read_input_grid(g.into_variant().unwrap(), "パラメータ").unwrap();
    let (_, r) = drive(
        query_params(&state(Level::Read), "SELECT ?", params),
        vec![parsed_with(&[STATEMENT_SELECT], 4)],
    );
    assert_eq!(
        r.unwrap_err(),
        "パラメータは 1 行または 1 列で渡してください（2 行 2 列が渡されました）。"
    );
}

#[test]
fn a_connection_keeps_its_level() {
    let mut registry: Registry<()> = Registry::new();
    let h = registry.register(Level::Read, "a.db".to_string(), ());
    let step = conn::with_conn(&registry, h, |s| execute(s, "DELETE FROM t")).unwrap();
    let (_, r) = drive(step, vec![parsed(&[STATEMENT_DELETE])]);
    assert!(r.unwrap_err().contains("READ_ONLY"));
}

#[test]
fn schema_changes_are_answered_with_zero() {
    for changed in [0, 2, u64::MAX] {
        let (_, r) = drive(
            execute_ddl(&state(Level::Admin), "INSERT INTO t VALUES (1), (2)"),
            vec![parsed(&[STATEMENT_INSERT]), ran(&[], changed)],
        );
        let v = r.unwrap();
        assert_eq!((v.vt, v.value.llVal()), (VT_I8, 0));
    }
}

#[test]
fn messages_name_the_place_in_the_row_or_the_column() {
    let error_cell = || VARIANT { vt: dackdb::oleaut::VT_ERROR, value: VARIANT_VALUE::Bits(0) };
    let mut g = Grid::with_cols(1);
    g.push_row(vec![VARIANT::i32(1)]);
    g.push_row(vec![error_cell()]);
    let column = inbound::read_input_grid(g.into_variant().unwrap(), "パラメータ").unwrap();
    let row = params_of(vec![VARIANT::i32(1), error_cell()]);
    for (params, place) in [(row, "1 行 2 列目: "), (column, "2 行 1 列目: ")] {
        let (asked, r) = drive(
            query_params(&state(Level::Read), "SELECT ?, ?", params),
            vec![parsed_with(&[STATEMENT_SELECT], 2), Reply::Bound(Handover::Taken)],
        );
        assert!(matches!(&asked[1], Action::Bind { index: 1, value: DuckValue::Int64(1) }));
        assert!(r.unwrap_err().starts_with(place));
    }
}

#[test]
fn what_is_not_there_has_no_name_and_no_type() {
    let result = QueryResult {
        columns: vec![Column { name: "id".to_string(), type_id: TYPE_INTEGER }],
        changed: 0,
    };
    assert_eq!((result.column_name(0), result.column_type(0)), ("id".to_string(), TYPE_INTEGER));
    assert_eq!((result.column_name(1), result.column_type(1)), (String::new(), TYPE_INVALID));

    let statement = |ok: bool, message: &str| PrepareReply {
        ok,
        message: message.to_string(),
        statement_type: STATEMENT_SELECT,
        param_count: 3,
    };
    let extracted = Extracted {
        statements: vec![statement(true, ""), statement(false, "bad"), statement(false, "")],
    };
    assert_eq!(extracted.prepare(0).unwrap().param_count(), 3);
    assert_eq!(extracted.prepare(1).unwrap_err(), "bad");
    assert_eq!(extracted.prepare(2).unwrap_err(), "3 文目を解析できませんでした");
    assert_eq!(extracted.prepare(9).unwrap_err(), "10 文目を解析できませんでした");
}
