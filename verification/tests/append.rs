use dackdb::append::append_array;
use dackdb::inbound::{self, DuckValue, InputGrid};
use dackdb::oleaut::{OleDate, VARIANT, VARIANT_VALUE, VT_ERROR};
use dackdb::raw::QueryResult;
use dackdb::task::{Action, Handover, Reply, Step};
use dackdb::variant::Grid;

/// An engine with one table, `売上`, of four columns.
struct Engine {
    table: Vec<Vec<DuckValue>>,
    /// What was written within the transaction.
    written: Vec<Vec<DuckValue>>,
    buffer: Vec<Vec<DuckValue>>,
    row: Vec<DuckValue>,
    in_transaction: bool,
    open: bool,
    log: Vec<&'static str>,
    fail_at: &'static str,
}

impl Engine {
    fn new() -> Engine {
        Engine {
            table: vec![],
            written: vec![],
            buffer: vec![],
            row: vec![],
            in_transaction: false,
            open: false,
            log: vec![],
            fail_at: "",
        }
    }

    fn fails(&mut self, what: &'static str) -> bool {
        self.log.push(what);
        self.fail_at == what
    }

    fn perform(&mut self, action: Action) -> Reply {
        let ok = || Ok(QueryResult { columns: vec![], changed: 0 });
        match action {
            Action::OpenAppender(table) => {
                self.log.push("open");
                if table == "売上" {
                    self.open = true;
                    Reply::AppenderOpened(Ok(4))
                } else {
                    Reply::AppenderOpened(Err(String::new()))
                }
            }
            Action::Run(sql) => match sql.as_str() {
                "BEGIN TRANSACTION" => {
                    if self.fails("begin") {
                        return Reply::Ran(Err("no transaction".to_string()));
                    }
                    self.in_transaction = true;
                    Reply::Ran(ok())
                }
                "COMMIT" => {
                    assert!(self.in_transaction);
                    self.in_transaction = false;
                    if self.fails("commit") {
                        self.written.clear();
                        return Reply::Ran(Err(String::new()));
                    }
                    self.table.append(&mut self.written);
                    Reply::Ran(ok())
                }
                "ROLLBACK" => {
                    assert!(self.in_transaction);
                    self.in_transaction = false;
                    self.log.push("rollback");
                    self.written.clear();
                    Reply::Ran(ok())
                }
                other => panic!("{other}"),
            },
            Action::Append(v) => {
                assert!(self.open && self.in_transaction);
                if self.fail_at == "append" && self.buffer.len() + self.written.len() == 1 {
                    return Reply::Appended(Handover::Refused("too long".to_string()));
                }
                if self.fail_at == "value" {
                    return Reply::Appended(Handover::NoValue);
                }
                self.row.push(v);
                Reply::Appended(Handover::Taken)
            }
            Action::EndRow => {
                if self.fail_at == "row" {
                    return Reply::RowEnded(Err("constraint".to_string()));
                }
                assert_eq!(self.row.len(), 4);
                self.buffer.push(std::mem::take(&mut self.row));
                if self.buffer.len() == 2048 {
                    self.written.append(&mut self.buffer);
                }
                Reply::RowEnded(Ok(()))
            }
            Action::Flush => {
                if self.fails("flush") {
                    return Reply::Flushed(Err(String::new()));
                }
                self.written.append(&mut self.buffer);
                Reply::Flushed(Ok(()))
            }
            Action::CloseAppender => {
                assert!(self.open);
                self.open = false;
                self.log.push("close");
                Reply::AppenderClosed
            }
            other => panic!("{other:?}"),
        }
    }

    fn run(&mut self, step: Step) -> Result<VARIANT, String> {
        let mut now = step;
        loop {
            now = match now {
                Step::Done(r) => {
                    assert!(!self.open, "the appender is left open");
                    assert!(!self.in_transaction, "the transaction is left open");
                    return r;
                }
                Step::Ask { action, task } => task.step(self.perform(action)),
            };
        }
    }
}

fn make_input(rows: Vec<Vec<VARIANT>>) -> InputGrid {
    let cols = rows[0].len();
    let mut g = Grid::with_cols(cols);
    for r in rows {
        g.push_row(r);
    }
    inbound::read_input_grid(g.into_variant().unwrap(), "データ").unwrap()
}

fn row(n: i32) -> Vec<VARIANT> {
    vec![VARIANT::i32(n), VARIANT::bstr("営業部"), VARIANT::i64(n as i64), VARIANT::null()]
}

#[test]
fn appends_rows_with_japanese_and_nulls() {
    let input = make_input(vec![
        vec![
            VARIANT::i32(1),
            VARIANT::bstr("技術部𠮷😀"),
            VARIANT::i64(1000),
            VARIANT::date(OleDate::Serial(45306)),
        ],
        vec![VARIANT::i32(2), VARIANT::null(), VARIANT::empty(), VARIANT::null()],
    ]);
    let mut engine = Engine::new();
    let n = engine.run(append_array("売上", input)).unwrap();
    assert_eq!(n.value.llVal(), 2);
    assert_eq!(engine.table.len(), 2);
    assert!(matches!(&engine.table[0][1], DuckValue::Varchar(s) if s == "技術部𠮷😀"));
    // 2024-01-15
    assert!(matches!(&engine.table[0][3], DuckValue::Timestamp(1_705_276_800_000_000)));
    assert!(matches!(&engine.table[1][1], DuckValue::Null));
    assert!(matches!(&engine.table[1][2], DuckValue::Null));
    assert_eq!(engine.log, vec!["open", "begin", "flush", "close", "commit"]);
}

#[test]
fn column_count_mismatch_is_reported_clearly() {
    let input = make_input(vec![vec![VARIANT::i32(1), VARIANT::bstr("営業部")]]);
    let mut engine = Engine::new();
    let err = engine.run(append_array("売上", input)).unwrap_err();
    assert!(err.contains("4 列"), "テーブルの列数が示されていない: {err}");
    assert!(err.contains("2 列"), "渡された列数が示されていない: {err}");
    assert_eq!(engine.log, vec!["open", "close"]);
}

#[test]
fn a_failing_row_rolls_back_the_whole_batch() {
    let mut rows = Vec::new();
    for i in 0..4000i32 {
        let third = if i == 3000 {
            VARIANT { vt: VT_ERROR, value: VARIANT_VALUE::Bits(-2146826246i32 as u32 as u64) }
        } else {
            VARIANT::i64(i as i64 * 100)
        };
        rows.push(vec![VARIANT::i32(i), VARIANT::bstr("営業部"), third, VARIANT::null()]);
    }
    let mut engine = Engine::new();
    let err = engine.run(append_array("売上", make_input(rows))).unwrap_err();
    assert!(err.contains("3001 行"), "失敗位置が示されていない: {err}");
    assert_eq!(engine.table.len(), 0, "失敗したのに行が残っている（部分投入）");
    assert_eq!(engine.log, vec!["open", "begin", "close", "rollback"]);
}

#[test]
fn unknown_table_is_reported_clearly() {
    let input = make_input(vec![vec![VARIANT::i32(1)]]);
    let mut engine = Engine::new();
    let err = engine.run(append_array("存在しない表", input)).unwrap_err();
    assert!(!err.is_empty());
    assert_eq!(
        err,
        "テーブル「存在しない表」を開けませんでした。名前を確認してください。"
    );
}

#[test]
fn large_batch_is_fast_and_complete() {
    let rows = (0..50_000i32).map(row).collect();
    let mut engine = Engine::new();
    let n = engine.run(append_array("売上", make_input(rows))).unwrap();
    assert_eq!(n.value.llVal(), 50_000);
    assert_eq!(engine.table.len(), 50_000);
    assert!(matches!(&engine.table[49_999][0], DuckValue::Int64(49_999)));
}

#[test]
fn every_failure_of_the_engine_leaves_the_table_alone() {
    for (fail_at, want, log) in [
        ("begin", "no transaction", vec!["open", "begin", "close"]),
        ("append", "2 行 1 列目: too long", vec!["open", "begin", "close", "rollback"]),
        (
            "value",
            "1 行 1 列目 を DuckDB の値に変換できませんでした",
            vec!["open", "begin", "close", "rollback"],
        ),
        ("row", "1 行目: constraint", vec!["open", "begin", "close", "rollback"]),
        (
            "flush",
            "テーブルへの書き出しに失敗しました",
            vec!["open", "begin", "flush", "rollback", "close"],
        ),
        (
            "commit",
            "SQL の実行に失敗しました",
            vec!["open", "begin", "flush", "close", "commit"],
        ),
    ] {
        let mut engine = Engine { fail_at, ..Engine::new() };
        let err = engine.run(append_array("売上", make_input(vec![row(1), row(2)]))).unwrap_err();
        assert_eq!(err, want);
        assert_eq!(engine.log, log);
        assert_eq!(engine.table.len(), 0);
    }
}

#[test]
fn the_mismatch_message_is_exact() {
    let mut engine = Engine::new();
    let input = make_input(vec![vec![VARIANT::i32(1)]]);
    assert_eq!(
        engine.run(append_array("売上", input)).unwrap_err(),
        "テーブル「売上」は 4 列ですが、渡された範囲は 1 列です。\n\
         列数を合わせてください（見出し行は含めず、テーブルの列順に並べます）。"
    );
}

#[test]
fn a_table_name_with_nul_is_refused() {
    let mut engine = Engine::new();
    let err = engine.run(append_array("売\0上", make_input(vec![row(1)]))).unwrap_err();
    assert_eq!(err, "文字列に NUL 文字が含まれています");
    assert!(engine.log.is_empty());
}
