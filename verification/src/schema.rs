//! Output of the schema.
use crate::oleaut;
use crate::oleaut::{Shown, VARIANT};
use crate::query;
use crate::query::Goal;
use crate::raw::{DataChunk, QueryResult};
use crate::task;
use crate::task::{Reply, Step, StepView};
use crate::text;
use crate::value;
use crate::variant::Answer;
use vstd::prelude::*;

verus! {

/// The text that lists all columns. A primary key's columns are a list in the
/// engine, which no cell can show; here each column of one is marked.
pub const SCHEMA_TABLE_SQL: &'static str = r#"
SELECT c.table_schema                        AS "スキーマ",
       c.table_name                          AS "テーブル",
       c.ordinal_position                    AS "位置",
       c.column_name                         AS "列名",
       c.data_type                           AS "型",
       c.is_nullable                         AS "NULL可",
       COALESCE(c.column_default, '')        AS "既定値",
       CASE WHEN pk.cols IS NOT NULL AND list_contains(pk.cols, c.column_name)
            THEN 'PK' ELSE '' END            AS "キー"
FROM information_schema.columns c
LEFT JOIN (
    SELECT schema_name, table_name, constraint_column_names AS cols
    FROM duckdb_constraints()
    WHERE constraint_type = 'PRIMARY KEY'
) pk
  ON pk.table_name = c.table_name AND pk.schema_name = c.table_schema
ORDER BY c.table_schema, c.table_name, c.ordinal_position
"#;

/// The text that puts the CREATE statements of all tables into one cell.
pub const SCHEMA_DDL_SQL: &'static str = r#"
SELECT string_agg(sql, chr(10) || chr(10) ORDER BY schema_name, table_name)
FROM duckdb_tables()
"#;

/// What stands for a schema without tables.
pub const NO_TABLES: &'static str = "-- テーブルがありません";

/// What is answered for the CREATE statements; `None` where there are none.
pub open spec fn shown_ddl(ddl: Option<Seq<char>>) -> Shown {
    match ddl {
        Some(s) => oleaut::shown_text(s),
        None => oleaut::shown_text(NO_TABLES@),
    }
}

/// The answer with the CREATE statements; `None` where there are none.
pub fn ddl_answer(ddl: Option<String>) -> (r: VARIANT)
    ensures
        r@ == shown_ddl(
            match ddl {
                Some(s) => Some(s@),
                None => None,
            },
        ),
{
    match ddl {
        Some(s) => VARIANT::bstr(s.as_str()),
        None => VARIANT::bstr(NO_TABLES),
    }
}

/// How the output begins: a table, or the CREATE statements as one text.
pub open spec fn exporting(format: Seq<char>) -> StepView {
    let f = text::lowered(text::trimmed(format));
    if f == ""@ || f == "table"@ {
        query::ask_run(SCHEMA_TABLE_SQL@, Goal::Rows)
    } else if f == "ddl"@ {
        query::ask_run(SCHEMA_DDL_SQL@, Goal::Text)
    } else {
        task::failed(
            "未知の形式「"@ + f
                + "」です。\"table\"（2 次元配列）か \"ddl\"（CREATE 文）を指定してください。"@,
        )
    }
}

/// The format is `table` or none for a table, and `ddl` for the CREATE statements, in
/// any case and with white space around it; any other is an error that names both.
pub proof fn law_formats(format: Seq<char>)
    ensures
        ({
            let f = text::lowered(text::trimmed(format));
            let start = exporting(format);
            &&& f.len() == 0 || f == seq!['t', 'a', 'b', 'l', 'e'] ==> start == query::ask_run(
                SCHEMA_TABLE_SQL@,
                Goal::Rows,
            )
            &&& f == seq!['d', 'd', 'l'] ==> start == query::ask_run(SCHEMA_DDL_SQL@, Goal::Text)
            &&& f.len() > 0 && f != seq!['t', 'a', 'b', 'l', 'e'] && f != seq!['d', 'd', 'l'] ==> (
            start matches StepView::Done(r) && r is Err)
        }),
{
    reveal_strlit("");
    reveal_strlit("table");
    reveal_strlit("ddl");
    let f = text::lowered(text::trimmed(format));
    assert("table"@ == seq!['t', 'a', 'b', 'l', 'e']);
    assert("ddl"@ == seq!['d', 'd', 'l']);
    assert(f.len() == 0 ==> f == ""@);
}

/// Two formats that differ in case alone, or in the white space around them, are one.
pub proof fn law_formats_in_any_case(a: Seq<char>, b: Seq<char>)
    requires
        text::lowered(text::trimmed(a)) == text::lowered(text::trimmed(b)),
    ensures
        exporting(a) == exporting(b),
{
}

/// The CREATE statements are the text in the first cell of the result, whatever else
/// it holds. Where there is no cell, or it holds no text, a line says so.
#[verifier::spinoff_prover]
pub proof fn law_create_statements(sql: Seq<char>, q: QueryResult, c: DataChunk, s: Seq<char>)
    ensures
        ({
            let start = query::ask_run(sql, Goal::Text);
            let none = StepView::Done(
                Ok(Answer::Value(oleaut::shown_text("-- テーブルがありません"@))),
            );
            let ran = Reply::Ran(Ok(q));
            &&& q.columns@.len() == 0 ==> task::after(start, seq![ran]) == none
            &&& q.columns@.len() > 0 ==> {
                &&& task::after(start, seq![ran]) is Ask
                &&& task::after(start, seq![ran])->action == task::ActionView::Fetch
                &&& task::after(start, seq![ran] + seq![Reply::Fetched(None)]) == none
                &&& c.rows > 0 && value::cell_at(c.vectors@[0], 0) == oleaut::shown_text(s)
                    ==> task::after(start, seq![ran] + seq![Reply::Fetched(Some(c))])
                    == StepView::Done(Ok(Answer::Value(oleaut::shown_text(s))))
                &&& c.rows > 0 && value::cell_at(c.vectors@[0], 0) == oleaut::shown_null()
                    ==> task::after(start, seq![ran] + seq![Reply::Fetched(Some(c))]) == none
                &&& c.rows == 0 ==> task::after(start, seq![ran] + seq![Reply::Fetched(Some(c))])
                    == none
            }
        }),
{
    let start = query::ask_run(sql, Goal::Text);
    let ran = Reply::Ran(Ok(q));
    task::lemma_after_one(start, ran);
    if q.columns@.len() > 0 {
        let next = task::after(start, seq![ran]);
        task::lemma_after_both(start, seq![ran], seq![Reply::Fetched(None)]);
        task::lemma_after_both(start, seq![ran], seq![Reply::Fetched(Some(c))]);
        task::lemma_after_one(next, Reply::Fetched(None));
        task::lemma_after_one(next, Reply::Fetched(Some(c)));
        text::law_utf16_round_trip(s);
    }
}

/// Begins the output in this format: `table` (which no format means too) or
/// `ddl`, in any case.
pub fn export(format: &str) -> (r: Step)
    ensures
        r@ == exporting(format@),
        r.wf(),
{
    let trimmed = text::trim(format);
    let f = text::to_lower(trimmed.as_str());
    if f == "".to_owned() || f == "table".to_owned() {
        return query::run_internal(SCHEMA_TABLE_SQL, Goal::Rows);
    }
    if f == "ddl".to_owned() {
        return query::run_internal(SCHEMA_DDL_SQL, Goal::Text);
    }
    let mut m = "未知の形式「".to_owned();
    m.append(f.as_str());
    m.append(
        "」です。\"table\"（2 次元配列）か \"ddl\"（CREATE 文）を指定してください。",
    );
    Step::Done(Err(m))
}

} // verus!
