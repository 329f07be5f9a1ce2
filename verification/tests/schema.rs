use dackdb::oleaut::{
    bstr_to_string, SafeArrayData, VARIANT, VARIANT_VALUE, VT_ARRAY, VT_BSTR, VT_VARIANT,
};
use dackdb::raw::{Column, DataChunk, QueryResult, Vector};
use dackdb::schema::export;
use dackdb::task::{Action, Reply, Step};
use dackdb::value::{TYPE_INTEGER, TYPE_VARCHAR};

fn drive(step: Step, replies: Vec<Reply>) -> (Vec<Action>, Result<VARIANT, String>) {
    let mut asked = Vec::new();
    let mut replies = replies.into_iter();
    let mut now = step;
    loop {
        now = match now {
            Step::Done(r) => return (asked, r),
            Step::Ask { action, task } => {
                asked.push(action);
                task.step(replies.next().unwrap())
            }
        };
    }
}

fn vector(type_id: u32, data: Vec<u8>, strings: &[&str]) -> Vector {
    Vector {
        type_id,
        decimal_width: 0,
        decimal_scale: 0,
        decimal_internal: 0,
        enum_internal: 0,
        dictionary: vec![],
        validity: None,
        data,
        strings: strings.iter().map(|s| s.as_bytes().to_vec()).collect(),
        calendar: vec![],
    }
}

fn texts(strings: &[&str]) -> Vector {
    vector(TYPE_VARCHAR, vec![], strings)
}

fn ran(columns: &[(&str, u32)]) -> Reply {
    Reply::Ran(Ok(QueryResult {
        columns: columns
            .iter()
            .map(|(name, type_id)| Column { name: name.to_string(), type_id: *type_id })
            .collect(),
        changed: 0,
    }))
}

const COLUMNS: [(&str, u32); 8] = [
    ("スキーマ", TYPE_VARCHAR),
    ("テーブル", TYPE_VARCHAR),
    ("位置", TYPE_INTEGER),
    ("列名", TYPE_VARCHAR),
    ("型", TYPE_VARCHAR),
    ("NULL可", TYPE_VARCHAR),
    ("既定値", TYPE_VARCHAR),
    ("キー", TYPE_VARCHAR),
];

fn employee_rows() -> Reply {
    let positions = [1i32, 2, 3].iter().flat_map(|n| n.to_le_bytes()).collect();
    Reply::Fetched(Some(DataChunk {
        rows: 3,
        vectors: vec![
            texts(&["main", "main", "main"]),
            texts(&["社員", "社員", "社員"]),
            vector(TYPE_INTEGER, positions, &[]),
            texts(&["社員番号", "氏名", "入社日"]),
            texts(&["INTEGER", "VARCHAR", "DATE"]),
            texts(&["NO", "NO", "YES"]),
            texts(&["", "", "'2000-01-01'"]),
            texts(&["PK", "", ""]),
        ],
    }))
}

fn text(v: &VARIANT) -> String {
    match &v.value {
        VARIANT_VALUE::Bstr(b) => bstr_to_string(b),
        _ => String::new(),
    }
}

#[test]
fn table_format_marks_primary_key_and_keeps_japanese() {
    let (asked, r) =
        drive(export("table"), vec![ran(&COLUMNS), employee_rows(), Reply::Fetched(None)]);
    assert!(matches!(
        &asked[0],
        Action::Run(s) if s.contains("list_contains(pk.cols, c.column_name)")
            && s.starts_with("\nSELECT c.table_schema                        AS \"スキーマ\",\n")
            && s.ends_with("ORDER BY c.table_schema, c.table_name, c.ordinal_position\n")
    ));
    let v = r.unwrap();
    let a = match &v.value {
        VARIANT_VALUE::Array(Some(a)) => a,
        _ => panic!("not an array"),
    };
    assert_eq!(a.bounds[0].unwrap().cElements, 4, "ヘッダ + 3 列分の行");
    assert_eq!(a.bounds[1].unwrap().cElements, 8, "8 項目");
    let get = |r: usize, c: usize| match &a.data {
        Some(SafeArrayData::Variants(d)) => text(&d[(c - 1) * 4 + r - 1]),
        _ => panic!("no variants"),
    };
    assert_eq!(get(1, 8), "キー", "ヘッダの日本語");
    assert_eq!(get(2, 4), "社員番号", "1 列目の列名");
    assert_eq!(get(2, 8), "PK", "主キーが PK と印されていない");
    assert_eq!(get(3, 4), "氏名");
    assert_eq!(get(3, 8), "", "非主キー列に PK が付いている");
}

#[test]
fn ddl_format_returns_create_statements() {
    let create = "CREATE TABLE 社員(社員番号 INTEGER PRIMARY KEY);";
    let rows = DataChunk { rows: 1, vectors: vec![texts(&[create])] };
    let (asked, r) =
        drive(export("ddl"), vec![ran(&[("ddl", TYPE_VARCHAR)]), Reply::Fetched(Some(rows))]);
    assert!(matches!(&asked[0], Action::Run(s) if s.contains("FROM duckdb_tables()")));
    let v = r.unwrap();
    assert_eq!(v.vt, VT_BSTR);
    let ddl = text(&v);
    assert!(ddl.contains("CREATE TABLE"), "CREATE 文が無い: {ddl}");
    assert!(ddl.contains("社員"), "テーブル名が無い: {ddl}");
    assert_eq!(ddl, create);
}

#[test]
fn unknown_format_is_rejected_with_valid_options() {
    let (asked, r) = drive(export("json"), vec![]);
    let err = r.unwrap_err();
    assert!(err.contains("table"), "{err}");
    assert!(err.contains("ddl"), "{err}");
    assert!(asked.is_empty());
}

#[test]
fn empty_format_defaults_to_table() {
    let (_, r) = drive(export(""), vec![ran(&COLUMNS), employee_rows(), Reply::Fetched(None)]);
    assert_eq!(r.unwrap().vt, VT_ARRAY | VT_VARIANT);
}

#[test]
fn formats_may_be_written_in_any_case() {
    for format in ["  TABLE\t", "Table", " "] {
        let (asked, _) = drive(export(format), vec![Reply::Ran(Err(String::new()))]);
        assert!(matches!(&asked[0], Action::Run(s) if s.contains("information_schema.columns")));
    }
    let (_, r) = drive(export(" JSON "), vec![]);
    assert_eq!(
        r.unwrap_err(),
        "未知の形式「json」です。\"table\"（2 次元配列）か \"ddl\"（CREATE 文）を指定してください。"
    );
}

#[test]
fn a_schema_without_tables_says_so() {
    let none = "-- テーブルがありません";
    let column = || ran(&[("ddl", TYPE_VARCHAR)]);
    let empty = DataChunk { rows: 0, vectors: vec![texts(&[])] };
    let null = DataChunk {
        rows: 1,
        vectors: vec![Vector { validity: Some(vec![0]), ..texts(&[""]) }],
    };
    for replies in [
        vec![ran(&[])],
        vec![column(), Reply::Fetched(None)],
        vec![column(), Reply::Fetched(Some(empty))],
        vec![column(), Reply::Fetched(Some(null))],
    ] {
        let (_, r) = drive(export("ddl"), replies);
        assert_eq!(text(&r.unwrap()), none);
    }
}
