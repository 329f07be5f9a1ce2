use dackdb::level::capabilities;
use dackdb::Level;

#[test]
fn read_level_has_no_write_or_ddl() {
    assert!(!Level::Read.allows_write());
    assert!(!Level::Read.allows_ddl());
}

#[test]
fn readwrite_allows_write_but_not_ddl() {
    assert!(Level::ReadWrite.allows_write());
    assert!(!Level::ReadWrite.allows_ddl());
}

#[test]
fn admin_allows_everything() {
    assert!(Level::Admin.allows_write());
    assert!(Level::Admin.allows_ddl());
}

#[test]
fn capabilities_grow_monotonically() {
    let r = capabilities(Level::Read);
    let rw = capabilities(Level::ReadWrite);
    let a = capabilities(Level::Admin);
    assert!(r.len() < rw.len() && rw.len() < a.len());
    assert!(r.iter().all(|f| rw.contains(f)));
    assert!(rw.iter().all(|f| a.contains(f)));
}

#[test]
fn capabilities_keep_their_order() {
    assert_eq!(
        capabilities(Level::Read),
        vec![
            "DackVersion",
            "DackCapabilities",
            "DackOpen",
            "DackClose",
            "DackQuery",
            "DackQueryParams",
            "DackListTables",
            "DackDescribe",
        ]
    );
    assert_eq!(
        capabilities(Level::ReadWrite)[8..].to_vec(),
        vec![
            "DackExecute",
            "DackExecuteParams",
            "DackAppendArray",
            "DackBegin",
            "DackCommit",
            "DackRollback",
        ]
    );
    assert_eq!(
        capabilities(Level::Admin)[14..].to_vec(),
        vec!["DackCreateDatabase", "DackExecuteDDL", "DackExportSchema", "DackCheckpoint"]
    );
}

#[test]
fn levels_have_names_and_descriptions() {
    assert_eq!(Level::Read.name(), "READ_ONLY");
    assert_eq!(Level::ReadWrite.name(), "READ_WRITE");
    assert_eq!(Level::Admin.name(), "ADMIN");
    assert_eq!(Level::Read.description_ja(), "読み取り専用");
    assert_eq!(Level::ReadWrite.description_ja(), "読み書き可（DDL 不可）");
    assert_eq!(Level::Admin.description_ja(), "管理者（全機能）");
    assert!(Level::Read < Level::ReadWrite && Level::ReadWrite < Level::Admin);
}

#[test]
fn version_names_the_level_and_the_engine() {
    assert_eq!(
        dackdb::version_string(Level::ReadWrite, "v1.4.1"),
        "dackdb 0.1.0 / DuckDB v1.4.1 / 権限: READ_WRITE (読み書き可（DDL 不可）)"
    );
    assert_eq!(dackdb::duckdb_version(None), "unknown");
    assert_eq!(dackdb::duckdb_version(Some("v1.4.1".as_bytes())), "v1.4.1");
    let odd: &[u8] = &[0x76, 0xFF, 0x31];
    assert_eq!(dackdb::duckdb_version(Some(odd)), String::from_utf8_lossy(odd));
}
