use dackdb::conn::{
    build_config, close, create, open, open_count, with_conn, ConfigReply, OpenAction, OpenOptions,
    OpenReply, Opening, Registry,
};
use dackdb::Level;

/// Opens with the replies of an engine for which all goes well.
fn opened(level: Level, path: &str, found: bool) -> Result<(Level, String), String> {
    let mut now = open(level, path, OpenOptions::default());
    loop {
        now = match now {
            Opening::Refused(m) => return Err(m),
            Opening::Ready { level, path } => return Ok((level, path)),
            Opening::Ask { action, task } => task.step(match action {
                OpenAction::FindFile(_) => OpenReply::Found(found),
                OpenAction::Configure(_) => OpenReply::Configured(ConfigReply::Made),
                OpenAction::OpenDatabase(_) => OpenReply::Opened(None),
                OpenAction::Connect => OpenReply::Connected(true),
            }),
        };
    }
}

fn ask(now: Opening) -> (OpenAction, dackdb::conn::OpenTask) {
    match now {
        Opening::Ask { action, task } => (action, task),
        other => panic!("{other:?}"),
    }
}

fn refused(now: Opening) -> String {
    match now {
        Opening::Refused(m) => m,
        other => panic!("{other:?}"),
    }
}

fn settings(level: Level, allow_external_access: bool) -> Vec<(&'static str, &'static str)> {
    build_config(level, OpenOptions { allow_external_access })
        .iter()
        .map(|s| (s.name, s.value))
        .collect()
}

#[test]
fn read_level_reports_missing_file_clearly() {
    let err = opened(Level::Read, "C:/存在しないフォルダ/無い.db", false).unwrap_err();
    assert!(err.contains("見つかりません"), "{err}");
    assert!(err.contains("dackdb_admin.dll"), "上位 DLL への案内が無い: {err}");
}

#[test]
fn empty_path_is_rejected() {
    let err = refused(open(Level::Read, "   ", OpenOptions::default()));
    assert!(err.contains("パスが空"), "{err}");
}

#[test]
fn bad_handles_error_instead_of_crashing() {
    let mut registry: Registry<u8> = Registry::new();
    for h in [0i64, -1, i64::MAX, i64::MIN, 999_999] {
        let r = with_conn(&registry, h, |_| ());
        assert!(r.is_err(), "ハンドル {h} がエラーにならなかった");
        assert!(close(&mut registry, h).is_err(), "ハンドル {h} の close がエラーにならなかった");
    }
}

#[test]
fn double_close_is_an_error() {
    let mut registry: Registry<u8> = Registry::new();
    let h = registry.register(Level::Admin, "double.db".to_string(), 1);
    close(&mut registry, h).unwrap();
    assert!(close(&mut registry, h).is_err(), "二重 close がエラーにならなかった");
}

#[test]
fn a_readable_file_is_opened_at_its_level() {
    assert_eq!(
        opened(Level::Read, "  C:/売上.db ", true),
        Ok((Level::Read, "C:/売上.db".to_string()))
    );
    assert_eq!(
        opened(Level::Read, ":memory:", false),
        Ok((Level::Read, ":memory:".to_string()))
    );
    assert_eq!(
        opened(Level::ReadWrite, "new.db", false),
        Ok((Level::ReadWrite, "new.db".to_string()))
    );
}

#[test]
fn the_missing_file_is_named() {
    assert_eq!(
        opened(Level::Read, "無い.db", false).unwrap_err(),
        "データベースファイルが見つかりません: 無い.db\n\
         読み取り専用 DLL は新しいファイルを作成できません。\
         作成するには dackdb_admin.dll の DackCreateDatabase を使ってください。"
    );
}

#[test]
fn settings_of_each_level() {
    assert_eq!(
        settings(Level::Read, true),
        vec![
            ("access_mode", "READ_ONLY"),
            ("enable_external_access", "false"),
            ("allow_unsigned_extensions", "false"),
            ("autoinstall_known_extensions", "false"),
            ("autoload_known_extensions", "false"),
            ("lock_configuration", "true"),
        ]
    );
    assert_eq!(
        settings(Level::ReadWrite, true),
        vec![
            ("access_mode", "READ_WRITE"),
            ("enable_external_access", "false"),
            ("allow_unsigned_extensions", "false"),
            ("autoinstall_known_extensions", "false"),
            ("autoload_known_extensions", "false"),
            ("lock_configuration", "true"),
        ]
    );
    assert_eq!(
        settings(Level::Admin, true),
        vec![
            ("access_mode", "READ_WRITE"),
            ("enable_external_access", "true"),
            ("allow_unsigned_extensions", "false"),
            ("autoload_known_extensions", "true"),
            ("lock_configuration", "false"),
        ]
    );
    assert_eq!(settings(Level::Admin, false)[1], ("enable_external_access", "false"));
}

#[test]
fn each_failure_on_the_way_is_told() {
    let start = || ask(open(Level::ReadWrite, "a.db", OpenOptions::default())).1;
    assert_eq!(
        refused(start().step(OpenReply::Configured(ConfigReply::NotMade))),
        "DuckDB の設定オブジェクトを作成できませんでした"
    );
    assert_eq!(
        refused(start().step(OpenReply::Configured(ConfigReply::NotSet(1)))),
        "DuckDB の設定 'enable_external_access' = 'false' に失敗しました"
    );
    let configured = || ask(start().step(OpenReply::Configured(ConfigReply::Made))).1;
    assert_eq!(
        refused(configured().step(OpenReply::Opened(Some(String::new())))),
        "データベース 'a.db' を開けませんでした"
    );
    assert_eq!(
        refused(configured().step(OpenReply::Opened(Some("locked".to_string())))),
        "データベース 'a.db' を開けませんでした: locked"
    );
    let task = ask(configured().step(OpenReply::Opened(None))).1;
    assert_eq!(
        refused(task.step(OpenReply::Connected(false))),
        "データベースへの接続に失敗しました"
    );
}

#[test]
fn a_path_with_nul_is_refused() {
    assert_eq!(
        opened(Level::Admin, "a\0b.db", true).unwrap_err(),
        "文字列に NUL 文字が含まれています"
    );
}

#[test]
fn creating_asks_for_the_file_first() {
    let (action, task) = ask(create(Level::Admin, " 新規.db ", OpenOptions::default()));
    assert!(matches!(action, OpenAction::FindFile(p) if p == "新規.db"));
    assert_eq!(
        refused(task.step(OpenReply::Found(true))),
        "ファイルが既に存在します: 新規.db\n\
         既存のデータベースを開くには DackOpen を使ってください。\
         上書きが必要な場合は先にファイルを削除してください。"
    );
    let (_, task) = ask(create(Level::Admin, "新規.db", OpenOptions::default()));
    let (action, _) = ask(task.step(OpenReply::Found(false)));
    assert!(matches!(action, OpenAction::Configure(s) if s.len() == 5));
    assert_eq!(
        refused(create(Level::Admin, " ", OpenOptions::default())),
        "作成するデータベースのパスが空です。"
    );
}

#[test]
fn handles_are_never_given_out_twice() {
    let mut registry: Registry<&str> = Registry::new();
    assert_eq!(open_count(&registry), 0);
    let a = registry.register(Level::Read, "a.db".to_string(), "a");
    let b = registry.register(Level::Admin, "b.db".to_string(), "b");
    assert_eq!((a, b), (1, 2));
    assert_eq!(open_count(&registry), 2);
    close(&mut registry, a).unwrap();
    let c = registry.register(Level::Read, "c.db".to_string(), "c");
    assert_eq!(c, 3);
    assert_eq!(with_conn(&registry, b, |s| (s.conn, s.level)), Ok(("b", Level::Admin)));
    assert_eq!(
        with_conn(&registry, a, |s| s.path.clone()).unwrap_err(),
        "接続ハンドル 1 は無効です。\
         DackOpen が成功していないか、既に DackClose 済みの可能性があります。"
    );
    assert_eq!(open_count(&registry), 2);
}

#[test]
fn texts_for_the_engine_end_with_nul() {
    assert_eq!(dackdb::raw::to_cstring("aé").unwrap(), vec![0x61, 0xC3, 0xA9, 0]);
    assert_eq!(
        dackdb::raw::to_cstring("a\0").unwrap_err(),
        "文字列に NUL 文字が含まれています"
    );
}
