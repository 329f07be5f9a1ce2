use dackdb::api::{DACK_E_FORBIDDEN, DACK_E_GENERAL, DACK_E_PANIC, DACK_OK};
use dackdb::ffi::{arg_string, guard, Ending};
use dackdb::oleaut::{bstr_to_string, VARIANT, VARIANT_VALUE, VT_BSTR, VT_I8};

fn text(v: &VARIANT) -> String {
    match &v.value {
        VARIANT_VALUE::Bstr(b) => bstr_to_string(b),
        _ => panic!("not a text: {v:?}"),
    }
}

#[test]
fn guard_writes_value_and_returns_ok() {
    let (rc, out) = guard(Ending::Returned(Ok(VARIANT::i64(42))));
    assert_eq!(rc, DACK_OK);
    assert_eq!(out.vt, VT_I8);
    assert_eq!(out.value.llVal(), 42);
}

#[test]
fn guard_writes_error_message_into_the_same_out_param() {
    let (rc, out) = guard(Ending::Returned(Err("テーブルが見つかりません".to_string())));
    assert_eq!(rc, DACK_E_GENERAL);
    assert_eq!(out.vt, VT_BSTR);
    assert_eq!(text(&out), "テーブルが見つかりません");
}

#[test]
fn guard_reports_a_panic_with_its_message() {
    let (rc, out) = guard(Ending::Panicked(Some("意図的なテスト用 panic".to_string())));
    assert_eq!(rc, DACK_E_PANIC);
    assert_eq!(out.vt, VT_BSTR);
    let msg = text(&out);
    assert!(msg.contains("意図的なテスト用 panic"), "panic 内容が失われた: {msg}");
    assert!(msg.contains("報告"), "報告の案内が無い: {msg}");
    let (_, out) = guard(Ending::Panicked(None));
    assert_eq!(
        text(&out),
        "dackdb の内部エラー（panic）: 詳細不明\n\
         これは DLL の不具合です。実行した SQL と合わせて報告してください。"
    );
}

#[test]
fn guard_reports_forbidden_separately_from_general_errors() {
    let (rc, _) =
        guard(Ending::Returned(Err("DackExecute はこの DLL では使えません。".to_string())));
    assert_eq!(rc, DACK_E_FORBIDDEN);
}

#[test]
fn arg_string_rejects_null_with_guidance() {
    let err = arg_string(None, "sql").unwrap_err();
    assert!(err.contains("StrPtr"), "{err}");
}

#[test]
fn arg_string_reads_japanese_utf16() {
    let mut w: Vec<u16> = "SELECT * FROM 売上".encode_utf16().collect();
    w.push(0);
    assert_eq!(arg_string(Some(&w), "sql").unwrap(), "SELECT * FROM 売上");
}
