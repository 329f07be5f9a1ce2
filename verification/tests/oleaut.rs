use dackdb::oleaut::{
    bstr_to_string, wide_ptr_to_string, SAFEARRAYBOUND, VARIANT, VARIANT_TRUE, VARIANT_VALUE,
    VT_BOOL, VT_BSTR, VT_EMPTY, VT_I4, VT_I8, VT_NULL,
};
use dackdb::text::{from_utf16_lossy, is_white_space, to_lower, to_utf16, trim};

fn text(v: &VARIANT) -> String {
    match &v.value {
        VARIANT_VALUE::Bstr(b) => bstr_to_string(b),
        _ => panic!("not a text: {v:?}"),
    }
}

#[test]
fn safearraybound_layout() {
    assert_eq!(std::mem::size_of::<SAFEARRAYBOUND>(), 8);
}

#[test]
fn bstr_roundtrip_preserves_japanese_and_astral_chars() {
    let src = "テスト漢字𠮷😀";
    let mut v = VARIANT::bstr(src);
    assert_eq!(v.vt, VT_BSTR);
    let back = text(&v);
    assert_eq!(back, src);
    v.clear();
    assert_eq!(v.vt, VT_EMPTY);
}

#[test]
fn empty_string_is_valid_bstr_not_null() {
    let mut v = VARIANT::bstr("");
    assert_eq!(v.vt, VT_BSTR);
    assert!(matches!(&v.value, VARIANT_VALUE::Bstr(Some(_))));
    assert_eq!(text(&v), "");
    v.clear();
}

#[test]
fn scalar_constructors_zero_the_unused_bytes() {
    let v = VARIANT::i32(-1);
    assert_eq!(v.vt, VT_I4);
    assert_eq!(v.value.lVal(), -1);
    assert_eq!(v.value.llVal(), 0xFFFF_FFFFi64);

    let b = VARIANT::bool(true);
    assert_eq!(b.value.boolVal(), VARIANT_TRUE);
    assert_eq!(b.value.llVal(), 0xFFFFi64);
}

#[test]
fn wide_ptr_roundtrip() {
    let s = "SELECT * FROM 売上";
    let mut wide: Vec<u16> = s.encode_utf16().collect();
    wide.push(0);
    let got = wide_ptr_to_string(Some(&wide));
    assert_eq!(got.as_deref(), Some(s));
    assert_eq!(wide_ptr_to_string(None), None);
}

#[test]
fn wide_text_ends_at_the_first_zero() {
    let units: Vec<u16> = vec![0x41, 0x42, 0, 0x43, 0];
    assert_eq!(wide_ptr_to_string(Some(&units)).as_deref(), Some("AB"));
    assert_eq!(wide_ptr_to_string(Some(&[0])).as_deref(), Some(""));
}

#[test]
fn constructors_set_type_and_value() {
    assert_eq!(VARIANT::null().vt, VT_NULL);
    assert_eq!(VARIANT::empty().vt, VT_EMPTY);
    let v = VARIANT::i64(i64::MIN);
    assert_eq!(v.vt, VT_I8);
    assert_eq!(v.value.llVal(), i64::MIN);
    assert_eq!(VARIANT::i32(i32::MIN).value.lVal(), i32::MIN);
    assert_eq!(VARIANT::i64(-7).value.llVal(), -7);
    let f = VARIANT::bool(false);
    assert_eq!(f.vt, VT_BOOL);
    assert_eq!(f.value.boolVal(), 0);
}

#[test]
fn the_null_bstr_is_the_empty_text() {
    assert_eq!(bstr_to_string(&None), "");
}

#[test]
fn utf16_agrees_with_std() {
    let samples = ["", "abc", "テスト漢字𠮷😀", "\u{10FFFF}\u{FFFF}\u{E000}\u{D7FF}\u{10000}", "\0a"];
    for s in samples {
        let units: Vec<u16> = s.encode_utf16().collect();
        assert_eq!(to_utf16(s), units);
        assert_eq!(from_utf16_lossy(&units), s);
    }
    let broken: [&[u16]; 6] = [
        &[0xD800],
        &[0xDC00],
        &[0xDC00, 0xD800],
        &[0xD800, 0xD800, 0xDC00],
        &[0x41, 0xD83D, 0x42],
        &[0xDBFF, 0xDFFF, 0xDFFF, 0x41],
    ];
    for u in broken {
        assert_eq!(from_utf16_lossy(u), String::from_utf16_lossy(u));
    }
}

#[test]
fn white_space_and_case_agree_with_std() {
    for n in 0..=0x10FFFFu32 {
        if let Some(c) = char::from_u32(n) {
            assert_eq!(is_white_space(c), c.is_whitespace(), "U+{n:04X}");
        }
    }
    for s in ["", "  ", "a", "\u{3000} C:/売上 .db\t\n", "　全角　空白　", "x "] {
        assert_eq!(trim(s), s.trim());
    }
    for s in ["DDL", "Table", "テーブルＡ", "ÀB[z`{"] {
        assert_eq!(to_lower(s), s.to_ascii_lowercase());
    }
}
