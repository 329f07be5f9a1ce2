use dackdb::inbound::{
    extent_of, read_input_grid, untaken, variant_to_value, DuckValue, InputGrid,
};
use dackdb::oleaut::{
    bstr_to_string, Number, OleDate, Referent, SafeArrayData, SAFEARRAY, SAFEARRAYBOUND, VARIANT,
    VARIANT_VALUE, VT_ARRAY, VT_BOOL, VT_BSTR, VT_BYREF, VT_CY, VT_DATE, VT_DECIMAL, VT_DISPATCH,
    VT_ERROR, VT_I1, VT_I2, VT_I4, VT_I8, VT_INT, VT_R4, VT_R8, VT_UI1, VT_UI2, VT_UI4, VT_UI8,
    VT_UINT, VT_UNKNOWN, VT_VARIANT,
};
use dackdb::variant::Grid;

/// Makes an array of the rows and reads it back.
fn roundtrip(rows: Vec<Vec<VARIANT>>, cols: usize) -> InputGrid {
    let mut g = Grid::with_cols(cols);
    for r in rows {
        g.push_row(r);
    }
    let v = g.into_variant().expect("配列化に失敗");
    read_input_grid(v, "テストデータ").expect("読み取りに失敗")
}

fn bits(vt: u16, b: u64) -> VARIANT {
    VARIANT { vt, value: VARIANT_VALUE::Bits(b) }
}

fn double(x: f64) -> Number {
    Number::Bits(x.to_bits())
}

fn one_dimension(n: u32, data: Option<SafeArrayData>, vartype: u16) -> SAFEARRAY {
    SAFEARRAY {
        vartype: Some(vartype),
        bounds: vec![Some(SAFEARRAYBOUND { cElements: n, lLbound: 0 })],
        data,
    }
}

fn array(vt: u16, a: Option<SAFEARRAY>) -> VARIANT {
    VARIANT { vt: VT_ARRAY | vt, value: VARIANT_VALUE::Array(a) }
}

#[test]
fn two_dimensional_array_roundtrips_with_matching_orientation() {
    let grid = roundtrip(
        vec![
            vec![VARIANT::i32(11), VARIANT::i32(12), VARIANT::i32(13)],
            vec![VARIANT::i32(21), VARIANT::i32(22), VARIANT::i32(23)],
        ],
        3,
    );
    assert_eq!((grid.rows, grid.cols), (2, 3));
    assert_eq!(grid.get(0, 0).value.lVal(), 11);
    assert_eq!(grid.get(0, 2).value.lVal(), 13);
    assert_eq!(grid.get(1, 0).value.lVal(), 21);
    assert_eq!(grid.get(1, 2).value.lVal(), 23, "行と列が入れ替わっている");
}

#[test]
fn japanese_strings_survive_the_input_path() {
    let grid = roundtrip(vec![vec![VARIANT::bstr("技術部𠮷😀")]], 1);
    let s = match &grid.get(0, 0).value {
        VARIANT_VALUE::Bstr(b) => bstr_to_string(b),
        _ => panic!("not a text"),
    };
    assert_eq!(s, "技術部𠮷😀");
}

#[test]
fn non_array_input_is_rejected_with_guidance() {
    let v = VARIANT::i64(5);
    let err = read_input_grid(v, "パラメータ").unwrap_err();
    assert!(err.contains("配列ではありません"), "{err}");
    assert!(err.contains("Range"), "対処方法が示されていない: {err}");
}

#[test]
fn scalar_conversions_produce_values() {
    for (v, label) in [
        (VARIANT::i64(42), "BIGINT"),
        (VARIANT::i32(7), "INTEGER"),
        (VARIANT::double(double(1.5)), "DOUBLE"),
        (VARIANT::bool(true), "BOOLEAN"),
        (VARIANT::null(), "NULL"),
        (VARIANT::empty(), "空セル"),
        (VARIANT::date(OleDate::Serial(45306)), "DATE"),
    ] {
        let mut v = v;
        assert!(variant_to_value(&v, label).is_ok(), "{label} が変換できない");
        v.clear();
    }
    let mut s = VARIANT::bstr("営業部");
    assert!(variant_to_value(&s, "VARCHAR").is_ok());
    s.clear();
}

#[test]
fn excel_error_cells_are_rejected_not_silently_nulled() {
    let v = bits(VT_ERROR, -2146826246i32 as u32 as u64);
    let err = variant_to_value(&v, "2 行 3 列目").unwrap_err();
    assert!(err.contains("#N/A"), "{err}");
    assert!(err.contains("2 行 3 列目"), "位置が示されていない: {err}");
    assert!(err.contains("IFERROR"), "対処方法が示されていない: {err}");
}

#[test]
fn objects_are_rejected_with_range_value_hint() {
    let v = bits(VT_DISPATCH, 0);
    let err = variant_to_value(&v, "1 行 1 列目").unwrap_err();
    assert!(err.contains("Range.Value"), "{err}");
    assert!(variant_to_value(&bits(VT_UNKNOWN, 0), "x").is_err());
}

#[test]
fn position_is_one_based_for_humans() {
    let grid = roundtrip(vec![vec![VARIANT::i32(1)]], 1);
    assert_eq!(grid.position(0, 0), "1 行 1 列目");
    assert_eq!(grid.position(2, 4), "3 行 5 列目");
}

#[test]
fn scalars_keep_their_value() {
    let int = |v: VARIANT| match variant_to_value(&v, "x").unwrap() {
        DuckValue::Int64(n) => n,
        other => panic!("{other:?}"),
    };
    assert_eq!(int(bits(VT_I1, 0x80)), -128);
    assert_eq!(int(bits(VT_I1, 0x7F)), 127);
    assert_eq!(int(bits(VT_I2, 0x8000)), -32768);
    assert_eq!(int(bits(VT_I4, 0x8000_0000)), -2147483648);
    assert_eq!(int(bits(VT_INT, 5)), 5);
    assert_eq!(int(bits(VT_I8, u64::MAX)), -1);
    assert_eq!(int(bits(VT_UI1, 0x1FF)), 255);
    assert_eq!(int(bits(VT_UI2, 0xFFFF)), 65535);
    assert_eq!(int(bits(VT_UI4, 0xFFFF_FFFF)), 4294967295);
    assert_eq!(int(bits(VT_UINT, 0xFFFF_FFFF)), 4294967295);
    assert_eq!(int(bits(VT_UI8, i64::MAX as u64)), i64::MAX);
    assert!(matches!(
        variant_to_value(&bits(VT_UI8, u64::MAX), "x"),
        Ok(DuckValue::Varchar(s)) if s == "18446744073709551615"
    ));
    assert!(matches!(variant_to_value(&bits(VT_BOOL, 0xFFFF), "x"), Ok(DuckValue::Bool(true))));
    assert!(matches!(variant_to_value(&bits(VT_BOOL, 1), "x"), Ok(DuckValue::Bool(true))));
    assert!(matches!(
        variant_to_value(&bits(VT_BOOL, 0x1_0000), "x"),
        Ok(DuckValue::Bool(false))
    ));
    for vt in [VT_R4, VT_R8] {
        let v = VARIANT { vt, value: VARIANT_VALUE::Double(double(2.5)) };
        assert!(
            matches!(variant_to_value(&v, "x"), Ok(DuckValue::Double(n)) if n == double(2.5))
        );
    }
    assert!(matches!(
        variant_to_value(&VARIANT::bstr("技術部𠮷😀"), "x"),
        Ok(DuckValue::Varchar(s)) if s == "技術部𠮷😀"
    ));
    assert!(matches!(variant_to_value(&VARIANT::empty(), "x"), Ok(DuckValue::Null)));
}

#[test]
fn dates_become_instants() {
    let micros = |d: OleDate| match variant_to_value(&VARIANT::date(d), "x") {
        Ok(DuckValue::Timestamp(t)) => t,
        other => panic!("{other:?}"),
    };
    // 2024-01-15
    assert_eq!(micros(OleDate::Serial(45306)), 1_705_276_800_000_000);
    assert_eq!(micros(OleDate::Serial(25569)), 0);
    assert_eq!(micros(OleDate::Timestamp(-1)), -1);
    assert_eq!(micros(OleDate::TimeOfDay(1)), -25569 * 86_400_000_000 + 1);
    assert_eq!(micros(OleDate::Serial(i64::MAX)), i64::MAX);
    assert_eq!(
        variant_to_value(&VARIANT::date(OleDate::Invalid), "4 行 1 列目").unwrap_err(),
        "4 行 1 列目: 日付の値が不正です"
    );
}

#[test]
fn currency_and_decimal_are_left_to_ole() {
    for vt in [VT_CY, VT_DECIMAL] {
        let v = VARIANT { vt, value: VARIANT_VALUE::Converted(Some(double(12.5))) };
        assert!(
            matches!(variant_to_value(&v, "x"), Ok(DuckValue::Double(n)) if n == double(12.5))
        );
    }
    let v = VARIANT { vt: VT_CY, value: VARIANT_VALUE::Converted(None) };
    assert_eq!(
        variant_to_value(&v, "x").unwrap_err(),
        "x: 数値に変換できませんでした (vt=0x0006)"
    );
}

#[test]
fn unknown_types_are_named_by_their_code() {
    assert_eq!(
        variant_to_value(&bits(0x0ABC, 0), "x").unwrap_err(),
        "x: 対応していない型です (vt=0x0ABC)"
    );
}

#[test]
fn pointers_are_followed() {
    let inner = VARIANT::i32(9);
    let v = VARIANT {
        vt: VT_BYREF | VT_VARIANT,
        value: VARIANT_VALUE::ByRef(Some(Box::new(Referent::Variant(inner)))),
    };
    assert!(matches!(variant_to_value(&v, "x"), Ok(DuckValue::Int64(9))));

    for (vt, value) in [
        (VT_I4, VARIANT_VALUE::Bits(9)),
        (VT_I8, VARIANT_VALUE::Bits(9)),
    ] {
        let v = VARIANT {
            vt: VT_BYREF | vt,
            value: VARIANT_VALUE::ByRef(Some(Box::new(Referent::Value(value)))),
        };
        assert!(matches!(variant_to_value(&v, "x"), Ok(DuckValue::Int64(9))));
    }
    let v = VARIANT {
        vt: VT_BYREF | VT_BSTR,
        value: VARIANT_VALUE::ByRef(Some(Box::new(Referent::Value(VARIANT_VALUE::Bstr(Some(
            vec![0x58F2, 0x4E0A],
        )))))),
    };
    assert!(matches!(variant_to_value(&v, "x"), Ok(DuckValue::Varchar(s)) if s == "売上"));
    let v = VARIANT {
        vt: VT_BYREF | VT_DATE,
        value: VARIANT_VALUE::ByRef(Some(Box::new(Referent::Value(VARIANT_VALUE::Date(
            OleDate::Timestamp(5),
        ))))),
    };
    assert!(matches!(variant_to_value(&v, "x"), Ok(DuckValue::Timestamp(5))));

    let v = VARIANT { vt: VT_BYREF | VT_I4, value: VARIANT_VALUE::ByRef(None) };
    assert!(matches!(variant_to_value(&v, "x"), Ok(DuckValue::Null)));
    let v = VARIANT {
        vt: VT_BYREF | VT_I2,
        value: VARIANT_VALUE::ByRef(Some(Box::new(Referent::Value(VARIANT_VALUE::Bits(1))))),
    };
    assert_eq!(
        variant_to_value(&v, "x").unwrap_err(),
        "x: 対応していない参照渡しの型 (vt=0x4002)"
    );
}

#[test]
fn byte_arrays_become_blobs_and_other_arrays_are_refused() {
    let bytes = SafeArrayData::Bytes(vec![1, 255, 0, 127]);
    let v = array(VT_UI1, Some(one_dimension(4, Some(bytes), VT_UI1)));
    assert!(matches!(
        variant_to_value(&v, "x"),
        Ok(DuckValue::Blob(b)) if b == vec![1, 255, 0, 127]
    ));
    assert!(matches!(variant_to_value(&array(VT_UI1, None), "x"), Ok(DuckValue::Null)));
    let v = array(VT_UI1, Some(one_dimension(4, None, VT_UI1)));
    assert_eq!(
        variant_to_value(&v, "x").unwrap_err(),
        "x: バイト配列を読み取れませんでした"
    );
    let unknown = SAFEARRAY { vartype: Some(VT_UI1), bounds: vec![None], data: None };
    assert_eq!(
        variant_to_value(&array(VT_UI1, Some(unknown)), "x").unwrap_err(),
        "x: バイト配列の範囲を取得できませんでした"
    );
    assert_eq!(
        variant_to_value(&array(VT_VARIANT, None), "x").unwrap_err(),
        "x: 配列は値として渡せません。1 つのセルの値を指定してください。"
    );
}

#[test]
fn a_dimension_is_as_long_as_its_bounds_say() {
    assert_eq!(extent_of(1, 3), Some(3));
    assert_eq!(extent_of(-1, 1), Some(3));
    assert_eq!(extent_of(5, 5), Some(1));
    assert_eq!(extent_of(0, -1), Some(0));
    assert_eq!(extent_of(i32::MAX, i32::MIN), Some(0));
    assert_eq!(extent_of(1, i32::MAX), Some(i32::MAX as u32));
    assert_eq!(extent_of(0, i32::MAX), None);
    assert_eq!(extent_of(i32::MIN, i32::MAX), None);
}

#[test]
fn one_dimension_is_one_row() {
    let data = vec![VARIANT::i32(1), VARIANT::i32(2), VARIANT::i32(3)];
    let v = array(
        VT_VARIANT,
        Some(one_dimension(3, Some(SafeArrayData::Variants(data)), VT_VARIANT)),
    );
    let g = read_input_grid(v, "x").unwrap();
    assert_eq!((g.rows, g.cols), (1, 3));
    assert_eq!(g.get(0, 2).value.lVal(), 3);
}

#[test]
fn pointers_to_arrays_are_followed() {
    let mut g = Grid::with_cols(2);
    g.push_row(vec![VARIANT::i32(1), VARIANT::i32(2)]);
    let v = VARIANT {
        vt: VT_BYREF | VT_VARIANT,
        value: VARIANT_VALUE::ByRef(Some(Box::new(Referent::Variant(g.into_variant().unwrap())))),
    };
    let g = read_input_grid(v, "x").unwrap();
    assert_eq!((g.rows, g.cols), (1, 2));
    let v = VARIANT { vt: VT_BYREF | VT_VARIANT, value: VARIANT_VALUE::ByRef(None) };
    assert_eq!(read_input_grid(v, "データ").unwrap_err(), "データ が空です。");
}

#[test]
fn arrays_that_cannot_be_read_are_refused() {
    let fail = |a: Option<SAFEARRAY>| read_input_grid(array(VT_VARIANT, a), "データ").unwrap_err();
    let bound = |n: u32| Some(SAFEARRAYBOUND { cElements: n, lLbound: 1 });
    assert_eq!(fail(None), "データ が空の配列です。");
    assert_eq!(
        fail(Some(SAFEARRAY { vartype: None, bounds: vec![bound(1)], data: None })),
        "データ の要素型を取得できませんでした。"
    );
    assert_eq!(
        fail(Some(SAFEARRAY { vartype: Some(VT_R8), bounds: vec![bound(1)], data: None })),
        "データ の要素が Variant ではありません (vt=0x0005)。\n\
         Dim arr() As Variant で宣言するか、Range(...).Value を渡してください。"
    );
    assert_eq!(
        fail(Some(SAFEARRAY {
            vartype: Some(VT_VARIANT),
            bounds: vec![bound(1), bound(1), bound(1)],
            data: None
        })),
        "データ は 1 次元か 2 次元の配列である必要があります（実際: 3 次元）。"
    );
    assert_eq!(
        fail(Some(SAFEARRAY { vartype: Some(VT_VARIANT), bounds: vec![None], data: None })),
        "データ の次元 1 の範囲を取得できませんでした。"
    );
    assert_eq!(
        fail(Some(SAFEARRAY {
            vartype: Some(VT_VARIANT),
            bounds: vec![bound(1), None],
            data: None
        })),
        "データ の次元 2 の範囲を取得できませんでした。"
    );
    assert_eq!(
        fail(Some(SAFEARRAY {
            vartype: Some(VT_VARIANT),
            bounds: vec![bound(0), bound(3)],
            data: None
        })),
        "データ が空です。"
    );
    assert_eq!(
        fail(Some(SAFEARRAY {
            vartype: Some(VT_VARIANT),
            bounds: vec![bound(2), bound(3)],
            data: None
        })),
        "データ の内容を読み取れませんでした。"
    );
}

#[test]
fn values_that_the_engine_does_not_make_are_named_by_place() {
    assert_eq!(untaken("2 行 3 列目"), "2 行 3 列目 を DuckDB の値に変換できませんでした");
}
