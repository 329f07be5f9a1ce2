use dackdb::oleaut::{
    bstr_to_string, SafeArrayData, SAFEARRAY, SAFEARRAYBOUND, VARIANT, VARIANT_VALUE, VT_ARRAY,
    VT_BSTR, VT_I8, VT_NULL, VT_VARIANT,
};
use dackdb::variant::{
    allocation_failure, scalar_i64, write_out, Grid, MAX_EXCEL_COLS, MAX_EXCEL_ROWS,
};

fn array(v: &VARIANT) -> &SAFEARRAY {
    match &v.value {
        VARIANT_VALUE::Array(Some(a)) => a,
        _ => panic!("not an array: {v:?}"),
    }
}

fn bound(a: &SAFEARRAY, dimension: usize) -> (i32, i32) {
    let b: SAFEARRAYBOUND = a.bounds[dimension - 1].unwrap();
    (b.lLbound, b.lLbound + b.cElements as i32 - 1)
}

/// The element at these indices, as OLE finds it: the first index changes fastest.
fn get(a: &SAFEARRAY, row: i32, col: i32) -> &VARIANT {
    let (first_row, last_row) = bound(a, 1);
    let (first_col, _) = bound(a, 2);
    let rows = last_row - first_row + 1;
    let at = (col - first_col) * rows + (row - first_row);
    match &a.data {
        Some(SafeArrayData::Variants(d)) => &d[at as usize],
        _ => panic!("no variants"),
    }
}

fn text(v: &VARIANT) -> String {
    match &v.value {
        VARIANT_VALUE::Bstr(b) => bstr_to_string(b),
        _ => panic!("not a text: {v:?}"),
    }
}

#[test]
fn column_major_indexing_matches_safearray_api() {
    let mut g = Grid::with_header(&vec!["A".into(), "B".into(), "C".into()]);
    g.push_row(vec![VARIANT::i32(10), VARIANT::i32(11), VARIANT::i32(12)]);
    g.push_row(vec![VARIANT::i32(20), VARIANT::i32(21), VARIANT::i32(22)]);
    assert_eq!(g.rows(), 3);
    assert_eq!(g.cols(), 3);

    let v = g.into_variant().expect("変換に失敗");
    let psa = array(&v);

    assert_eq!(bound(psa, 1), (1, 3), "次元1（行）の範囲");
    assert_eq!(bound(psa, 2), (1, 3), "次元2（列）の範囲");

    let h = get(psa, 1, 2);
    assert_eq!(h.vt, VT_BSTR);
    assert_eq!(text(h), "B");

    assert_eq!(get(psa, 2, 1).value.lVal(), 10);
    assert_eq!(get(psa, 2, 3).value.lVal(), 12);
    assert_eq!(get(psa, 3, 1).value.lVal(), 20);
    assert_eq!(get(psa, 3, 3).value.lVal(), 22);
}

#[test]
fn japanese_and_null_survive_the_grid() {
    let mut g = Grid::with_header(&vec!["名前".into(), "備考".into()]);
    g.push_row(vec![VARIANT::bstr("テスト漢字𠮷😀"), VARIANT::null()]);

    let v = g.into_variant().expect("変換に失敗");
    let psa = array(&v);
    assert_eq!(text(get(psa, 2, 1)), "テスト漢字𠮷😀");
    assert_eq!(text(get(psa, 1, 1)), "名前");
    assert_eq!(get(psa, 2, 2).vt, VT_NULL);
}

#[test]
fn single_cell_grid_works() {
    let mut g = Grid::with_cols(1);
    g.push_row(vec![VARIANT::i64(42)]);
    let v = g.into_variant().expect("変換に失敗");
    assert_eq!(get(array(&v), 1, 1).value.llVal(), 42);
}

#[test]
fn empty_grid_is_rejected_not_crashed() {
    let g = Grid::with_cols(0);
    assert!(g.into_variant().is_err());
}

#[test]
fn too_many_columns_is_rejected() {
    let g = Grid::with_cols(MAX_EXCEL_COLS + 1);
    let err = g.check_excel_limits().unwrap_err();
    assert!(err.contains("列"), "エラーメッセージ: {err}");
}

#[test]
fn dropping_grid_without_conversion_does_not_panic() {
    let mut g = Grid::with_header(&vec!["あ".into(), "い".into()]);
    g.push_row(vec![VARIANT::bstr("値1"), VARIANT::bstr("値2")]);
    drop(g);
}

#[test]
fn write_out_clears_previous_value_before_overwriting() {
    let mut slot = VARIANT::bstr("以前の値");
    assert_eq!(slot.vt, VT_BSTR);

    write_out(Some(&mut slot), VARIANT::i64(7));
    assert_eq!(slot.vt, VT_I8);
    assert_eq!(slot.value.llVal(), 7);
}

#[test]
fn write_out_to_null_pointer_frees_the_value() {
    write_out(None, VARIANT::bstr("捨てられる値"));
}

#[test]
fn a_table_is_an_array_of_variants() {
    let mut g = Grid::with_cols(2);
    g.push_row(vec![VARIANT::i32(1), VARIANT::i32(2)]);
    let v = g.into_variant().unwrap();
    assert_eq!(v.vt, VT_ARRAY | VT_VARIANT);
    assert_eq!(array(&v).vartype, Some(VT_VARIANT));
}

#[test]
fn limits_of_a_sheet_are_stated_exactly() {
    let wide = Grid::with_cols(16_385);
    assert_eq!(
        wide.check_excel_limits().unwrap_err(),
        "結果が 16385 列あり、Excel シートの上限 16384 列を超えています。"
    );
    assert!(Grid::with_cols(16_384).check_excel_limits().is_ok());

    let mut long = Grid::with_cols(1);
    for _ in 0..MAX_EXCEL_ROWS {
        long.push(VARIANT::null());
    }
    assert!(long.check_excel_limits().is_ok());
    long.push(VARIANT::null());
    assert_eq!(
        long.into_variant().unwrap_err(),
        "結果が 1048577 行あり、Excel シートの上限 1048576 行を超えています。\
         SQL に LIMIT を付けて絞り込んでください。"
    );
}

#[test]
fn a_table_without_rows_is_refused() {
    assert_eq!(
        Grid::with_cols(3).into_variant().unwrap_err(),
        "結果が空です（0 行または 0 列）"
    );
}

#[test]
fn allocation_failures_say_how_large_the_array_was() {
    assert_eq!(
        allocation_failure(1000, 20),
        "SAFEARRAY の確保に失敗しました（1000 行 x 20 列）。メモリ不足の可能性があります。"
    );
}

#[test]
fn a_single_number_is_handed_over_as_such() {
    let v = scalar_i64(-3);
    assert_eq!(v.vt, VT_I8);
    assert_eq!(v.value.llVal(), -3);
}
