use dackdb::inbound::{variant_to_value, DuckValue};
use dackdb::oleaut::{
    bstr_to_string, Number, OleDate, SafeArrayData, VARIANT, VARIANT_VALUE, VT_ARRAY, VT_BOOL,
    VT_BSTR, VT_DATE, VT_I4, VT_I8, VT_NULL, VT_R8, VT_UI1,
};
use dackdb::raw::{CalendarFields, Vector};
use dackdb::value::{
    byte_array_variant, cell_to_variant, check_column_supported, decimal_to_string, element_size,
    hugeint_to_string, moment_to_look_up, unsupported_type_name, uuid_to_string, Hugeint, Moment,
    DECIMAL_MAX_WIDTH_AS_F64, MAX_DISPLAYABLE_INSTANT, MIN_DISPLAYABLE_INSTANT,
    OLE_EPOCH_OFFSET_DAYS, TYPE_ARRAY, TYPE_BIGINT, TYPE_BIT, TYPE_BLOB, TYPE_BOOLEAN, TYPE_DATE,
    TYPE_DECIMAL, TYPE_DOUBLE, TYPE_ENUM, TYPE_FLOAT, TYPE_GEOMETRY, TYPE_HUGEINT, TYPE_INTEGER,
    TYPE_INTERVAL, TYPE_LIST, TYPE_MAP, TYPE_SMALLINT, TYPE_SQLNULL, TYPE_STRUCT, TYPE_TIME,
    TYPE_TIMESTAMP, TYPE_TIMESTAMP_MS, TYPE_TIMESTAMP_NS, TYPE_TIMESTAMP_S, TYPE_TIMESTAMP_TZ,
    TYPE_TIME_NS, TYPE_TIME_TZ, TYPE_TINYINT, TYPE_UBIGINT, TYPE_UHUGEINT, TYPE_UINTEGER,
    TYPE_UNION, TYPE_USMALLINT, TYPE_UTINYINT, TYPE_UUID, TYPE_VARCHAR, TYPE_VARIANT,
};

fn vector(type_id: u32, data: Vec<u8>) -> Vector {
    Vector {
        type_id,
        decimal_width: 0,
        decimal_scale: 0,
        decimal_internal: 0,
        enum_internal: 0,
        dictionary: vec![],
        validity: None,
        data,
        strings: vec![],
        calendar: vec![],
    }
}

fn strings(type_id: u32, strings: Vec<Vec<u8>>) -> Vector {
    Vector { strings, ..vector(type_id, vec![]) }
}

fn text(v: &VARIANT) -> String {
    assert_eq!(v.vt, VT_BSTR);
    match &v.value {
        VARIANT_VALUE::Bstr(b) => bstr_to_string(b),
        _ => panic!("not a text: {v:?}"),
    }
}

fn date(v: &VARIANT) -> OleDate {
    assert_eq!(v.vt, VT_DATE);
    match &v.value {
        VARIANT_VALUE::Date(d) => *d,
        _ => panic!("not a date: {v:?}"),
    }
}

fn number(v: &VARIANT) -> Number {
    assert_eq!(v.vt, VT_R8);
    match &v.value {
        VARIANT_VALUE::Double(x) => *x,
        _ => panic!("not a double: {v:?}"),
    }
}

fn fields(year: i32, month: i8, day: i8, hour: i8, min: i8, sec: i8) -> CalendarFields {
    CalendarFields { year, month, day, hour, min, sec }
}

fn hugeint_bytes(n: i128) -> Vec<u8> {
    n.to_le_bytes().to_vec()
}

#[test]
fn container_types_are_rejected_with_actionable_message() {
    let err = check_column_supported("明細", TYPE_LIST).unwrap_err();
    assert!(err.contains("LIST"), "{err}");
    assert!(err.contains("::VARCHAR"), "対処方法が示されていない: {err}");
    assert!(err.contains("明細"), "列名が示されていない: {err}");
}

#[test]
fn scalar_types_are_accepted() {
    for t in [TYPE_INTEGER, TYPE_VARCHAR, TYPE_TIMESTAMP, TYPE_DECIMAL, TYPE_BLOB] {
        assert!(check_column_supported("x", t).is_ok(), "型 {t} が拒否された");
    }
}

#[test]
fn decimal_string_conversion_is_exact() {
    assert_eq!(decimal_to_string(123456789, 2), "1234567.89");
    assert_eq!(decimal_to_string(-123456789, 2), "-1234567.89");
    assert_eq!(decimal_to_string(5, 3), "0.005");
    assert_eq!(decimal_to_string(-5, 3), "-0.005");
    assert_eq!(decimal_to_string(1000, 0), "1000");
    assert_eq!(
        decimal_to_string(123456789012345678901234567890i128, 10),
        "12345678901234567890.1234567890"
    );
}

#[test]
fn decimal_threshold_keeps_common_money_columns_numeric() {
    assert!(18 <= DECIMAL_MAX_WIDTH_AS_F64, "DECIMAL(18,2) は数値であるべき");
    assert!(19 > DECIMAL_MAX_WIDTH_AS_F64, "DECIMAL(19,x) は文字列であるべき");
}

#[test]
fn hugeint_string_is_exact_not_rounded() {
    let h = Hugeint { lower: 0, upper: 1 };
    assert_eq!(hugeint_to_string(h), "18446744073709551616");
    let neg = Hugeint { lower: u64::MAX, upper: -1 };
    assert_eq!(hugeint_to_string(neg), "-1");
}

#[test]
fn ole_date_epoch_offset_is_correct() {
    assert_eq!(OLE_EPOCH_OFFSET_DAYS as f64, 25569.0);
    assert_eq!(10957.0 + OLE_EPOCH_OFFSET_DAYS as f64, 36526.0);
}

#[test]
fn empty_blob_becomes_empty_string_not_null_array() {
    let mut v = byte_array_variant(&vec![]);
    assert_eq!(v.vt, VT_BSTR);
    v.clear();
}

#[test]
fn blob_becomes_byte_array() {
    let mut v = byte_array_variant(&vec![0x01, 0xFF, 0x00, 0x7F]);
    assert_eq!(v.vt, VT_ARRAY | VT_UI1);
    match &v.value {
        VARIANT_VALUE::Array(Some(a)) => {
            let b = a.bounds[0].unwrap();
            assert_eq!((b.lLbound, b.lLbound + b.cElements as i32 - 1), (0, 3));
            match &a.data {
                Some(SafeArrayData::Bytes(slice)) => {
                    assert_eq!(slice, &[0x01, 0xFF, 0x00, 0x7F]);
                }
                _ => panic!("no bytes"),
            }
        }
        _ => panic!("not an array"),
    }
    v.clear();
}

#[test]
fn every_container_type_is_named() {
    for (t, name) in [
        (TYPE_LIST, "LIST"),
        (TYPE_STRUCT, "STRUCT"),
        (TYPE_MAP, "MAP"),
        (TYPE_ARRAY, "ARRAY"),
        (TYPE_UNION, "UNION"),
        (TYPE_GEOMETRY, "GEOMETRY"),
        (TYPE_VARIANT, "VARIANT"),
        (TYPE_BIT, "BIT"),
    ] {
        assert_eq!(unsupported_type_name(t), Some(name));
    }
    assert_eq!(
        check_column_supported("明細", TYPE_STRUCT).unwrap_err(),
        "列「明細」の型 STRUCT は Excel のセルに変換できません。\n\
         SQL 側で文字列に変換してください（例: SELECT \"明細\"::VARCHAR FROM ...）。"
    );
}

#[test]
fn integers_of_every_size_are_read() {
    let v = cell_to_variant(&vector(TYPE_TINYINT, vec![1, 0x80]), 1);
    assert_eq!((v.vt, v.value.lVal()), (VT_I4, -128));
    let v = cell_to_variant(&vector(TYPE_UTINYINT, vec![0xFF]), 0);
    assert_eq!((v.vt, v.value.lVal()), (VT_I4, 255));
    let v = cell_to_variant(&vector(TYPE_SMALLINT, vec![0, 0, 0xFE, 0xFF]), 1);
    assert_eq!((v.vt, v.value.lVal()), (VT_I4, -2));
    let v = cell_to_variant(&vector(TYPE_USMALLINT, vec![0xFE, 0xFF]), 0);
    assert_eq!((v.vt, v.value.lVal()), (VT_I4, 65534));
    let v = cell_to_variant(&vector(TYPE_INTEGER, i32::MIN.to_le_bytes().to_vec()), 0);
    assert_eq!((v.vt, v.value.lVal()), (VT_I4, i32::MIN));
    let v = cell_to_variant(&vector(TYPE_UINTEGER, u32::MAX.to_le_bytes().to_vec()), 0);
    assert_eq!((v.vt, v.value.llVal()), (VT_I8, 4294967295));
    let v = cell_to_variant(&vector(TYPE_BIGINT, i64::MIN.to_le_bytes().to_vec()), 0);
    assert_eq!((v.vt, v.value.llVal()), (VT_I8, i64::MIN));
    let v = cell_to_variant(&vector(TYPE_UBIGINT, (i64::MAX as u64).to_le_bytes().to_vec()), 0);
    assert_eq!((v.vt, v.value.llVal()), (VT_I8, i64::MAX));
    let v = cell_to_variant(&vector(TYPE_UBIGINT, u64::MAX.to_le_bytes().to_vec()), 0);
    assert_eq!(text(&v), "18446744073709551615");
    let v = cell_to_variant(&vector(TYPE_BOOLEAN, vec![0, 1]), 1);
    assert_eq!((v.vt, v.value.boolVal()), (VT_BOOL, -1));
    let v = cell_to_variant(&vector(TYPE_BOOLEAN, vec![0, 1]), 0);
    assert_eq!((v.vt, v.value.boolVal()), (VT_BOOL, 0));
}

#[test]
fn numbers_of_128_bits_become_text() {
    for n in [0, -1, i128::MAX, i128::MIN, 1 << 64, -(1 << 64) - 1] {
        let v = cell_to_variant(&vector(TYPE_HUGEINT, hugeint_bytes(n)), 0);
        assert_eq!(text(&v), n.to_string());
    }
    for n in [0, u128::MAX, 1 << 100] {
        let v = cell_to_variant(&vector(TYPE_UHUGEINT, n.to_le_bytes().to_vec()), 0);
        assert_eq!(text(&v), n.to_string());
    }
}

#[test]
fn doubles_keep_their_bits() {
    let bits = (-1.5f64).to_bits();
    let v = cell_to_variant(&vector(TYPE_DOUBLE, bits.to_le_bytes().to_vec()), 0);
    assert_eq!(number(&v), Number::Bits(bits));
    let bits = 0.1f32.to_bits();
    let v = cell_to_variant(&vector(TYPE_FLOAT, bits.to_le_bytes().to_vec()), 0);
    assert_eq!(number(&v), Number::Single(bits));
}

fn decimal(width: u8, scale: u8, internal: u32, data: Vec<u8>) -> Vector {
    Vector {
        decimal_width: width,
        decimal_scale: scale,
        decimal_internal: internal,
        ..vector(TYPE_DECIMAL, data)
    }
}

#[test]
fn decimals_are_numbers_up_to_18_digits() {
    let v = cell_to_variant(&decimal(4, 1, TYPE_SMALLINT, (-15i16).to_le_bytes().to_vec()), 0);
    assert_eq!(number(&v), Number::Decimal { unscaled: -15, scale: 1 });
    let v = cell_to_variant(&decimal(9, 2, TYPE_INTEGER, 12345i32.to_le_bytes().to_vec()), 0);
    assert_eq!(number(&v), Number::Decimal { unscaled: 12345, scale: 2 });
    let v = cell_to_variant(&decimal(18, 2, TYPE_BIGINT, 99i64.to_le_bytes().to_vec()), 0);
    assert_eq!(number(&v), Number::Decimal { unscaled: 99, scale: 2 });
    let v = cell_to_variant(&decimal(19, 2, TYPE_HUGEINT, hugeint_bytes(-1234)), 0);
    assert_eq!(text(&v), "-12.34");
    let v = cell_to_variant(&decimal(38, 0, TYPE_HUGEINT, hugeint_bytes(7)), 0);
    assert_eq!(text(&v), "7");
    let v = cell_to_variant(&decimal(9, 2, TYPE_VARCHAR, vec![]), 0);
    assert_eq!(v.vt, VT_NULL);
    assert_eq!(decimal_to_string(i128::MIN, 38), "-1.70141183460469231731687303715884105728");
    assert_eq!(decimal_to_string(0, 2), "0.00");
}

#[test]
fn text_is_decoded_leniently() {
    let v = cell_to_variant(
        &strings(TYPE_VARCHAR, vec!["営業部".into(), "技術部𠮷😀".into(), vec![0x41, 0xFF, 0x42]]),
        1,
    );
    assert_eq!(text(&v), "技術部𠮷😀");
    let odd = vec![0x41, 0xFF, 0x42];
    let v = cell_to_variant(&strings(TYPE_VARCHAR, vec![odd.clone()]), 0);
    assert_eq!(text(&v), String::from_utf8_lossy(&odd));
    let v = cell_to_variant(&strings(TYPE_BLOB, vec![vec![9]]), 0);
    assert_eq!(v.vt, VT_ARRAY | VT_UI1);
}

#[test]
fn null_rows_are_null_whatever_the_type() {
    let v = Vector { validity: Some(vec![0b101]), ..vector(TYPE_INTEGER, vec![1; 12]) };
    assert_eq!(cell_to_variant(&v, 0).vt, VT_I4);
    assert_eq!(cell_to_variant(&v, 1).vt, VT_NULL);
    assert_eq!(cell_to_variant(&v, 2).vt, VT_I4);
    let mut mask = vec![0u64; 2];
    mask[1] = 1 << 6;
    let v = Vector { validity: Some(mask), ..vector(TYPE_TINYINT, vec![7; 128]) };
    assert_eq!(cell_to_variant(&v, 70).value.lVal(), 7);
    assert_eq!(cell_to_variant(&v, 6).vt, VT_NULL);
    assert_eq!(cell_to_variant(&vector(TYPE_SQLNULL, vec![]), 0).vt, VT_NULL);
    assert_eq!(cell_to_variant(&vector(12345, vec![]), 0).vt, VT_NULL);
}

#[test]
fn dates_are_serial_numbers_where_a_sheet_can_show_them() {
    let day = |days: i32| vector(TYPE_DATE, days.to_le_bytes().to_vec());
    // 2024-01-15
    assert_eq!(date(&cell_to_variant(&day(19737), 0)), OleDate::Serial(45306));
    assert_eq!(date(&cell_to_variant(&day(-25568), 0)), OleDate::Serial(1));
    assert_eq!(date(&cell_to_variant(&day(2932896), 0)), OleDate::Serial(2958465));
    assert_eq!(moment_to_look_up(&day(19737), 0), None);
    assert_eq!(moment_to_look_up(&day(-25569), 0), Some(Moment::Day(-25569)));
    assert_eq!(moment_to_look_up(&day(2932897), 0), Some(Moment::Day(2932897)));

    let early = Vector { calendar: vec![Some(fields(1899, 12, 30, 0, 0, 0))], ..day(-25569) };
    assert_eq!(text(&cell_to_variant(&early, 0)), "1899-12-30");
    let ancient = Vector { calendar: vec![Some(fields(-44, 3, 5, 0, 0, 0))], ..day(-735_000) };
    assert_eq!(text(&cell_to_variant(&ancient, 0)), "-0044-03-05");
    let late = Vector { calendar: vec![Some(fields(12024, 3, 5, 0, 0, 0))], ..day(3_672_000) };
    assert_eq!(text(&cell_to_variant(&late, 0)), "12024-03-05");
}

fn instant(t: u32, n: i64) -> Vector {
    vector(t, n.to_le_bytes().to_vec())
}

#[test]
fn instants_are_counted_in_microseconds() {
    for t in [TYPE_TIMESTAMP, TYPE_TIMESTAMP_TZ] {
        assert_eq!(date(&cell_to_variant(&instant(t, 5), 0)), OleDate::Timestamp(5));
    }
    assert_eq!(
        date(&cell_to_variant(&instant(TYPE_TIMESTAMP_S, 3), 0)),
        OleDate::Timestamp(3_000_000)
    );
    assert_eq!(
        date(&cell_to_variant(&instant(TYPE_TIMESTAMP_MS, -3), 0)),
        OleDate::Timestamp(-3_000)
    );
    assert_eq!(
        date(&cell_to_variant(&instant(TYPE_TIMESTAMP_NS, 1_999), 0)),
        OleDate::Timestamp(1)
    );
    assert_eq!(
        date(&cell_to_variant(&instant(TYPE_TIMESTAMP_NS, -1_999), 0)),
        OleDate::Timestamp(-1)
    );
    assert_eq!(
        moment_to_look_up(&instant(TYPE_TIMESTAMP_S, i64::MAX), 0),
        Some(Moment::Instant(i64::MAX))
    );
    assert_eq!(
        moment_to_look_up(&instant(TYPE_TIMESTAMP_MS, i64::MIN), 0),
        Some(Moment::Instant(i64::MIN))
    );
    let early = Vector {
        calendar: vec![Some(fields(1899, 12, 30, 7, 8, 9))],
        ..instant(TYPE_TIMESTAMP, MIN_DISPLAYABLE_INSTANT - 1)
    };
    assert_eq!(text(&cell_to_variant(&early, 0)), "1899-12-30 07:08:09");
}

#[test]
fn one_instant_shows_alike_at_every_precision() {
    let types = [
        (TYPE_TIMESTAMP_S, 1),
        (TYPE_TIMESTAMP_MS, 1_000),
        (TYPE_TIMESTAMP, 1_000_000),
        (TYPE_TIMESTAMP_NS, 1_000_000_000),
    ];
    for (t, unit) in types {
        let v = cell_to_variant(&instant(t, 1_705_320_000 * unit), 0);
        assert_eq!(date(&v), OleDate::Timestamp(1_705_320_000_000_000));
        // 1700-03-05 06:07:08
        let early = -8_515_561_972;
        assert_eq!(
            moment_to_look_up(&instant(t, early * unit), 0),
            Some(Moment::Instant(early * 1_000_000))
        );
        let v = Vector {
            calendar: vec![Some(fields(1700, 3, 5, 6, 7, 8))],
            ..instant(t, early * unit)
        };
        assert_eq!(text(&cell_to_variant(&v, 0)), "1700-03-05 06:07:08");
    }
}

#[test]
fn displayable_instants_are_those_whose_ole_date_is() {
    let shown = |micros: i64| {
        let ole = micros as f64 / 86_400_000_000.0 + 25569.0;
        ole.is_finite() && (1.0..=2_958_465.0).contains(&ole)
    };
    let edges = [
        MIN_DISPLAYABLE_INSTANT,
        MIN_DISPLAYABLE_INSTANT - 1,
        MAX_DISPLAYABLE_INSTANT,
        MAX_DISPLAYABLE_INSTANT + 1,
        0,
        i64::MIN,
        i64::MAX,
    ];
    for micros in edges {
        let looked_up = moment_to_look_up(&instant(TYPE_TIMESTAMP, micros), 0);
        assert_eq!(looked_up.is_none(), shown(micros), "{micros}");
    }
    let mut micros = MIN_DISPLAYABLE_INSTANT - 2_000;
    while micros < MIN_DISPLAYABLE_INSTANT + 2_000 {
        let looked_up = moment_to_look_up(&instant(TYPE_TIMESTAMP, micros), 0);
        assert_eq!(looked_up.is_none(), shown(micros), "{micros}");
        micros += 1;
    }
    let mut micros = MAX_DISPLAYABLE_INSTANT - 2_000;
    while micros < MAX_DISPLAYABLE_INSTANT + 2_000 {
        let looked_up = moment_to_look_up(&instant(TYPE_TIMESTAMP, micros), 0);
        assert_eq!(looked_up.is_none(), shown(micros), "{micros}");
        micros += 1;
    }
}

#[test]
fn times_intervals_and_uuids() {
    assert_eq!(
        date(&cell_to_variant(&instant(TYPE_TIME, 43_200_000_000), 0)),
        OleDate::TimeOfDay(43_200_000_000)
    );
    assert_eq!(text(&cell_to_variant(&instant(TYPE_TIME_TZ, -5), 0)), "-5");
    assert_eq!(text(&cell_to_variant(&instant(TYPE_TIME_NS, 77), 0)), "77");

    let mut data = (-1i32).to_le_bytes().to_vec();
    data.extend(15i32.to_le_bytes());
    data.extend((-7i64).to_le_bytes());
    assert_eq!(
        text(&cell_to_variant(&vector(TYPE_INTERVAL, data), 0)),
        "-1 months 15 days -7 micros"
    );

    let h = Hugeint { lower: 0x8899_AABB_CCDD_EEFF, upper: 0x0011_2233_4455_6677 };
    assert_eq!(uuid_to_string(h), "80112233-4455-6677-8899-aabbccddeeff");
    let mut data = h.lower.to_le_bytes().to_vec();
    data.extend(h.upper.to_le_bytes());
    assert_eq!(
        text(&cell_to_variant(&vector(TYPE_UUID, data), 0)),
        "80112233-4455-6677-8899-aabbccddeeff"
    );
    let h = Hugeint { lower: 1, upper: i64::MIN };
    assert_eq!(uuid_to_string(h), "00000000-0000-0000-0000-000000000001");
}

#[test]
fn enums_show_their_text() {
    let e = |internal: u32, data: Vec<u8>| Vector {
        enum_internal: internal,
        dictionary: vec![Some("赤".into()), None, Some(vec![0x41, 0xFF])],
        ..vector(TYPE_ENUM, data)
    };
    assert_eq!(text(&cell_to_variant(&e(TYPE_UTINYINT, vec![2, 0]), 1)), "赤");
    assert_eq!(text(&cell_to_variant(&e(TYPE_USMALLINT, vec![1, 0]), 0)), "");
    assert_eq!(
        text(&cell_to_variant(&e(TYPE_UINTEGER, vec![2, 0, 0, 0]), 0)),
        String::from_utf8_lossy(&[0x41, 0xFF])
    );
    assert_eq!(cell_to_variant(&e(TYPE_BIGINT, vec![]), 0).vt, VT_NULL);
}

#[test]
fn what_a_query_gives_can_be_handed_back() {
    let back = |v: &Vector| variant_to_value(&cell_to_variant(v, 0), "x").unwrap();
    assert!(matches!(back(&instant(TYPE_BIGINT, -7)), DuckValue::Int64(-7)));
    assert!(matches!(back(&vector(TYPE_BOOLEAN, vec![1])), DuckValue::Bool(true)));
    assert!(matches!(back(&instant(TYPE_TIMESTAMP, 12_345)), DuckValue::Timestamp(12_345)));
    let text = strings(TYPE_VARCHAR, vec!["技術部𠮷😀".into()]);
    assert!(matches!(back(&text), DuckValue::Varchar(s) if s == "技術部𠮷😀"));
    let blob = strings(TYPE_BLOB, vec![vec![0, 255, 1]]);
    assert!(matches!(back(&blob), DuckValue::Blob(b) if b == vec![0, 255, 1]));
    let null = Vector { validity: Some(vec![0]), ..instant(TYPE_BIGINT, 1) };
    assert!(matches!(back(&null), DuckValue::Null));
    let bits = 0.1f64.to_bits();
    let double = vector(TYPE_DOUBLE, bits.to_le_bytes().to_vec());
    assert!(matches!(back(&double), DuckValue::Double(Number::Bits(b)) if b == bits));
}

#[test]
fn sizes_follow_the_stored_type() {
    assert_eq!(element_size(&vector(TYPE_DATE, vec![])), 4);
    assert_eq!(element_size(&vector(TYPE_UUID, vec![])), 16);
    assert_eq!(element_size(&vector(TYPE_VARCHAR, vec![])), 0);
    assert_eq!(element_size(&decimal(9, 2, TYPE_INTEGER, vec![])), 4);
    assert_eq!(element_size(&decimal(38, 2, TYPE_HUGEINT, vec![])), 16);
    assert_eq!(element_size(&decimal(38, 2, TYPE_DOUBLE, vec![])), 0);
}
