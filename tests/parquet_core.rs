use datascope::page_key::page_cache_key;
use datascope::pagination::PageInfo;
use datascope::parquet::{any_to_json, int_text, split_timestamp, CellValue, ParquetColumn, RawCell, TimeUnit};
use datascope::parquet_cache::{build_page, find_first_numeric_column, sample_page, ParquetCacheManager};
use datascope::parquet_ops::{
    conversion_plan, parquet_page_request, parquet_store_page, parquet_store_thumbnail,
    parquet_thumbnail_request, slice_bounds, sum_row_counts, Compression, CsvToParquetOptions,
    PageSource, ThumbnailSource,
};

fn info(page_index: usize, start_row: usize, row_count: usize) -> PageInfo {
    PageInfo { page_index, start_row, end_row: start_row + row_count, row_count }
}

fn names(v: &[&str]) -> Vec<String> {
    v.iter().map(|s| s.to_string()).collect()
}

fn text(s: &str) -> CellValue {
    CellValue::Text(s.to_string())
}

#[test]
fn key_sorts_and_dedups_columns() {
    let k = page_cache_key(3, &info(3, 400, 200), &names(&["b", "a", "b"]));
    assert_eq!(k, "p=3;s=400;n=200;c=a|b");
}

#[test]
fn key_for_all_columns() {
    assert_eq!(page_cache_key(0, &info(0, 0, 7), &vec![]), "p=0;s=0;n=7;c=*");
}

#[test]
fn key_ignores_column_order() {
    let i = info(1, 10, 10);
    assert_eq!(page_cache_key(1, &i, &names(&["a", "b"])), page_cache_key(1, &i, &names(&["b", "a"])));
    assert_ne!(page_cache_key(1, &i, &names(&["a"])), page_cache_key(1, &i, &names(&["a", "b"])));
}

#[test]
fn key_orders_by_code_point() {
    let k = page_cache_key(0, &info(0, 0, 1), &names(&["ab", "B", "a", "é"]));
    assert_eq!(k, "p=0;s=0;n=1;c=B|a|ab|é");
}

#[test]
fn integers_beyond_safe_range_become_text() {
    assert_eq!(any_to_json(&RawCell::Int(9_007_199_254_740_991)), CellValue::Int(9_007_199_254_740_991));
    assert_eq!(any_to_json(&RawCell::Int(9_007_199_254_740_992)), text("9007199254740992"));
    assert_eq!(any_to_json(&RawCell::Int(-9_007_199_254_740_991)), CellValue::Int(-9_007_199_254_740_991));
    assert_eq!(any_to_json(&RawCell::Int(-9_007_199_254_740_992)), text("-9007199254740992"));
    assert_eq!(any_to_json(&RawCell::Int(i64::MIN)), text("-9223372036854775808"));
    assert_eq!(any_to_json(&RawCell::UInt(42)), CellValue::UInt(42));
    assert_eq!(any_to_json(&RawCell::UInt(u64::MAX)), text("18446744073709551615"));
    assert_eq!(any_to_json(&RawCell::Int128(-5)), text("-5"));
}

#[test]
fn scalar_encodings() {
    assert_eq!(any_to_json(&RawCell::Null), CellValue::Null);
    assert_eq!(any_to_json(&RawCell::Bool(true)), CellValue::Bool(true));
    assert_eq!(any_to_json(&RawCell::Float(None)), CellValue::Null);
    assert_eq!(any_to_json(&RawCell::Float(Some("1.5".to_string()))), CellValue::Number("1.5".to_string()));
    assert_eq!(any_to_json(&RawCell::Date(19000)), text("19000"));
    assert_eq!(any_to_json(&RawCell::Time(-3)), text("-3"));
    assert_eq!(any_to_json(&RawCell::Duration(5, TimeUnit::Milliseconds)), text("5(Milliseconds)"));
    assert_eq!(any_to_json(&RawCell::Other("cat".to_string())), text("cat"));
}

#[test]
fn binary_becomes_base64() {
    assert_eq!(any_to_json(&RawCell::Binary(vec![1, 2, 3])), text("AQID"));
    assert_eq!(any_to_json(&RawCell::Binary(b"hello".to_vec())), text("aGVsbG8="));
}

#[test]
fn datetimes_become_rfc3339() {
    assert_eq!(
        any_to_json(&RawCell::Datetime(1_431_648_000_000, TimeUnit::Milliseconds)),
        text("2015-05-15T00:00:00.000000000Z")
    );
    assert_eq!(
        any_to_json(&RawCell::Datetime(1_500, TimeUnit::Microseconds)),
        text("1970-01-01T00:00:00.001500000Z")
    );
    assert_eq!(
        any_to_json(&RawCell::Datetime(-2_000, TimeUnit::Milliseconds)),
        text("1969-12-31T23:59:58.000000000Z")
    );
    assert_eq!(
        any_to_json(&RawCell::Datetime(-1_500, TimeUnit::Milliseconds)),
        text("1969-12-31T23:59:58.500000000Z")
    );
    assert_eq!(
        any_to_json(&RawCell::Datetime(-1, TimeUnit::Milliseconds)),
        text("1969-12-31T23:59:59.999000000Z")
    );
    assert_eq!(any_to_json(&RawCell::Datetime(i64::MAX, TimeUnit::Milliseconds)), text("9223372036854775807"));
}

#[test]
fn timestamp_split() {
    assert_eq!(split_timestamp(1_234_567_891, &TimeUnit::Nanoseconds), (1, 234_567_891));
    assert_eq!(split_timestamp(2_500, &TimeUnit::Milliseconds), (2, 500_000_000));
    assert_eq!(split_timestamp(-3_000, &TimeUnit::Microseconds), (-1, 997_000_000));
    assert_eq!(split_timestamp(-3_000_000, &TimeUnit::Microseconds), (-3, 0));
    assert_eq!(split_timestamp(-1, &TimeUnit::Nanoseconds), (-1, 999_999_999));
    assert_eq!(split_timestamp(i64::MIN, &TimeUnit::Nanoseconds), (-9_223_372_037, 145_224_192));
    assert_eq!(split_timestamp(i64::MIN, &TimeUnit::Milliseconds), (-9_223_372_036_854_776, 192_000_000));
    assert_eq!(int_text(0), "0");
}

#[test]
fn nested_values() {
    let raw = RawCell::Struct(vec![
        ("xs".to_string(), RawCell::List(vec![RawCell::Int(1), RawCell::Null])),
        ("big".to_string(), RawCell::UInt(1 << 60)),
    ]);
    let expected = CellValue::Object(vec![
        ("xs".to_string(), CellValue::Array(vec![CellValue::Int(1), CellValue::Null])),
        ("big".to_string(), text("1152921504606846976")),
    ]);
    assert_eq!(any_to_json(&raw), expected);
}

#[test]
fn row_group_sums() {
    assert_eq!(sum_row_counts(&vec![1, 2, 3]), Ok(6));
    assert_eq!(sum_row_counts(&vec![]), Ok(0));
    assert!(sum_row_counts(&vec![u64::MAX, 1]).is_err());
}

#[test]
fn slice_bounds_limits() {
    assert_eq!(slice_bounds(&info(0, 5, 10)), Ok((5, 10)));
    assert!(slice_bounds(&info(0, 0, u32::MAX as usize + 1)).is_err());
    let far = PageInfo { page_index: 0, start_row: i64::MAX as usize + 1, end_row: usize::MAX, row_count: 1 };
    assert!(slice_bounds(&far).is_err());
}

#[test]
fn conversion_defaults() {
    let p = conversion_plan(None);
    assert_eq!((p.delimiter, p.has_header, p.infer_schema_length, p.compression), (b',', true, None, Compression::Zstd));
}

#[test]
fn conversion_options() {
    let o = CsvToParquetOptions {
        delimiter: Some(";".to_string()),
        has_header: Some(false),
        infer_schema_length: Some(50),
        compression: Some("snappy".to_string()),
    };
    let p = conversion_plan(Some(o));
    assert_eq!((p.delimiter, p.has_header, p.infer_schema_length, p.compression), (b';', false, Some(50), Compression::Snappy));
    let o2 = CsvToParquetOptions {
        delimiter: Some(String::new()),
        has_header: None,
        infer_schema_length: None,
        compression: Some("uncompressed".to_string()),
    };
    let second_plan = conversion_plan(Some(o2));
    assert_eq!((second_plan.delimiter, second_plan.has_header, second_plan.compression), (b',', true, Compression::Uncompressed));
    let o3 = CsvToParquetOptions { delimiter: None, has_header: None, infer_schema_length: None, compression: Some("gzip".to_string()) };
    assert_eq!(conversion_plan(Some(o3)).compression, Compression::Zstd);
}

fn sample_rows() -> Vec<Vec<RawCell>> {
    (0..4)
        .map(|i| vec![RawCell::Text(format!("n{}", i)), RawCell::Int(i * 10), RawCell::Text(format!(" {}.5 ", i))])
        .collect()
}

#[test]
fn parquet_numeric_column_and_thumbnail() {
    let page = build_page(names(&["name", "v", "w"]), &sample_rows());
    assert_eq!(page.rows.len(), 4);
    assert_eq!(page.rows[2][1], ("v".to_string(), CellValue::Int(20)));
    assert_eq!(find_first_numeric_column(&page), Some("v".to_string()));
    let t = sample_page(7, 100, &page);
    assert_eq!(t.page_index, 7);
    let pts: Vec<(usize, &str)> = t.points.iter().map(|p| (p.row, p.value.as_str())).collect();
    assert_eq!(pts, vec![(100, "0"), (101, "10"), (102, "20"), (103, "30")]);
}

#[test]
fn parquet_text_numbers_and_other_values() {
    let rows: Vec<Vec<RawCell>> = (0..10)
        .map(|i| vec![if i < 3 { RawCell::Bool(true) } else { RawCell::Int(i) }, RawCell::Text(format!("{}", i))])
        .collect();
    let page = build_page(names(&["flag", "t"]), &rows);
    assert_eq!(find_first_numeric_column(&page), Some("flag".to_string()));
    let rows2: Vec<Vec<RawCell>> = (0..10)
        .map(|i| vec![if i < 4 { RawCell::Bool(true) } else { RawCell::Int(i) }, RawCell::Null])
        .collect();
    let page2 = build_page(names(&["flag", "t"]), &rows2);
    assert_eq!(find_first_numeric_column(&page2), None);
}

#[test]
fn parquet_cache_flow() {
    let mut cache = ParquetCacheManager::new();
    let i = info(0, 0, 4);
    assert!(parquet_page_request(0, &i, None, &cache).is_err());
    cache.set_dataset(
        "data.parquet".to_string(),
        4,
        vec![ParquetColumn { name: "name".to_string(), dtype: "str".to_string() }],
    );
    let first = parquet_page_request(0, &i, Some(names(&["v", "name"])), &cache).unwrap();
    let read = match first {
        PageSource::Read(r) => r,
        other => panic!("expected a read, got {:?}", other),
    };
    assert_eq!(read.path, "data.parquet");
    assert_eq!(read.columns, names(&["v", "name"]));
    assert_eq!((read.offset, read.length), (0, 4));
    assert_eq!(read.key, "p=0;s=0;n=4;c=name|v");
    parquet_store_page(&mut cache, read.key.clone(), names(&["name", "v"]), &vec![vec![RawCell::Text("a".to_string()), RawCell::Int(1)]]);
    parquet_store_page(&mut cache, read.key.clone(), names(&["name", "v"]), &vec![vec![RawCell::Text("a".to_string()), RawCell::Int(1)]]);
    let second = parquet_page_request(0, &i, Some(names(&["name", "v"])), &cache).unwrap();
    assert_eq!(second, PageSource::Cached(read.key.clone()));
    let stored = cache.get_cached_page(&read.key).unwrap();
    assert_eq!(stored.rows[0][1], ("v".to_string(), CellValue::Int(1)));
    cache.clear();
    assert!(cache.get_cached_page(&read.key).is_none());
}

#[test]
fn parquet_thumbnail_flow() {
    let mut cache = ParquetCacheManager::new();
    let i = info(2, 50, 4);
    assert!(parquet_thumbnail_request(2, &i, &cache).is_err());
    cache.set_dataset("d.parquet".to_string(), 54, vec![]);
    match parquet_thumbnail_request(2, &i, &cache).unwrap() {
        ThumbnailSource::Read { path, offset, length } => {
            assert_eq!((path.as_str(), offset, length), ("d.parquet", 50, 4));
        }
        other => panic!("expected a read, got {:?}", other),
    }
    let t = parquet_store_thumbnail(&mut cache, 2, &i, names(&["name", "v", "w"]), &sample_rows()).unwrap();
    assert_eq!(t.points.len(), 4);
    assert_eq!(t.points[3].row, 53);
    match parquet_thumbnail_request(2, &i, &cache).unwrap() {
        ThumbnailSource::Cached(c) => assert_eq!(c, t),
        other => panic!("expected the cached thumbnail, got {:?}", other),
    }
}

#[test]
fn storing_a_page_again_replaces_it() {
    let mut cache = ParquetCacheManager::new();
    let key = "p=0;s=0;n=1;c=*".to_string();
    parquet_store_page(&mut cache, key.clone(), names(&["v"]), &vec![vec![RawCell::Int(1)]]);
    parquet_store_page(&mut cache, key.clone(), names(&["v"]), &vec![vec![RawCell::Int(2)]]);
    let other = "p=1;s=1;n=1;c=*".to_string();
    parquet_store_page(&mut cache, other.clone(), names(&["v"]), &vec![vec![RawCell::Int(3)]]);
    assert_eq!(cache.get_cached_page(&key).unwrap().rows[0][0].1, CellValue::Int(2));
    assert_eq!(cache.get_cached_page(&other).unwrap().rows[0][0].1, CellValue::Int(3));
}

#[test]
fn unsigned_cells_stay_unsigned() {
    assert_eq!(any_to_json(&RawCell::UInt(0)), CellValue::UInt(0));
    assert_eq!(any_to_json(&RawCell::Int(7)), CellValue::Int(7));
}
