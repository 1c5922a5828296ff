use datascope::csv_cache::{
    csv_change_delimiter, csv_clear_cache, csv_generate_thumbnail, csv_get_pagination, csv_load_file, csv_load_page,
    csv_page_request, csv_thumbnail_request, CsvCacheManager, CsvSource,
};
use datascope::csv_page::{parse_csv_page, CsvRecord, ParsedPage};
use datascope::pagination::{calculate_pagination, plan_pages, PageInfo, ROWS_PER_PAGE};
use datascope::row_count::quick_count_rows;
use datascope::sniff::detect_delimiter;
use datascope::thumbnail::{find_first_numeric_column, generate_thumbnail};

fn field<'a>(r: &'a CsvRecord, name: &str) -> Option<&'a str> {
    r.fields.iter().find(|(h, _)| h == name).map(|(_, v)| v.as_str())
}

fn page(info: &PageInfo, content: &str, delim: char) -> ParsedPage {
    parse_csv_page(content, delim, info.start_row, info.end_row).unwrap()
}

#[test]
fn count_rows_without_trailing_newline() {
    assert_eq!(quick_count_rows("h1,h2\n1,2\n3,4"), 2);
}

#[test]
fn count_rows_with_trailing_newline() {
    assert_eq!(quick_count_rows("h1,h2\n1,2\n3,4\n"), 2);
}

#[test]
fn count_rows_empty_and_header_only() {
    assert_eq!(quick_count_rows(""), 0);
    assert_eq!(quick_count_rows("a,b"), 0);
    assert_eq!(quick_count_rows("a,b\n"), 0);
}

#[test]
fn count_rows_ignores_quoted_newlines() {
    assert_eq!(quick_count_rows("a,b\n\"x\ny\",1\n2,3\n"), 2);
}

#[test]
fn delimiter_detection() {
    assert_eq!(detect_delimiter("a,b,c\n1,2,3"), ',');
    assert_eq!(detect_delimiter("a\tb\tc\n1\t2\t3"), '\t');
    assert_eq!(detect_delimiter("a;b;c\n"), ';');
    assert_eq!(detect_delimiter("a|b|c"), '|');
    assert_eq!(detect_delimiter("abc\n1;2;3;4"), ',');
    assert_eq!(detect_delimiter(""), ',');
    assert_eq!(detect_delimiter("a;b|c\n"), ',');
}

#[test]
fn delimiter_detection_looks_at_first_two_thousand_bytes() {
    let mut s = "x".repeat(1999);
    s.push_str(";;;;");
    assert_eq!(detect_delimiter(&s), ';');
    let mut t = "x".repeat(2000);
    t.push_str(";;;;");
    assert_eq!(detect_delimiter(&t), ',');
}

#[test]
fn pagination_partitions_rows() {
    let plan = plan_pages(10, 3);
    assert_eq!(plan.total_rows, 10);
    assert_eq!(plan.total_pages, 4);
    assert_eq!(plan.current_page, 0);
    let bounds: Vec<(usize, usize, usize, usize)> =
        plan.pages.iter().map(|p| (p.page_index, p.start_row, p.end_row, p.row_count)).collect();
    assert_eq!(bounds, vec![(0, 0, 3, 3), (1, 3, 6, 3), (2, 6, 9, 3), (3, 9, 10, 1)]);
}

#[test]
fn pagination_default_page_size() {
    let plan = calculate_pagination(450_000);
    assert_eq!(ROWS_PER_PAGE, 200_000);
    assert_eq!(plan.total_pages, 3);
    assert_eq!(plan.pages[2].start_row, 400_000);
    assert_eq!(plan.pages[2].end_row, 450_000);
    assert_eq!(calculate_pagination(0).pages.len(), 0);
    assert_eq!(calculate_pagination(200_000).total_pages, 1);
    assert_eq!(calculate_pagination(200_001).total_pages, 2);
}

#[test]
fn page_rows_match_row_count() {
    let mut content = String::from("id,v\n");
    for i in 0..25 {
        content.push_str(&format!("{},{}\n", i, i * 2));
    }
    let n = quick_count_rows(&content);
    assert_eq!(n, 25);
    let plan = plan_pages(n, 7);
    let total: usize = plan.pages.iter().map(|p| page(p, &content, ',').rows.len()).sum();
    assert_eq!(total, 25);
    let third = page(&plan.pages[2], &content, ',');
    assert_eq!(field(&third.rows[0], "id"), Some("14"));
    assert_eq!(field(&third.rows[0], "v"), Some("28"));
}

#[test]
fn page_parse_basic() {
    let p = parse_csv_page("h1,h2\n1,2\n3,4", ',', 0, 10).unwrap();
    assert_eq!(p.headers, vec!["h1".to_string(), "h2".to_string()]);
    assert_eq!(p.rows.len(), 2);
    assert_eq!(p.skipped_rows, 0);
    assert_eq!(field(&p.rows[1], "h1"), Some("3"));
    assert_eq!(field(&p.rows[1], "h2"), Some("4"));
}

#[test]
fn page_parse_window() {
    let p = parse_csv_page("a\n0\n1\n2\n3\n4\n", ',', 1, 3).unwrap();
    let got: Vec<&str> = p.rows.iter().map(|r| field(r, "a").unwrap()).collect();
    assert_eq!(got, vec!["1", "2"]);
}

#[test]
fn page_parse_skips_malformed_row() {
    let content = "a,b,c\n1,2,3\n4,5,6\n7,\"8,9\n";
    let p = parse_csv_page(content, ',', 0, 100).unwrap();
    assert!(p.skipped_rows >= 1);
    let got: Vec<&str> = p.rows.iter().map(|r| field(r, "a").unwrap()).collect();
    assert_eq!(got, vec!["1", "4"]);
}

#[test]
fn page_parse_counts_short_rows_as_skipped() {
    let p = parse_csv_page("a,b\n1,2\n3\n5,6\n", ',', 0, 100).unwrap();
    assert_eq!(p.skipped_rows, 1);
    let got: Vec<&str> = p.rows.iter().map(|r| field(r, "b").unwrap()).collect();
    assert_eq!(got, vec!["2", "6"]);
}

#[test]
fn page_parse_empty_text() {
    let p = parse_csv_page("", ',', 0, 10).unwrap();
    assert!(p.headers.is_empty());
    assert!(p.rows.is_empty());
}

fn numeric_table(numeric_in_a: usize) -> (Vec<String>, Vec<CsvRecord>) {
    let headers = vec!["a".to_string(), "b".to_string()];
    let rows = (0..100)
        .map(|i| CsvRecord {
            fields: vec![
                ("a".to_string(), if i < numeric_in_a { format!("{}", i) } else { "x".to_string() }),
                ("b".to_string(), format!("{}.5", i)),
            ],
        })
        .collect();
    (headers, rows)
}

#[test]
fn numeric_column_at_seventy_percent() {
    let (h, rows) = numeric_table(70);
    assert_eq!(find_first_numeric_column(&h, &rows), Some("a".to_string()));
}

#[test]
fn numeric_column_below_seventy_percent_falls_through() {
    let (h, rows) = numeric_table(69);
    assert_eq!(find_first_numeric_column(&h, &rows), Some("b".to_string()));
}

#[test]
fn numeric_column_none() {
    let h = vec!["a".to_string()];
    let rows = vec![CsvRecord { fields: vec![("a".to_string(), " ".to_string())] }];
    assert_eq!(find_first_numeric_column(&h, &rows), None);
}

#[test]
fn thumbnail_samples_numeric_column() {
    let content = "name,val\nx, 1.5\ny,abc\nz,-2e3\nw,4\n";
    let info = PageInfo { page_index: 4, start_row: 0, end_row: 4, row_count: 4 };
    let t = generate_thumbnail(content, ',', &info).unwrap();
    assert_eq!(t.page_index, 4);
    let pts: Vec<(usize, &str)> = t.points.iter().map(|p| (p.row, p.value.as_str())).collect();
    assert_eq!(pts, vec![(0, "1.5"), (2, "-2e3"), (3, "4")]);
}

#[test]
fn thumbnail_offsets_and_stride() {
    let mut content = String::from("v\n");
    for i in 0..3000 {
        content.push_str(&format!("{}\n", i));
    }
    let info = PageInfo { page_index: 1, start_row: 0, end_row: 3000, row_count: 3000 };
    let t = generate_thumbnail(&content, ',', &info).unwrap();
    assert_eq!(t.points.len(), 1000);
    assert_eq!(t.points[1].row, 3);
    assert_eq!(t.points[1].value, "3");
}

#[test]
fn cache_returns_same_page_twice() {
    let mut cache = CsvCacheManager::new();
    let (_, rows, d) = csv_load_file("f.csv".to_string(), "a,b\n1,2\n3,4\n".to_string(), &mut cache);
    assert_eq!((rows, d), (2, ','));
    let info = PageInfo { page_index: 0, start_row: 0, end_row: 2, row_count: 2 };
    let quiet = |_: u64, _: u64| {};
    let first = csv_load_page(0, &info, &mut cache, &quiet).unwrap();
    assert!(cache.get_cached_page(0).is_some());
    let calls = std::cell::Cell::new(0u32);
    let count = |_: u64, _: u64| calls.set(calls.get() + 1);
    let second = csv_load_page(0, &info, &mut cache, &count).unwrap();
    assert_eq!(calls.get(), 1);
    assert_eq!(first.headers, second.headers);
    assert_eq!(first.rows.len(), second.rows.len());
    for (x, y) in first.rows.iter().zip(second.rows.iter()) {
        assert_eq!(x.fields, y.fields);
    }
}

#[test]
fn delimiter_change_reparses() {
    let mut cache = CsvCacheManager::new();
    csv_load_file("f.csv".to_string(), "a;b,c\n1;2,3\n".to_string(), &mut cache);
    let info = PageInfo { page_index: 0, start_row: 0, end_row: 1, row_count: 1 };
    let quiet = |_: u64, _: u64| {};
    let before = csv_load_page(0, &info, &mut cache, &quiet).unwrap();
    assert_eq!(before.headers, vec!["a;b".to_string(), "c".to_string()]);
    assert_eq!(csv_change_delimiter(';', &mut cache), Ok(1));
    assert!(cache.get_cached_page(0).is_none());
    let after = csv_load_page(0, &info, &mut cache, &quiet).unwrap();
    assert_eq!(after.headers, vec!["a".to_string(), "b,c".to_string()]);
}

#[test]
fn load_page_without_file_fails() {
    let mut cache = CsvCacheManager::new();
    let info = PageInfo { page_index: 0, start_row: 0, end_row: 1, row_count: 1 };
    let quiet = |_: u64, _: u64| {};
    assert!(csv_load_page(0, &info, &mut cache, &quiet).is_err());
    assert!(csv_change_delimiter(';', &mut cache).is_err());
}

#[test]
fn page_request_steps() {
    let mut cache = CsvCacheManager::default();
    assert!(csv_page_request(0, &cache).is_err());
    csv_load_file("t.tsv".to_string(), "a\tb\n1\t2\n".to_string(), &mut cache);
    match csv_page_request(0, &cache).unwrap() {
        CsvSource::Parse { content, delimiter } => {
            assert_eq!(content, "a\tb\n1\t2\n");
            assert_eq!(delimiter, '\t');
        }
        CsvSource::Cached(_) => panic!("nothing is cached yet"),
    }
    let page = parse_csv_page("a\tb\n1\t2\n", '\t', 0, 1).unwrap();
    cache.cache_page(0, page.clone());
    match csv_page_request(0, &cache).unwrap() {
        CsvSource::Cached(p) => assert_eq!(p, page),
        CsvSource::Parse { .. } => panic!("the page is cached"),
    }
}

#[test]
fn thumbnail_through_cache() {
    let mut cache = CsvCacheManager::new();
    let mut content = String::from("label,v\n");
    for i in 0..10 {
        content.push_str(&format!("r{},{}\n", i, i));
    }
    let (_, rows, _) = csv_load_file("f.csv".to_string(), content, &mut cache);
    let plan = csv_get_pagination(rows);
    let info = plan.pages[0];
    let t = csv_generate_thumbnail(0, &info, &mut cache).unwrap();
    assert_eq!(t.points.len(), 10);
    assert_eq!((t.points[9].row, t.points[9].value.as_str()), (9, "9"));
    match csv_thumbnail_request(0, &cache).unwrap() {
        CsvSource::Cached(c) => assert_eq!(c, t),
        CsvSource::Parse { .. } => panic!("the thumbnail is cached"),
    }
    csv_clear_cache(&mut cache);
    assert!(csv_thumbnail_request(0, &cache).is_err());
    assert!(cache.get_file_content().is_none());
}

#[test]
fn non_ascii_delimiter_is_refused() {
    assert!(parse_csv_page("a,b\n1,2", '\u{12C}', 0, 1).is_err());
    assert!(parse_csv_page("a\u{e9}b\n1\u{e9}2", '\u{e9}', 0, 1).is_err());
    let info = PageInfo { page_index: 0, start_row: 0, end_row: 1, row_count: 1 };
    assert!(generate_thumbnail("a,b\n1,2", '\u{12C}', &info).is_err());
}
