//! The engine of a viewer for large CSV and Parquet files.
//!
//! - `sniff` and `row_count`: the delimiter of a CSV text and its data rows.
//! - `pagination`: the plan of fixed-size pages over a dataset's rows.
//! - `csv_page`: one page of a CSV text, malformed records passed over.
//! - `thumbnail`: the first numeric column of a page, down-sampled.
//! - `csv_cache`: the open CSV dataset with its pages and thumbnails.
//! - `page_key`, `parquet`, `parquet_cache`, `parquet_ops`: the same for
//!   Parquet files, whose rows the caller reads and hands over as raw cells.
//! - `page_totals`: that the pages of a plan load every row.
//! - `text`: character-level helpers (trimming, float syntax).
//! - `app_paths`, `pdf_library`, `python`, `keys`, `activity`: small pieces of the
//!   surrounding application.

pub mod pagination;
pub mod sniff;
pub mod row_count;
pub mod csv_page;
pub mod text;
pub mod thumbnail;
pub mod csv_cache;
pub mod app_paths;
pub mod pdf_library;
pub mod python;
pub mod page_key;
pub mod parquet;
pub mod parquet_cache;
pub mod parquet_ops;
pub mod keys;
pub mod page_totals;
pub mod activity;
