use cc_downloader::cli::crawl_name_format as crawl_argument_format;
use cc_downloader::cli::subset_flag_allowed;
use cc_downloader::cli::DataType;
use cc_downloader::cli::IndexTableSubset;
use cc_downloader::snapshot::crawl_name_format;

#[test]
fn snapshots_are_upper_cased_and_checked() {
    assert_eq!(crawl_name_format("CC-MAIN-2024-46").unwrap(), "CC-MAIN-2024-46");
    assert_eq!(crawl_name_format("cc-main-2024-46").unwrap(), "CC-MAIN-2024-46");
    assert_eq!(crawl_name_format("Cc-News-2025-01").unwrap(), "CC-NEWS-2025-01");
    let msg = "Please use the CC-MAIN-YYYY-WW or the CC-NEWS-YYYY-MM format.";
    assert_eq!(crawl_name_format("CC-MAIN-2024-4").unwrap_err(), msg);
    assert_eq!(crawl_name_format("CC-MAIN-2024-466").unwrap_err(), msg);
    assert_eq!(crawl_name_format("CC-MAIN-20a4-46").unwrap_err(), msg);
    assert_eq!(crawl_name_format("CC-OTHER-2024-46").unwrap_err(), msg);
    assert_eq!(crawl_name_format(" CC-MAIN-2024-46").unwrap_err(), msg);
    assert_eq!(crawl_name_format("CC-MAIN-2024-46\n").unwrap_err(), msg);
    assert_eq!(crawl_name_format("").unwrap_err(), msg);
}

#[test]
fn an_accepted_snapshot_is_accepted_again_unchanged() {
    let once = crawl_name_format("cc-news-2025-01").unwrap();
    assert_eq!(crawl_name_format(&once).unwrap(), once);
}

#[test]
fn crawl_arguments_must_be_capitalized() {
    assert_eq!(crawl_argument_format("CC-MAIN-2021-04").unwrap(), "CC-MAIN-2021-04");
    assert_eq!(crawl_argument_format("CC-NEWS-2025-01").unwrap(), "CC-NEWS-2025-01");
    assert_eq!(
        crawl_argument_format("cc-main-2021-04").unwrap_err(),
        "Please use the CC-MAIN-YYYY-WW or the CC-NEWS-YYYY-MM format, make sure your input is propely capitalized"
    );
}

#[test]
fn data_type_names() {
    let names: Vec<&str> = [
        DataType::Segment,
        DataType::Warc,
        DataType::Wat,
        DataType::Wet,
        DataType::Robotstxt,
        DataType::Non200responses,
        DataType::CcIndex,
        DataType::CcIndexTable,
    ]
    .iter()
    .map(|d| d.as_str())
    .collect();
    assert_eq!(
        names,
        vec!["segment", "warc", "wat", "wet", "robotstxt", "non200responses", "cc-index", "cc-index-table"]
    );
    let distinct: std::collections::HashSet<&str> = names.iter().copied().collect();
    assert_eq!(distinct.len(), names.len());
}

#[test]
fn subset_names_and_where_they_are_allowed() {
    assert_eq!(IndexTableSubset::Crawldiagnostics.as_str(), "crawldiagnostics");
    assert_eq!(IndexTableSubset::Robotstxt.as_str(), "robotstxt");
    assert_eq!(IndexTableSubset::Warc.as_str(), "warc");
    assert!(subset_flag_allowed(DataType::CcIndexTable, 2));
    assert!(subset_flag_allowed(DataType::Wet, 0));
    assert!(!subset_flag_allowed(DataType::Wet, 1));
}

use cc_downloader::snapshot::accept_crawl_ref;

#[test]
fn accepting_upper_cased_references() {
    assert_eq!(accept_crawl_ref("CC-NEWS-2025-01".to_string()).unwrap(), "CC-NEWS-2025-01");
    assert_eq!(
        accept_crawl_ref("cc-news-2025-01".to_string()).unwrap_err(),
        "Please use the CC-MAIN-YYYY-WW or the CC-NEWS-YYYY-MM format."
    );
}
