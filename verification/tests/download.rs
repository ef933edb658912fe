use cc_downloader::download::crawl_paths_status;
use cc_downloader::download::contrib_paths_status;
use cc_downloader::download::download_tasks;
use cc_downloader::download::downloads_outcome;
use cc_downloader::download::layout_flags_compatible;
use cc_downloader::download::needs_subset_filter;
use cc_downloader::download::paths_index_url;
use cc_downloader::download::paths_plan;
use cc_downloader::download::rate_limit_step;
use cc_downloader::download::retry_policy;
use cc_downloader::download::task_plan;
use cc_downloader::download::task_status;
use cc_downloader::download::DownloadOptions;
use cc_downloader::download::RateLimitAnswer;
use cc_downloader::download::RateLimitStep;
use cc_downloader::download::APP_USER_AGENT;
use cc_downloader::download::BASE_URL;
use cc_downloader::errors::DownloadError;

fn custom_message(e: DownloadError) -> String {
    match e {
        DownloadError::Custom(m) => m,
        other => panic!("expected a custom error, got {other:?}"),
    }
}

#[test]
fn user_agent_format() {
    assert_eq!(APP_USER_AGENT, format!("{}/{}", "cc-downloader", "0.6.0"));
}

#[test]
fn default_options() {
    let o = DownloadOptions::default();
    assert_eq!(o.snapshot, "");
    assert_eq!(o.data_type, "");
    assert_eq!(o.paths, "");
    assert_eq!(o.dst, "");
    assert_eq!(o.threads, 1);
    assert_eq!(o.max_retries, 1000);
    assert!(!o.numbered && !o.files_only && !o.progress);
    assert!(o.cc_index_table_subsets.is_empty());
}

#[test]
fn new_options_uppercase_the_snapshot() {
    let o = DownloadOptions::new("cc-main-2024-46", "wet", "./output/wet.paths.gz", "./output", false, false, true)
        .unwrap();
    assert_eq!(o.snapshot, "CC-MAIN-2024-46");
    assert_eq!(o.data_type, "wet");
    assert_eq!(o.paths, "./output/wet.paths.gz");
    assert_eq!(o.dst, "./output");
    assert_eq!(o.threads, 10);
    assert_eq!(o.max_retries, 1000);
    assert!(!o.numbered && !o.files_only && o.progress);
}

#[test]
fn new_options_reject_a_bad_snapshot() {
    let e = DownloadOptions::new("CC-MAIN-2024", "wet", "p", "d", false, false, false).unwrap_err();
    assert_eq!(e, "Please use the CC-MAIN-YYYY-WW or the CC-NEWS-YYYY-MM format.");
}

#[test]
fn setters_change_one_field() {
    let mut o = DownloadOptions::new("CC-NEWS-2025-01", "warc", "p", "d", true, false, false).unwrap();
    o.set_threads(5);
    o.set_max_retries(3);
    assert_eq!(o.threads, 5);
    assert_eq!(o.max_retries, 3);
    assert_eq!(o.snapshot, "CC-NEWS-2025-01");
    assert!(o.numbered);
}

#[test]
fn main_crawl_index_url() {
    assert_eq!(
        paths_index_url("CC-MAIN-2024-46", "wet"),
        "https://data.commoncrawl.org/crawl-data/CC-MAIN-2024-46/wet.paths.gz"
    );
}

#[test]
fn news_crawl_index_url() {
    assert_eq!(
        paths_index_url("CC-NEWS-2025-01", "warc"),
        "https://data.commoncrawl.org/crawl-data/CC-NEWS/2025/01/warc.paths.gz"
    );
    // Only an upper-case news reference is rewritten.
    assert_eq!(
        paths_index_url("cc-news-2025-01", "warc"),
        "https://data.commoncrawl.org/crawl-data/cc-news-2025-01/warc.paths.gz"
    );
}

#[test]
fn paths_plan_names_the_file_after_the_url() {
    let p = paths_plan("https://data.commoncrawl.org/crawl-data/CC-MAIN-2024-46/wet.paths.gz", "./output").unwrap();
    assert_eq!(p.url, "https://data.commoncrawl.org/crawl-data/CC-MAIN-2024-46/wet.paths.gz");
    assert_eq!(p.file_name, "wet.paths.gz");
    assert_eq!(p.destination, "./output/wet.paths.gz");
    let p = paths_plan("https://data.commoncrawl.org/contrib/my-dataset/paths.gz", "out/").unwrap();
    assert_eq!(p.destination, "out/paths.gz");
    let p = paths_plan("https://data.commoncrawl.org/contrib/my-dataset/paths.gz", "").unwrap();
    assert_eq!(p.destination, "paths.gz");
}

#[test]
fn paths_plan_without_segments_uses_the_fallback_name() {
    let p = paths_plan("mailto:someone@example.com", "d").unwrap();
    assert_eq!(p.file_name, "file.download");
    assert_eq!(p.destination, "d/file.download");
}

#[test]
fn paths_plan_rejects_a_bad_url() {
    match paths_plan("not a url", "d") {
        Err(DownloadError::Url(e)) => assert_eq!(e, url::ParseError::RelativeUrlWithoutBase),
        other => panic!("expected a URL error, got {:?}", other.err()),
    }
}

#[test]
fn crawl_paths_status_judges_the_answer() {
    let url = "https://data.commoncrawl.org/crawl-data/CC-MAIN-2099-01/wet.paths.gz";
    assert!(crawl_paths_status("CC-MAIN-2099-01", "wet", url, 200, Some("OK")).is_ok());
    assert!(crawl_paths_status("CC-MAIN-2099-01", "wet", url, 204, None).is_ok());
    let m = custom_message(crawl_paths_status("CC-MAIN-2099-01", "wet", url, 404, Some("Not Found")).unwrap_err());
    assert_eq!(
        m,
        format!(
            "\n\nThe reference combination you requested:\n\tCRAWL: CC-MAIN-2099-01\n\tSUBSET: wet\n\tURL: {url}\n\nDoesn't seem to exist or it is currently not accessible.\n\tError code: 404 Not Found"
        )
    );
    let m = custom_message(crawl_paths_status("CC-MAIN-2099-01", "wet", url, 503, Some("Service Unavailable")).unwrap_err());
    assert_eq!(m, format!("Couldn't download URL: {url}. Error code: 503 Service Unavailable"));
    let m = custom_message(crawl_paths_status("CC-MAIN-2099-01", "wet", url, 599, None).unwrap_err());
    assert_eq!(m, format!("Couldn't download URL: {url}. Error code: 599 "));
}

#[test]
fn contrib_paths_status_judges_the_answer() {
    let url = "https://data.commoncrawl.org/contrib/x/paths.gz";
    assert!(contrib_paths_status(url, 200, Some("OK")).is_ok());
    let m = custom_message(contrib_paths_status(url, 404, Some("Not Found")).unwrap_err());
    assert_eq!(m, format!("Couldn't download URL: {url}. Error code: 404 Not Found"));
    let m = custom_message(contrib_paths_status(url, 301, Some("Moved Permanently")).unwrap_err());
    assert_eq!(m, format!("Couldn't download URL: {url}. Error code: 301 Moved Permanently"));
}

#[test]
fn task_plan_keeps_the_folder_structure_by_default() {
    let url = "https://data.commoncrawl.org/crawl-data/CC-MAIN-2024-46/segments/1/wet/a.warc.wet.gz";
    let p = task_plan(3, url, "/data", false, false).unwrap();
    assert_eq!(p.url, url);
    assert_eq!(p.file_name, "crawl-data/CC-MAIN-2024-46/segments/1/wet/a.warc.wet.gz");
    assert_eq!(p.destination, "/data/crawl-data/CC-MAIN-2024-46/segments/1/wet/a.warc.wet.gz");
    assert!(p.create_parent_dir);
}

#[test]
fn task_plan_files_only_and_numbered() {
    let url = "https://data.commoncrawl.org/crawl-data/CC-MAIN-2024-46/segments/1/wet/a.warc.wet.gz";
    let p = task_plan(3, url, "/data", false, true).unwrap();
    assert_eq!(p.file_name, "a.warc.wet.gz");
    assert_eq!(p.destination, "/data/a.warc.wet.gz");
    assert!(p.create_parent_dir);
    let p = task_plan(42, url, "/data", true, false).unwrap();
    assert_eq!(p.file_name, "42.txt.gz");
    assert_eq!(p.destination, "/data/42.txt.gz");
    assert!(!p.create_parent_dir);
    let p = task_plan(0, url, "out", true, false).unwrap();
    assert_eq!(p.destination, "out/0.txt.gz");
}

#[test]
fn task_plan_rejects_a_bad_url() {
    match task_plan(0, "data.commoncrawl.org/x", "d", false, false) {
        Err(DownloadError::Url(e)) => assert_eq!(e, url::ParseError::RelativeUrlWithoutBase),
        other => panic!("expected a URL error, got {:?}", other.err()),
    }
}

#[test]
fn task_status_reads_the_content_length() {
    assert_eq!(task_status("u", 200, Some("1234")).unwrap(), 1234);
    assert_eq!(task_status("u", 200, Some("+5")).unwrap(), 5);
    assert_eq!(task_status("u", 200, Some("0007")).unwrap(), 7);
    assert_eq!(task_status("u", 200, Some("18446744073709551615")).unwrap(), u64::MAX);
    assert_eq!(task_status("u", 200, Some("18446744073709551616")).unwrap(), 0);
    assert_eq!(task_status("u", 200, Some("-1")).unwrap(), 0);
    assert_eq!(task_status("u", 200, Some("12a")).unwrap(), 0);
    assert_eq!(task_status("u", 200, Some("")).unwrap(), 0);
    assert_eq!(task_status("u", 200, Some("+")).unwrap(), 0);
    assert_eq!(task_status("u", 299, None).unwrap(), 0);
}

#[test]
fn task_status_reports_a_failed_head_request() {
    let m = custom_message(task_status("https://x.org/a", 403, Some("12")).unwrap_err());
    assert_eq!(m, "Couldn't download URL: https://x.org/a. Error: 403");
}

#[test]
fn tasks_are_numbered_in_index_order() {
    let lines = vec!["crawl-data/a.gz".to_string(), "crawl-data/b.gz".to_string()];
    let tasks = download_tasks(&lines);
    assert_eq!(
        tasks,
        vec![
            (0, format!("{BASE_URL}crawl-data/a.gz")),
            (1, "https://data.commoncrawl.org/crawl-data/b.gz".to_string()),
        ]
    );
    assert!(download_tasks(&Vec::new()).is_empty());
}

#[test]
fn a_run_fails_when_any_file_fails() {
    assert!(downloads_outcome(&vec![]).is_ok());
    assert!(downloads_outcome(&vec![true, true]).is_ok());
    let m = custom_message(downloads_outcome(&vec![true, false, true]).unwrap_err());
    assert_eq!(m, "one or more downloads failed");
}

#[test]
fn subset_filter_only_for_the_index_table() {
    let mut o = DownloadOptions::default();
    o.data_type = "cc-index-table";
    assert!(!needs_subset_filter(&o));
    o.cc_index_table_subsets = vec!["warc".to_string()];
    assert!(needs_subset_filter(&o));
    o.data_type = "wet";
    assert!(!needs_subset_filter(&o));
}

#[test]
fn numbered_and_files_only_exclude_each_other() {
    assert!(layout_flags_compatible(false, false));
    assert!(layout_flags_compatible(true, false));
    assert!(layout_flags_compatible(false, true));
    assert!(!layout_flags_compatible(true, true));
}

#[test]
fn retry_policy_bounds() {
    let p = retry_policy(1000).unwrap();
    assert_eq!(p.min_interval_secs, 1);
    assert_eq!(p.max_interval_secs, 3600);
    assert_eq!(p.base, 2);
    assert!(p.bounded_jitter);
    assert_eq!(p.max_retries, 1000);
    assert_eq!(retry_policy(u32::MAX as usize).unwrap().max_retries, u32::MAX);
    assert!(retry_policy(u32::MAX as usize + 1).is_none());
}

#[test]
fn rate_limit_steps() {
    assert!(matches!(rate_limit_step(RateLimitAnswer::Granted), RateLimitStep::Proceed));
    assert!(matches!(rate_limit_step(RateLimitAnswer::Insufficient { secs: 2, nanos: 250 }), RateLimitStep::Sleep { secs: 2, nanos: 250 }));
}

#[test]
fn errors_convert_from_their_sources() {
    match DownloadError::from("boom".to_string()) {
        DownloadError::Custom(m) => assert_eq!(m, "boom"),
        other => panic!("unexpected {other:?}"),
    }
    let url_err = url::Url::parse("").unwrap_err();
    assert!(matches!(DownloadError::from(url_err), DownloadError::Url(_)));
    let io_err = std::io::Error::new(std::io::ErrorKind::Other, "io");
    assert!(matches!(DownloadError::from(io_err), DownloadError::Tokio(_)));
}

use cc_downloader::download::plan_paths_download;
use cc_downloader::download::plan_task_download;
use cc_downloader::third_party::ParsedUrl;

fn parsed(serialization: &str, path: &str, last_segment: Option<&str>) -> ParsedUrl {
    ParsedUrl {
        serialization: serialization.to_string(),
        path: path.to_string(),
        last_segment: last_segment.map(|s| s.to_string()),
    }
}

#[test]
fn plans_from_parsed_urls() {
    let p = plan_paths_download(parsed("https://h/x/y.gz", "/x/y.gz", Some("y.gz")), "dir");
    assert_eq!((p.url.as_str(), p.file_name.as_str(), p.destination.as_str()), ("https://h/x/y.gz", "y.gz", "dir/y.gz"));
    let p = plan_paths_download(parsed("data:abc", "abc", None), "dir/");
    assert_eq!(p.destination, "dir/file.download");
    let t = plan_task_download(5, parsed("https://h/x/y.gz", "/x/y.gz", Some("y.gz")), "d", false, false);
    assert_eq!(t.destination, "d/x/y.gz");
    let t = plan_task_download(5, parsed("data:abc", "abc", None), "d", false, false);
    assert_eq!(t.destination, "d/file.download");
    let t = plan_task_download(5, parsed("data:abc", "abc", None), "d", false, true);
    assert_eq!(t.destination, "d/file.download");
    let t = plan_task_download(5, parsed("https://h//abs", "//abs", Some("abs")), "d", false, false);
    assert_eq!(t.destination, "/abs");
}

#[test]
fn urls_are_normalized_by_parsing() {
    let p = paths_plan("HTTPS://Data.CommonCrawl.org/contrib/a b/paths.gz", "d").unwrap();
    assert_eq!(p.url, "https://data.commoncrawl.org/contrib/a%20b/paths.gz");
    let p = paths_plan("https://data.commoncrawl.org", "d").unwrap();
    assert_eq!(p.url, "https://data.commoncrawl.org/");
    assert_eq!(p.file_name, "");
    assert_eq!(p.destination, "d/");
}

#[test]
fn numbered_files_get_distinct_names() {
    let url = "https://data.commoncrawl.org/a.gz";
    let names: Vec<String> = [1usize, 10, 11, 101, 110]
        .iter()
        .map(|n| task_plan(*n, url, "d", true, false).unwrap().destination)
        .collect();
    for i in 0..names.len() {
        for j in 0..names.len() {
            assert_eq!(i == j, names[i] == names[j]);
        }
    }
}

#[test]
fn error_messages() {
    assert_eq!(DownloadError::Custom("one or more downloads failed".to_string()).message(), "one or more downloads failed");
    let url_err = url::Url::parse("not a url").unwrap_err();
    assert_eq!(DownloadError::Url(url_err).message(), url_err.to_string());
    let io_err = std::io::Error::new(std::io::ErrorKind::Other, "disk full");
    assert_eq!(DownloadError::Tokio(io_err).message(), "disk full");
    let m = crawl_paths_status("CC-MAIN-2099-01", "wet", "u", 500, Some("Internal Server Error")).unwrap_err().message();
    assert_eq!(m, "Couldn't download URL: u. Error code: 500 Internal Server Error");
}
