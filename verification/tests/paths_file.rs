use std::io::Write;

use cc_downloader::errors::DownloadError;
use cc_downloader::paths_file::filter_paths_file;
use cc_downloader::paths_file::read_paths_file;
use cc_downloader::paths_file::split_lines_exec;
use flate2::write::GzEncoder;
use flate2::Compression;

fn gz(bytes: &[u8]) -> Vec<u8> {
    let mut e = GzEncoder::new(Vec::new(), Compression::default());
    e.write_all(bytes).unwrap();
    e.finish().unwrap()
}

fn strings(v: &[&str]) -> Vec<String> {
    v.iter().map(|s| s.to_string()).collect()
}

const INDEX: &str = "cc-index/table/cc-main/warc/crawl=CC-MAIN-2026-08/subset=crawldiagnostics/part-0.parquet\n\
cc-index/table/cc-main/warc/crawl=CC-MAIN-2026-08/subset=robotstxt/part-1.parquet\n\
cc-index/table/cc-main/warc/crawl=CC-MAIN-2026-08/subset=warc/part-2.parquet\n\
cc-index/table/cc-main/warc/crawl=CC-MAIN-2026-08/subset=warc/part-3.parquet\n";

#[test]
fn lines_split_as_bufread_does() {
    let lines = split_lines_exec(b"a\nb\r\nc\r\r\n\nlast\r");
    assert_eq!(
        lines,
        vec![b"a".to_vec(), b"b".to_vec(), b"c\r".to_vec(), b"".to_vec(), b"last\r".to_vec()]
    );
    assert!(split_lines_exec(b"").is_empty());
    assert_eq!(split_lines_exec(b"x\n"), vec![b"x".to_vec()]);
}

#[test]
fn reading_a_paths_file() {
    let lines = read_paths_file(&gz(b"crawl-data/a.gz\r\ncrawl-data/b.gz\ncrawl-data/\xc3\xa9.gz")).unwrap();
    assert_eq!(lines, strings(&["crawl-data/a.gz", "crawl-data/b.gz", "crawl-data/é.gz"]));
    assert!(read_paths_file(&gz(b"")).unwrap().is_empty());
}

#[test]
fn reading_a_plain_paths_file() {
    assert_eq!(
        read_paths_file(b"crawl-data/a.gz\ncrawl-data/b.gz\n").unwrap(),
        strings(&["crawl-data/a.gz", "crawl-data/b.gz"])
    );
    assert_eq!(read_paths_file(b"not gzip at all").unwrap(), strings(&["not gzip at all"]));
    assert!(read_paths_file(b"").unwrap().is_empty());
}

#[test]
fn reading_a_paths_file_with_bad_utf8_fails() {
    assert!(matches!(read_paths_file(b"a\n\xff\n"), Err(DownloadError::Custom(_))));
    match read_paths_file(&gz(b"ok\n\xff\xfe\n")) {
        Err(DownloadError::Custom(m)) => assert_eq!(m, "stream did not contain valid UTF-8"),
        other => panic!("unexpected {:?}", other.map_err(|e| format!("{e:?}"))),
    }
}

#[test]
fn filtering_keeps_the_requested_subsets_in_order() {
    let f = filter_paths_file(&gz(INDEX.as_bytes()), &strings(&["warc", "robotstxt"]));
    assert_eq!(
        f.lines,
        strings(&[
            "cc-index/table/cc-main/warc/crawl=CC-MAIN-2026-08/subset=robotstxt/part-1.parquet",
            "cc-index/table/cc-main/warc/crawl=CC-MAIN-2026-08/subset=warc/part-2.parquet",
            "cc-index/table/cc-main/warc/crawl=CC-MAIN-2026-08/subset=warc/part-3.parquet",
        ])
    );
    assert_eq!(read_paths_file(&f.compressed).unwrap(), f.lines);
}

#[test]
fn filtering_with_no_subsets_keeps_nothing() {
    let f = filter_paths_file(&gz(INDEX.as_bytes()), &[]);
    assert!(f.lines.is_empty());
    assert!(read_paths_file(&f.compressed).unwrap().is_empty());
}

#[test]
fn filtering_passes_over_lines_that_are_not_utf8() {
    let data = gz(b"x/subset=warc/\xff.parquet\ny/subset=warc/1.parquet\n");
    let f = filter_paths_file(&data, &strings(&["warc"]));
    assert_eq!(f.lines, strings(&["y/subset=warc/1.parquet"]));
}

fn gunzip_text(data: &[u8]) -> String {
    let mut d = flate2::read::GzDecoder::new(data);
    let mut s = String::new();
    std::io::Read::read_to_string(&mut d, &mut s).unwrap();
    s
}

#[test]
fn filtering_data_that_does_not_decompress_keeps_nothing() {
    for data in [&b"\x1f\x8b garbage"[..], &b"plain/subset=warc/x\n"[..], &b""[..]] {
        let f = filter_paths_file(data, &strings(&["warc"]));
        assert!(f.lines.is_empty());
        assert_eq!(gunzip_text(&f.compressed), "");
    }
}

#[test]
fn filtering_the_subsets_example() {
    let data = gz(b"t/crawl=CC-MAIN-2026-08/subset=crawldiagnostics/p0\nt/crawl=CC-MAIN-2026-08/subset=warc/p1\nt/crawl=CC-MAIN-2026-08/subset=robotstxt/p2\n");
    let f = filter_paths_file(&data, &strings(&["warc", "robotstxt"]));
    assert_eq!(f.lines.len(), 2);
    assert_eq!(
        gunzip_text(&f.compressed),
        "t/crawl=CC-MAIN-2026-08/subset=warc/p1\nt/crawl=CC-MAIN-2026-08/subset=robotstxt/p2\n"
    );
}

#[test]
fn filtering_twice_changes_nothing() {
    let subsets = strings(&["warc", "robotstxt"]);
    let once = filter_paths_file(&gz(INDEX.as_bytes()), &subsets);
    let twice = filter_paths_file(&once.compressed, &subsets);
    assert_eq!(twice.lines, once.lines);
    assert_eq!(twice.compressed, once.compressed);
}

#[test]
fn more_subsets_keep_more_lines() {
    let narrow = filter_paths_file(&gz(INDEX.as_bytes()), &strings(&["warc"]));
    let wide = filter_paths_file(&gz(INDEX.as_bytes()), &strings(&["robotstxt", "warc"]));
    let mut it = wide.lines.iter();
    for line in &narrow.lines {
        assert!(it.any(|w| w == line));
    }
    assert!(wide.lines.len() > narrow.lines.len());
}

use cc_downloader::paths_file::kept_paths;
use cc_downloader::paths_file::read_plain_paths;
use cc_downloader::paths_file::encode_lines_exec;

#[test]
fn plain_paths_and_kept_paths() {
    assert_eq!(read_plain_paths(b"a\r\nb\n").unwrap(), strings(&["a", "b"]));
    assert!(matches!(read_plain_paths(b"\xc3\n"), Err(DownloadError::Custom(_))));
    assert_eq!(
        kept_paths(b"x/subset=warc/1\r\ny/subset=robotstxt/2\nz/subset=crawldiagnostics/3", &strings(&["crawldiagnostics", "warc"])),
        strings(&["x/subset=warc/1", "z/subset=crawldiagnostics/3"])
    );
    assert_eq!(encode_lines_exec(&strings(&["a", "é"])), b"a\n\xc3\xa9\n".to_vec());
}

#[test]
fn the_compressed_output_is_gzip() {
    let f = filter_paths_file(&gz(INDEX.as_bytes()), &strings(&["warc"]));
    assert_eq!(&f.compressed[..2], &[0x1f, 0x8b]);
    assert_eq!(
        gunzip_text(&f.compressed),
        "cc-index/table/cc-main/warc/crawl=CC-MAIN-2026-08/subset=warc/part-2.parquet\n\
cc-index/table/cc-main/warc/crawl=CC-MAIN-2026-08/subset=warc/part-3.parquet\n"
    );
}

fn with_bad_checksum(mut data: Vec<u8>) -> Vec<u8> {
    let n = data.len();
    data[n - 8] ^= 0xff;
    data
}

#[test]
fn filtering_a_stream_with_a_bad_checksum_keeps_the_completed_lines() {
    let subsets = strings(&["warc"]);
    let f = filter_paths_file(&with_bad_checksum(gz(b"a/subset=warc/1\nb/subset=robotstxt/2\nc/subset=warc/3")), &subsets);
    assert_eq!(f.lines, strings(&["a/subset=warc/1"]));
    let f = filter_paths_file(&with_bad_checksum(gz(b"a/subset=warc/1\nc/subset=warc/3\n")), &subsets);
    assert_eq!(f.lines, strings(&["a/subset=warc/1", "c/subset=warc/3"]));
    assert_eq!(gunzip_text(&f.compressed), "a/subset=warc/1\nc/subset=warc/3\n");
}

#[test]
fn filtering_twice_after_a_broken_off_stream_changes_nothing() {
    let subsets = strings(&["warc"]);
    let once = filter_paths_file(&with_bad_checksum(gz(b"a/subset=warc/1\nb/subset=x/2\nc/subset=warc/3")), &subsets);
    let twice = filter_paths_file(&once.compressed, &subsets);
    assert_eq!(twice.lines, once.lines);
    assert_eq!(twice.compressed, once.compressed);
}
