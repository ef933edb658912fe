//! Download planning: the options of a run, the URLs and file names it uses, how HTTP
//! answers are judged, and when a run has failed. The program around the library makes
//! the requests and writes the files.

use crate::errors::DownloadError;
use crate::paths_file::filtered_lines;
use crate::snapshot::crawl_name_format;
use crate::snapshot::crawl_name_result;
use crate::snapshot::crawl_ref_groups;
use crate::snapshot::is_crawl_ref;
use crate::snapshot::is_main_crawl_ref;
use crate::snapshot::CRAWL_FORMAT_MESSAGE;
use crate::snapshot::is_news_crawl_ref;
use crate::snapshot::NEWS_CRAWL_PATTERN;
use crate::text::after_last_slash;
use crate::text::decimal;
use crate::text::join_path;
use crate::text::join_path_string;
use crate::text::parse_u64;
use crate::text::parsed_u64;
use crate::text::opt_string_view;
use crate::text::push_decimal;
use crate::text::str_equal;
use crate::text::strip_leading_slash;
use crate::text::strip_leading_slash_str;
use crate::third_party::parse_url;
use crate::third_party::ParsedUrl;
use crate::third_party::regex_captures;
use crate::third_party::uppercased;
use crate::third_party::url_parts;
use vstd::prelude::*;

verus! {

broadcast use vstd::string::group_string_axioms;

/// Where Common Crawl data is served from.
pub const BASE_URL: &'static str = "https://data.commoncrawl.org/";

/// The `User-Agent` the HTTP client sends: the package name, a slash and its version.
pub const APP_USER_AGENT: &'static str = "cc-downloader/0.6.0";

/// Per-file retry attempts unless the caller chooses otherwise.
pub const DEFAULT_MAX_RETRIES: usize = 1000;

/// Configuration for a paths index download or a data download.
///
/// Paths are held as text (`paths`, `dst`); the program hands them to the file system.
#[derive(Clone, Debug)]
pub struct DownloadOptions<'a> {
    /// Crawl snapshot identifier, e.g. `"CC-MAIN-2024-46"` or `"CC-NEWS-2025-01"`.
    pub snapshot: String,
    /// Data type to download, e.g. `"warc"`, `"wet"`, `"cc-index-table"`.
    pub data_type: &'a str,
    /// Path to a `.paths.gz` file that lists the files to download.
    pub paths: &'a str,
    /// Destination directory where downloaded files will be written.
    pub dst: &'a str,
    /// Maximum number of concurrent downloads.
    pub threads: usize,
    /// Maximum number of per-file retry attempts before giving up.
    pub max_retries: usize,
    /// If `true`, output files are named sequentially (`0.txt.gz`, `1.txt.gz`, ...).
    pub numbered: bool,
    /// If `true`, files are written flat into `dst` with no subdirectory structure.
    pub files_only: bool,
    /// If `true`, a progress bar is shown per file and overall.
    pub progress: bool,
    /// Subset filter for `cc-index-table` downloads; empty means no filtering.
    pub cc_index_table_subsets: Vec<String>,
}

impl<'a> Default for DownloadOptions<'a> {
    fn default() -> (o: Self)
        ensures
            o.snapshot@ == Seq::<char>::empty(),
            o.data_type@ == Seq::<char>::empty(),
            o.paths@ == Seq::<char>::empty(),
            o.dst@ == Seq::<char>::empty(),
            o.threads == 1,
            o.max_retries == DEFAULT_MAX_RETRIES,
            !o.numbered,
            !o.files_only,
            !o.progress,
            o.cc_index_table_subsets@.len() == 0,
    {
        proof {
            reveal_strlit("");
        }
        DownloadOptions {
            snapshot: "".to_owned(),
            data_type: "",
            paths: "",
            dst: "",
            threads: 1,
            max_retries: DEFAULT_MAX_RETRIES,
            numbered: false,
            files_only: false,
            progress: false,
            cc_index_table_subsets: Vec::new(),
        }
    }
}

impl<'a> DownloadOptions<'a> {
    /// Options for downloading data files, with the snapshot checked and upper-cased:
    /// ten concurrent downloads, the default retry budget and no subset filter. Where
    /// the snapshot is not a crawl reference, the message to show comes back instead.
    pub fn new(
        snapshot: &'a str,
        data_type: &'a str,
        paths: &'a str,
        dst: &'a str,
        numbered: bool,
        files_only: bool,
        progress: bool,
    ) -> (r: Result<Self, String>)
        ensures
            match r {
                Ok(o) => {
                    &&& crawl_name_result(snapshot@) == Ok::<Seq<char>, Seq<char>>(o.snapshot@)
                    &&& o.data_type == data_type
                    &&& o.paths == paths
                    &&& o.dst == dst
                    &&& o.threads == 10
                    &&& o.max_retries == DEFAULT_MAX_RETRIES
                    &&& o.numbered == numbered
                    &&& o.files_only == files_only
                    &&& o.progress == progress
                    &&& o.cc_index_table_subsets@.len() == 0
                },
                Err(m) => crawl_name_result(snapshot@) == Err::<Seq<char>, Seq<char>>(m@),
            },
            is_crawl_ref(uppercased(snapshot@)) ==> (r matches Ok(o) && o.snapshot@ == uppercased(snapshot@)),
            !is_crawl_ref(uppercased(snapshot@)) ==> (r matches Err(m) && m@ == CRAWL_FORMAT_MESSAGE@),
    {
        let snapshot = crawl_name_format(snapshot)?;
        Ok(
            DownloadOptions {
                snapshot,
                data_type,
                paths,
                dst,
                threads: 10,
                max_retries: DEFAULT_MAX_RETRIES,
                numbered,
                files_only,
                progress,
                cc_index_table_subsets: Vec::new(),
            },
        )
    }

    /// Sets the number of concurrent download threads.
    pub fn set_threads(&mut self, threads: usize)
        ensures
            *final(self) == (DownloadOptions { threads, ..*old(self) }),
    {
        self.threads = threads;
    }

    /// Sets the maximum number of per-file retry attempts.
    pub fn set_max_retries(&mut self, max_retries: usize)
        ensures
            *final(self) == (DownloadOptions { max_retries, ..*old(self) }),
    {
        self.max_retries = max_retries;
    }
}


/// The directory part of a snapshot in crawl URLs: a news crawl `CC-NEWS-YYYY-MM` is
/// found under `CC-NEWS/YYYY/MM`, every other snapshot under its own name.
pub open spec fn snapshot_dir(snapshot: Seq<char>) -> Seq<char> {
    if is_news_crawl_ref(snapshot) {
        let g = crawl_ref_groups(7, snapshot);
        g[1] + "/"@ + g[2] + "/"@ + g[3]
    } else {
        snapshot
    }
}

/// The URL of the paths index of `data_type` in the crawl `snapshot`.
pub open spec fn paths_index_url_spec(snapshot: Seq<char>, data_type: Seq<char>) -> Seq<char> {
    BASE_URL@ + "crawl-data/"@ + snapshot_dir(snapshot) + "/"@ + data_type + ".paths.gz"@
}

/// The URL of the paths index of `data_type` in the crawl `snapshot`, before parsing.
pub fn paths_index_url(snapshot: &str, data_type: &str) -> (url: String)
    ensures
        url@ == paths_index_url_spec(snapshot@, data_type@),
        !is_news_crawl_ref(snapshot@) ==> url@ == BASE_URL@ + "crawl-data/"@ + snapshot@ + "/"@ + data_type@
            + ".paths.gz"@,
        is_news_crawl_ref(snapshot@) ==> url@ == BASE_URL@ + "crawl-data/"@ + "CC-NEWS"@ + "/"@
            + snapshot@.subrange(8, 12) + "/"@ + snapshot@.subrange(13, 15) + "/"@ + data_type@
            + ".paths.gz"@,
{
    proof {
        law_index_url_shape(snapshot@, data_type@);
    }
    let mut url = BASE_URL.to_owned();
    url.append("crawl-data/");
    match regex_captures(NEWS_CRAWL_PATTERN, snapshot) {
        Ok(Some(groups)) => {
            assert(groups.deep_view() == crawl_ref_groups(7, snapshot@));
            assert(groups.deep_view()[1] == groups@[1]@);
            assert(groups.deep_view()[2] == groups@[2]@);
            assert(groups.deep_view()[3] == groups@[3]@);
            url.append(groups[1].as_str());
            url.append("/");
            url.append(groups[2].as_str());
            url.append("/");
            url.append(groups[3].as_str());
        },
        _ => {
            url.append(snapshot);
        },
    }
    url.append("/");
    url.append(data_type);
    url.append(".paths.gz");
    url
}

/// The file name that stands in where a URL has no last path segment.
pub const FALLBACK_FILE_NAME: &'static str = "file.download";

/// The last path segment of a URL, or the fallback name.
pub open spec fn segment_or_fallback(segment: Option<Seq<char>>) -> Seq<char> {
    match segment {
        Some(s) => s,
        None => FALLBACK_FILE_NAME@,
    }
}

/// Where a paths index is fetched from and where it is stored.
pub struct PathsPlan {
    /// The parsed URL, as it is requested and shown.
    pub url: String,
    /// The name of the stored file: the URL's last path segment.
    pub file_name: String,
    /// The stored file: `file_name` in the destination directory.
    pub destination: String,
}

/// The plan for fetching the paths index at `url` into the directory `dst`.
pub open spec fn paths_plan_spec(url: Seq<char>, dst: Seq<char>) -> Option<(Seq<char>, Seq<char>, Seq<char>)> {
    match url_parts(url) {
        Ok(parts) => Some(
            (parts.0, segment_or_fallback(parts.2), join_path(dst, segment_or_fallback(parts.2))),
        ),
        Err(_) => None,
    }
}

/// The parts of a parsed URL as characters.
pub open spec fn parsed_url_view(u: ParsedUrl) -> (Seq<char>, Seq<char>, Option<Seq<char>>) {
    (u.serialization@, u.path@, opt_string_view(u.last_segment))
}

/// Plans where the paths index at the parsed URL `url` is stored under `dst`: the file
/// takes the URL's last path segment as its name.
pub fn plan_paths_download(url: ParsedUrl, dst: &str) -> (plan: PathsPlan)
    ensures
        plan.url@ == url.serialization@,
        plan.file_name@ == segment_or_fallback(opt_string_view(url.last_segment)),
        plan.destination@ == join_path(dst@, plan.file_name@),
{
    let file_name = match url.last_segment {
        Some(s) => s,
        None => FALLBACK_FILE_NAME.to_owned(),
    };
    let destination = join_path_string(dst, file_name.as_str());
    PathsPlan { url: url.serialization, file_name, destination }
}

/// Parses `url` and plans where its paths index is stored under `dst`.
pub fn paths_plan(url: &str, dst: &str) -> (r: Result<PathsPlan, DownloadError>)
    ensures
        match paths_plan_spec(url@, dst@) {
            Some(p) => r matches Ok(plan) && (plan.url@, plan.file_name@, plan.destination@) == p,
            None => r matches Err(DownloadError::Url(e)) && (url_parts(url@) matches Err(pe) && pe == e),
        },
        url_parts(url@) matches Ok(parts) ==> (r matches Ok(plan) && {
            &&& plan.url@ == parts.0
            &&& plan.file_name@ == segment_or_fallback(parts.2)
            &&& plan.destination@ == join_path(dst@, plan.file_name@)
        }),
        url_parts(url@) matches Ok(parts) ==> (parts.2 matches Some(seg) ==> (r matches Ok(plan)
            && plan.file_name@ == seg)),
        url_parts(url@) matches Ok(parts) ==> (parts.1.len() > 0 && parts.1[0] == '/' ==> (r matches Ok(
            plan,
        ) && plan.file_name@ == after_last_slash(parts.1))),
{
    match parse_url(url) {
        Ok(u) => Ok(plan_paths_download(u, dst)),
        Err(e) => Err(DownloadError::Url(e)),
    }
}

/// An HTTP status code of success (200 to 299).
pub open spec fn is_success(code: u16) -> bool {
    200 <= code < 300
}

/// A status as the messages show it: the code, a space and its canonical reason, if any.
pub open spec fn status_text(code: u16, reason: Option<Seq<char>>) -> Seq<char> {
    decimal(code as nat) + " "@ + match reason {
        Some(r) => r,
        None => Seq::<char>::empty(),
    }
}

fn push_status(s: &mut String, code: u16, reason: Option<&str>)
    ensures
        final(s)@ == old(s)@ + status_text(code, match reason {
            Some(r) => Some(r@),
            None => None,
        }),
{
    push_decimal(s, code as u64);
    s.append(" ");
    match reason {
        Some(r) => s.append(r),
        None => {
            proof {
                reveal_strlit("");
            }
            s.append("");
        },
    }
}

/// The optional reason as characters.
pub open spec fn opt_str_view(o: Option<&str>) -> Option<Seq<char>> {
    match o {
        Some(r) => Some(r@),
        None => None,
    }
}

/// The message for a URL that could not be fetched.
pub open spec fn unreachable_url_message(url: Seq<char>, code: u16, reason: Option<Seq<char>>) -> Seq<char> {
    "Couldn't download URL: "@ + url + ". Error code: "@ + status_text(code, reason)
}

/// The message for a crawl and data type whose paths index is not found.
pub open spec fn missing_index_message(
    snapshot: Seq<char>,
    data_type: Seq<char>,
    url: Seq<char>,
    code: u16,
    reason: Option<Seq<char>>,
) -> Seq<char> {
    "\n\nThe reference combination you requested:\n\tCRAWL: "@ + snapshot + "\n\tSUBSET: "@ + data_type
        + "\n\tURL: "@ + url
        + "\n\nDoesn't seem to exist or it is currently not accessible.\n\tError code: "@
        + status_text(code, reason)
}

fn unreachable_url_error(url: &str, code: u16, reason: Option<&str>) -> (e: DownloadError)
    ensures
        e matches DownloadError::Custom(m) && m@ == unreachable_url_message(url@, code, opt_str_view(reason)),
{
    let mut m = "Couldn't download URL: ".to_owned();
    m.append(url);
    m.append(". Error code: ");
    push_status(&mut m, code, reason);
    DownloadError::Custom(m)
}

/// Judges the answer to the HEAD request for a crawl's paths index: success goes on;
/// 404 says that the crawl and data type do not seem to exist; any other status says that
/// the URL could not be fetched.
pub fn crawl_paths_status(
    snapshot: &str,
    data_type: &str,
    url: &str,
    code: u16,
    reason: Option<&str>,
) -> (r: Result<(), DownloadError>)
    ensures
        is_success(code) ==> r is Ok,
        code == 404 ==> (r matches Err(DownloadError::Custom(m)) && m@ == missing_index_message(
            snapshot@,
            data_type@,
            url@,
            code,
            opt_str_view(reason),
        )),
        !is_success(code) && code != 404 ==> (r matches Err(DownloadError::Custom(m)) && m@
            == unreachable_url_message(url@, code, opt_str_view(reason))),
{
    if 200 <= code && code < 300 {
        Ok(())
    } else if code == 404 {
        let mut m = "\n\nThe reference combination you requested:\n\tCRAWL: ".to_owned();
        m.append(snapshot);
        m.append("\n\tSUBSET: ");
        m.append(data_type);
        m.append("\n\tURL: ");
        m.append(url);
        m.append("\n\nDoesn't seem to exist or it is currently not accessible.\n\tError code: ");
        push_status(&mut m, code, reason);
        Err(DownloadError::Custom(m))
    } else {
        Err(unreachable_url_error(url, code, reason))
    }
}

/// Judges the answer to the HEAD request for a contributor paths file: success goes on;
/// any other status says that the URL could not be fetched.
pub fn contrib_paths_status(url: &str, code: u16, reason: Option<&str>) -> (r: Result<(), DownloadError>)
    ensures
        is_success(code) ==> r is Ok,
        !is_success(code) ==> (r matches Err(DownloadError::Custom(m)) && m@ == unreachable_url_message(
            url@,
            code,
            opt_str_view(reason),
        )),
{
    if 200 <= code && code < 300 {
        Ok(())
    } else {
        Err(unreachable_url_error(url, code, reason))
    }
}


/// The name under which a listed file is stored: `<number>.txt.gz` when files are
/// numbered; the URL's last path segment when files are stored flat; else the URL's path
/// without its leading `/`, which keeps the crawl's folder structure.
pub open spec fn task_file_name(
    number: nat,
    parts: (Seq<char>, Seq<char>, Option<Seq<char>>),
    numbered: bool,
    files_only: bool,
) -> Seq<char> {
    if numbered {
        decimal(number) + ".txt.gz"@
    } else if files_only {
        segment_or_fallback(parts.2)
    } else {
        match strip_leading_slash(parts.1) {
            Some(p) => p,
            None => FALLBACK_FILE_NAME@,
        }
    }
}

/// How one listed file is downloaded.
pub struct TaskPlan {
    /// The parsed URL, as it is requested and shown.
    pub url: String,
    /// The name under which the file is stored.
    pub file_name: String,
    /// The stored file: `file_name` in the destination directory.
    pub destination: String,
    /// Whether the directory that holds the stored file is created first.
    pub create_parent_dir: bool,
}

/// Plans the download of the `number`-th listed file, whose parsed URL is `url`, into the
/// directory `dst`.
pub fn plan_task_download(number: usize, url: ParsedUrl, dst: &str, numbered: bool, files_only: bool) -> (plan:
    TaskPlan)
    ensures
        plan.url@ == url.serialization@,
        plan.file_name@ == task_file_name(number as nat, parsed_url_view(url), numbered, files_only),
        plan.destination@ == join_path(dst@, plan.file_name@),
        plan.create_parent_dir == !numbered,
        numbered ==> plan.file_name@ == decimal(number as nat) + ".txt.gz"@,
        !numbered && files_only ==> plan.file_name@ == segment_or_fallback(opt_string_view(url.last_segment)),
        !numbered && !files_only && url.path@.len() > 0 && url.path@[0] == '/' ==> plan.file_name@
            == url.path@.subrange(1, url.path@.len() as int),
        !numbered && !files_only && !(url.path@.len() > 0 && url.path@[0] == '/') ==> plan.file_name@
            == FALLBACK_FILE_NAME@,
{
    let file_name = if numbered {
        let mut name = String::new();
        push_decimal(&mut name, number as u64);
        name.append(".txt.gz");
        name
    } else if files_only {
        match url.last_segment {
            Some(s) => s,
            None => FALLBACK_FILE_NAME.to_owned(),
        }
    } else {
        match strip_leading_slash_str(url.path.as_str()) {
            Some(p) => p,
            None => FALLBACK_FILE_NAME.to_owned(),
        }
    };
    let destination = join_path_string(dst, file_name.as_str());
    TaskPlan { url: url.serialization, file_name, destination, create_parent_dir: !numbered }
}

/// Parses the URL of the `number`-th listed file and plans its download into `dst`.
pub fn task_plan(number: usize, url: &str, dst: &str, numbered: bool, files_only: bool) -> (r: Result<
    TaskPlan,
    DownloadError,
>)
    ensures
        match url_parts(url@) {
            Ok(parts) => r matches Ok(plan) && {
                &&& plan.url@ == parts.0
                &&& plan.file_name@ == task_file_name(number as nat, parts, numbered, files_only)
                &&& plan.destination@ == join_path(dst@, plan.file_name@)
                &&& plan.create_parent_dir == !numbered
            },
            Err(e) => r matches Err(DownloadError::Url(e2)) && e2 == e,
        },
        url_parts(url@) matches Ok(parts) ==> (!numbered && !files_only && parts.1.len() > 0 && parts.1[0]
            == '/' ==> (r matches Ok(plan) && plan.file_name@ == parts.1.subrange(1, parts.1.len() as int)
            && plan.destination@ == join_path(dst@, parts.1.subrange(1, parts.1.len() as int)))),
        url_parts(url@) matches Ok(parts) ==> (!numbered && files_only ==> (r matches Ok(plan)
            && plan.file_name@ == segment_or_fallback(parts.2))),
        url_parts(url@) is Ok && numbered ==> (r matches Ok(plan) && plan.file_name@ == decimal(
            number as nat,
        ) + ".txt.gz"@),
{
    match parse_url(url) {
        Ok(u) => Ok(plan_task_download(number, u, dst, numbered, files_only)),
        Err(e) => Err(DownloadError::Url(e)),
    }
}

/// The message for a listed file whose HEAD request did not succeed.
pub open spec fn task_failure_message(url: Seq<char>, code: u16) -> Seq<char> {
    "Couldn't download URL: "@ + url + ". Error: "@ + decimal(code as nat)
}

/// The size announced in a `Content-Length` header, or 0 where there is none or it is not
/// a number.
pub open spec fn announced_size(content_length: Option<Seq<char>>) -> u64 {
    match content_length {
        Some(t) => match parsed_u64(t) {
            Some(n) => n,
            None => 0,
        },
        None => 0,
    }
}

/// Judges the answer to the HEAD request for a listed file: on success, the size to show
/// progress against, read from the `Content-Length` header; else the failure.
pub fn task_status(url: &str, code: u16, content_length: Option<&str>) -> (r: Result<u64, DownloadError>)
    ensures
        is_success(code) ==> r == Ok::<u64, DownloadError>(announced_size(opt_str_view(content_length))),
        !is_success(code) ==> (r matches Err(DownloadError::Custom(m)) && m@ == task_failure_message(url@, code)),
{
    if 200 <= code && code < 300 {
        let size = match content_length {
            Some(t) => match parse_u64(t) {
                Some(n) => n,
                None => 0,
            },
            None => 0,
        };
        Ok(size)
    } else {
        let mut m = "Couldn't download URL: ".to_owned();
        m.append(url);
        m.append(". Error: ");
        push_decimal(&mut m, code as u64);
        Err(DownloadError::Custom(m))
    }
}

/// The files that a paths index lists, numbered from 0 in their order, each line taken as a
/// path under the Common Crawl base URL.
pub fn download_tasks(lines: &Vec<String>) -> (tasks: Vec<(usize, String)>)
    ensures
        tasks.len() == lines.len(),
        forall|i: int| 0 <= i < lines.len() ==> (#[trigger] tasks@[i]).0 == i && tasks@[i].1@ == BASE_URL@ + lines@[i]@,
{
    let mut tasks: Vec<(usize, String)> = Vec::new();
    let mut i: usize = 0;
    while i < lines.len()
        invariant
            i <= lines.len(),
            tasks.len() == i,
            forall|k: int| 0 <= k < i ==> (#[trigger] tasks@[k]).0 == k && tasks@[k].1@ == BASE_URL@ + lines@[k]@,
        decreases lines.len() - i,
    {
        let mut url = BASE_URL.to_owned();
        url.append(lines[i].as_str());
        tasks.push((i, url));
        i = i + 1;
    }
    tasks
}

/// What a run is answered where some of its files failed.
pub const SOME_DOWNLOADS_FAILED: &'static str = "one or more downloads failed";

/// The outcome of a run, from whether each of its files was downloaded: success only where
/// every one was.
pub fn downloads_outcome(succeeded: &Vec<bool>) -> (r: Result<(), DownloadError>)
    ensures
        r is Ok <==> forall|i: int| 0 <= i < succeeded.len() ==> #[trigger] succeeded@[i],
        r is Err ==> (r matches Err(DownloadError::Custom(m)) && m@ == SOME_DOWNLOADS_FAILED@),
{
    let mut i: usize = 0;
    while i < succeeded.len()
        invariant
            i <= succeeded.len(),
            forall|k: int| 0 <= k < i ==> #[trigger] succeeded@[k],
        decreases succeeded.len() - i,
    {
        if !succeeded[i] {
            return Err(DownloadError::Custom(SOME_DOWNLOADS_FAILED.to_owned()));
        }
        i = i + 1;
    }
    Ok(())
}

/// A downloaded paths index is cut down to subsets only for `cc-index-table`, and only
/// where subsets were asked for.
pub open spec fn wants_subset_filter(options: DownloadOptions) -> bool {
    options.data_type@ == "cc-index-table"@ && options.cc_index_table_subsets.len() > 0
}

/// Whether a downloaded paths index is cut down to subsets.
pub fn needs_subset_filter(options: &DownloadOptions) -> (r: bool)
    ensures
        r == wants_subset_filter(*options),
        r <==> (options.data_type@ == "cc-index-table"@ && options.cc_index_table_subsets@.len() >= 1),
{
    str_equal(options.data_type, "cc-index-table") && options.cc_index_table_subsets.len() > 0
}

/// Numbered file names and flat storage exclude each other.
pub fn layout_flags_compatible(numbered: bool, files_only: bool) -> (r: bool)
    ensures
        r == !(numbered && files_only),
{
    !(numbered && files_only)
}

/// The exponential backoff that every request is retried with.
pub struct RetryPolicy {
    /// The shortest wait between attempts, in seconds.
    pub min_interval_secs: u64,
    /// The longest wait between attempts, in seconds.
    pub max_interval_secs: u64,
    /// The factor by which the wait grows from one attempt to the next.
    pub base: u32,
    /// Whether the waits carry a bounded random jitter.
    pub bounded_jitter: bool,
    /// How many times a request is retried before it fails.
    pub max_retries: u32,
}

/// The retry bounds (shortest and longest wait in seconds, growth factor, bounded jitter,
/// retries) for `max_retries` retries, where that fits in 32 bits.
pub open spec fn retry_policy_spec(max_retries: usize) -> Option<(u64, u64, u32, bool, u32)> {
    if max_retries <= u32::MAX {
        Some((1, 3600, 2, true, max_retries as u32))
    } else {
        None
    }
}

/// The retry policy for `max_retries` retries: waits from 1 second to 1 hour, growing by a
/// factor of 2, with bounded jitter. There is none where `max_retries` does not fit in 32
/// bits.
pub fn retry_policy(max_retries: usize) -> (r: Option<RetryPolicy>)
    ensures
        r is Some <==> max_retries <= u32::MAX,
        r matches Some(p) ==> retry_policy_spec(max_retries) == Some(
            (p.min_interval_secs, p.max_interval_secs, p.base, p.bounded_jitter, p.max_retries),
        ),
        r matches Some(p) ==> {
            &&& p.min_interval_secs == 1
            &&& p.max_interval_secs == 3600
            &&& p.base == 2
            &&& p.bounded_jitter
            &&& p.max_retries == max_retries
        },
{
    if max_retries > u32::MAX as usize {
        return None;
    }
    Some(
        RetryPolicy {
            min_interval_secs: 1,
            max_interval_secs: 3600,
            base: 2,
            bounded_jitter: true,
            max_retries: max_retries as u32,
        },
    )
}

/// How many requests for data files may start in one rate limit period.
pub const RATE_LIMIT_REQUESTS: u64 = 1499;

/// The rate limit period, in seconds.
pub const RATE_LIMIT_PERIOD_SECS: u64 = 300;

/// What the rate limiter answered when asked for a permit.
pub enum RateLimitAnswer {
    /// A permit was taken.
    Granted,
    /// Not enough permits now; one is expected after the given wait.
    Insufficient { secs: u64, nanos: u32 },
    /// More permits were asked for than the limiter ever holds.
    ExceedsCapacity,
}

/// What to do next while waiting for a permit.
pub enum RateLimitStep {
    /// Make the request.
    Proceed,
    /// Sleep for the given time and ask again.
    Sleep { secs: u64, nanos: u32 },
}

/// The next step while acquiring a permit: go on once one is granted, else sleep for the
/// wait the limiter names. A limiter built with permits never answers that a single permit
/// exceeds its capacity.
pub fn rate_limit_step(answer: RateLimitAnswer) -> (step: RateLimitStep)
    requires
        !(answer is ExceedsCapacity),
    ensures
        answer is Granted ==> step is Proceed,
        answer matches RateLimitAnswer::Insufficient { secs, nanos } ==> step == (RateLimitStep::Sleep { secs, nanos }),
{
    match answer {
        RateLimitAnswer::Granted => RateLimitStep::Proceed,
        RateLimitAnswer::Insufficient { secs, nanos } => RateLimitStep::Sleep { secs, nanos },
        RateLimitAnswer::ExceedsCapacity => vstd::pervasive::unreached(),
    }
}

/// Numbered files never overwrite each other: distinct positions in the index give
/// distinct file names, and so distinct stored files in any one directory.
pub proof fn law_numbered_files_distinct(
    a: nat,
    b: nat,
    parts_a: (Seq<char>, Seq<char>, Option<Seq<char>>),
    parts_b: (Seq<char>, Seq<char>, Option<Seq<char>>),
    files_only: bool,
    dst: Seq<char>,
)
    requires
        a != b,
    ensures
        task_file_name(a, parts_a, true, files_only) != task_file_name(b, parts_b, true, files_only),
        join_path(dst, task_file_name(a, parts_a, true, files_only)) != join_path(
            dst,
            task_file_name(b, parts_b, true, files_only),
        ),
{
    reveal_strlit(".txt.gz");
    let na = task_file_name(a, parts_a, true, files_only);
    let nb = task_file_name(b, parts_b, true, files_only);
    crate::text::lemma_decimal_len(a);
    crate::text::lemma_decimal_len(b);
    if na == nb {
        assert(na.subrange(0, na.len() - 7) =~= decimal(a));
        assert(nb.subrange(0, nb.len() - 7) =~= decimal(b));
        crate::text::lemma_decimal_injective(a, b);
    }
    crate::text::lemma_decimal_first_is_digit(a);
    crate::text::lemma_decimal_first_is_digit(b);
    assert(na[0] == decimal(a)[0]);
    assert(nb[0] == decimal(b)[0]);
    let ja = join_path(dst, na);
    let jb = join_path(dst, nb);
    if ja == jb {
        let prefix = if dst.len() == 0 || dst.last() == '/' { dst } else { dst + seq!['/'] };
        assert(ja =~= prefix + na);
        assert(jb =~= prefix + nb);
        assert(na =~= ja.subrange(prefix.len() as int, ja.len() as int));
        assert(nb =~= jb.subrange(prefix.len() as int, jb.len() as int));
    }
}

/// A paths index download depends only on the snapshot, the data type, the destination and
/// the subsets: options that agree on these ask for the same index URL, store it in the
/// same file and cut it down to the same lines. The list file, the number of threads and
/// the numbering, flat-storage and progress flags play no part.
pub proof fn law_paths_download_ignores_data_download_fields(
    o1: DownloadOptions,
    o2: DownloadOptions,
    downloaded: Seq<u8>,
)
    requires
        o1.snapshot@ == o2.snapshot@,
        o1.data_type@ == o2.data_type@,
        o1.dst@ == o2.dst@,
        o1.max_retries == o2.max_retries,
        o1.cc_index_table_subsets@ == o2.cc_index_table_subsets@,
    ensures
        paths_index_url_spec(o1.snapshot@, o1.data_type@) == paths_index_url_spec(o2.snapshot@, o2.data_type@),
        paths_plan_spec(paths_index_url_spec(o1.snapshot@, o1.data_type@), o1.dst@) == paths_plan_spec(
            paths_index_url_spec(o2.snapshot@, o2.data_type@),
            o2.dst@,
        ),
        retry_policy_spec(o1.max_retries) == retry_policy_spec(o2.max_retries),
        wants_subset_filter(o1) == wants_subset_filter(o2),
        filtered_lines(downloaded, o1.cc_index_table_subsets@) == filtered_lines(
            downloaded,
            o2.cc_index_table_subsets@,
        ),
{
}

/// The index URL names the crawl and the data type verbatim: for any snapshot other than a
/// news crawl it is `BASE_URL` + `crawl-data/` + the snapshot + `/` + the data type +
/// `.paths.gz`; a news crawl `CC-NEWS-YYYY-MM` is found under `CC-NEWS/YYYY/MM`. Main
/// crawl references are never taken for news crawls.
pub proof fn law_index_url_shape(snapshot: Seq<char>, data_type: Seq<char>)
    ensures
        !is_news_crawl_ref(snapshot) ==> paths_index_url_spec(snapshot, data_type) == BASE_URL@
            + "crawl-data/"@ + snapshot + "/"@ + data_type + ".paths.gz"@,
        is_news_crawl_ref(snapshot) ==> paths_index_url_spec(snapshot, data_type) == BASE_URL@
            + "crawl-data/"@ + "CC-NEWS"@ + "/"@ + snapshot.subrange(8, 12) + "/"@ + snapshot.subrange(
            13,
            15,
        ) + "/"@ + data_type + ".paths.gz"@,
        is_main_crawl_ref(snapshot) ==> paths_index_url_spec(snapshot, data_type) == BASE_URL@
            + "crawl-data/"@ + snapshot + "/"@ + data_type + ".paths.gz"@,
{
    crate::snapshot::law_main_crawl_ref_shape(snapshot);
    if is_news_crawl_ref(snapshot) {
        reveal_strlit("CC-NEWS");
        let g = crawl_ref_groups(7, snapshot);
        assert(g[1] =~= "CC-NEWS"@);
        assert(paths_index_url_spec(snapshot, data_type) =~= BASE_URL@ + "crawl-data/"@ + "CC-NEWS"@
            + "/"@ + snapshot.subrange(8, 12) + "/"@ + snapshot.subrange(13, 15) + "/"@ + data_type
            + ".paths.gz"@);
    }
}

/// A contributor paths file is stored under the last segment of its URL's path whenever
/// the URL has one, and under the fallback name only where it has none.
pub proof fn law_paths_file_named_after_last_segment(url: Seq<char>, dst: Seq<char>)
    ensures
        url_parts(url) matches Ok(parts) ==> (parts.2 matches Some(seg) ==> paths_plan_spec(url, dst)
            == Some((parts.0, seg, join_path(dst, seg)))),
        url_parts(url) matches Ok(parts) ==> (parts.2 is None ==> paths_plan_spec(url, dst) == Some(
            (parts.0, FALLBACK_FILE_NAME@, join_path(dst, FALLBACK_FILE_NAME@)),
        )),
        url_parts(url) is Err ==> paths_plan_spec(url, dst) is None,
{
}

/// Where a listed file is stored. Without numbering or flat storage its name is the URL's
/// path without the leading `/`, whatever the path's length, so the crawl's folder
/// structure is kept; and in a destination directory that does not end with `/`, the stored
/// file is that directory followed by the URL's path. Flat storage takes the last path
/// segment; numbering takes the position followed by `.txt.gz`.
pub proof fn law_stored_file_names(
    number: nat,
    parts: (Seq<char>, Seq<char>, Option<Seq<char>>),
    files_only: bool,
    dst: Seq<char>,
)
    ensures
        parts.1.len() > 0 && parts.1[0] == '/' ==> task_file_name(number, parts, false, false)
            == parts.1.subrange(1, parts.1.len() as int),
        !(parts.1.len() > 0 && parts.1[0] == '/') ==> task_file_name(number, parts, false, false)
            == FALLBACK_FILE_NAME@,
        parts.1.len() > 1 && parts.1[0] == '/' && parts.1[1] != '/' && dst.len() > 0 && dst.last()
            != '/' ==> join_path(dst, task_file_name(number, parts, false, false)) == dst + parts.1,
        task_file_name(number, parts, false, true) == segment_or_fallback(parts.2),
        task_file_name(number, parts, true, files_only) == decimal(number) + ".txt.gz"@,
{
    if parts.1.len() > 1 && parts.1[0] == '/' && parts.1[1] != '/' && dst.len() > 0 && dst.last() != '/' {
        let name = parts.1.subrange(1, parts.1.len() as int);
        assert(name[0] == parts.1[1]);
        assert(dst + seq!['/'] + name =~= dst + parts.1);
    }
}

/// A downloaded `cc-index-table` paths index is cut down whenever at least one subset is
/// asked for, whatever their number; other data types, and runs that name no subset,
/// keep the index whole.
pub proof fn law_subset_filter_whenever_subsets_asked(options: DownloadOptions)
    ensures
        options.data_type@ == "cc-index-table"@ && options.cc_index_table_subsets@.len() >= 1
            ==> wants_subset_filter(options),
        options.data_type@ != "cc-index-table"@ ==> !wants_subset_filter(options),
        options.cc_index_table_subsets@.len() == 0 ==> !wants_subset_filter(options),
{
}

/// The size a listed file announces in decimal is the size shown: writing a 64-bit number
/// in decimal as the `Content-Length` gives back that number, and a missing header gives 0.
pub proof fn law_announced_size_reads_decimal(n: u64)
    ensures
        announced_size(Some(decimal(n as nat))) == n,
        announced_size(None) == 0,
{
    crate::text::law_decimal_read_back(n);
}

} // verus!
