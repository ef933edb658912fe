//! The command line's types, the data types and subsets it names, and its argument checks.

use crate::snapshot::is_crawl_ref;
use crate::snapshot::crawl_pattern_matches;
use crate::snapshot::MAIN_CRAWL_PATTERN;
use crate::snapshot::NEWS_CRAWL_PATTERN;
use vstd::prelude::*;

verus! {

/// The command line: the command to run, if any.
pub struct Cli {
    pub command: Option<Commands>,
}

/// The commands of the command line.
pub enum Commands {
    /// Download paths for a given crawl and data type, or from a contributor dataset.
    DownloadPaths {
        /// Where the paths come from.
        command: PathsCommands,
    },
    /// Download files from a crawl.
    Download {
        /// Path file.
        path_file: String,
        /// Destination folder.
        dst: String,
        /// Download files without the folder structure.
        files_only: bool,
        /// Enumerate output files.
        numbered: bool,
        /// Number of threads to use.
        threads: usize,
        /// Maximum number of retries per file.
        retries: usize,
        /// Print progress.
        progress: bool,
    },
}

/// The sources of a paths index download.
pub enum PathsCommands {
    /// Download paths for a standard crawl snapshot.
    Crawl {
        /// Crawl reference, e.g. CC-MAIN-2021-04 or CC-NEWS-2025-01.
        snapshot: String,
        /// Data type.
        data_type: DataType,
        /// Destination folder.
        dst: String,
        /// Subsets to keep (only valid for cc-index-table); all of them when empty.
        subsets: Vec<IndexTableSubset>,
    },
    /// Download paths from a contributor dataset.
    Contrib {
        /// URL of the contributor paths file.
        url: String,
        /// Destination folder.
        dst: String,
    },
}

/// The subsets of the `cc-index-table` data type.
#[derive(Copy, Clone, Debug, PartialEq, Eq, Structural)]
pub enum IndexTableSubset {
    Crawldiagnostics,
    Robotstxt,
    Warc,
}

impl IndexTableSubset {
    /// The subset's name in index paths (`subset=<name>`).
    pub open spec fn name(self) -> Seq<char> {
        match self {
            IndexTableSubset::Crawldiagnostics => "crawldiagnostics"@,
            IndexTableSubset::Robotstxt => "robotstxt"@,
            IndexTableSubset::Warc => "warc"@,
        }
    }

    /// The subset's name in index paths.
    pub fn as_str(&self) -> (s: &'static str)
        ensures
            s@ == self.name(),
    {
        match self {
            IndexTableSubset::Crawldiagnostics => "crawldiagnostics",
            IndexTableSubset::Robotstxt => "robotstxt",
            IndexTableSubset::Warc => "warc",
        }
    }
}

/// Subsets may be named only for the `cc-index-table` data type.
pub fn subset_flag_allowed(data_type: DataType, subsets: usize) -> (r: bool)
    ensures
        r == (subsets == 0 || data_type == DataType::CcIndexTable),
{
    subsets == 0 || data_type == DataType::CcIndexTable
}

/// What a crawl argument that is not a crawl reference is answered.
pub const CRAWL_ARGUMENT_MESSAGE: &'static str = "Please use the CC-MAIN-YYYY-WW or the CC-NEWS-YYYY-MM format, make sure your input is propely capitalized";

/// The crawl argument as given, where it is a crawl reference (case matters); else the
/// message.
pub open spec fn crawl_argument_result(crawl: Seq<char>) -> Result<Seq<char>, Seq<char>> {
    if is_crawl_ref(crawl) {
        Ok(crawl)
    } else {
        Err(CRAWL_ARGUMENT_MESSAGE@)
    }
}

/// Checks a crawl argument of the command line: `CC-MAIN-YYYY-WW` or `CC-NEWS-YYYY-MM`,
/// exactly as written.
pub fn crawl_name_format(crawl: &str) -> (r: Result<String, String>)
    ensures
        match r {
            Ok(s) => crawl_argument_result(crawl@) == Ok::<Seq<char>, Seq<char>>(s@),
            Err(m) => crawl_argument_result(crawl@) == Err::<Seq<char>, Seq<char>>(m@),
        },
        is_crawl_ref(crawl@) ==> (r matches Ok(s) && s@ == crawl@),
        !is_crawl_ref(crawl@) ==> (r matches Err(m) && m@ == CRAWL_ARGUMENT_MESSAGE@),
{
    if !(crawl_pattern_matches(MAIN_CRAWL_PATTERN, crawl) || crawl_pattern_matches(NEWS_CRAWL_PATTERN, crawl)) {
        Err(CRAWL_ARGUMENT_MESSAGE.to_owned())
    } else {
        Ok(crawl.to_owned())
    }
}

/// The kinds of data a crawl publishes a paths index for.
#[derive(Copy, Clone, Debug, PartialEq, Eq, Structural, PartialOrd, Ord)]
pub enum DataType {
    Segment,
    Warc,
    Wat,
    Wet,
    Robotstxt,
    Non200responses,
    CcIndex,
    CcIndexTable,
}

impl DataType {
    /// The name under which the data type appears in crawl URLs.
    pub open spec fn name(self) -> Seq<char> {
        match self {
            DataType::Segment => "segment"@,
            DataType::Warc => "warc"@,
            DataType::Wat => "wat"@,
            DataType::Wet => "wet"@,
            DataType::Robotstxt => "robotstxt"@,
            DataType::Non200responses => "non200responses"@,
            DataType::CcIndex => "cc-index"@,
            DataType::CcIndexTable => "cc-index-table"@,
        }
    }

    /// The data type's name in crawl URLs.
    pub fn as_str(&self) -> (s: &'static str)
        ensures
            s@ == self.name(),
    {
        match self {
            DataType::Segment => "segment",
            DataType::Warc => "warc",
            DataType::Wat => "wat",
            DataType::Wet => "wet",
            DataType::Robotstxt => "robotstxt",
            DataType::Non200responses => "non200responses",
            DataType::CcIndex => "cc-index",
            DataType::CcIndexTable => "cc-index-table",
        }
    }
}

/// Distinct data types have distinct names, so a name tells its data type.
pub proof fn law_data_type_names_distinct(a: DataType, b: DataType)
    requires
        a != b,
    ensures
        a.name() != b.name(),
{
    reveal_strlit("segment");
    reveal_strlit("warc");
    reveal_strlit("wat");
    reveal_strlit("wet");
    reveal_strlit("robotstxt");
    reveal_strlit("non200responses");
    reveal_strlit("cc-index");
    reveal_strlit("cc-index-table");
    if a.name() == b.name() {
        assert(a.name().len() == b.name().len());
        assert(a.name()[0] == b.name()[0]);
        assert(a.name()[1] == b.name()[1]);
        assert(a.name()[2] == b.name()[2]);
    }
}

/// Distinct subsets have distinct names.
pub proof fn law_subset_names_distinct(a: IndexTableSubset, b: IndexTableSubset)
    requires
        a != b,
    ensures
        a.name() != b.name(),
{
    reveal_strlit("crawldiagnostics");
    reveal_strlit("robotstxt");
    reveal_strlit("warc");
    if a.name() == b.name() {
        assert(a.name().len() == b.name().len());
        assert(a.name()[0] == b.name()[0]);
    }
}

} // verus!
