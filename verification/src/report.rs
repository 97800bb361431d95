//! The data of a scan report, and the report as text.

use vstd::prelude::*;
use crate::text::{lowercase, str_eq, to_lowercase};

verus! {

/// The formats in which a report can be written.
#[derive(Debug, Clone, Copy, PartialEq, Eq, Structural)]
pub enum ReportFormat {
    Text,
    Json,
    Csv,
    Html,
    Markdown,
}

/// The format that a lower-case name stands for.
pub open spec fn format_named(name: Seq<char>) -> Option<ReportFormat> {
    if name == "text"@ {
        Some(ReportFormat::Text)
    } else if name == "json"@ {
        Some(ReportFormat::Json)
    } else if name == "csv"@ {
        Some(ReportFormat::Csv)
    } else if name == "html"@ {
        Some(ReportFormat::Html)
    } else if name == "markdown"@ || name == "md"@ {
        Some(ReportFormat::Markdown)
    } else {
        None
    }
}

impl ReportFormat {
    /// The format that the lower-case name `name` stands for.
    pub fn from_lowercase(name: &str) -> (r: Option<ReportFormat>)
        ensures
            r == format_named(name@),
    {
        if str_eq(name, "text") {
            Some(ReportFormat::Text)
        } else if str_eq(name, "json") {
            Some(ReportFormat::Json)
        } else if str_eq(name, "csv") {
            Some(ReportFormat::Csv)
        } else if str_eq(name, "html") {
            Some(ReportFormat::Html)
        } else if str_eq(name, "markdown") || str_eq(name, "md") {
            Some(ReportFormat::Markdown)
        } else {
            None
        }
    }

    /// The format that `s` names, whatever the case of its letters.
    pub fn from_str(s: &str) -> (r: Option<ReportFormat>)
        ensures
            r == format_named(lowercase(s@)),
    {
        let lower = to_lowercase(s);
        ReportFormat::from_lowercase(lower.as_str())
    }
}

/// How many findings of each severity a scan has.
#[derive(Debug, Clone, Copy, PartialEq, Eq, Structural)]
pub struct SeverityCounts {
    pub critical: i64,
    pub high: i64,
    pub medium: i64,
    pub low: i64,
    pub info: i64,
}

/// When a scan ran, how it ended, and what it was pointed at.
#[derive(Debug, Clone)]
pub struct ScanInfo {
    pub start_time: i64,
    pub end_time: Option<i64>,
    pub status: String,
    /// The seed URLs, as a JSON array of strings.
    pub seed_urls: String,
}

/// One node of the site map.
#[derive(Debug, Clone)]
pub struct SitemapNode {
    pub url: String,
    pub status_code: u16,
    pub content_type: Option<String>,
}

/// One finding as a report shows it.
#[derive(Debug, Clone)]
pub struct FindingData {
    pub id: i64,
    pub severity: String,
    pub title: String,
    pub description: String,
    pub url: String,
    pub finding_type: String,
    pub cwe_id: Option<String>,
    pub owasp_category: Option<String>,
    pub impact: Option<String>,
    pub remediation: Option<String>,
}

/// Everything that a report of one session shows.
#[derive(Debug, Clone)]
pub struct ReportData {
    pub session_id: String,
    pub total_nodes: usize,
    pub findings: Vec<FindingData>,
    pub severity_counts: SeverityCounts,
    pub scan_info: ScanInfo,
    pub sitemap_nodes: Option<Vec<SitemapNode>>,
}

/// The counts that a list of `(severity, count)` rows gives: for each
/// severity the count of the last row that names it, and zero where no row
/// does. Rows with another name are ignored.
pub open spec fn counts_of_rows(rows: Seq<(Seq<char>, i64)>) -> SeverityCounts
    decreases rows.len(),
{
    if rows.len() == 0 {
        SeverityCounts { critical: 0, high: 0, medium: 0, low: 0, info: 0 }
    } else {
        let earlier = counts_of_rows(rows.drop_last());
        let (name, count) = rows.last();
        if name == "critical"@ {
            SeverityCounts { critical: count, ..earlier }
        } else if name == "high"@ {
            SeverityCounts { high: count, ..earlier }
        } else if name == "medium"@ {
            SeverityCounts { medium: count, ..earlier }
        } else if name == "low"@ {
            SeverityCounts { low: count, ..earlier }
        } else if name == "info"@ {
            SeverityCounts { info: count, ..earlier }
        } else {
            earlier
        }
    }
}

/// The values of a list of `(severity, count)` rows.
pub open spec fn row_views(rows: Seq<(String, i64)>) -> Seq<(Seq<char>, i64)> {
    rows.map_values(|r: (String, i64)| (r.0@, r.1))
}

impl SeverityCounts {
    /// Gathers the counts per severity from the rows of a count query.
    pub fn from_rows(rows: &Vec<(String, i64)>) -> (counts: SeverityCounts)
        ensures
            counts == counts_of_rows(row_views(rows@)),
    {
        let mut counts = SeverityCounts { critical: 0, high: 0, medium: 0, low: 0, info: 0 };
        let ghost rv = row_views(rows@);
        let mut i: usize = 0;
        assert(rv.take(0) =~= Seq::<(Seq<char>, i64)>::empty());
        while i < rows.len()
            invariant
                i <= rows.len(),
                rv == row_views(rows@),
                counts == counts_of_rows(rv.take(i as int)),
            decreases rows.len() - i,
        {
            proof {
                assert(rv.take(i + 1).drop_last() =~= rv.take(i as int));
                assert(rv.take(i + 1).last() == (rows@[i as int].0@, rows@[i as int].1));
            }
            let name = rows[i].0.as_str();
            let count = rows[i].1;
            if str_eq(name, "critical") {
                counts.critical = count;
            } else if str_eq(name, "high") {
                counts.high = count;
            } else if str_eq(name, "medium") {
                counts.medium = count;
            } else if str_eq(name, "low") {
                counts.low = count;
            } else if str_eq(name, "info") {
                counts.info = count;
            }
            i += 1;
        }
        assert(rv.take(i as int) =~= rv);
        counts
    }
}

} // verus!
