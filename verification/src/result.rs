//! What one fetch of the crawler yields.

use vstd::prelude::*;

verus! {

/// Makes a `Duration` of whole seconds.
///
/// Nothing is claimed of the value: durations are only carried through.
pub assume_specification[ core::time::Duration::from_secs ](secs: u64) -> (d:
    core::time::Duration);

/// Copies a `Duration`: the copy equals the duration copied.
pub assume_specification[ <core::time::Duration as Clone>::clone ](
    d: &core::time::Duration,
) -> (r: core::time::Duration)
    ensures
        r == *d,
;

/// The outcome of fetching one URL.
#[derive(Debug, Clone)]
pub struct CrawlResult {
    pub url: String,
    pub status_code: u16,
    pub content_type: Option<String>,
    pub content_length: Option<u64>,
    pub response_time: core::time::Duration,
    /// The links found in the body, as absolute URLs, in document order.
    pub links_found: Vec<String>,
    pub forms_found: usize,
    pub scripts_found: usize,
    pub error: Option<String>,
}

/// The mathematical value of a [`CrawlResult`].
pub struct CrawlResultView {
    pub url: Seq<char>,
    pub status_code: u16,
    pub content_type: Option<Seq<char>>,
    pub content_length: Option<u64>,
    pub response_time: core::time::Duration,
    pub links_found: Seq<Seq<char>>,
    pub forms_found: usize,
    pub scripts_found: usize,
    pub error: Option<Seq<char>>,
}

impl View for CrawlResult {
    type V = CrawlResultView;

    open spec fn view(&self) -> CrawlResultView {
        CrawlResultView {
            url: self.url@,
            status_code: self.status_code,
            content_type: crate::data::opt_chars(self.content_type),
            content_length: self.content_length,
            response_time: self.response_time,
            links_found: crate::text::string_views(self.links_found@),
            forms_found: self.forms_found,
            scripts_found: self.scripts_found,
            error: crate::data::opt_chars(self.error),
        }
    }
}

/// The values of a sequence of crawl results.
pub open spec fn crawl_result_views(s: Seq<CrawlResult>) -> Seq<CrawlResultView> {
    s.map_values(|r: CrawlResult| r@)
}

impl CrawlResult {
    /// A result for `url` about which nothing is known yet.
    pub fn new(url: String) -> (r: CrawlResult)
        ensures
            r.url == url,
            r.status_code == 0,
            r.content_type is None,
            r.content_length is None,
            r.links_found@.len() == 0,
            r.forms_found == 0,
            r.scripts_found == 0,
            r.error is None,
    {
        CrawlResult {
            url,
            status_code: 0,
            content_type: None,
            content_length: None,
            response_time: core::time::Duration::from_secs(0),
            links_found: Vec::new(),
            forms_found: 0,
            scripts_found: 0,
            error: None,
        }
    }

    /// A result for `url` whose fetch failed with `error`.
    pub fn with_error(url: String, error: String) -> (r: CrawlResult)
        ensures
            r.url == url,
            r.status_code == 0,
            r.content_type is None,
            r.content_length is None,
            r.links_found@.len() == 0,
            r.forms_found == 0,
            r.scripts_found == 0,
            r.error == Some(error),
    {
        CrawlResult {
            url,
            status_code: 0,
            content_type: None,
            content_length: None,
            response_time: core::time::Duration::from_secs(0),
            links_found: Vec::new(),
            forms_found: 0,
            scripts_found: 0,
            error: Some(error),
        }
    }
}

} // verus!
