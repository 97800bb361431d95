//! What a running crawl tells its monitor, and what the monitor keeps of
//! it.

use vstd::prelude::*;
use vstd::string::StringExecFns;
use crate::data::{CrawlNode, Finding};
use crate::result::CrawlResult;
use crate::text::{decimal, keep_last, owned, push_decimal, trim_front};

verus! {

/// A finding as the monitor shows it.
#[derive(Debug, Clone)]
pub struct SecurityFinding {
    pub title: String,
    pub severity: String,
    pub description: String,
    pub impact: String,
    pub remediation: String,
    pub cwe: Option<String>,
    pub owasp: Option<String>,
}

/// How grave a log message is.
#[derive(Debug, Clone, Copy, PartialEq, Eq, Structural)]
pub enum LogLevel {
    Info,
    Warn,
    Error,
}

/// What the crawl tells the monitor.
#[derive(Debug, Clone)]
pub enum CrawlMessage {
    /// The session has started.
    SessionStarted { session_id: String },
    /// A URL was fetched.
    Finding {
        url: String,
        status_code: u16,
        content_type: Option<String>,
        security_findings: Vec<SecurityFinding>,
    },
    /// So many URLs are done.
    Progress { processed: usize, message: String },
    /// Something to log.
    Log { level: LogLevel, message: String },
    /// The crawl is over.
    Complete { total: usize, findings_count: usize },
}

/// The most pages that the monitor keeps.
pub const MAX_FINDINGS: usize = 1000;

/// The most log messages that the monitor keeps.
pub const MAX_LOGS: usize = 500;

/// One fetched page as the monitor lists it.
#[derive(Debug, Clone)]
pub struct PageEntry {
    pub url: String,
    pub status_code: u16,
    pub content_type: Option<String>,
    pub security_findings: Vec<SecurityFinding>,
}

/// What the monitor keeps of a crawl.
pub struct MonitorState {
    pub findings: Vec<PageEntry>,
    pub selected_finding: Option<usize>,
    pub logs: Vec<(LogLevel, String)>,
    pub progress_count: usize,
    pub progress_message: String,
    pub session_id: Option<String>,
    pub is_complete: bool,
}

/// The message that tells how a crawl ended.
pub open spec fn completion_message(total: usize, findings_count: usize) -> Seq<char> {
    "Crawl complete! "@ + decimal(total as nat) + " URLs processed, "@ + decimal(
        findings_count as nat,
    ) + " findings"@
}

impl MonitorState {
    /// The state before the crawl has told anything.
    pub fn new() -> (state: MonitorState)
        ensures
            state.findings@.len() == 0,
            state.selected_finding is None,
            state.logs@.len() == 0,
            state.progress_count == 0,
            state.progress_message@ == "Starting crawl..."@,
            state.session_id is None,
            !state.is_complete,
    {
        MonitorState {
            findings: Vec::new(),
            selected_finding: None,
            logs: Vec::new(),
            progress_count: 0,
            progress_message: owned("Starting crawl..."),
            session_id: None,
            is_complete: false,
        }
    }

    /// Takes one message of the crawl. Of the pages the last
    /// `MAX_FINDINGS` are kept, of the log messages the last `MAX_LOGS`.
    pub fn apply(&mut self, message: CrawlMessage)
        ensures
            final(self).selected_finding == old(self).selected_finding,
            match message {
                CrawlMessage::SessionStarted { session_id } => {
                    &&& final(self).session_id == Some(session_id)
                    &&& final(self).findings == old(self).findings
                    &&& final(self).logs == old(self).logs
                    &&& final(self).progress_count == old(self).progress_count
                    &&& final(self).progress_message == old(self).progress_message
                    &&& final(self).is_complete == old(self).is_complete
                },
                CrawlMessage::Finding { url, status_code, content_type, security_findings } => {
                    &&& final(self).findings@ == keep_last(
                        old(self).findings@.push(
                            (PageEntry { url, status_code, content_type, security_findings }),
                        ),
                        MAX_FINDINGS as nat,
                    )
                    &&& final(self).session_id == old(self).session_id
                    &&& final(self).logs == old(self).logs
                    &&& final(self).progress_count == old(self).progress_count
                    &&& final(self).progress_message == old(self).progress_message
                    &&& final(self).is_complete == old(self).is_complete
                },
                CrawlMessage::Progress { processed, message } => {
                    &&& final(self).progress_count == processed
                    &&& final(self).progress_message == message
                    &&& final(self).session_id == old(self).session_id
                    &&& final(self).findings == old(self).findings
                    &&& final(self).logs == old(self).logs
                    &&& final(self).is_complete == old(self).is_complete
                },
                CrawlMessage::Log { level, message } => {
                    &&& final(self).logs@ == keep_last(
                        old(self).logs@.push((level, message)),
                        MAX_LOGS as nat,
                    )
                    &&& final(self).session_id == old(self).session_id
                    &&& final(self).findings == old(self).findings
                    &&& final(self).progress_count == old(self).progress_count
                    &&& final(self).progress_message == old(self).progress_message
                    &&& final(self).is_complete == old(self).is_complete
                },
                CrawlMessage::Complete { total, findings_count } => {
                    &&& final(self).is_complete
                    &&& final(self).progress_count == total
                    &&& final(self).progress_message@ == completion_message(total, findings_count)
                    &&& final(self).session_id == old(self).session_id
                    &&& final(self).findings == old(self).findings
                    &&& final(self).logs == old(self).logs
                },
            },
    {
        match message {
            CrawlMessage::SessionStarted { session_id } => {
                self.session_id = Some(session_id);
            },
            CrawlMessage::Finding { url, status_code, content_type, security_findings } => {
                self.findings.push(PageEntry { url, status_code, content_type, security_findings });
                trim_front(&mut self.findings, MAX_FINDINGS);
            },
            CrawlMessage::Progress { processed, message } => {
                self.progress_count = processed;
                self.progress_message = message;
            },
            CrawlMessage::Log { level, message } => {
                self.logs.push((level, message));
                trim_front(&mut self.logs, MAX_LOGS);
            },
            CrawlMessage::Complete { total, findings_count } => {
                self.is_complete = true;
                self.progress_count = total;
                let mut text = owned("Crawl complete! ");
                push_decimal(&mut text, total as u128);
                text.append(" URLs processed, ");
                push_decimal(&mut text, findings_count as u128);
                text.append(" findings");
                self.progress_message = text;
            },
        }
    }
}

/// The text of an optional string, or `fallback` where there is none.
pub open spec fn text_or(value: Option<String>, fallback: Seq<char>) -> Seq<char> {
    match value {
        Some(v) => v@,
        None => fallback,
    }
}

impl SecurityFinding {
    /// The finding `f` as the monitor shows it.
    pub fn from_finding(f: &Finding) -> (shown: SecurityFinding)
        ensures
            shown.title@ == f.title@,
            shown.severity@ == f.severity.label(),
            shown.description@ == f.description@,
            shown.impact@ == text_or(f.impact, "No impact information available"@),
            shown.remediation@ == text_or(f.remediation, "No remediation available"@),
            crate::data::opt_chars(shown.cwe) == crate::data::opt_chars(f.cwe_id),
            crate::data::opt_chars(shown.owasp) == crate::data::opt_chars(f.owasp_category),
    {
        SecurityFinding {
            title: f.title.clone(),
            severity: owned(f.severity.as_str()),
            description: f.description.clone(),
            impact: match &f.impact {
                Some(text) => text.clone(),
                None => owned("No impact information available"),
            },
            remediation: match &f.remediation {
                Some(text) => text.clone(),
                None => owned("No remediation available"),
            },
            cwe: f.cwe_id.clone(),
            owasp: f.owasp_category.clone(),
        }
    }
}

/// The node under which a crawl result is stored: its URL, the host of the
/// URL or `unknown` as its domain, its status, content type and number of
/// forms.
pub fn node_for_result(result: &CrawlResult) -> (node: CrawlNode)
    ensures
        node.url@ == result.url@,
        node.domain@ == crate::crawler::domain_of(result.url@),
        node.status_code == result.status_code,
        crate::data::opt_chars(node.content_type) == crate::data::opt_chars(result.content_type),
        node.content_length is None,
        node.response_time_ms is None,
        node.title is None,
        node.forms_count == result.forms_found,
        node.service_type is None,
        node.headers is None,
        node.body_sample is None,
{
    CrawlNode {
        url: result.url.clone(),
        domain: crate::crawler::domain_for(result.url.as_str()),
        status_code: result.status_code,
        content_type: result.content_type.clone(),
        content_length: None,
        response_time_ms: None,
        title: None,
        forms_count: result.forms_found,
        service_type: None,
        headers: None,
        body_sample: None,
    }
}

} // verus!
