// What the monitor keeps of a crawl, and the values made for it.

use rinzler::data::{Finding, FindingType, Severity};
use rinzler::monitor::{
    node_for_result, CrawlMessage, LogLevel, MonitorState, SecurityFinding, MAX_FINDINGS, MAX_LOGS,
};
use rinzler::result::CrawlResult;

fn page(n: usize) -> CrawlMessage {
    CrawlMessage::Finding {
        url: format!("http://h/{}", n),
        status_code: 200,
        content_type: None,
        security_findings: Vec::new(),
    }
}

#[test]
fn test_monitor_starts_empty() {
    let state = MonitorState::new();
    assert!(state.findings.is_empty());
    assert!(state.logs.is_empty());
    assert_eq!(state.selected_finding, None);
    assert_eq!(state.progress_count, 0);
    assert_eq!(state.progress_message, "Starting crawl...");
    assert_eq!(state.session_id, None);
    assert!(!state.is_complete);
}

#[test]
fn test_monitor_takes_messages() {
    let mut state = MonitorState::new();
    state.apply(CrawlMessage::SessionStarted { session_id: "s-1".to_string() });
    assert_eq!(state.session_id.as_deref(), Some("s-1"));
    state.apply(CrawlMessage::Progress { processed: 4, message: "four".to_string() });
    assert_eq!(state.progress_count, 4);
    assert_eq!(state.progress_message, "four");
    state.apply(CrawlMessage::Log { level: LogLevel::Warn, message: "careful".to_string() });
    assert_eq!(state.logs, vec![(LogLevel::Warn, "careful".to_string())]);
    state.apply(page(1));
    assert_eq!(state.findings.len(), 1);
    assert_eq!(state.findings[0].url, "http://h/1");
    assert_eq!(state.findings[0].status_code, 200);
    assert!(!state.is_complete);
    state.apply(CrawlMessage::Complete { total: 12, findings_count: 3 });
    assert!(state.is_complete);
    assert_eq!(state.progress_count, 12);
    assert_eq!(state.progress_message, "Crawl complete! 12 URLs processed, 3 findings");
    assert_eq!(state.session_id.as_deref(), Some("s-1"));
    assert_eq!(state.findings.len(), 1);
    assert_eq!(state.logs.len(), 1);
}

#[test]
fn test_monitor_keeps_the_last_pages() {
    let mut state = MonitorState::new();
    state.selected_finding = Some(5);
    for n in 0..MAX_FINDINGS + 3 {
        state.apply(page(n));
    }
    assert_eq!(state.findings.len(), MAX_FINDINGS);
    assert_eq!(state.findings[0].url, "http://h/3");
    assert_eq!(state.findings[MAX_FINDINGS - 1].url, format!("http://h/{}", MAX_FINDINGS + 2));
    assert_eq!(state.selected_finding, Some(5));
}

#[test]
fn test_monitor_keeps_the_last_logs() {
    let mut state = MonitorState::new();
    for n in 0..MAX_LOGS + 1 {
        state.apply(CrawlMessage::Log { level: LogLevel::Info, message: n.to_string() });
    }
    assert_eq!(state.logs.len(), MAX_LOGS);
    assert_eq!(state.logs[0].1, "1");
    assert_eq!(state.logs[MAX_LOGS - 1].1, MAX_LOGS.to_string());
}

#[test]
fn test_security_finding_from_finding() {
    let finding = Finding {
        node_id: 1,
        finding_type: FindingType::Other,
        severity: Severity::High,
        title: "T".to_string(),
        description: "D".to_string(),
        impact: None,
        remediation: Some("R".to_string()),
        evidence: None,
        cwe_id: Some("CWE-1".to_string()),
        owasp_category: None,
    };
    let shown = SecurityFinding::from_finding(&finding);
    assert_eq!(shown.title, "T");
    assert_eq!(shown.severity, "high");
    assert_eq!(shown.description, "D");
    assert_eq!(shown.impact, "No impact information available");
    assert_eq!(shown.remediation, "R");
    assert_eq!(shown.cwe.as_deref(), Some("CWE-1"));
    assert_eq!(shown.owasp, None);
    let bare = SecurityFinding::from_finding(&Finding { remediation: None, ..finding });
    assert_eq!(bare.remediation, "No remediation available");
}

#[test]
fn test_node_for_result() {
    let mut result = CrawlResult::new("https://api.site.test:8443/v1?x=1".to_string());
    result.status_code = 201;
    result.content_type = Some("application/json".to_string());
    result.content_length = Some(10);
    result.forms_found = 2;
    let node = node_for_result(&result);
    assert_eq!(node.url, "https://api.site.test:8443/v1?x=1");
    assert_eq!(node.domain, "api.site.test");
    assert_eq!(node.status_code, 201);
    assert_eq!(node.content_type.as_deref(), Some("application/json"));
    assert_eq!(node.content_length, None);
    assert_eq!(node.response_time_ms, None);
    assert_eq!(node.forms_count, 2);
    assert!(node.service_type.is_none());
    assert_eq!(node_for_result(&CrawlResult::new("nonsense".to_string())).domain, "unknown");
}

#[test]
fn test_crawl_result_constructors() {
    let fresh = CrawlResult::new("http://h/".to_string());
    assert_eq!(fresh.url, "http://h/");
    assert_eq!(fresh.status_code, 0);
    assert!(fresh.content_type.is_none());
    assert!(fresh.content_length.is_none());
    assert_eq!(fresh.response_time, std::time::Duration::from_secs(0));
    assert!(fresh.links_found.is_empty());
    assert_eq!(fresh.forms_found, 0);
    assert_eq!(fresh.scripts_found, 0);
    assert!(fresh.error.is_none());
    let failed = CrawlResult::with_error("http://h/".to_string(), "timed out".to_string());
    assert_eq!(failed.url, "http://h/");
    assert_eq!(failed.status_code, 0);
    assert_eq!(failed.error.as_deref(), Some("timed out"));
    assert!(failed.links_found.is_empty());
}
