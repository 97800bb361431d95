// The findings of the analyzers in full, and the counts of a report.

use rinzler::data::{Finding, FindingType, Severity};
use rinzler::report::{ReportFormat, SeverityCounts};
use rinzler::result::CrawlResult;
use rinzler::security::{
    analyze_crawl_result, check_error_messages, check_insecure_transport, check_security_headers,
    interesting_files_for, pattern, PATTERN_COUNT,
};

fn result_for(url: &str, status_code: u16, content_type: Option<&str>) -> CrawlResult {
    let mut result = CrawlResult::new(url.to_string());
    result.status_code = status_code;
    result.content_type = content_type.map(String::from);
    result
}

#[test]
fn test_env_file_over_http() {
    let findings = analyze_crawl_result(&result_for("http://x/.env", 200, None), 7);
    assert_eq!(findings.len(), 2);
    assert_eq!(findings[0].finding_type, FindingType::InsecureTransport);
    assert_eq!(findings[0].severity, Severity::Medium);
    assert_eq!(findings[0].cwe_id.as_deref(), Some("CWE-319"));
    assert_eq!(findings[0].owasp_category.as_deref(), Some("A02:2021 - Cryptographic Failures"));
    assert_eq!(findings[1].finding_type, FindingType::InterestingFile);
    assert_eq!(findings[1].severity, Severity::Critical);
    assert!(findings[1].title.contains("Environment"));
    assert_eq!(findings[1].cwe_id.as_deref(), Some("CWE-200"));
    assert_eq!(findings[1].owasp_category.as_deref(), Some("A01:2021 - Broken Access Control"));
    for finding in &findings {
        assert_eq!(finding.node_id, 7);
    }
}

#[test]
fn test_insecure_transport_texts() {
    let findings = check_insecure_transport(&result_for("http://x.test/a", 404, None), -3);
    assert_eq!(findings.len(), 1);
    let f: &Finding = &findings[0];
    assert_eq!(f.node_id, -3);
    assert_eq!(f.title, "Insecure Transport (HTTP)");
    assert_eq!(f.description, "The endpoint http://x.test/a is served over HTTP instead of HTTPS.");
    assert_eq!(f.evidence.as_deref(), Some("{\"url\": \"http://x.test/a\", \"scheme\": \"http\"}"));
    assert_eq!(
        f.remediation.as_deref(),
        Some("Enable HTTPS for this endpoint and redirect all HTTP traffic to HTTPS.")
    );
    assert!(f.impact.as_deref().unwrap().starts_with("Data transmitted over HTTP"));
}

#[test]
fn test_insecure_transport_exceptions() {
    for url in [
        "https://x.test/",
        "http://localhost/",
        "http://localhost:3000/a",
        "http://127.0.0.1/",
        "http://127.9.9.9:8080/",
        "ftp://x.test/",
        "not a url",
        "HTTP://LOCALHOST/",
    ] {
        assert!(check_insecure_transport(&result_for(url, 200, None), 1).is_empty(), "{}", url);
    }
    for url in ["http://128.0.0.1/", "http://localhost.test/", "http://mylocalhost/", "HTTP://X.test"] {
        assert_eq!(check_insecure_transport(&result_for(url, 200, None), 1).len(), 1, "{}", url);
    }
}

#[test]
fn test_server_error_texts() {
    let findings = check_error_messages(&result_for("https://x.test/a", 503, None), 4);
    assert_eq!(findings.len(), 1);
    let f = &findings[0];
    assert_eq!(f.finding_type, FindingType::InformationDisclosure);
    assert_eq!(f.severity, Severity::Low);
    assert_eq!(f.title, "Server Error - 503");
    assert_eq!(
        f.description,
        "Server returned error code 503 for https://x.test/a. Error pages may leak sensitive information."
    );
    assert_eq!(
        f.evidence.as_deref(),
        Some("{\"url\": \"https://x.test/a\", \"status_code\": 503}")
    );
    assert_eq!(f.cwe_id.as_deref(), Some("CWE-209"));
    assert_eq!(f.owasp_category.as_deref(), Some("A05:2021 - Security Misconfiguration"));
}

#[test]
fn test_server_error_range() {
    for status in [0u16, 200, 404, 499, 600, 65535] {
        assert!(check_error_messages(&result_for("https://x.test/", status, None), 1).is_empty());
    }
    for status in [500u16, 501, 599] {
        assert_eq!(check_error_messages(&result_for("https://x.test/", status, None), 1).len(), 1);
    }
}

#[test]
fn test_interesting_file_first_pattern_wins() {
    // `.git/` stands before `.git/config` in the table.
    let findings = interesting_files_for("/.git/config", "https://x.test/.git/config", 200, 1);
    assert_eq!(findings.len(), 1);
    assert_eq!(findings[0].title, "Git Repository Exposed");
    assert_eq!(findings[0].severity, Severity::High);
    assert_eq!(findings[0].cwe_id.as_deref(), Some("CWE-538"));
    // `.env` stands before `/admin`.
    let findings = interesting_files_for("/admin/.env", "https://x.test/admin/.env", 204, 1);
    assert_eq!(findings.len(), 1);
    assert_eq!(findings[0].title, "Environment File Exposed");
    assert_eq!(
        findings[0].description,
        "Discovered potentially sensitive file or directory: https://x.test/admin/.env"
    );
    assert_eq!(
        findings[0].evidence.as_deref(),
        Some("{\"url\": \"https://x.test/admin/.env\", \"status_code\": 204}")
    );
}

#[test]
fn test_interesting_file_needs_success() {
    for status in [0u16, 199, 300, 301, 404, 500] {
        assert!(interesting_files_for("/.env", "https://x.test/.env", status, 1).is_empty());
    }
    assert!(interesting_files_for("/index.html", "https://x.test/index.html", 200, 1).is_empty());
}

#[test]
fn test_pattern_table() {
    assert_eq!(PATTERN_COUNT, 11);
    let texts: Vec<&str> = (0..PATTERN_COUNT).map(|i| pattern(i).0).collect();
    assert_eq!(
        texts,
        vec![
            ".git/", ".env", ".git/config", "/.aws/", "/backup", ".sql", ".bak", "web.config",
            "phpinfo.php", "/admin", "/api/"
        ]
    );
    assert_eq!(pattern(3), ("/.aws/", "AWS Credentials Directory", Severity::Critical, "CWE-200"));
    assert_eq!(pattern(7), ("web.config", "Configuration File Exposed", Severity::High, "CWE-215"));
    assert_eq!(pattern(10), ("/api/", "API Endpoint", Severity::Info, "CWE-200"));
}

#[test]
fn test_security_headers() {
    let findings =
        check_security_headers(&result_for("https://x.test/", 200, Some("text/html; charset=utf-8")), 2);
    assert_eq!(findings.len(), 1);
    assert_eq!(findings[0].finding_type, FindingType::SecurityHeaderMissing);
    assert_eq!(findings[0].severity, Severity::Low);
    assert_eq!(findings[0].title, "Missing X-Frame-Options Header");
    assert_eq!(findings[0].cwe_id.as_deref(), Some("CWE-1021"));
    assert!(findings[0].evidence.is_none());
    assert!(check_security_headers(&result_for("https://x.test/", 200, None), 2).is_empty());
    assert!(check_security_headers(
        &result_for("https://x.test/", 200, Some("application/json")),
        2
    )
    .is_empty());
    assert!(check_security_headers(&result_for("https://x.test/", 404, Some("text/html")), 2).is_empty());
}

#[test]
fn test_analysis_order() {
    let findings = analyze_crawl_result(&result_for("http://x.test/backup.sql", 500, None), 1);
    // No interesting file: the response is no success.
    assert_eq!(findings.len(), 2);
    assert_eq!(findings[0].finding_type, FindingType::InsecureTransport);
    assert_eq!(findings[1].finding_type, FindingType::InformationDisclosure);
    let findings = analyze_crawl_result(&result_for("http://x.test/Backup.SQL", 200, None), 1);
    assert_eq!(findings.len(), 2);
    assert_eq!(findings[1].title, "Backup File Accessible");
}

#[test]
fn test_severity_counts_from_rows() {
    let rows = vec![
        ("high".to_string(), 2),
        ("info".to_string(), 5),
        ("unheard".to_string(), 9),
        ("critical".to_string(), 1),
        ("high".to_string(), 3),
    ];
    assert_eq!(
        SeverityCounts::from_rows(&rows),
        SeverityCounts { critical: 1, high: 3, medium: 0, low: 0, info: 5 }
    );
    assert_eq!(
        SeverityCounts::from_rows(&Vec::new()),
        SeverityCounts { critical: 0, high: 0, medium: 0, low: 0, info: 0 }
    );
}

#[test]
fn test_report_format_names() {
    assert_eq!(ReportFormat::from_lowercase("md"), Some(ReportFormat::Markdown));
    assert_eq!(ReportFormat::from_lowercase("MD"), None);
    assert_eq!(ReportFormat::from_str("MarkDown"), Some(ReportFormat::Markdown));
    assert_eq!(ReportFormat::from_str(" text"), None);
    assert_eq!(ReportFormat::from_str(""), None);
}
