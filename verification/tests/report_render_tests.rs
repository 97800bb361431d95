// The reports as text, character for character.

use rinzler::crawl_report::generate_crawl_report;
use rinzler::fuzz::{FuzzResult, FuzzSource};
use rinzler::fuzz_report::{extract_path, format_hits_display, generate_fuzz_report};
use rinzler::report::{FindingData, ReportData, ScanInfo, SeverityCounts, SitemapNode};
use rinzler::report_text::{
    format_finding_type, generate_sitemap_tree, generate_text_report, render_text_report,
    short_content_type, split_words, wrap_text,
};
use rinzler::result::CrawlResult;
use std::time::Duration;

const HEAVY: &str = "━━━━━━━━━━━━━━━━━━━━━━━━━━━━━━━━━━━━━━━━━━━━━━━━━━━━━━━━━━━━━━━━━━━━━━━━━━━━━━";
const LIGHT: &str = "────────────────────────────────────────────────────────────────────────────────";
const FUZZ_HEAVY: &str = "═══════════════════════════════════════════════════════════════════════════════";
const FUZZ_LIGHT: &str = "───────────────────────────────────────────────────────────────────────────────";
const CRAWL_RULE: &str = "━━━━━━━━━━━━━━━━━━━━━━━━━━━━━━━━━━━━━━━━━━━━━━━━━━━━";

fn fuzz_result(url: &str, status_code: u16, source: FuzzSource) -> FuzzResult {
    FuzzResult { url: url.to_string(), status_code, content_length: None, content_type: None, source }
}

fn report_data() -> ReportData {
    ReportData {
        session_id: "session-1".to_string(),
        total_nodes: 3,
        findings: Vec::new(),
        severity_counts: SeverityCounts { critical: 0, high: 0, medium: 0, low: 0, info: 0 },
        scan_info: ScanInfo {
            start_time: 1_700_000_000,
            end_time: Some(1_700_000_042),
            status: "completed".to_string(),
            seed_urls: "[\"http://example.com\"]".to_string(),
        },
        sitemap_nodes: None,
    }
}

#[test]
fn test_generate_crawl_report() {
    let results = vec![
        CrawlResult {
            url: "https://example.com/".to_string(),
            status_code: 200,
            content_type: Some("text/html".to_string()),
            content_length: Some(1024),
            response_time: Duration::from_millis(100),
            links_found: vec!["https://example.com/about".to_string()],
            forms_found: 1,
            scripts_found: 2,
            error: None,
        },
        CrawlResult {
            url: "https://example.com/api/data".to_string(),
            status_code: 200,
            content_type: Some("application/json".to_string()),
            content_length: Some(512),
            response_time: Duration::from_millis(50),
            links_found: vec![],
            forms_found: 0,
            scripts_found: 0,
            error: None,
        },
    ];

    let report = generate_crawl_report(&results);

    assert!(report.contains("Pages crawled: 2"));
    assert!(report.contains("Total links found: 1"));
    assert!(report.contains("Total forms found: 1"));
    assert!(report.contains("Total scripts found: 2"));
    assert!(report.contains("example.com"));
    assert!(report.contains("/api/data"));
    assert!(report.contains("application/json"));
    assert!(!report.contains("text/html")); // Should be hidden
}

#[test]
fn test_crawl_report_in_full() {
    let page = |url: &str, status_code: u16, content_type: Option<&str>| {
        let mut r = CrawlResult::new(url.to_string());
        r.status_code = status_code;
        r.content_type = content_type.map(String::from);
        r.links_found = vec!["x".to_string(), "y".to_string()];
        r.forms_found = 1;
        r.scripts_found = 3;
        r
    };
    let results = vec![
        page("http://b.test/", 200, Some("text/html")),
        page("http://a.test/missing", 404, None),
        page("http://a.test/moved", 301, Some("text/html; charset=utf-8")),
        page("http://b.test/broken?x=1", 500, None),
        page("not a url", 200, None),
        page("http://a.test", 99, None),
    ];
    let expected = format!(
        "{rule}\n\n# Summary:\n  Pages crawled: 5\n  Total links found: 10\n  Total forms found: 5\n  \
         Total scripts found: 15\n\n{rule}\n\n\
         ## b.test\n  2 pages found\n\n  \x1b[32m200\x1b[0m /\n  \x1b[31m500\x1b[0m /broken\n\n\
         ## a.test\n  2 pages found\n\n  \x1b[36m301\x1b[0m /moved \x1b[90mtext/html; charset=utf-8\x1b[0m\n  \
         99 /\n\n",
        rule = CRAWL_RULE
    );
    assert_eq!(generate_crawl_report(&results), expected);
}

#[test]
fn test_crawl_report_of_nothing() {
    let expected = format!(
        "{rule}\n\n# Summary:\n  Pages crawled: 0\n  Total links found: 0\n  Total forms found: 0\n  \
         Total scripts found: 0\n\n{rule}\n\n",
        rule = CRAWL_RULE
    );
    assert_eq!(generate_crawl_report(&[]), expected);
}

#[test]
fn test_fuzz_report_of_nothing() {
    let expected = format!(
        "\n{h}\n                            FUZZ RESULTS\n{h}\n\nTotal findings: 0\n\n{h}\n                            \
         End of Report\n{h}\n",
        h = FUZZ_HEAVY
    );
    assert_eq!(generate_fuzz_report(&[]), expected);
}

#[test]
fn test_fuzz_report_initial_only() {
    let mut hit = fuzz_result("http://h/admin", 200, FuzzSource::Initial);
    hit.content_length = Some(1234);
    hit.content_type = Some("text/html; charset=utf-8".to_string());
    let results = vec![
        fuzz_result("http://h/missing", 404, FuzzSource::Initial),
        hit,
        fuzz_result("http://h/other", 404, FuzzSource::Initial),
        fuzz_result("http://h/odd", 99, FuzzSource::Initial),
    ];
    let expected = format!(
        "\n{h}\n                            FUZZ RESULTS\n{h}\n\nTotal findings: 4\n\n\
         [99] (1 findings)\n{l}\n  http://h/odd\n\n\
         [200] Success (1 findings)\n{l}\n  http://h/admin (1234 bytes) [text/html]\n\n\
         [404] Client Error (2 findings)\n{l}\n  http://h/missing\n  http://h/other\n\n\
         {h}\n                            End of Report\n{h}\n",
        h = FUZZ_HEAVY,
        l = FUZZ_LIGHT
    );
    assert_eq!(generate_fuzz_report(&results), expected);
}

#[test]
fn test_fuzz_report_with_sources() {
    let results = vec![
        fuzz_result("http://h/a", 301, FuzzSource::Database),
        fuzz_result("http://h/b", 301, FuzzSource::Discovered),
        fuzz_result("http://h/c", 301, FuzzSource::Initial),
    ];
    let expected = format!(
        "\n{h}\n                            FUZZ RESULTS\n{h}\n\nTotal findings: 3\n  \
         1 from initial targets\n  1 from database endpoints\n  1 from discovered endpoints\n\n\
         [301] Redirect (3 findings)\n{l}\n  http://h/a [DB]\n  http://h/b [DISC]\n  http://h/c\n\n\
         {h}\n  [DB] = From database  [DISC] = Discovered during fuzzing\n{h}\n                            \
         End of Report\n{h}\n",
        h = FUZZ_HEAVY,
        l = FUZZ_LIGHT
    );
    assert_eq!(generate_fuzz_report(&results), expected);
}

#[test]
fn test_fuzz_report_database_only_has_no_legend() {
    let results = vec![fuzz_result("http://h/a", 200, FuzzSource::Database)];
    let report = generate_fuzz_report(&results);
    assert!(report.contains("  0 from initial targets\n  1 from database endpoints\n\n"));
    assert!(!report.contains("from discovered endpoints"));
    assert!(!report.contains("[DB] = From database"));
    assert!(report.contains("  http://h/a [DB]\n"));
}

#[test]
fn test_hits_display() {
    assert_eq!(format_hits_display(&[]), "Hits: 0");
    let two = vec!["/a [200]".to_string(), "/b [301]".to_string()];
    assert_eq!(format_hits_display(&two), "Hits: 2\n  /a [200]\n  /b [301]\n");
    let ten: Vec<String> = (0..10).map(|i| format!("/{}", i)).collect();
    let shown = format_hits_display(&ten);
    assert!(shown.starts_with("Hits: 10\n  /0\n"));
    assert_eq!(shown.lines().count(), 11);
}

#[test]
fn test_hits_display_in_columns() {
    let hits: Vec<String> = (0..12).map(|i| format!("/{}", i)).collect();
    let shown = format_hits_display(&hits);
    let lines: Vec<&str> = shown.split('\n').collect();
    assert_eq!(lines.len(), 12);
    assert_eq!(lines[0], "Hits: 12 (showing in 2 columns)");
    assert_eq!(lines[1], format!("  {:50}    {:50}", "/0", "/10"));
    assert_eq!(lines[2], format!("  {:50}    {:50}", "/1", "/11"));
    assert_eq!(lines[3], format!("  {:50}  {:52}", "/2", ""));
    assert_eq!(lines[10], format!("  {:50}  {:52}", "/9", ""));
    assert_eq!(lines[11], "");
    let wide = "w".repeat(60);
    let mut hits: Vec<String> = (0..21).map(|i| format!("/{}", i)).collect();
    hits[0] = wide.clone();
    let shown = format_hits_display(&hits);
    let lines: Vec<&str> = shown.split('\n').collect();
    assert_eq!(lines[0], "Hits: 21 (showing in 3 columns)");
    assert_eq!(lines[1], format!("  {}    {:50}    {:50}", wide, "/10", "/20"));
    assert_eq!(lines[2], format!("  {:50}    {:50}  {:52}", "/1", "/11", ""));
}

#[test]
fn test_extract_path() {
    assert_eq!(extract_path("http://h/api/v1"), "/api/v1");
    assert_eq!(extract_path("http://h"), "/");
    assert_eq!(extract_path("nonsense"), "nonsense");
    let forty = format!("/{}", "a".repeat(39));
    assert_eq!(extract_path(&format!("http://h{}", forty)), forty);
    let long = format!("/{}{}", "a".repeat(10), "b".repeat(37));
    assert_eq!(extract_path(&format!("http://h{}?q=1", long)), format!("...{}", "b".repeat(37)));
}

#[test]
fn test_wrap_text() {
    assert_eq!(wrap_text("", 80, "  "), "");
    assert_eq!(wrap_text("   \n\t ", 80, "  "), "");
    assert_eq!(wrap_text("one", 80, "  "), "  one\n");
    assert_eq!(wrap_text("  one \n two  ", 80, ""), "one two\n");
    // The limit is the width less the indent; a word goes on the line
    // unless the line with it and a space would pass the limit.
    assert_eq!(wrap_text("aaa bbb ccc", 8, "  "), "  aaa\n  bbb\n  ccc\n");
    assert_eq!(wrap_text("aaa bbb ccc", 9, "  "), "  aaa bbb\n  ccc\n");
    assert_eq!(wrap_text("aa bb cc dd", 8, "> "), "> aa bb\n> cc dd\n");
    // A word is never broken.
    assert_eq!(wrap_text("abcdefghijkl x", 4, "  "), "  abcdefghijkl\n  x\n");
    // Widths are counted in bytes.
    assert_eq!(wrap_text("éé éé", 6, ""), "éé\néé\n");
    assert_eq!(wrap_text("ee ee", 6, ""), "ee ee\n");
}

#[test]
fn test_split_words() {
    assert_eq!(split_words(" a  bc\td\n"), vec!["a".to_string(), "bc".to_string(), "d".to_string()]);
    assert!(split_words("").is_empty());
    assert!(split_words(" \u{a0}\u{2003} ").is_empty());
    assert_eq!(split_words("x"), vec!["x".to_string()]);
}

#[test]
fn test_format_finding_type() {
    assert_eq!(format_finding_type("information_disclosure"), "Information Disclosure");
    assert_eq!(format_finding_type("other"), "Other");
    assert_eq!(format_finding_type("__a__b c_"), "A B C");
    assert_eq!(format_finding_type(""), "");
    assert_eq!(format_finding_type("ßeta_éclair"), "SSeta Éclair");
}

#[test]
fn test_short_content_type() {
    assert_eq!(short_content_type(&Some("text/html; charset=utf-8".to_string())), "html");
    assert_eq!(short_content_type(&Some("application/json".to_string())), "json");
    assert_eq!(short_content_type(&Some("a/b/c".to_string())), "b");
    assert_eq!(short_content_type(&Some("nothing".to_string())), "?");
    assert_eq!(short_content_type(&Some("text/".to_string())), "");
    assert_eq!(short_content_type(&Some("text;/html".to_string())), "?");
    assert_eq!(short_content_type(&None), "?");
}

#[test]
fn test_sitemap_tree() {
    assert_eq!(generate_sitemap_tree(&Vec::new()), "  (empty)\n");
    let node = |url: &str, status_code: u16, content_type: Option<&str>| SitemapNode {
        url: url.to_string(),
        status_code,
        content_type: content_type.map(String::from),
    };
    let nodes = vec![
        node("http://a.test/", 200, Some("text/html; charset=utf-8")),
        node("http://a.test/login", 302, None),
        node("http://b.test/api", 404, Some("application/json")),
        node("nonsense", 500, Some("plain")),
        node("http://b.test/x", 0, None),
        node("http://b.test/y", 600, None),
    ];
    let expected = "├── a.test/  [✓ 200] html\n\
                    ├──     /login  [→ 302] ?\n\
                    ├── b.test/api  [⚠ 404] json\n\
                    ├── nonsense  [✗ 500] ?\n\
                    ├── b.test/x  [? 0] ?\n\
                    └──     /y  [? 600] ?\n";
    assert_eq!(generate_sitemap_tree(&nodes), expected);
}

#[test]
fn test_text_report_without_findings() {
    let data = report_data();
    let expected = format!(
        "{h}\n                        RINZLER SECURITY SCAN REPORT\n{h}\n\n\
         Session ID:   session-1\nStatus:       Completed\nScan Date:    2023-11-14 22:13:20 UTC\n\
         Duration:     42 seconds\nTargets:      http://example.com\nPages Found:  3\n\n\
         {h}\nEXECUTIVE SUMMARY\n{h}\n\nTotal Findings: 0\n\n\n\
         {h}\n                          End of Report\n{h}\n\
         \nGenerated by Rinzler - A somewhat intelligent Web API scanner\n\
         For authorized security testing only.\n\n",
        h = HEAVY
    );
    assert_eq!(generate_text_report(&data), expected);
}

#[test]
fn test_text_report_in_full() {
    let mut data = report_data();
    data.scan_info.status = "paused".to_string();
    data.scan_info.end_time = None;
    data.scan_info.seed_urls = "[\"http://a.test\", \"http://b.test\"]".to_string();
    data.severity_counts = SeverityCounts { critical: 1, high: 0, medium: 2, low: -1, info: 10 };
    data.sitemap_nodes = Some(vec![SitemapNode {
        url: "http://a.test/".to_string(),
        status_code: 200,
        content_type: None,
    }]);
    data.findings = vec![
        FindingData {
            id: 9,
            severity: "critical".to_string(),
            title: "Environment File Exposed".to_string(),
            description: "word ".repeat(20),
            url: "http://a.test/.env".to_string(),
            finding_type: "interesting_file".to_string(),
            cwe_id: Some("CWE-200".to_string()),
            owasp_category: Some("A01:2021 - Broken Access Control".to_string()),
            impact: Some("Secrets leak.".to_string()),
            remediation: Some("Remove the file.".to_string()),
        },
        FindingData {
            id: 10,
            severity: "low".to_string(),
            title: "Something".to_string(),
            description: "Short.".to_string(),
            url: "http://a.test/x".to_string(),
            finding_type: "other".to_string(),
            cwe_id: None,
            owasp_category: None,
            impact: None,
            remediation: None,
        },
    ];
    let expected = format!(
        "{h}\n                        RINZLER SECURITY SCAN REPORT\n{h}\n\n\
         Session ID:   session-1\nStatus:       Unknown\nScan Date:    when it ran\n\
         Targets:      2 of them\nPages Found:  3\n\n\
         {h}\nSITE MAP\n{h}\n\n└── a.test/  [✓ 200] ?\n\n\
         {h}\nEXECUTIVE SUMMARY\n{h}\n\nTotal Findings: 12\n\n  \
         [CRITICAL] 1  (Immediate action required)\n  [MEDIUM]   2  (Should be addressed)\n  \
         [INFO]     10  (Informational)\n\n\
         {h}\nDETAILED FINDINGS\n{h}\n\n\
         [1] Environment File Exposed\nSeverity:     CRITICAL\nType:         Interesting File\n\
         URL:          http://a.test/.env\nCWE:          CWE-200\n\
         OWASP:        A01:2021 - Broken Access Control\n\nDescription:\n  \
         word word word word word word word word word word word word word word word\n  \
         word word word word word\n\n\n\
         Impact:\n  Secrets leak.\n\n\nRemediation:\n  Remove the file.\n\n\n{l}\n\n\
         [2] Something\nSeverity:     LOW\nType:         Other\nURL:          http://a.test/x\n\
         \nDescription:\n  Short.\n\n\n{l}\n\n\
         {h}\n                          End of Report\n{h}\n\
         \nGenerated by Rinzler - A somewhat intelligent Web API scanner\n\
         For authorized security testing only.\n\n",
        h = HEAVY,
        l = LIGHT
    );
    assert_eq!(render_text_report(&data, "when it ran", "2 of them"), expected);
    let generated = generate_text_report(&data);
    assert!(generated.contains("Targets:      2 URLs\n"));
    assert!(generated.contains("Scan Date:    2023-11-14 22:13:20 UTC\n"));
}

#[test]
fn test_report_data_helpers() {
    let mut data = report_data();
    assert_eq!(data.status_to_string(), "Completed");
    for (status, text) in [
        ("failed", "Failed"),
        ("running", "Running"),
        ("cancelled", "Cancelled"),
        ("Completed", "Unknown"),
        ("", "Unknown"),
    ] {
        data.scan_info.status = status.to_string();
        assert_eq!(data.status_to_string(), text);
    }
    assert_eq!(data.format_targets(), "http://example.com");
    data.scan_info.seed_urls = "[]".to_string();
    assert_eq!(data.format_targets(), "0 URLs");
    data.scan_info.seed_urls = "http://example.com".to_string();
    assert_eq!(data.format_targets(), "Unknown");
    data.scan_info.seed_urls = "[1, 2]".to_string();
    assert_eq!(data.format_targets(), "Unknown");
    assert_eq!(data.format_timestamp(0), "1970-01-01 00:00:00 UTC");
    assert_eq!(data.format_timestamp(-1), "1969-12-31 23:59:59 UTC");
    // Too far away for a date: the present moment is shown.
    let now = data.format_timestamp(i64::MAX);
    assert!(now.ends_with(" UTC"));
    assert_eq!(now.len(), "1970-01-01 00:00:00 UTC".len());
}

#[test]
fn test_duration_of_extreme_times() {
    let mut data = report_data();
    data.scan_info.start_time = 0;
    data.scan_info.end_time = Some(i64::MIN);
    let report = render_text_report(&data, "d", "t");
    assert!(report.contains("Duration:     -9223372036854775808 seconds\n"));
    data.scan_info.start_time = i64::MIN;
    data.scan_info.end_time = Some(i64::MAX);
    let report = render_text_report(&data, "d", "t");
    assert!(report.contains("Duration:     18446744073709551615 seconds\n"));
    data.severity_counts =
        SeverityCounts { critical: i64::MAX, high: i64::MAX, medium: i64::MAX, low: 0, info: 0 };
    let report = render_text_report(&data, "d", "t");
    assert!(report.contains("Total Findings: 27670116110564327421\n"));
}
