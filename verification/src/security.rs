//! Passive security checks. Each check looks at one crawl result and
//! reports what it finds; none of them sends a request.

use vstd::prelude::*;
use vstd::string::StringExecFns;
use crate::data::{Finding, FindingType, FindingView, Severity, finding_views};
use crate::result::CrawlResult;
use crate::text::{
    contains_seq, decimal, has_prefix, lowercase, owned, push_decimal, str_contains, str_eq,
    str_starts_with, to_lowercase,
};
use crate::urls::{ParsedUrl, UrlParts, parse_outcome};

verus! {

/// The number of interesting-file patterns.
pub const PATTERN_COUNT: usize = 11;

/// The `i`-th interesting-file pattern: the text looked for in the
/// lower-cased path, the title of the finding, its severity and its CWE.
pub open spec fn pattern_entry(i: int) -> (Seq<char>, Seq<char>, Severity, Seq<char>) {
    if i == 0 {
        (".git/"@, "Git Repository Exposed"@, Severity::High, "CWE-538"@)
    } else if i == 1 {
        (".env"@, "Environment File Exposed"@, Severity::Critical, "CWE-200"@)
    } else if i == 2 {
        (".git/config"@, "Git Configuration Exposed"@, Severity::High, "CWE-538"@)
    } else if i == 3 {
        ("/.aws/"@, "AWS Credentials Directory"@, Severity::Critical, "CWE-200"@)
    } else if i == 4 {
        ("/backup"@, "Backup File Accessible"@, Severity::Medium, "CWE-530"@)
    } else if i == 5 {
        (".sql"@, "SQL Dump File"@, Severity::High, "CWE-530"@)
    } else if i == 6 {
        (".bak"@, "Backup File"@, Severity::Medium, "CWE-530"@)
    } else if i == 7 {
        ("web.config"@, "Configuration File Exposed"@, Severity::High, "CWE-215"@)
    } else if i == 8 {
        ("phpinfo.php"@, "PHP Info Page"@, Severity::Info, "CWE-200"@)
    } else if i == 9 {
        ("/admin"@, "Admin Interface"@, Severity::Info, "CWE-200"@)
    } else {
        ("/api/"@, "API Endpoint"@, Severity::Info, "CWE-200"@)
    }
}

/// The `i`-th interesting-file pattern.
pub fn pattern(i: usize) -> (r: (&'static str, &'static str, Severity, &'static str))
    requires
        i < PATTERN_COUNT,
    ensures
        (r.0@, r.1@, r.2, r.3@) == pattern_entry(i as int),
{
    if i == 0 {
        (".git/", "Git Repository Exposed", Severity::High, "CWE-538")
    } else if i == 1 {
        (".env", "Environment File Exposed", Severity::Critical, "CWE-200")
    } else if i == 2 {
        (".git/config", "Git Configuration Exposed", Severity::High, "CWE-538")
    } else if i == 3 {
        ("/.aws/", "AWS Credentials Directory", Severity::Critical, "CWE-200")
    } else if i == 4 {
        ("/backup", "Backup File Accessible", Severity::Medium, "CWE-530")
    } else if i == 5 {
        (".sql", "SQL Dump File", Severity::High, "CWE-530")
    } else if i == 6 {
        (".bak", "Backup File", Severity::Medium, "CWE-530")
    } else if i == 7 {
        ("web.config", "Configuration File Exposed", Severity::High, "CWE-215")
    } else if i == 8 {
        ("phpinfo.php", "PHP Info Page", Severity::Info, "CWE-200")
    } else if i == 9 {
        ("/admin", "Admin Interface", Severity::Info, "CWE-200")
    } else {
        ("/api/", "API Endpoint", Severity::Info, "CWE-200")
    }
}

/// The first pattern at or after `from` that stands in `path`, or
/// `PATTERN_COUNT` where none does.
pub open spec fn first_pattern(path: Seq<char>, from: int) -> int
    decreases PATTERN_COUNT - from,
{
    if from >= PATTERN_COUNT {
        PATTERN_COUNT as int
    } else if contains_seq(path, pattern_entry(from).0) {
        from
    } else {
        first_pattern(path, from + 1)
    }
}

/// The JSON evidence that names a URL and the status it answered with.
pub open spec fn status_evidence(url: Seq<char>, status: u16) -> Seq<char> {
    "{\"url\": \""@ + url + "\", \"status_code\": "@ + decimal(status as nat) + "}"@
}

/// The finding for a URL served over plain HTTP.
pub open spec fn insecure_transport_finding(url: Seq<char>, node_id: i64) -> FindingView {
    FindingView {
        node_id,
        finding_type: FindingType::InsecureTransport,
        severity: Severity::Medium,
        title: "Insecure Transport (HTTP)"@,
        description: "The endpoint "@ + url + " is served over HTTP instead of HTTPS."@,
        impact: Some(
            "Data transmitted over HTTP can be intercepted and read by attackers. Sensitive information like credentials, session tokens, and personal data may be exposed."@,
        ),
        remediation: Some(
            "Enable HTTPS for this endpoint and redirect all HTTP traffic to HTTPS."@,
        ),
        evidence: Some("{\"url\": \""@ + url + "\", \"scheme\": \"http\"}"@),
        cwe_id: Some("CWE-319"@),
        owasp_category: Some("A02:2021 - Cryptographic Failures"@),
    }
}

/// The finding for a path that matches the `k`-th interesting-file pattern.
pub open spec fn interesting_file_finding(
    k: int,
    url: Seq<char>,
    status: u16,
    node_id: i64,
) -> FindingView {
    FindingView {
        node_id,
        finding_type: FindingType::InterestingFile,
        severity: pattern_entry(k).2,
        title: pattern_entry(k).1,
        description: "Discovered potentially sensitive file or directory: "@ + url,
        impact: Some(
            "This file or directory may contain sensitive information or provide attack surface."@,
        ),
        remediation: Some(
            "Review if this resource should be publicly accessible. Consider removing or restricting access."@,
        ),
        evidence: Some(status_evidence(url, status)),
        cwe_id: Some(pattern_entry(k).3),
        owasp_category: Some("A01:2021 - Broken Access Control"@),
    }
}

/// The finding for a response with a server error status.
pub open spec fn server_error_finding(url: Seq<char>, status: u16, node_id: i64) -> FindingView {
    FindingView {
        node_id,
        finding_type: FindingType::InformationDisclosure,
        severity: Severity::Low,
        title: "Server Error - "@ + decimal(status as nat),
        description: "Server returned error code "@ + decimal(status as nat) + " for "@ + url
            + ". Error pages may leak sensitive information."@,
        impact: Some(
            "Server errors may expose stack traces, file paths, or other sensitive system information."@,
        ),
        remediation: Some("Configure custom error pages that don't reveal system details."@),
        evidence: Some(status_evidence(url, status)),
        cwe_id: Some("CWE-209"@),
        owasp_category: Some("A05:2021 - Security Misconfiguration"@),
    }
}

/// The finding for an HTML page that may be framed by another site.
pub open spec fn missing_frame_options_finding(node_id: i64) -> FindingView {
    FindingView {
        node_id,
        finding_type: FindingType::SecurityHeaderMissing,
        severity: Severity::Low,
        title: "Missing X-Frame-Options Header"@,
        description: "The X-Frame-Options header is not set, which may allow clickjacking attacks."@,
        impact: Some(
            "Attackers could embed this page in an iframe on a malicious site to perform clickjacking attacks."@,
        ),
        remediation: Some(
            "Add 'X-Frame-Options: DENY' or 'X-Frame-Options: SAMEORIGIN' header to HTTP responses."@,
        ),
        evidence: None,
        cwe_id: Some("CWE-1021"@),
        owasp_category: Some("A05:2021 - Security Misconfiguration"@),
    }
}

/// A URL is served insecurely when its scheme is `http` and its host is
/// neither `localhost` nor a loopback address written as `127.…`.
pub open spec fn insecure_transport_applies(parts: UrlParts) -> bool {
    parts.scheme == "http"@ && match parts.host {
        Some(h) => !has_prefix(h, "127."@) && h != "localhost"@,
        None => false,
    }
}

/// What the insecure-transport check reports for a URL with the given parts.
pub open spec fn insecure_transport_findings(
    outcome: Result<UrlParts, Seq<char>>,
    url: Seq<char>,
    node_id: i64,
) -> Seq<FindingView> {
    match outcome {
        Ok(parts) => if insecure_transport_applies(parts) {
            seq![insecure_transport_finding(url, node_id)]
        } else {
            Seq::empty()
        },
        Err(_) => Seq::empty(),
    }
}

/// What the interesting-file check reports for a lower-cased path.
pub open spec fn interesting_path_findings(
    lower_path: Seq<char>,
    url: Seq<char>,
    status: u16,
    node_id: i64,
) -> Seq<FindingView> {
    let k = first_pattern(lower_path, 0);
    if 200 <= status < 300 && k < PATTERN_COUNT {
        seq![interesting_file_finding(k, url, status, node_id)]
    } else {
        Seq::empty()
    }
}

/// What the interesting-file check reports for a URL with the given parts.
pub open spec fn interesting_file_findings(
    outcome: Result<UrlParts, Seq<char>>,
    url: Seq<char>,
    status: u16,
    node_id: i64,
) -> Seq<FindingView> {
    match outcome {
        Ok(parts) => interesting_path_findings(lowercase(parts.path), url, status, node_id),
        Err(_) => Seq::empty(),
    }
}

/// What the server-error check reports.
pub open spec fn error_message_findings(url: Seq<char>, status: u16, node_id: i64) -> Seq<
    FindingView,
> {
    if 500 <= status < 600 {
        seq![server_error_finding(url, status, node_id)]
    } else {
        Seq::empty()
    }
}

/// What the security-header check reports.
pub open spec fn security_header_findings(
    status: u16,
    content_type: Option<Seq<char>>,
    node_id: i64,
) -> Seq<FindingView> {
    if 200 <= status < 300 && content_type is Some && contains_seq(
        content_type->Some_0,
        "text/html"@,
    ) {
        seq![missing_frame_options_finding(node_id)]
    } else {
        Seq::empty()
    }
}

fn status_evidence_text(url: &str, status: u16) -> (r: String)
    ensures
        r@ == status_evidence(url@, status),
{
    let mut e = owned("{\"url\": \"");
    e.append(url);
    e.append("\", \"status_code\": ");
    push_decimal(&mut e, status as u128);
    e.append("}");
    e
}

/// Reports a successful HTML response as lacking the `X-Frame-Options`
/// header. The check has no access to the headers themselves.
pub fn check_security_headers(result: &CrawlResult, node_id: i64) -> (findings: Vec<Finding>)
    ensures
        finding_views(findings@) == security_header_findings(
            result.status_code,
            crate::data::opt_chars(result.content_type),
            node_id,
        ),
{
    let mut findings: Vec<Finding> = Vec::new();
    let is_html = match &result.content_type {
        Some(ct) => str_contains(ct.as_str(), "text/html"),
        None => false,
    };
    if result.status_code >= 200 && result.status_code < 300 && is_html {
        findings.push(
            Finding {
                node_id,
                finding_type: FindingType::SecurityHeaderMissing,
                severity: Severity::Low,
                title: owned("Missing X-Frame-Options Header"),
                description: owned(
                    "The X-Frame-Options header is not set, which may allow clickjacking attacks.",
                ),
                impact: Some(
                    owned(
                        "Attackers could embed this page in an iframe on a malicious site to perform clickjacking attacks.",
                    ),
                ),
                remediation: Some(
                    owned(
                        "Add 'X-Frame-Options: DENY' or 'X-Frame-Options: SAMEORIGIN' header to HTTP responses.",
                    ),
                ),
                evidence: None,
                cwe_id: Some(owned("CWE-1021")),
                owasp_category: Some(owned("A05:2021 - Security Misconfiguration")),
            },
        );
    }
    assert(finding_views(findings@) =~= security_header_findings(
        result.status_code,
        crate::data::opt_chars(result.content_type),
        node_id,
    ));
    findings
}

/// The insecure-transport check on a URL that has been parsed into `parts`.
pub fn insecure_transport_for(parts: &ParsedUrl, url: &str, node_id: i64) -> (findings: Vec<
    Finding,
>)
    ensures
        finding_views(findings@) == insecure_transport_findings(
            Ok::<UrlParts, Seq<char>>(parts@),
            url@,
            node_id,
        ),
{
    let mut findings: Vec<Finding> = Vec::new();
    let exposed = match &parts.host {
        Some(h) => !str_starts_with(h.as_str(), "127.") && !str_eq(h.as_str(), "localhost"),
        None => false,
    };
    if str_eq(parts.scheme.as_str(), "http") && exposed {
        let mut description = owned("The endpoint ");
        description.append(url);
        description.append(" is served over HTTP instead of HTTPS.");
        let mut evidence = owned("{\"url\": \"");
        evidence.append(url);
        evidence.append("\", \"scheme\": \"http\"}");
        findings.push(
            Finding {
                node_id,
                finding_type: FindingType::InsecureTransport,
                severity: Severity::Medium,
                title: owned("Insecure Transport (HTTP)"),
                description,
                impact: Some(
                    owned(
                        "Data transmitted over HTTP can be intercepted and read by attackers. Sensitive information like credentials, session tokens, and personal data may be exposed.",
                    ),
                ),
                remediation: Some(
                    owned("Enable HTTPS for this endpoint and redirect all HTTP traffic to HTTPS."),
                ),
                evidence: Some(evidence),
                cwe_id: Some(owned("CWE-319")),
                owasp_category: Some(owned("A02:2021 - Cryptographic Failures")),
            },
        );
    }
    assert(finding_views(findings@) =~= insecure_transport_findings(
        Ok::<UrlParts, Seq<char>>(parts@),
        url@,
        node_id,
    ));
    findings
}

/// Reports a URL that is served over plain HTTP by a host other than the
/// local machine. A URL that does not parse yields nothing.
pub fn check_insecure_transport(result: &CrawlResult, node_id: i64) -> (findings: Vec<Finding>)
    ensures
        finding_views(findings@) == insecure_transport_findings(
            parse_outcome(result.url@),
            result.url@,
            node_id,
        ),
{
    match ParsedUrl::parse(result.url.as_str()) {
        Ok(parts) => insecure_transport_for(&parts, result.url.as_str(), node_id),
        Err(_) => {
            let findings: Vec<Finding> = Vec::new();
            assert(finding_views(findings@) =~= Seq::<FindingView>::empty());
            findings
        },
    }
}

/// The interesting-file check on a path that has been lower-cased: the first
/// pattern of the table that stands in the path is reported, and only for a
/// successful response.
pub fn interesting_files_for(lower_path: &str, url: &str, status_code: u16, node_id: i64) -> (findings:
    Vec<Finding>)
    ensures
        finding_views(findings@) == interesting_path_findings(
            lower_path@,
            url@,
            status_code,
            node_id,
        ),
{
    let mut findings: Vec<Finding> = Vec::new();
    if !(status_code >= 200 && status_code < 300) {
        assert(finding_views(findings@) =~= Seq::<FindingView>::empty());
        return findings;
    }
    let mut i: usize = 0;
    while i < PATTERN_COUNT
        invariant
            i <= PATTERN_COUNT,
            200 <= status_code < 300,
            findings@.len() == 0,
            first_pattern(lower_path@, 0) == first_pattern(lower_path@, i as int),
        decreases PATTERN_COUNT - i,
    {
        let (text, title, severity, cwe) = pattern(i);
        if str_contains(lower_path, text) {
            let mut description = owned("Discovered potentially sensitive file or directory: ");
            description.append(url);
            findings.push(
                Finding {
                    node_id,
                    finding_type: FindingType::InterestingFile,
                    severity,
                    title: owned(title),
                    description,
                    impact: Some(
                        owned(
                            "This file or directory may contain sensitive information or provide attack surface.",
                        ),
                    ),
                    remediation: Some(
                        owned(
                            "Review if this resource should be publicly accessible. Consider removing or restricting access.",
                        ),
                    ),
                    evidence: Some(status_evidence_text(url, status_code)),
                    cwe_id: Some(owned(cwe)),
                    owasp_category: Some(owned("A01:2021 - Broken Access Control")),
                },
            );
            assert(first_pattern(lower_path@, 0) == i);
            assert(finding_views(findings@) =~= interesting_path_findings(
                lower_path@,
                url@,
                status_code,
                node_id,
            ));
            return findings;
        }
        i += 1;
    }
    assert(finding_views(findings@) =~= interesting_path_findings(
        lower_path@,
        url@,
        status_code,
        node_id,
    ));
    findings
}

/// Reports a successful response whose path looks like a sensitive file or
/// directory. A URL that does not parse yields nothing.
pub fn check_interesting_files(result: &CrawlResult, node_id: i64) -> (findings: Vec<Finding>)
    ensures
        finding_views(findings@) == interesting_file_findings(
            parse_outcome(result.url@),
            result.url@,
            result.status_code,
            node_id,
        ),
{
    match ParsedUrl::parse(result.url.as_str()) {
        Ok(parts) => {
            let lower = to_lowercase(parts.path.as_str());
            interesting_files_for(lower.as_str(), result.url.as_str(), result.status_code, node_id)
        },
        Err(_) => {
            let findings: Vec<Finding> = Vec::new();
            assert(finding_views(findings@) =~= Seq::<FindingView>::empty());
            findings
        },
    }
}

/// Reports a response with a status from 500 to 599.
pub fn check_error_messages(result: &CrawlResult, node_id: i64) -> (findings: Vec<Finding>)
    ensures
        finding_views(findings@) == error_message_findings(
            result.url@,
            result.status_code,
            node_id,
        ),
{
    let mut findings: Vec<Finding> = Vec::new();
    if result.status_code >= 500 && result.status_code < 600 {
        let mut title = owned("Server Error - ");
        push_decimal(&mut title, result.status_code as u128);
        let mut description = owned("Server returned error code ");
        push_decimal(&mut description, result.status_code as u128);
        description.append(" for ");
        description.append(result.url.as_str());
        description.append(". Error pages may leak sensitive information.");
        findings.push(
            Finding {
                node_id,
                finding_type: FindingType::InformationDisclosure,
                severity: Severity::Low,
                title,
                description,
                impact: Some(
                    owned(
                        "Server errors may expose stack traces, file paths, or other sensitive system information.",
                    ),
                ),
                remediation: Some(
                    owned("Configure custom error pages that don't reveal system details."),
                ),
                evidence: Some(status_evidence_text(result.url.as_str(), result.status_code)),
                cwe_id: Some(owned("CWE-209")),
                owasp_category: Some(owned("A05:2021 - Security Misconfiguration")),
            },
        );
    }
    assert(finding_views(findings@) =~= error_message_findings(
        result.url@,
        result.status_code,
        node_id,
    ));
    findings
}

/// What the composed analyzer reports: the findings of the
/// insecure-transport check, then of the interesting-file check, then of the
/// server-error check.
pub open spec fn analysis_of(
    outcome: Result<UrlParts, Seq<char>>,
    url: Seq<char>,
    status: u16,
    node_id: i64,
) -> Seq<FindingView> {
    insecure_transport_findings(outcome, url, node_id) + interesting_file_findings(
        outcome,
        url,
        status,
        node_id,
    ) + error_message_findings(url, status, node_id)
}

/// Runs every enabled passive check on one crawl result.
pub fn analyze_crawl_result(result: &CrawlResult, node_id: i64) -> (findings: Vec<Finding>)
    ensures
        finding_views(findings@) == analysis_of(
            parse_outcome(result.url@),
            result.url@,
            result.status_code,
            node_id,
        ),
{
    let mut all_findings = check_insecure_transport(result, node_id);
    let mut files = check_interesting_files(result, node_id);
    let mut errors = check_error_messages(result, node_id);
    let ghost a = all_findings@;
    let ghost b = files@;
    let ghost c = errors@;
    all_findings.append(&mut files);
    all_findings.append(&mut errors);
    assert(finding_views(a + b + c) =~= finding_views(a) + finding_views(b) + finding_views(c));
    all_findings
}

} // verus!
