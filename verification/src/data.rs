//! The finding model: severities, finding kinds, service kinds, and the
//! records that describe a crawled node and a security finding.

use vstd::prelude::*;

verus! {

/// How serious a finding is, from most to least severe.
#[derive(Debug, Clone, Copy, PartialEq, Eq, Structural)]
pub enum Severity {
    Critical,
    High,
    Medium,
    Low,
    Info,
}

impl Severity {
    /// The lower-case label under which the severity is stored.
    pub open spec fn label(self) -> Seq<char> {
        match self {
            Severity::Critical => "critical"@,
            Severity::High => "high"@,
            Severity::Medium => "medium"@,
            Severity::Low => "low"@,
            Severity::Info => "info"@,
        }
    }

    pub fn as_str(&self) -> (s: &'static str)
        ensures
            s@ == self.label(),
    {
        match self {
            Severity::Critical => "critical",
            Severity::High => "high",
            Severity::Medium => "medium",
            Severity::Low => "low",
            Severity::Info => "info",
        }
    }
}

/// What kind of observation a finding is.
#[derive(Debug, Clone, Copy, PartialEq, Eq, Structural)]
pub enum FindingType {
    Vulnerability,
    Misconfiguration,
    InformationDisclosure,
    InterestingFile,
    SecurityHeaderMissing,
    InsecureTransport,
    AuthenticationIssue,
    AuthorizationIssue,
    InjectionPoint,
    Other,
}

impl FindingType {
    /// The snake-case label under which the kind is stored.
    pub open spec fn label(self) -> Seq<char> {
        match self {
            FindingType::Vulnerability => "vulnerability"@,
            FindingType::Misconfiguration => "misconfiguration"@,
            FindingType::InformationDisclosure => "information_disclosure"@,
            FindingType::InterestingFile => "interesting_file"@,
            FindingType::SecurityHeaderMissing => "security_header_missing"@,
            FindingType::InsecureTransport => "insecure_transport"@,
            FindingType::AuthenticationIssue => "authentication_issue"@,
            FindingType::AuthorizationIssue => "authorization_issue"@,
            FindingType::InjectionPoint => "injection_point"@,
            FindingType::Other => "other"@,
        }
    }

    pub fn as_str(&self) -> (s: &'static str)
        ensures
            s@ == self.label(),
    {
        match self {
            FindingType::Vulnerability => "vulnerability",
            FindingType::Misconfiguration => "misconfiguration",
            FindingType::InformationDisclosure => "information_disclosure",
            FindingType::InterestingFile => "interesting_file",
            FindingType::SecurityHeaderMissing => "security_header_missing",
            FindingType::InsecureTransport => "insecure_transport",
            FindingType::AuthenticationIssue => "authentication_issue",
            FindingType::AuthorizationIssue => "authorization_issue",
            FindingType::InjectionPoint => "injection_point",
            FindingType::Other => "other",
        }
    }
}

/// What kind of service answers at a node.
#[derive(Debug, Clone, Copy, PartialEq, Eq, Structural)]
pub enum ServiceType {
    Web,
    RestApi,
    GraphQL,
    Soap,
    WebSocket,
    Static,
    Redirect,
}

impl ServiceType {
    /// The snake-case label under which the kind is stored.
    pub open spec fn label(self) -> Seq<char> {
        match self {
            ServiceType::Web => "web"@,
            ServiceType::RestApi => "rest_api"@,
            ServiceType::GraphQL => "graphql"@,
            ServiceType::Soap => "soap"@,
            ServiceType::WebSocket => "websocket"@,
            ServiceType::Static => "static"@,
            ServiceType::Redirect => "redirect"@,
        }
    }

    pub fn as_str(&self) -> (s: &'static str)
        ensures
            s@ == self.label(),
    {
        match self {
            ServiceType::Web => "web",
            ServiceType::RestApi => "rest_api",
            ServiceType::GraphQL => "graphql",
            ServiceType::Soap => "soap",
            ServiceType::WebSocket => "websocket",
            ServiceType::Static => "static",
            ServiceType::Redirect => "redirect",
        }
    }
}

/// One URL discovered under a map, as it is handed to the store.
#[derive(Debug, Clone)]
pub struct CrawlNode {
    pub url: String,
    pub domain: String,
    pub status_code: u16,
    pub content_type: Option<String>,
    pub content_length: Option<usize>,
    pub response_time_ms: Option<u64>,
    pub title: Option<String>,
    pub forms_count: usize,
    pub service_type: Option<ServiceType>,
    /// The response headers, as a JSON object.
    pub headers: Option<String>,
    pub body_sample: Option<String>,
}

/// A security observation about one node.
#[derive(Debug, Clone)]
pub struct Finding {
    pub node_id: i64,
    pub finding_type: FindingType,
    pub severity: Severity,
    pub title: String,
    pub description: String,
    pub impact: Option<String>,
    pub remediation: Option<String>,
    /// The proof, as a JSON object.
    pub evidence: Option<String>,
    pub cwe_id: Option<String>,
    pub owasp_category: Option<String>,
}

/// The characters of an optional string.
pub open spec fn opt_chars(o: Option<String>) -> Option<Seq<char>> {
    match o {
        Some(s) => Some(s@),
        None => None,
    }
}

/// The mathematical value of a [`Finding`].
pub struct FindingView {
    pub node_id: i64,
    pub finding_type: FindingType,
    pub severity: Severity,
    pub title: Seq<char>,
    pub description: Seq<char>,
    pub impact: Option<Seq<char>>,
    pub remediation: Option<Seq<char>>,
    pub evidence: Option<Seq<char>>,
    pub cwe_id: Option<Seq<char>>,
    pub owasp_category: Option<Seq<char>>,
}

impl View for Finding {
    type V = FindingView;

    open spec fn view(&self) -> FindingView {
        FindingView {
            node_id: self.node_id,
            finding_type: self.finding_type,
            severity: self.severity,
            title: self.title@,
            description: self.description@,
            impact: opt_chars(self.impact),
            remediation: opt_chars(self.remediation),
            evidence: opt_chars(self.evidence),
            cwe_id: opt_chars(self.cwe_id),
            owasp_category: opt_chars(self.owasp_category),
        }
    }
}

/// The values of a sequence of findings.
pub open spec fn finding_views(s: Seq<Finding>) -> Seq<FindingView> {
    s.map_values(|f: Finding| f@)
}

} // verus!
