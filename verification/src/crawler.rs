//! The crawler: link extraction, the admission of links to other domains,
//! and the state of a depth-limited crawl that its workers share.

use vstd::prelude::*;
use vstd::string::StringExecFns;
use crate::crawl::{DecisionsView, DomainDecisions, FollowMode, decision_of, remembered};
use crate::text::{
    contains_seq, has_prefix, has_suffix, owned, str_contains, str_ends_with, str_eq,
    str_starts_with, string_views,
};
use crate::urls::{ParsedUrl, host_of, join_without_fragment, resolved_reference};

verus! {

/// For each element of the HTML document `html` that matches the CSS
/// selector `selector`, in document order, the value of its attribute
/// `attribute`, if it has one; `None` where the selector does not parse.
pub uninterp spec fn selected_attributes(
    html: Seq<char>,
    selector: Seq<char>,
    attribute: Seq<char>,
) -> Option<Seq<Option<Seq<char>>>>;

/// The number of elements of the HTML document `html` that match the CSS
/// selector `selector`; `None` where the selector does not parse.
pub uninterp spec fn selected_count(html: Seq<char>, selector: Seq<char>) -> Option<nat>;

/// The characters of each string of a sequence, where there is one.
pub open spec fn optional_views(s: Seq<Option<String>>) -> Seq<Option<Seq<char>>> {
    s.map_values(|x: Option<String>| crate::data::opt_chars(x))
}

/// Parses `html` with `scraper::Html::parse_document`, which accepts any
/// text, and `selector` with `scraper::Selector::parse`; walks the matches of
/// `Html::select` and copies for each what `Element::attr` gives for
/// `attribute`.
///
/// The contract only names the outcome.
#[verifier::external_body]
pub(crate) fn select_attribute(html: &str, selector: &str, attribute: &str) -> (r: Option<
    Vec<Option<String>>,
>)
    ensures
        match r {
            Some(values) => selected_attributes(html@, selector@, attribute@) == Some(
                optional_views(values@),
            ),
            None => selected_attributes(html@, selector@, attribute@) is None,
        },
{
    match ::scraper::Selector::parse(selector) {
        Ok(sel) => Some(
            ::scraper::Html::parse_document(html).select(&sel).map(
                |e| e.value().attr(attribute).map(String::from),
            ).collect(),
        ),
        Err(_) => None,
    }
}

/// Parses `html` with `scraper::Html::parse_document` and `selector` with
/// `scraper::Selector::parse`, and counts the matches of `Html::select`.
///
/// The contract only names the outcome.
#[verifier::external_body]
pub(crate) fn count_matches(html: &str, selector: &str) -> (r: Option<usize>)
    ensures
        match r {
            Some(n) => selected_count(html@, selector@) == Some(n as nat),
            None => selected_count(html@, selector@) is None,
        },
{
    match ::scraper::Selector::parse(selector) {
        Ok(sel) => Some(::scraper::Html::parse_document(html).select(&sel).count()),
        Err(_) => None,
    }
}

/// A reference that is not followed: an empty one, a script, a mail or
/// telephone link, or a bare fragment.
pub open spec fn is_skipped_reference(href: Seq<char>) -> bool {
    href.len() == 0 || has_prefix(href, "javascript:"@) || has_prefix(href, "mailto:"@)
        || has_prefix(href, "tel:"@) || has_prefix(href, "#"@)
}

/// The absolute URL that the reference `href` on the page `base` leads to,
/// without its fragment; `None` where the reference is not followed or does
/// not resolve.
pub open spec fn link_target(base: Seq<char>, href: Seq<char>) -> Option<Seq<char>> {
    if is_skipped_reference(href) {
        None
    } else {
        resolved_reference(base, href)
    }
}

/// The target of an anchor on the page `base`: that of its reference, if
/// it has one.
pub open spec fn anchor_target(base: Seq<char>, href: Option<Seq<char>>) -> Option<Seq<char>> {
    match href {
        Some(h) => link_target(base, h),
        None => None,
    }
}

/// The targets of the anchors with the references `hrefs` on the page
/// `base`, in order.
pub open spec fn link_targets(base: Seq<char>, hrefs: Seq<Option<Seq<char>>>) -> Seq<Seq<char>>
    decreases hrefs.len(),
{
    if hrefs.len() == 0 {
        Seq::empty()
    } else {
        match anchor_target(base, hrefs.last()) {
            Some(url) => link_targets(base, hrefs.drop_last()).push(url),
            None => link_targets(base, hrefs.drop_last()),
        }
    }
}

/// `host` belongs to the domain `base_domain`: it is that domain, or ends
/// with a dot and that domain.
pub open spec fn host_in_domain(host: Seq<char>, base_domain: Seq<char>) -> bool {
    host == base_domain || has_suffix(host, "."@ + base_domain)
}

/// The URL `url` has a host that belongs to the domain `base_domain`.
pub open spec fn same_domain(url: Seq<char>, base_domain: Seq<char>) -> bool {
    match host_of(url) {
        Some(host) => host_in_domain(host, base_domain),
        None => false,
    }
}

/// The domain that stands for the URL `url`: its host, or `unknown`.
pub open spec fn domain_of(url: Seq<char>) -> Seq<char> {
    match host_of(url) {
        Some(host) => host,
        None => "unknown"@,
    }
}

/// Resolves the reference `href` found on the page `base`.
pub fn resolve_url(base: &str, href: &str) -> (r: Option<String>)
    ensures
        crate::data::opt_chars(r) == link_target(base@, href@),
{
    if href.is_empty() || str_starts_with(href, "javascript:") || str_starts_with(href, "mailto:")
        || str_starts_with(href, "tel:") || str_starts_with(href, "#") {
        return None;
    }
    join_without_fragment(base, href)
}

/// Whether `host` belongs to the domain `base_domain`.
pub fn is_host_in_domain(host: &str, base_domain: &str) -> (b: bool)
    ensures
        b == host_in_domain(host@, base_domain@),
{
    if str_eq(host, base_domain) {
        return true;
    }
    let suffix = owned(".").concat(base_domain);
    str_ends_with(host, suffix.as_str())
}

/// Whether the URL `url` has a host that belongs to the domain
/// `base_domain`.
pub fn is_same_domain(url: &str, base_domain: &str) -> (b: bool)
    ensures
        b == same_domain(url@, base_domain@),
{
    match ParsedUrl::parse(url) {
        Ok(parts) => match &parts.host {
            Some(host) => is_host_in_domain(host.as_str(), base_domain),
            None => false,
        },
        Err(_) => false,
    }
}

/// The domain that stands for the URL `url`.
pub fn domain_for(url: &str) -> (d: String)
    ensures
        d@ == domain_of(url@),
{
    match ParsedUrl::parse(url) {
        Ok(parts) => match parts.host {
            Some(host) => host,
            None => owned("unknown"),
        },
        Err(_) => owned("unknown"),
    }
}

/// The links of the page `html` at `current_url`: the target of every
/// `<a href>`, in document order.
pub open spec fn page_links(html: Seq<char>, current_url: Seq<char>) -> Seq<Seq<char>> {
    match selected_attributes(html, "a[href]"@, "href"@) {
        Some(hrefs) => link_targets(current_url, hrefs),
        None => Seq::empty(),
    }
}

/// The number of elements of `html` that match `selector`, or zero where
/// the selector does not parse.
pub open spec fn count_or_zero(html: Seq<char>, selector: Seq<char>) -> nat {
    match selected_count(html, selector) {
        Some(n) => n,
        None => 0,
    }
}

/// Resolves the references of the anchors `hrefs` against `base`.
pub fn resolve_all(base: &str, hrefs: &Vec<Option<String>>) -> (links: Vec<String>)
    ensures
        string_views(links@) == link_targets(base@, optional_views(hrefs@)),
{
    let ghost hv = optional_views(hrefs@);
    let mut links: Vec<String> = Vec::new();
    let mut i: usize = 0;
    assert(hv.take(0) =~= Seq::<Option<Seq<char>>>::empty());
    assert(string_views(links@) =~= Seq::<Seq<char>>::empty());
    while i < hrefs.len()
        invariant
            i <= hrefs.len(),
            hv == optional_views(hrefs@),
            string_views(links@) == link_targets(base@, hv.take(i as int)),
        decreases hrefs.len() - i,
    {
        proof {
            assert(hv.take(i + 1).drop_last() =~= hv.take(i as int));
            assert(hv.take(i + 1).last() == crate::data::opt_chars(hrefs@[i as int]));
        }
        let target = match &hrefs[i] {
            Some(href) => resolve_url(base, href.as_str()),
            None => None,
        };
        match target {
            Some(url) => {
                let ghost before = links@;
                let ghost u = url@;
                links.push(url);
                assert(string_views(links@) =~= string_views(before).push(u));
            },
            None => {},
        }
        i += 1;
    }
    assert(hv.take(i as int) =~= hv);
    links
}

/// Reads the links of the page `html` at `current_url`, and counts its forms
/// and its external scripts. No admission policy is applied here.
pub fn extract_elements(html: &str, current_url: &str) -> (r: (Vec<String>, usize, usize))
    ensures
        string_views(r.0@) == page_links(html@, current_url@),
        r.1 == count_or_zero(html@, "form"@),
        r.2 == count_or_zero(html@, "script[src]"@),
{
    let links = match select_attribute(html, "a[href]", "href") {
        Some(hrefs) => resolve_all(current_url, &hrefs),
        None => {
            let empty: Vec<String> = Vec::new();
            assert(string_views(empty@) =~= Seq::<Seq<char>>::empty());
            empty
        },
    };
    let forms = match count_matches(html, "form") {
        Some(n) => n,
        None => 0,
    };
    let scripts = match count_matches(html, "script[src]") {
        Some(n) => n,
        None => 0,
    };
    (links, forms, scripts)
}

/// What is decided about a link.
#[derive(Debug, Clone, Copy, PartialEq, Eq, Structural)]
pub enum Verdict {
    /// The link is followed.
    Admit,
    /// The link is dropped.
    Reject,
    /// Somebody has to be asked about the link's domain first.
    Ask,
}

/// What is decided about `link` under the mode `mode`, with the answers
/// `decisions` at hand. A link within the domain is always followed. Another
/// is followed in `Auto` mode, dropped in `Disabled` mode, and in `Prompt`
/// mode goes by the answer for its domain.
pub open spec fn verdict(
    mode: FollowMode,
    decisions: DecisionsView,
    base_domain: Seq<char>,
    link: Seq<char>,
) -> Verdict {
    if same_domain(link, base_domain) {
        Verdict::Admit
    } else {
        match mode {
            FollowMode::Auto => Verdict::Admit,
            FollowMode::Disabled => Verdict::Reject,
            FollowMode::Prompt => match decision_of(decisions, domain_of(link)) {
                Some(true) => Verdict::Admit,
                Some(false) => Verdict::Reject,
                None => Verdict::Ask,
            },
        }
    }
}

/// Decides about `link`.
pub fn decide(mode: FollowMode, decisions: &DomainDecisions, base_domain: &str, link: &str) -> (v:
    Verdict)
    ensures
        v == verdict(mode, decisions@, base_domain@, link@),
{
    if is_same_domain(link, base_domain) {
        return Verdict::Admit;
    }
    match mode {
        FollowMode::Auto => Verdict::Admit,
        FollowMode::Disabled => Verdict::Reject,
        FollowMode::Prompt => {
            let domain = domain_for(link);
            match decisions.decision(domain.as_str()) {
                Some(true) => Verdict::Admit,
                Some(false) => Verdict::Reject,
                None => Verdict::Ask,
            }
        },
    }
}

/// The state of the scan of one page, as a mathematical value.
pub struct ScanModel {
    /// The URL of the page.
    pub url: Seq<char>,
    /// The domain of the crawl.
    pub base_domain: Seq<char>,
    pub mode: FollowMode,
    /// The links of the page, in document order.
    pub candidates: Seq<Seq<char>>,
    /// How many candidates have been decided.
    pub next: int,
    /// The candidates that were admitted, in order.
    pub links: Seq<Seq<char>>,
    pub forms: nat,
    pub scripts: nat,
}

/// The scan with its next candidate admitted or dropped.
pub open spec fn stepped(m: ScanModel, follow: bool) -> ScanModel {
    ScanModel {
        url: m.url,
        base_domain: m.base_domain,
        mode: m.mode,
        candidates: m.candidates,
        next: m.next + 1,
        links: if follow {
            m.links.push(m.candidates[m.next])
        } else {
            m.links
        },
        forms: m.forms,
        scripts: m.scripts,
    }
}

/// The scan after it has gone on as far as it can without asking: it stops
/// at the end, or at the first candidate about whose domain nothing is
/// known yet.
pub open spec fn advanced(m: ScanModel, decisions: DecisionsView) -> ScanModel
    decreases m.candidates.len() - m.next,
{
    if m.next < 0 || m.next >= m.candidates.len() {
        m
    } else {
        match verdict(m.mode, decisions, m.base_domain, m.candidates[m.next]) {
            Verdict::Admit => advanced(stepped(m, true), decisions),
            Verdict::Reject => advanced(stepped(m, false), decisions),
            Verdict::Ask => m,
        }
    }
}

/// The scan waits for an answer about its next candidate.
pub open spec fn awaits_answer(m: ScanModel, decisions: DecisionsView) -> bool {
    0 <= m.next < m.candidates.len() && verdict(
        m.mode,
        decisions,
        m.base_domain,
        m.candidates[m.next],
    ) == Verdict::Ask
}

/// The domain that the scan asks about, if it waits for an answer.
pub open spec fn question(m: ScanModel, decisions: DecisionsView) -> Option<Seq<char>> {
    if awaits_answer(m, decisions) {
        Some(domain_of(m.candidates[m.next]))
    } else {
        None
    }
}

/// The scan and the decisions after the answer `approve` was given. Where
/// the scan does not wait for an answer, nothing changes.
pub open spec fn answered(m: ScanModel, decisions: DecisionsView, approve: bool) -> (
    ScanModel,
    DecisionsView,
) {
    if awaits_answer(m, decisions) {
        (stepped(m, approve), remembered(decisions, domain_of(m.candidates[m.next]), approve))
    } else {
        (m, decisions)
    }
}

/// Every admitted link may be followed under the scan's mode: with
/// `Disabled`, each lies within the domain of the crawl.
pub open spec fn links_admissible(m: ScanModel) -> bool {
    forall|i: int|
        0 <= i < m.links.len() ==> m.mode != FollowMode::Disabled || same_domain(
            #[trigger] m.links[i],
            m.base_domain,
        )
}

/// Going on with a scan admits only links that may be followed.
pub proof fn advanced_keeps_admissible(m: ScanModel, decisions: DecisionsView)
    requires
        links_admissible(m),
    ensures
        links_admissible(advanced(m, decisions)),
        advanced(m, decisions).url == m.url,
        advanced(m, decisions).base_domain == m.base_domain,
        advanced(m, decisions).mode == m.mode,
        advanced(m, decisions).candidates == m.candidates,
        advanced(m, decisions).forms == m.forms,
        advanced(m, decisions).scripts == m.scripts,
    decreases m.candidates.len() - m.next,
{
    if m.next < 0 || m.next >= m.candidates.len() {
    } else {
        match verdict(m.mode, decisions, m.base_domain, m.candidates[m.next]) {
            Verdict::Admit => {
                let n = stepped(m, true);
                assert forall|i: int| 0 <= i < n.links.len() implies n.mode != FollowMode::Disabled
                    || same_domain(#[trigger] n.links[i], n.base_domain) by {
                    if i < m.links.len() {
                        assert(n.links[i] == m.links[i]);
                    }
                }
                advanced_keeps_admissible(n, decisions);
            },
            Verdict::Reject => {
                advanced_keeps_admissible(stepped(m, false), decisions);
            },
            Verdict::Ask => {},
        }
    }
}

/// An answer admits only a link that may be followed: a scan asks only in
/// `Prompt` mode.
pub proof fn answered_keeps_admissible(m: ScanModel, decisions: DecisionsView, approve: bool)
    requires
        links_admissible(m),
    ensures
        links_admissible(answered(m, decisions, approve).0),
{
    let n = answered(m, decisions, approve).0;
    assert forall|i: int| 0 <= i < n.links.len() implies n.mode != FollowMode::Disabled
        || same_domain(#[trigger] n.links[i], n.base_domain) by {
        if i < m.links.len() {
            assert(n.links[i] == m.links[i]);
        }
    }
}

/// A scan never asks about a domain that has an answer.
pub proof fn question_is_new(m: ScanModel, decisions: DecisionsView)
    ensures
        question(m, decisions) is Some ==> decision_of(decisions, question(m, decisions)->Some_0)
            is None,
{
}

/// The scan of one fetched page: its links are admitted one by one, and the
/// scan stops where somebody has to be asked about a domain.
pub struct PageScan {
    url: String,
    base_domain: String,
    mode: FollowMode,
    candidates: Vec<String>,
    next: usize,
    links: Vec<String>,
    forms: usize,
    scripts: usize,
}

impl View for PageScan {
    type V = ScanModel;

    closed spec fn view(&self) -> ScanModel {
        ScanModel {
            url: self.url@,
            base_domain: self.base_domain@,
            mode: self.mode,
            candidates: string_views(self.candidates@),
            next: self.next as int,
            links: string_views(self.links@),
            forms: self.forms as nat,
            scripts: self.scripts as nat,
        }
    }
}

/// The content type names an HTML document.
pub open spec fn is_html(content_type: Option<Seq<char>>) -> bool {
    content_type is Some && contains_seq(content_type->Some_0, "text/html"@)
}

/// The scan of the page `body` at `url` before any link is decided. Only an
/// HTML document is read; anything else has no links, forms or scripts.
pub open spec fn fresh_scan(
    url: Seq<char>,
    base_domain: Seq<char>,
    mode: FollowMode,
    content_type: Option<Seq<char>>,
    body: Seq<char>,
) -> ScanModel {
    ScanModel {
        url,
        base_domain,
        mode,
        candidates: if is_html(content_type) {
            page_links(body, url)
        } else {
            Seq::empty()
        },
        next: 0,
        links: Seq::empty(),
        forms: if is_html(content_type) {
            count_or_zero(body, "form"@)
        } else {
            0
        },
        scripts: if is_html(content_type) {
            count_or_zero(body, "script[src]"@)
        } else {
            0
        },
    }
}

impl PageScan {
    /// Starts the scan of the page `body` that was fetched from `url`.
    pub fn new(
        url: &str,
        base_domain: &str,
        mode: FollowMode,
        content_type: &Option<String>,
        body: &str,
    ) -> (scan: PageScan)
        ensures
            scan@ == fresh_scan(
                url@,
                base_domain@,
                mode,
                crate::data::opt_chars(*content_type),
                body@,
            ),
            links_admissible(scan@),
    {
        let html = match content_type {
            Some(ct) => str_contains(ct.as_str(), "text/html"),
            None => false,
        };
        let (candidates, forms, scripts) = if html {
            extract_elements(body, url)
        } else {
            let empty: Vec<String> = Vec::new();
            assert(string_views(empty@) =~= Seq::<Seq<char>>::empty());
            (empty, 0, 0)
        };
        let scan = PageScan {
            url: owned(url),
            base_domain: owned(base_domain),
            mode,
            candidates,
            next: 0,
            links: Vec::new(),
            forms,
            scripts,
        };
        assert(scan@.links =~= Seq::<Seq<char>>::empty());
        scan
    }

    /// Goes on with the scan as far as it can without asking. Returns the
    /// domain that somebody has to be asked about, or `None` when every link
    /// is decided.
    pub fn advance(&mut self, decisions: &DomainDecisions) -> (ask: Option<String>)
        ensures
            final(self)@ == advanced(old(self)@, decisions@),
            crate::data::opt_chars(ask) == question(final(self)@, decisions@),
            ask is None ==> final(self)@.next >= final(self)@.candidates.len(),
            links_admissible(old(self)@) ==> links_admissible(final(self)@),
    {
        proof {
            if links_admissible(self@) {
                advanced_keeps_admissible(self@, decisions@);
            }
        }
        while self.next < self.candidates.len()
            invariant
                advanced(old(self)@, decisions@) == advanced(self@, decisions@),
            decreases self.candidates@.len() - self.next,
        {
            let ghost m = self@;
            let v = decide(
                self.mode,
                decisions,
                self.base_domain.as_str(),
                self.candidates[self.next].as_str(),
            );
            match v {
                Verdict::Admit => {
                    let link = self.candidates[self.next].clone();
                    let ghost before = self.links@;
                    self.links.push(link);
                    self.next = self.next + 1;
                    assert(string_views(self.links@) =~= string_views(before).push(
                        m.candidates[m.next],
                    ));
                    assert(self@ == stepped(m, true));
                },
                Verdict::Reject => {
                    self.next = self.next + 1;
                    assert(self@ == stepped(m, false));
                },
                Verdict::Ask => {
                    let domain = domain_for(self.candidates[self.next].as_str());
                    return Some(domain);
                },
            }
        }
        None
    }

    /// Takes the answer to the question that `advance` returned: the answer
    /// is remembered for the domain, and the link is admitted if it is an
    /// approval. Where the scan does not wait for an answer, nothing
    /// changes.
    pub fn answer(&mut self, decisions: &mut DomainDecisions, approve: bool)
        ensures
            (final(self)@, final(decisions)@) == answered(old(self)@, old(decisions)@, approve),
            links_admissible(old(self)@) ==> links_admissible(final(self)@),
    {
        proof {
            if links_admissible(self@) {
                answered_keeps_admissible(self@, decisions@, approve);
            }
        }
        if self.next >= self.candidates.len() {
            return ;
        }
        let ghost m = self@;
        let v = decide(
            self.mode,
            decisions,
            self.base_domain.as_str(),
            self.candidates[self.next].as_str(),
        );
        match v {
            Verdict::Ask => {
                let domain = domain_for(self.candidates[self.next].as_str());
                let standing = decisions.remember(domain.as_str(), approve);
                if approve {
                    let link = self.candidates[self.next].clone();
                    let ghost before = self.links@;
                    self.links.push(link);
                    assert(string_views(self.links@) =~= string_views(before).push(
                        m.candidates[m.next],
                    ));
                }
                self.next = self.next + 1;
                assert(self@ == stepped(m, approve));
            },
            _ => {},
        }
    }

    /// Whether every link of the page is decided.
    pub fn is_done(&self) -> (b: bool)
        ensures
            b == (self@.next >= self@.candidates.len()),
    {
        self.next >= self.candidates.len()
    }

    /// The URL of the page.
    pub fn url(&self) -> (u: &str)
        ensures
            u@ == self@.url,
    {
        self.url.as_str()
    }

    /// The domain of the crawl that the page belongs to.
    pub fn base_domain(&self) -> (d: &str)
        ensures
            d@ == self@.base_domain,
    {
        self.base_domain.as_str()
    }

    /// The mode under which the links are admitted.
    pub fn mode(&self) -> (m: FollowMode)
        ensures
            m == self@.mode,
    {
        self.mode
    }

    /// The number of forms on the page.
    pub fn forms(&self) -> (n: usize)
        ensures
            n == self@.forms,
    {
        self.forms
    }

    /// The number of external scripts on the page.
    pub fn scripts(&self) -> (n: usize)
        ensures
            n == self@.scripts,
    {
        self.scripts
    }

    /// The links admitted so far, in document order.
    pub fn links(&self) -> (links: &Vec<String>)
        ensures
            string_views(links@) == self@.links,
    {
        &self.links
    }
}

} // verus!
