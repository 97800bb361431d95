//! What a crawl is asked to do, and the policy for links that leave the
//! domain of the seed.

use vstd::prelude::*;
use crate::text::{contains_string, owned, string_views};
use crate::urls::{ParsedUrl, UrlParts, parse_outcome};

verus! {

/// Whether links to other domains are followed.
#[derive(Debug, Clone, Copy, PartialEq, Eq, Structural)]
pub enum FollowMode {
    /// Never follow a link to another domain.
    Disabled,
    /// Ask once for each new domain, and remember the answer.
    Prompt,
    /// Follow every link.
    Auto,
}

/// The options of a crawl.
pub struct CrawlOptions {
    pub urls: Vec<String>,
    pub threads: usize,
    pub max_depth: usize,
    pub follow_mode: FollowMode,
    pub show_progress_bars: bool,
}

/// A path as it is shown: `/` stands for the empty path.
pub open spec fn path_or_root(path: Seq<char>) -> Seq<char> {
    if path.len() == 0 {
        "/"@
    } else {
        path
    }
}

/// The path shown for a URL: its path, `/` where the path is empty, and the
/// text itself where it is no URL.
pub open spec fn shown_path(outcome: Result<UrlParts, Seq<char>>, url: Seq<char>) -> Seq<char> {
    match outcome {
        Ok(parts) => path_or_root(parts.path),
        Err(_) => url,
    }
}

/// The path of a URL whose parts are known.
pub fn path_of_parts(parts: &ParsedUrl) -> (path: String)
    ensures
        path@ == path_or_root(parts@.path),
{
    if parts.path.as_str().is_empty() {
        owned("/")
    } else {
        parts.path.clone()
    }
}

/// The path component of `url`. A URL without a path has the path `/`;
/// text that is no URL is returned as it is.
pub fn extract_url_path(url: &str) -> (path: String)
    ensures
        path@ == shown_path(parse_outcome(url@), url@),
        !crate::urls::is_url(url@) ==> path@ == url@,
{
    match ParsedUrl::parse(url) {
        Ok(parts) => path_of_parts(&parts),
        Err(_) => owned(url),
    }
}

/// The answers given so far to the question whether a domain may be
/// followed.
pub struct DomainDecisions {
    approved: Vec<String>,
    denied: Vec<String>,
}

/// The mathematical value of the remembered decisions.
pub struct DecisionsView {
    pub approved: Seq<Seq<char>>,
    pub denied: Seq<Seq<char>>,
}

/// The remembered answer for `domain`, if there is one. An approval is
/// looked for before a denial.
pub open spec fn decision_of(d: DecisionsView, domain: Seq<char>) -> Option<bool> {
    if d.approved.contains(domain) {
        Some(true)
    } else if d.denied.contains(domain) {
        Some(false)
    } else {
        None
    }
}

/// The decisions after `answer` was given for `domain`: a domain that has
/// an answer keeps it.
pub open spec fn remembered(d: DecisionsView, domain: Seq<char>, answer: bool) -> DecisionsView {
    if decision_of(d, domain) is Some {
        d
    } else if answer {
        DecisionsView { approved: d.approved.push(domain), denied: d.denied }
    } else {
        DecisionsView { approved: d.approved, denied: d.denied.push(domain) }
    }
}

impl View for DomainDecisions {
    type V = DecisionsView;

    closed spec fn view(&self) -> DecisionsView {
        DecisionsView { approved: string_views(self.approved@), denied: string_views(self.denied@) }
    }
}

impl DomainDecisions {
    /// No domain has an answer yet.
    pub fn new() -> (d: DomainDecisions)
        ensures
            d@.approved.len() == 0,
            d@.denied.len() == 0,
            forall|domain: Seq<char>| decision_of(d@, domain) is None,
    {
        let d = DomainDecisions { approved: Vec::new(), denied: Vec::new() };
        assert(d@.approved =~= Seq::empty());
        assert(d@.denied =~= Seq::empty());
        d
    }

    /// The remembered answer for `domain`, if there is one.
    pub fn decision(&self, domain: &str) -> (r: Option<bool>)
        ensures
            r == decision_of(self@, domain@),
    {
        if contains_string(&self.approved, domain) {
            Some(true)
        } else if contains_string(&self.denied, domain) {
            Some(false)
        } else {
            None
        }
    }

    /// Remembers `answer` for `domain`, unless the domain has an answer
    /// already, and returns the answer that now stands.
    pub fn remember(&mut self, domain: &str, answer: bool) -> (standing: bool)
        ensures
            final(self)@ == remembered(old(self)@, domain@, answer),
            decision_of(final(self)@, domain@) == Some(standing),
            standing == match decision_of(old(self)@, domain@) {
                Some(earlier) => earlier,
                None => answer,
            },
    {
        match self.decision(domain) {
            Some(earlier) => earlier,
            None => {
                if answer {
                    let ghost before = self.approved@;
                    self.approved.push(owned(domain));
                    assert(string_views(self.approved@) =~= string_views(before).push(domain@));
                    assert(string_views(self.approved@).last() == domain@);
                } else {
                    let ghost before = self.denied@;
                    self.denied.push(owned(domain));
                    assert(string_views(self.denied@) =~= string_views(before).push(domain@));
                    assert(string_views(self.denied@).last() == domain@);
                }
                answer
            },
        }
    }
}

/// Once a domain has an answer, remembering anything about any domain
/// leaves that answer as it is: no domain needs to be asked about twice.
pub proof fn decisions_are_kept(
    d: DecisionsView,
    domain: Seq<char>,
    other: Seq<char>,
    answer: bool,
)
    requires
        decision_of(d, domain) is Some,
    ensures
        decision_of(remembered(d, other, answer), domain) == decision_of(d, domain),
{
    let n = remembered(d, other, answer);
    if decision_of(d, other) is None {
        if answer {
            assert(n.approved.drop_last() =~= d.approved);
            if d.approved.contains(domain) {
                let i = choose|i: int| 0 <= i < d.approved.len() && d.approved[i] == domain;
                assert(n.approved[i] == domain);
            } else {
                assert(other != domain);
                assert(!n.approved.contains(domain)) by {
                    if n.approved.contains(domain) {
                        let i = choose|i: int| 0 <= i < n.approved.len() && n.approved[i] == domain;
                        if i < d.approved.len() {
                            assert(d.approved[i] == domain);
                        }
                    }
                }
            }
        } else {
            assert(n.denied.drop_last() =~= d.denied);
            if d.approved.contains(domain) {
            } else {
                let i = choose|i: int| 0 <= i < d.denied.len() && d.denied[i] == domain;
                assert(n.denied[i] == domain);
            }
        }
    }
}

/// After an answer for a domain was remembered, the domain has an answer:
/// the one that stood before, or else the one just given.
pub proof fn answer_is_remembered(d: DecisionsView, domain: Seq<char>, answer: bool)
    ensures
        decision_of(remembered(d, domain, answer), domain) is Some,
        decision_of(d, domain) is None ==> decision_of(remembered(d, domain, answer), domain)
            == Some(answer),
{
    let n = remembered(d, domain, answer);
    if decision_of(d, domain) is None {
        if answer {
            assert(n.approved.last() == domain);
        } else {
            assert(n.denied.last() == domain);
            assert(!n.approved.contains(domain));
        }
    }
}

} // verus!
