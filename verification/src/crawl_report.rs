//! The report of a crawl as text: totals, then the pages found on each
//! host.

use vstd::prelude::*;
use vstd::string::StringExecFns;
use crate::crawl::{extract_url_path, shown_path};
use crate::result::CrawlResult;
use crate::text::{decimal, owned, push_decimal, str_eq};
use crate::urls::{ParsedUrl, host_of, parse_outcome};

verus! {

/// The rule that frames the summary.
pub open spec fn summary_rule() -> Seq<char> {
    "━━━━━━━━━━━━━━━━━━━━━━━━━━━━━━━━━━━━━━━━━━━━━━━━━━━━"@
}

/// A result is reported unless its status is 404.
pub open spec fn is_reported(r: CrawlResult) -> bool {
    r.status_code != 404
}

/// The number of reported results among the first `n`.
pub open spec fn pages_crawled(results: Seq<CrawlResult>, n: int) -> nat
    decreases n,
{
    if n <= 0 {
        0
    } else if is_reported(results[n - 1]) {
        pages_crawled(results, n - 1) + 1
    } else {
        pages_crawled(results, n - 1)
    }
}

/// The links found by the reported results among the first `n`, in all.
pub open spec fn total_links(results: Seq<CrawlResult>, n: int) -> nat
    decreases n,
{
    if n <= 0 {
        0
    } else if is_reported(results[n - 1]) {
        total_links(results, n - 1) + results[n - 1].links_found@.len()
    } else {
        total_links(results, n - 1)
    }
}

/// The forms found by the reported results among the first `n`, in all.
pub open spec fn total_forms(results: Seq<CrawlResult>, n: int) -> nat
    decreases n,
{
    if n <= 0 {
        0
    } else if is_reported(results[n - 1]) {
        total_forms(results, n - 1) + results[n - 1].forms_found as nat
    } else {
        total_forms(results, n - 1)
    }
}

/// The scripts found by the reported results among the first `n`, in all.
pub open spec fn total_scripts(results: Seq<CrawlResult>, n: int) -> nat
    decreases n,
{
    if n <= 0 {
        0
    } else if is_reported(results[n - 1]) {
        total_scripts(results, n - 1) + results[n - 1].scripts_found as nat
    } else {
        total_scripts(results, n - 1)
    }
}

/// The host under which a result is listed: the host of its URL, for a
/// reported result whose URL has one.
pub open spec fn listed_host(r: CrawlResult) -> Option<Seq<char>> {
    if is_reported(r) {
        host_of(r.url@)
    } else {
        None
    }
}

/// One of the first `n` results is listed under `host`.
pub open spec fn host_seen(results: Seq<CrawlResult>, n: int, host: Seq<char>) -> bool
    decreases n,
{
    if n <= 0 {
        false
    } else {
        listed_host(results[n - 1]) == Some(host) || host_seen(results, n - 1, host)
    }
}

/// The number of results among the first `n` that are listed under `host`.
pub open spec fn pages_on_host(results: Seq<CrawlResult>, n: int, host: Seq<char>) -> nat
    decreases n,
{
    if n <= 0 {
        0
    } else if listed_host(results[n - 1]) == Some(host) {
        pages_on_host(results, n - 1, host) + 1
    } else {
        pages_on_host(results, n - 1, host)
    }
}

/// The status of a page in its colour: white for 1xx, green for 2xx, cyan
/// for 3xx, yellow for 4xx, red for 5xx.
pub open spec fn coloured_status(code: u16) -> Seq<char> {
    if 100 <= code <= 199 {
        "\x1b[37m"@ + decimal(code as nat) + "\x1b[0m"@
    } else if 200 <= code <= 299 {
        "\x1b[32m"@ + decimal(code as nat) + "\x1b[0m"@
    } else if 300 <= code <= 399 {
        "\x1b[36m"@ + decimal(code as nat) + "\x1b[0m"@
    } else if 400 <= code <= 499 {
        "\x1b[33m"@ + decimal(code as nat) + "\x1b[0m"@
    } else if 500 <= code <= 599 {
        "\x1b[31m"@ + decimal(code as nat) + "\x1b[0m"@
    } else {
        decimal(code as nat)
    }
}

/// The line of one page: its status, its path, and its content type unless
/// that is plain `text/html`.
pub open spec fn page_line(r: CrawlResult) -> Seq<char> {
    "  "@ + coloured_status(r.status_code) + " "@ + shown_path(parse_outcome(r.url@), r.url@) + (
    match r.content_type {
        Some(ct) => if ct@ == "text/html"@ {
            Seq::empty()
        } else {
            " \x1b[90m"@ + ct@ + "\x1b[0m"@
        },
        None => Seq::empty(),
    }) + "\n"@
}

/// The lines of the results among the first `n` that are listed under
/// `host`, in order.
pub open spec fn lines_on_host(results: Seq<CrawlResult>, n: int, host: Seq<char>) -> Seq<char>
    decreases n,
{
    if n <= 0 {
        Seq::empty()
    } else if listed_host(results[n - 1]) == Some(host) {
        lines_on_host(results, n - 1, host) + page_line(results[n - 1])
    } else {
        lines_on_host(results, n - 1, host)
    }
}

/// The section of a host: its name, the number of its pages, and their
/// lines.
pub open spec fn host_section(results: Seq<CrawlResult>, host: Seq<char>) -> Seq<char> {
    "## "@ + host + "\n"@ + "  "@ + decimal(
        pages_on_host(results, results.len() as int, host),
    ) + " pages found\n\n"@ + lines_on_host(results, results.len() as int, host) + "\n"@
}

/// The sections of the hosts that appear among the first `n` results, each
/// host where it appears first.
pub open spec fn host_sections(results: Seq<CrawlResult>, n: int) -> Seq<char>
    decreases n,
{
    if n <= 0 {
        Seq::empty()
    } else {
        host_sections(results, n - 1) + (match listed_host(results[n - 1]) {
            Some(host) => if host_seen(results, n - 1, host) {
                Seq::empty()
            } else {
                host_section(results, host)
            },
            None => Seq::empty(),
        })
    }
}

/// The summary of a crawl.
pub open spec fn crawl_summary(results: Seq<CrawlResult>) -> Seq<char> {
    let n = results.len() as int;
    summary_rule() + "\n\n"@ + "# Summary:\n"@ + "  Pages crawled: "@ + decimal(
        pages_crawled(results, n),
    ) + "\n"@ + "  Total links found: "@ + decimal(total_links(results, n)) + "\n"@
        + "  Total forms found: "@ + decimal(total_forms(results, n)) + "\n"@
        + "  Total scripts found: "@ + decimal(total_scripts(results, n)) + "\n"@ + "\n"@
        + summary_rule() + "\n\n"@
}

/// The report of a crawl. Results with the status 404 are left out. The
/// hosts stand in the order in which they first appear.
pub open spec fn crawl_report(results: Seq<CrawlResult>) -> Seq<char> {
    crawl_summary(results) + host_sections(results, results.len() as int)
}

fn push_summary(out: &mut String, results: &[CrawlResult])
    ensures
        final(out)@ == old(out)@ + crawl_summary(results@),
{
    let mut pages: u128 = 0;
    let mut links: u128 = 0;
    let mut forms: u128 = 0;
    let mut scripts: u128 = 0;
    let mut i: usize = 0;
    while i < results.len()
        invariant
            i <= results.len(),
            pages == pages_crawled(results@, i as int),
            links == total_links(results@, i as int),
            forms == total_forms(results@, i as int),
            scripts == total_scripts(results@, i as int),
            pages <= i,
            links <= i * usize::MAX,
            forms <= i * usize::MAX,
            scripts <= i * usize::MAX,
        decreases results.len() - i,
    {
        assert((i + 1) * usize::MAX == i * usize::MAX + usize::MAX) by (nonlinear_arith);
        assert(i * usize::MAX <= usize::MAX * usize::MAX) by (nonlinear_arith)
            requires
                i <= usize::MAX,
        ;
        if results[i].status_code != 404 {
            pages += 1;
            links += results[i].links_found.len() as u128;
            forms += results[i].forms_found as u128;
            scripts += results[i].scripts_found as u128;
        }
        i += 1;
    }
    let mut block = owned("━━━━━━━━━━━━━━━━━━━━━━━━━━━━━━━━━━━━━━━━━━━━━━━━━━━━");
    block.append("\n\n");
    block.append("# Summary:\n");
    block.append("  Pages crawled: ");
    push_decimal(&mut block, pages);
    block.append("\n");
    block.append("  Total links found: ");
    push_decimal(&mut block, links);
    block.append("\n");
    block.append("  Total forms found: ");
    push_decimal(&mut block, forms);
    block.append("\n");
    block.append("  Total scripts found: ");
    push_decimal(&mut block, scripts);
    block.append("\n");
    block.append("\n");
    block.append("━━━━━━━━━━━━━━━━━━━━━━━━━━━━━━━━━━━━━━━━━━━━━━━━━━━━");
    block.append("\n\n");
    assert(block@ =~= crawl_summary(results@));
    out.append(block.as_str());
}

fn status_in_colour(code: u16) -> (text: String)
    ensures
        text@ == coloured_status(code),
{
    let mut text = if code >= 100 && code <= 199 {
        owned("\x1b[37m")
    } else if code >= 200 && code <= 299 {
        owned("\x1b[32m")
    } else if code >= 300 && code <= 399 {
        owned("\x1b[36m")
    } else if code >= 400 && code <= 499 {
        owned("\x1b[33m")
    } else if code >= 500 && code <= 599 {
        owned("\x1b[31m")
    } else {
        String::new()
    };
    let ghost before = text@;
    push_decimal(&mut text, code as u128);
    if code >= 100 && code <= 599 {
        text.append("\x1b[0m");
    } else {
        assert(before =~= Seq::<char>::empty());
        assert(text@ =~= decimal(code as nat));
    }
    text
}

fn push_page_line(out: &mut String, r: &CrawlResult)
    ensures
        final(out)@ == old(out)@ + page_line(*r),
{
    let mut line = owned("  ");
    let status = status_in_colour(r.status_code);
    line.append(status.as_str());
    line.append(" ");
    let path = extract_url_path(r.url.as_str());
    line.append(path.as_str());
    let ghost before = line@;
    match &r.content_type {
        Some(ct) => {
            if !str_eq(ct.as_str(), "text/html") {
                line.append(" \x1b[90m");
                line.append(ct.as_str());
                line.append("\x1b[0m");
                assert(line@ =~= before + (" \x1b[90m"@ + ct@ + "\x1b[0m"@));
            } else {
                assert(line@ =~= before + Seq::<char>::empty());
            }
        },
        None => {
            assert(line@ =~= before + Seq::<char>::empty());
        },
    }
    line.append("\n");
    out.append(line.as_str());
}

/// The host under which each result is listed.
fn listed_hosts(results: &[CrawlResult]) -> (hosts: Vec<Option<String>>)
    ensures
        hosts@.len() == results@.len(),
        forall|i: int|
            0 <= i < results@.len() ==> crate::data::opt_chars(#[trigger] hosts@[i])
                == listed_host(results@[i]),
{
    let mut hosts: Vec<Option<String>> = Vec::new();
    let mut i: usize = 0;
    while i < results.len()
        invariant
            i <= results.len(),
            hosts@.len() == i,
            forall|k: int|
                0 <= k < i ==> crate::data::opt_chars(#[trigger] hosts@[k]) == listed_host(
                    results@[k],
                ),
        decreases results.len() - i,
    {
        let host = if results[i].status_code != 404 {
            match ParsedUrl::parse(results[i].url.as_str()) {
                Ok(parts) => parts.host,
                Err(_) => None,
            }
        } else {
            None
        };
        hosts.push(host);
        i += 1;
    }
    hosts
}

fn is_listed_under(host: &Option<String>, name: &str) -> (b: bool)
    ensures
        b == (crate::data::opt_chars(*host) == Some(name@)),
{
    match host {
        Some(h) => str_eq(h.as_str(), name),
        None => false,
    }
}

fn push_host_section(
    out: &mut String,
    results: &[CrawlResult],
    hosts: &Vec<Option<String>>,
    host: &str,
)
    requires
        hosts@.len() == results@.len(),
        forall|i: int|
            0 <= i < results@.len() ==> crate::data::opt_chars(#[trigger] hosts@[i])
                == listed_host(results@[i]),
    ensures
        final(out)@ == old(out)@ + host_section(results@, host@),
{
    let mut lines = String::new();
    let mut pages: usize = 0;
    let mut i: usize = 0;
    while i < results.len()
        invariant
            i <= results.len(),
            hosts@.len() == results@.len(),
            forall|k: int|
                0 <= k < results@.len() ==> crate::data::opt_chars(#[trigger] hosts@[k])
                    == listed_host(results@[k]),
            pages == pages_on_host(results@, i as int, host@),
            pages <= i,
            lines@ == lines_on_host(results@, i as int, host@),
        decreases results.len() - i,
    {
        if is_listed_under(&hosts[i], host) {
            pages += 1;
            push_page_line(&mut lines, &results[i]);
        }
        i += 1;
    }
    let mut section = owned("## ");
    section.append(host);
    section.append("\n");
    section.append("  ");
    push_decimal(&mut section, pages as u128);
    section.append(" pages found\n\n");
    section.append(lines.as_str());
    section.append("\n");
    assert(section@ =~= host_section(results@, host@));
    out.append(section.as_str());
}

fn seen_before(hosts: &Vec<Option<String>>, results: &[CrawlResult], n: usize, host: &str) -> (b:
    bool)
    requires
        n <= results@.len(),
        hosts@.len() == results@.len(),
        forall|i: int|
            0 <= i < results@.len() ==> crate::data::opt_chars(#[trigger] hosts@[i])
                == listed_host(results@[i]),
    ensures
        b == host_seen(results@, n as int, host@),
{
    let mut i: usize = 0;
    while i < n
        invariant
            i <= n <= results@.len(),
            hosts@.len() == results@.len(),
            forall|k: int|
                0 <= k < results@.len() ==> crate::data::opt_chars(#[trigger] hosts@[k])
                    == listed_host(results@[k]),
            !host_seen(results@, i as int, host@),
        decreases n - i,
    {
        if is_listed_under(&hosts[i], host) {
            proof {
                lemma_host_seen_later(results@, i as int + 1, n as int, host@);
            }
            return true;
        }
        i += 1;
    }
    false
}

proof fn lemma_host_seen_later(results: Seq<CrawlResult>, m: int, n: int, host: Seq<char>)
    requires
        0 <= m <= n,
        host_seen(results, m, host),
    ensures
        host_seen(results, n, host),
    decreases n - m,
{
    if m < n {
        lemma_host_seen_later(results, m, n - 1, host);
    }
}

/// Writes the report of a crawl: the totals, then for each host the pages
/// found on it. Results with the status 404 are left out.
pub fn generate_crawl_report(results: &[CrawlResult]) -> (report: String)
    ensures
        report@ == crawl_report(results@),
{
    let mut report = String::new();
    push_summary(&mut report, results);
    let hosts = listed_hosts(results);
    let ghost head = report@;
    let mut i: usize = 0;
    assert(head + host_sections(results@, 0) =~= head);
    while i < results.len()
        invariant
            i <= results.len(),
            hosts@.len() == results@.len(),
            forall|k: int|
                0 <= k < results@.len() ==> crate::data::opt_chars(#[trigger] hosts@[k])
                    == listed_host(results@[k]),
            report@ == head + host_sections(results@, i as int),
        decreases results.len() - i,
    {
        let ghost before = report@;
        match &hosts[i] {
            Some(host) => {
                if !seen_before(&hosts, results, i, host.as_str()) {
                    push_host_section(&mut report, results, &hosts, host.as_str());
                } else {
                    assert(report@ =~= before + Seq::<char>::empty());
                }
            },
            None => {
                assert(report@ =~= before + Seq::<char>::empty());
            },
        }
        assert(report@ =~= head + host_sections(results@, i + 1));
        i += 1;
    }
    assert(head =~= crawl_summary(results@));
    report
}

} // verus!
