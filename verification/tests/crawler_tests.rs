// Link extraction, link admission and the shared state of a crawl, driven
// with canned pages in place of a network.

use rinzler::crawl::{DomainDecisions, FollowMode};
use rinzler::crawler::{
    decide, domain_for, extract_elements, is_host_in_domain, is_same_domain, resolve_url, PageScan,
    Verdict,
};
use rinzler::error::ScanError;
use rinzler::frontier::{CrawlState, CrawlStep, Response};
use std::time::Duration;

fn html() -> Option<String> {
    Some("text/html; charset=utf-8".to_string())
}

fn response(status_code: u16, content_type: Option<String>) -> Response {
    Response {
        status_code,
        content_type,
        content_length: None,
        response_time: Duration::from_millis(5),
    }
}

/// Runs a whole crawl on one thread, the workers taking turns. `serve` maps
/// a URL to the body of its page; `oracle` answers for a domain. Returns the
/// state, the `(worker, url)` pairs of every fetch, and the domains asked.
fn run_crawl(
    seed: &str,
    workers: usize,
    max_depth: usize,
    mode: FollowMode,
    serve: &dyn Fn(&str) -> String,
    oracle: &dyn Fn(&str) -> bool,
) -> (CrawlState, Vec<(usize, String)>, Vec<String>) {
    assert!(workers > 0);
    let mut state = CrawlState::start(seed, workers, max_depth, None, mode).unwrap();
    let mut decisions = DomainDecisions::new();
    let mut fetched = Vec::new();
    let mut asked = Vec::new();
    let mut exited = vec![false; workers];
    let mut rounds = 0;
    while exited.iter().any(|e| !e) {
        rounds += 1;
        assert!(rounds < 10_000, "the crawl does not end");
        for worker in 0..workers {
            if exited[worker] {
                continue;
            }
            match state.next_work(worker) {
                CrawlStep::Fetch { url, depth: _ } => {
                    fetched.push((worker, url.clone()));
                    let body = serve(&url);
                    let mut scan = state.begin_scan(worker, &html(), &body).unwrap();
                    while let Some(domain) = scan.advance(&decisions) {
                        asked.push(domain.clone());
                        scan.answer(&mut decisions, oracle(&domain));
                    }
                    assert!(scan.is_done());
                    assert!(state.complete(worker, response(200, html()), &scan));
                }
                CrawlStep::Skip | CrawlStep::Sleep => {}
                CrawlStep::Exit => exited[worker] = true,
            }
        }
    }
    (state, fetched, asked)
}

fn result_urls(state: &CrawlState) -> Vec<String> {
    let mut urls: Vec<String> = state.get_results().iter().map(|r| r.url.clone()).collect();
    urls.sort();
    urls
}

#[test]
fn test_link_discovery() {
    let serve = |url: &str| {
        if url == "http://site.test" {
            "<html><body><a href=\"/page1\">1</a><a href=\"/page2\">2</a></body></html>".to_string()
        } else {
            "<html><body></body></html>".to_string()
        }
    };
    let (state, _, _) =
        run_crawl("http://site.test", 1, 2, FollowMode::Disabled, &serve, &|_| false);
    assert_eq!(
        result_urls(&state),
        vec![
            "http://site.test".to_string(),
            "http://site.test/page1".to_string(),
            "http://site.test/page2".to_string(),
        ]
    );
    assert_eq!(state.get_visited_count(), 3);
    assert_eq!(state.get_depths(), &vec![0, 1, 1]);
    let seed = &state.get_results()[0];
    assert_eq!(seed.status_code, 200);
    assert_eq!(
        seed.links_found,
        vec!["http://site.test/page1".to_string(), "http://site.test/page2".to_string()]
    );
    assert!(seed.error.is_none());
}

#[test]
fn test_multiple_workers_are_used() {
    let serve = |url: &str| {
        if url == "http://site.test/" {
            let mut body = String::from("<html><body>");
            for i in 1..=10 {
                body.push_str(&format!("<a href=\"http://site.test/page{}\">p</a>", i));
            }
            body.push_str("</body></html>");
            body
        } else {
            "<html><body>Page</body></html>".to_string()
        }
    };
    let (state, fetched, _) =
        run_crawl("http://site.test/", 4, 2, FollowMode::Disabled, &serve, &|_| false);
    assert_eq!(state.get_results().len(), 11);
    let mut workers: Vec<usize> = fetched.iter().map(|(w, _)| *w).collect();
    workers.sort();
    workers.dedup();
    assert!(workers.len() > 1, "only {:?} fetched anything", workers);
}

#[test]
fn test_work_distribution_round_robin() {
    let serve = |url: &str| {
        if url == "http://site.test/" {
            let mut body = String::new();
            for i in 1..=12 {
                body.push_str(&format!("<a href=\"/page{}\">p</a>", i));
            }
            body
        } else {
            String::new()
        }
    };
    let (_, fetched, _) =
        run_crawl("http://site.test/", 3, 2, FollowMode::Disabled, &serve, &|_| false);
    for worker in 0..3 {
        let pages: Vec<&String> =
            fetched.iter().filter(|(w, u)| *w == worker && u.contains("/page")).map(|(_, u)| u).collect();
        assert_eq!(pages.len(), 4, "worker {} fetched {:?}", worker, pages);
    }
    // The first new link goes to worker 0, the next to worker 1, and so on.
    assert!(fetched.contains(&(0, "http://site.test/page1".to_string())));
    assert!(fetched.contains(&(1, "http://site.test/page2".to_string())));
    assert!(fetched.contains(&(2, "http://site.test/page3".to_string())));
    assert!(fetched.contains(&(0, "http://site.test/page4".to_string())));
}

#[test]
fn test_cross_domain_disabled() {
    let serve = |url: &str| {
        if url == "http://a.test/" {
            "<a href=\"http://b.test/x\">out</a><a href=\"http://sub.a.test/y\">in</a>".to_string()
        } else {
            String::new()
        }
    };
    let (state, _, asked) =
        run_crawl("http://a.test/", 2, 3, FollowMode::Disabled, &serve, &|_| true);
    assert!(asked.is_empty());
    assert_eq!(
        result_urls(&state),
        vec!["http://a.test/".to_string(), "http://sub.a.test/y".to_string()]
    );
    for result in state.get_results() {
        assert!(is_same_domain(&result.url, "a.test"));
        assert!(!result.url.contains("b.test"));
    }
}

#[test]
fn test_cross_domain_auto() {
    let serve = |url: &str| {
        if url == "http://a.test/" {
            "<a href=\"http://b.test/x\">out</a>".to_string()
        } else {
            String::new()
        }
    };
    let (state, _, asked) = run_crawl("http://a.test/", 1, 3, FollowMode::Auto, &serve, &|_| false);
    assert!(asked.is_empty());
    assert_eq!(
        result_urls(&state),
        vec!["http://a.test/".to_string(), "http://b.test/x".to_string()]
    );
}

#[test]
fn test_prompt_memoization() {
    let serve = |url: &str| {
        if url == "http://a.test/" {
            "<a href=\"http://b.test/x\">1</a><a href=\"http://b.test/y\">2</a>\
             <a href=\"http://c.test/z\">3</a><a href=\"http://c.test/w\">4</a>"
                .to_string()
        } else if url == "http://b.test/x" {
            "<a href=\"http://b.test/more\">5</a><a href=\"http://c.test/again\">6</a>".to_string()
        } else {
            String::new()
        }
    };
    let oracle = |domain: &str| domain == "b.test";
    let (state, _, asked) = run_crawl("http://a.test/", 2, 5, FollowMode::Prompt, &serve, &oracle);
    assert_eq!(asked, vec!["b.test".to_string(), "c.test".to_string()]);
    assert_eq!(
        result_urls(&state),
        vec![
            "http://a.test/".to_string(),
            "http://b.test/more".to_string(),
            "http://b.test/x".to_string(),
            "http://b.test/y".to_string(),
        ]
    );
}

#[test]
fn test_results_are_unique_and_visited() {
    // Every page links to every other page and to itself.
    let serve = |_: &str| {
        "<a href=\"/\">home</a><a href=\"/a\">a</a><a href=\"/b\">b</a><a href=\"/a#top\">a</a>"
            .to_string()
    };
    let (state, fetched, _) =
        run_crawl("http://site.test/", 3, 10, FollowMode::Disabled, &serve, &|_| false);
    let urls = result_urls(&state);
    assert_eq!(
        urls,
        vec![
            "http://site.test/".to_string(),
            "http://site.test/a".to_string(),
            "http://site.test/b".to_string(),
        ]
    );
    assert_eq!(fetched.len(), 3);
    assert_eq!(state.get_visited_count(), 3);
}

#[test]
fn test_depth_limit() {
    // /0 links to /1, /1 to /2, and so on without end.
    let serve = |url: &str| {
        let n: usize = url.rsplit('/').next().unwrap().parse().unwrap_or(0);
        format!("<a href=\"/{}\">next</a>", n + 1)
    };
    let (state, _, _) = run_crawl("http://site.test/0", 2, 3, FollowMode::Disabled, &serve, &|_| false);
    assert_eq!(
        result_urls(&state),
        vec![
            "http://site.test/0".to_string(),
            "http://site.test/1".to_string(),
            "http://site.test/2".to_string(),
        ]
    );
    for depth in state.get_depths() {
        assert!(*depth < 3);
    }
    // The page at the limit was seen and queued, and then dropped.
    assert_eq!(state.get_visited_count(), 4);
}

#[test]
fn test_depth_zero_fetches_nothing() {
    let (state, fetched, _) =
        run_crawl("http://site.test/", 1, 0, FollowMode::Disabled, &|_| String::new(), &|_| false);
    assert!(fetched.is_empty());
    assert!(state.get_results().is_empty());
}

#[test]
fn test_invalid_seed() {
    match CrawlState::start("not a url", 2, 3, None, FollowMode::Disabled) {
        Err(ScanError::InvalidUrl(msg)) => {
            assert_eq!(msg, "Invalid URL: relative URL without a base");
        }
        _ => panic!("an invalid seed must be refused"),
    }
}

#[test]
fn test_seed_without_path() {
    let state = CrawlState::start("http://host", 1, 3, None, FollowMode::Disabled).unwrap();
    assert_eq!(state.base_domain(), "host");
    assert_eq!(state.worker_count(), 1);
    assert_eq!(state.get_visited_count(), 1);
    assert_eq!(rinzler::crawl::extract_url_path("http://host"), "/");
}

#[test]
fn test_base_domain_override() {
    let state = CrawlState::start(
        "http://www.site.test/",
        1,
        3,
        Some("site.test".to_string()),
        FollowMode::Disabled,
    )
    .unwrap();
    assert_eq!(state.base_domain(), "site.test");
}

#[test]
fn test_worker_exits_after_ten_empty_looks() {
    let mut state = CrawlState::start("http://site.test/", 2, 3, None, FollowMode::Disabled).unwrap();
    // Worker 1 has nothing, but worker 0's queue holds the seed: it waits.
    assert!(!state.all_queues_empty());
    for _ in 0..20 {
        assert!(matches!(state.next_work(1), CrawlStep::Sleep));
    }
    assert!(matches!(state.next_work(0), CrawlStep::Fetch { .. }));
    assert!(state.all_queues_empty());
    // Now every queue is empty: nine more looks, and the tenth ends it.
    for _ in 0..9 {
        assert!(matches!(state.next_work(1), CrawlStep::Sleep));
    }
    assert!(matches!(state.next_work(1), CrawlStep::Exit));
    assert!(matches!(state.next_work(1), CrawlStep::Exit));
}

#[test]
fn test_complete_without_work_changes_nothing() {
    let mut state = CrawlState::start("http://site.test/", 1, 3, None, FollowMode::Disabled).unwrap();
    assert!(state.begin_scan(0, &html(), "").is_none());
    let scan = PageScan::new("http://site.test/", "site.test", FollowMode::Disabled, &html(), "");
    assert!(!state.complete(0, response(200, html()), &scan));
    assert!(state.get_results().is_empty());
}

#[test]
fn test_complete_refuses_a_foreign_scan() {
    let mut state = CrawlState::start("http://site.test/", 1, 3, None, FollowMode::Disabled).unwrap();
    assert!(matches!(state.next_work(0), CrawlStep::Fetch { .. }));
    let other_url = PageScan::new("http://site.test/x", "site.test", FollowMode::Disabled, &html(), "");
    assert!(!state.complete(0, response(200, html()), &other_url));
    let other_mode = PageScan::new("http://site.test/", "site.test", FollowMode::Auto, &html(), "");
    assert!(!state.complete(0, response(200, html()), &other_mode));
    let right = state.begin_scan(0, &html(), "").unwrap();
    assert!(state.complete(0, response(204, None), &right));
    assert_eq!(state.get_results().len(), 1);
    assert_eq!(state.get_results()[0].status_code, 204);
}

#[test]
fn test_extract_elements_counts() {
    let body = "<html><head><script src=\"a.js\"></script><script>inline()</script>\
                <script src=\"b.js\"></script></head><body><form></form>\
                <a href=\"/one\">1</a><a name=\"anchor\">no href</a><a href=\"two\">2</a>\
                </body></html>";
    let (links, forms, scripts) = extract_elements(body, "http://site.test/dir/page");
    assert_eq!(
        links,
        vec!["http://site.test/one".to_string(), "http://site.test/dir/two".to_string()]
    );
    assert_eq!(forms, 1);
    assert_eq!(scripts, 2);
}

#[test]
fn test_extract_elements_of_nothing() {
    let (links, forms, scripts) = extract_elements("", "http://site.test/");
    assert!(links.is_empty());
    assert_eq!(forms, 0);
    assert_eq!(scripts, 0);
}

#[test]
fn test_page_scan_ignores_other_content() {
    let body = "<a href=\"/one\">1</a><form></form>";
    let scan = PageScan::new(
        "http://site.test/",
        "site.test",
        FollowMode::Auto,
        &Some("application/json".to_string()),
        body,
    );
    assert!(scan.is_done());
    assert!(scan.links().is_empty());
    assert_eq!(scan.forms(), 0);
    let scan = PageScan::new("http://site.test/", "site.test", FollowMode::Auto, &None, body);
    assert!(scan.is_done());
}

#[test]
fn test_resolve_url() {
    let base = "http://site.test/dir/page?x=1";
    assert_eq!(resolve_url(base, "/abs"), Some("http://site.test/abs".to_string()));
    assert_eq!(resolve_url(base, "rel"), Some("http://site.test/dir/rel".to_string()));
    assert_eq!(resolve_url(base, "rel#frag"), Some("http://site.test/dir/rel".to_string()));
    assert_eq!(resolve_url(base, "?q=2"), Some("http://site.test/dir/page?q=2".to_string()));
    assert_eq!(resolve_url(base, "https://other.test/"), Some("https://other.test/".to_string()));
    assert_eq!(resolve_url(base, ""), None);
    assert_eq!(resolve_url(base, "#top"), None);
    assert_eq!(resolve_url(base, "javascript:void(0)"), None);
    assert_eq!(resolve_url(base, "mailto:someone@site.test"), None);
    assert_eq!(resolve_url(base, "tel:+1234"), None);
    assert_eq!(resolve_url("not a url", "/abs"), None);
}

#[test]
fn test_same_domain() {
    assert!(is_same_domain("http://site.test/x", "site.test"));
    assert!(is_same_domain("https://api.site.test/x", "site.test"));
    assert!(!is_same_domain("http://notsite.test/x", "site.test"));
    assert!(!is_same_domain("http://site.test.evil/x", "site.test"));
    assert!(!is_same_domain("not a url", "site.test"));
    assert!(!is_same_domain("mailto:someone@site.test", "site.test"));
    assert!(is_host_in_domain("a.b", "a.b"));
    assert!(is_host_in_domain("x.a.b", "a.b"));
    assert!(!is_host_in_domain("xa.b", "a.b"));
    assert!(!is_host_in_domain("b", "a.b"));
    assert_eq!(domain_for("http://site.test:8080/x"), "site.test");
    assert_eq!(domain_for("data:text/plain,hi"), "unknown");
    assert_eq!(domain_for("nothing"), "unknown");
}

#[test]
fn test_decide() {
    let mut decisions = DomainDecisions::new();
    let inside = "http://site.test/a";
    let outside = "http://other.test/a";
    for mode in [FollowMode::Disabled, FollowMode::Prompt, FollowMode::Auto] {
        assert_eq!(decide(mode, &decisions, "site.test", inside), Verdict::Admit);
    }
    assert_eq!(decide(FollowMode::Disabled, &decisions, "site.test", outside), Verdict::Reject);
    assert_eq!(decide(FollowMode::Auto, &decisions, "site.test", outside), Verdict::Admit);
    assert_eq!(decide(FollowMode::Prompt, &decisions, "site.test", outside), Verdict::Ask);
    decisions.remember("other.test", false);
    assert_eq!(decide(FollowMode::Prompt, &decisions, "site.test", outside), Verdict::Reject);
    assert_eq!(decide(FollowMode::Auto, &decisions, "site.test", outside), Verdict::Admit);
}

#[test]
fn test_domain_decisions_are_kept() {
    let mut decisions = DomainDecisions::new();
    assert_eq!(decisions.decision("b.test"), None);
    assert!(decisions.remember("b.test", true));
    assert_eq!(decisions.decision("b.test"), Some(true));
    // A later answer does not replace the first.
    assert!(decisions.remember("b.test", false));
    assert_eq!(decisions.decision("b.test"), Some(true));
    assert!(!decisions.remember("c.test", false));
    assert!(!decisions.remember("c.test", true));
    assert_eq!(decisions.decision("c.test"), Some(false));
    assert_eq!(decisions.decision("b.test"), Some(true));
    assert_eq!(decisions.decision("d.test"), None);
}

#[test]
fn test_answer_without_question_changes_nothing() {
    let mut decisions = DomainDecisions::new();
    let body = "<a href=\"http://other.test/\">out</a>";
    let mut scan = PageScan::new("http://site.test/", "site.test", FollowMode::Disabled, &html(), body);
    scan.answer(&mut decisions, true);
    assert!(!scan.is_done());
    assert!(scan.links().is_empty());
    assert_eq!(decisions.decision("other.test"), None);
    assert_eq!(scan.advance(&decisions), None);
    assert!(scan.is_done());
    assert!(scan.links().is_empty());
    scan.answer(&mut decisions, true);
    assert!(scan.links().is_empty());
}

#[test]
fn test_scan_error_message() {
    assert_eq!(ScanError::InvalidUrl("x".to_string()).message(), "Invalid URL: x");
    assert_eq!(ScanError::HttpError("x".to_string()).message(), "HTTP request failed: x");
    assert_eq!(ScanError::ParseError("x".to_string()).message(), "Parse error: x");
    assert_eq!(ScanError::IoError("x".to_string()).message(), "IO error: x");
    assert_eq!(ScanError::JoinError("x".to_string()).message(), "Task join error: x");
    assert_eq!(ScanError::Other("".to_string()).message(), "Other error: ");
}
