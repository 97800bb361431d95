//! The state that the workers of one crawl share: the queue of each worker,
//! the set of URLs seen, and the results. Workers take their turns on it one
//! at a time; fetching happens elsewhere.

use vstd::prelude::*;
use vstd::string::StringExecFns;
use std::collections::VecDeque;
use crate::crawl::FollowMode;
use crate::crawler::{PageScan, ScanModel, domain_of, links_admissible, same_domain};
use crate::error::ScanError;
use crate::result::{CrawlResult, CrawlResultView, crawl_result_views};
use crate::text::{contains_string, owned, str_eq, string_views};
use crate::urls::{ParsedUrl, is_url, parse_outcome};

verus! {

/// After this many looks in a row at queues that are all empty, a worker
/// gives up.
pub const MAX_EMPTY_ITERATIONS: usize = 10;

/// The state of a crawl, as a mathematical value.
pub struct CrawlModel {
    /// The domain of the crawl.
    pub base_domain: Seq<char>,
    pub mode: FollowMode,
    /// URLs at this depth or deeper are not fetched.
    pub max_depth: usize,
    /// One queue of URLs with their depths for each worker.
    pub queues: Seq<Seq<(Seq<char>, usize)>>,
    /// What each worker is fetching.
    pub in_flight: Seq<Option<(Seq<char>, usize)>>,
    /// How often in a row each worker has found every queue empty.
    pub idle: Seq<usize>,
    /// Every URL that was ever queued.
    pub visited: Seq<Seq<char>>,
    /// The results, in the order of their arrival.
    pub results: Seq<CrawlResultView>,
    /// The depth of each result.
    pub depths: Seq<usize>,
}

/// What a worker is told to do next.
pub enum StepView {
    /// Fetch this URL, found at this depth.
    Fetch(Seq<char>, usize),
    /// A URL beyond the depth limit was dropped: ask again.
    Skip,
    /// Nothing to do right now: wait a little and ask again.
    Sleep,
    /// The crawl is over for this worker.
    Exit,
}

/// Every queue is empty.
pub open spec fn queues_empty(queues: Seq<Seq<(Seq<char>, usize)>>) -> bool {
    forall|w: int| 0 <= w < queues.len() ==> (#[trigger] queues[w]).len() == 0
}

/// The state in which the crawl of `seed` starts: the seed is seen, and
/// waits at depth 0 in the queue of worker 0.
pub open spec fn initial_crawl(
    seed: Seq<char>,
    workers: int,
    max_depth: usize,
    base_domain: Seq<char>,
    mode: FollowMode,
) -> CrawlModel {
    CrawlModel {
        base_domain,
        mode,
        max_depth,
        queues: Seq::new(
            workers as nat,
            |w: int|
                if w == 0 {
                    seq![(seed, 0usize)]
                } else {
                    Seq::empty()
                },
        ),
        in_flight: Seq::new(workers as nat, |w: int| None),
        idle: Seq::new(workers as nat, |w: int| 0usize),
        visited: seq![seed],
        results: Seq::empty(),
        depths: Seq::empty(),
    }
}

/// What the worker `w` gets when it asks for work, and the state
/// afterwards. The front of its own queue is taken; it is fetched unless it
/// lies at the depth limit or beyond. With its own queue empty the worker
/// waits, and gives up once it has found every queue empty
/// `MAX_EMPTY_ITERATIONS` times in a row.
pub open spec fn next_step(m: CrawlModel, w: int) -> (CrawlModel, StepView) {
    if m.queues[w].len() > 0 {
        let item = m.queues[w][0];
        let rest = m.queues.update(w, m.queues[w].drop_first());
        if item.1 >= m.max_depth {
            (
                CrawlModel {
                    queues: rest,
                    in_flight: m.in_flight.update(w, None),
                    idle: m.idle.update(w, 0),
                    ..m
                },
                StepView::Skip,
            )
        } else {
            (
                CrawlModel {
                    queues: rest,
                    in_flight: m.in_flight.update(w, Some(item)),
                    idle: m.idle.update(w, 0),
                    ..m
                },
                StepView::Fetch(item.0, item.1),
            )
        }
    } else if queues_empty(m.queues) {
        let n: usize = if m.idle[w] < MAX_EMPTY_ITERATIONS {
            (m.idle[w] + 1) as usize
        } else {
            MAX_EMPTY_ITERATIONS
        };
        (
            CrawlModel { in_flight: m.in_flight.update(w, None), idle: m.idle.update(w, n), ..m },
            if n >= MAX_EMPTY_ITERATIONS {
                StepView::Exit
            } else {
                StepView::Sleep
            },
        )
    } else {
        (
            CrawlModel { in_flight: m.in_flight.update(w, None), idle: m.idle.update(w, 0), ..m },
            StepView::Sleep,
        )
    }
}

/// The state with the new URL `link` seen and queued for `target`.
pub open spec fn with_link(m: CrawlModel, link: Seq<char>, depth: usize, target: int) -> CrawlModel {
    CrawlModel {
        visited: m.visited.push(link),
        queues: m.queues.update(target, m.queues[target].push((link, depth))),
        ..m
    }
}

/// The state after the links `links` were offered: each one that was not
/// seen before is seen now and queued at `depth`, the first for worker
/// `target`, the next for the worker after it, and so on in turn.
pub open spec fn enqueued(m: CrawlModel, links: Seq<Seq<char>>, depth: usize, target: int) -> CrawlModel
    decreases links.len(),
{
    if links.len() == 0 {
        m
    } else if m.visited.contains(links[0]) {
        enqueued(m, links.drop_first(), depth, target)
    } else {
        enqueued(
            with_link(m, links[0], depth, target),
            links.drop_first(),
            depth,
            (target + 1) % (m.queues.len() as int),
        )
    }
}

/// What a fetch yields besides the page's links.
pub struct Response {
    pub status_code: u16,
    pub content_type: Option<String>,
    pub content_length: Option<u64>,
    pub response_time: core::time::Duration,
}

/// The result for the URL `url` from a response and the scan of its page.
pub open spec fn fetched_result(url: Seq<char>, response: Response, scan: ScanModel) -> CrawlResultView {
    CrawlResultView {
        url,
        status_code: response.status_code,
        content_type: crate::data::opt_chars(response.content_type),
        content_length: response.content_length,
        response_time: response.response_time,
        links_found: scan.links,
        forms_found: scan.forms as usize,
        scripts_found: scan.scripts as usize,
        error: None,
    }
}

/// The scan belongs to what the worker `w` is fetching.
pub open spec fn scan_matches(m: CrawlModel, w: int, scan: ScanModel) -> bool {
    m.in_flight[w] is Some && scan.url == m.in_flight[w]->Some_0.0 && scan.base_domain
        == m.base_domain && scan.mode == m.mode
}

/// The state after the worker `w` has delivered the response to what it
/// was fetching: the result is recorded with its depth, and the admitted
/// links are offered one level deeper, starting with worker 0. A delivery
/// that does not belong to what the worker is fetching changes nothing.
pub open spec fn completed(m: CrawlModel, w: int, response: Response, scan: ScanModel) -> CrawlModel {
    if scan_matches(m, w, scan) {
        let url = m.in_flight[w]->Some_0.0;
        let depth = m.in_flight[w]->Some_0.1;
        enqueued(
            CrawlModel {
                in_flight: m.in_flight.update(w, None),
                results: m.results.push(fetched_result(url, response, scan)),
                depths: m.depths.push(depth),
                ..m
            },
            scan.links,
            (depth + 1) as usize,
            0,
        )
    } else {
        m
    }
}

/// The parts of the state have the lengths that belong together.
pub open spec fn shape_ok(m: CrawlModel) -> bool {
    &&& m.queues.len() > 0
    &&& m.in_flight.len() == m.queues.len()
    &&& m.idle.len() == m.queues.len()
    &&& m.results.len() == m.depths.len()
}

/// Every URL that is queued, being fetched or recorded has been seen.
pub open spec fn all_visited(m: CrawlModel) -> bool {
    &&& forall|i: int|
        0 <= i < m.results.len() ==> m.visited.contains((#[trigger] m.results[i]).url)
    &&& forall|w: int, k: int|
        0 <= w < m.queues.len() && 0 <= k < m.queues[w].len() ==> m.visited.contains(
            (#[trigger] m.queues[w][k]).0,
        )
    &&& forall|w: int|
        0 <= w < m.in_flight.len() && (#[trigger] m.in_flight[w]) is Some ==> m.visited.contains(
            m.in_flight[w]->Some_0.0,
        )
}

/// No URL is dealt with twice: the URLs that are queued, being fetched or
/// recorded are all different.
pub open spec fn all_distinct(m: CrawlModel) -> bool {
    &&& forall|i: int, j: int|
        0 <= i < m.results.len() && 0 <= j < m.results.len() && i != j ==> (
        #[trigger] m.results[i]).url != (#[trigger] m.results[j]).url
    &&& forall|i: int, w: int, k: int|
        0 <= i < m.results.len() && 0 <= w < m.queues.len() && 0 <= k < m.queues[w].len() ==> (
        #[trigger] m.results[i]).url != (#[trigger] m.queues[w][k]).0
    &&& forall|w: int, k: int, v: int, j: int|
        0 <= w < m.queues.len() && 0 <= k < m.queues[w].len() && 0 <= v < m.queues.len() && 0
            <= j < m.queues[v].len() && (w != v || k != j) ==> (#[trigger] m.queues[w][k]).0 != (
        #[trigger] m.queues[v][j]).0
    &&& forall|w: int, i: int|
        0 <= w < m.in_flight.len() && (#[trigger] m.in_flight[w]) is Some && 0 <= i
            < m.results.len() ==> m.in_flight[w]->Some_0.0 != (#[trigger] m.results[i]).url
    &&& forall|w: int, v: int, k: int|
        0 <= w < m.in_flight.len() && (#[trigger] m.in_flight[w]) is Some && 0 <= v
            < m.queues.len() && 0 <= k < m.queues[v].len() ==> m.in_flight[w]->Some_0.0 != (
        #[trigger] m.queues[v][k]).0
    &&& forall|w: int, v: int|
        0 <= w < m.in_flight.len() && 0 <= v < m.in_flight.len() && w != v && (
        #[trigger] m.in_flight[w]) is Some && (#[trigger] m.in_flight[v]) is Some
            ==> m.in_flight[w]->Some_0.0 != m.in_flight[v]->Some_0.0
}

/// Nothing at the depth limit or beyond is fetched or recorded.
pub open spec fn depths_ok(m: CrawlModel) -> bool {
    &&& forall|i: int| 0 <= i < m.depths.len() ==> (#[trigger] m.depths[i]) < m.max_depth
    &&& forall|w: int|
        0 <= w < m.in_flight.len() && (#[trigger] m.in_flight[w]) is Some
            ==> m.in_flight[w]->Some_0.1 < m.max_depth
}

/// What holds of every state of a crawl.
pub open spec fn crawl_ok(m: CrawlModel) -> bool {
    &&& shape_ok(m)
    &&& m.visited.no_duplicates()
    &&& all_visited(m)
    &&& all_distinct(m)
    &&& depths_ok(m)
}

/// Every URL that is queued, being fetched or recorded lies within the
/// domain of the crawl.
pub open spec fn within_domain(m: CrawlModel) -> bool {
    &&& forall|i: int|
        0 <= i < m.results.len() ==> same_domain((#[trigger] m.results[i]).url, m.base_domain)
    &&& forall|w: int, k: int|
        0 <= w < m.queues.len() && 0 <= k < m.queues[w].len() ==> same_domain(
            (#[trigger] m.queues[w][k]).0,
            m.base_domain,
        )
    &&& forall|w: int|
        0 <= w < m.in_flight.len() && (#[trigger] m.in_flight[w]) is Some ==> same_domain(
            m.in_flight[w]->Some_0.0,
            m.base_domain,
        )
}

/// A crawl starts in a state that is in order.
pub proof fn initial_crawl_is_ok(
    seed: Seq<char>,
    workers: int,
    max_depth: usize,
    base_domain: Seq<char>,
    mode: FollowMode,
)
    requires
        workers > 0,
    ensures
        crawl_ok(initial_crawl(seed, workers, max_depth, base_domain, mode)),
        same_domain(seed, base_domain) ==> within_domain(
            initial_crawl(seed, workers, max_depth, base_domain, mode),
        ),
{
    let m = initial_crawl(seed, workers, max_depth, base_domain, mode);
    assert(m.visited[0] == seed);
    assert forall|w: int, k: int|
        0 <= w < m.queues.len() && 0 <= k < m.queues[w].len() implies m.visited.contains(
        (#[trigger] m.queues[w][k]).0,
    ) && w == 0 && k == 0 && m.queues[w][k].0 == seed by {}
}

/// Handing out work keeps the state in order, and within the domain if it
/// was.
pub proof fn next_step_keeps_order(m: CrawlModel, w: int)
    requires
        crawl_ok(m),
        0 <= w < m.queues.len(),
    ensures
        crawl_ok(next_step(m, w).0),
        within_domain(m) ==> within_domain(next_step(m, w).0),
        next_step(m, w).0.results == m.results,
        next_step(m, w).0.depths == m.depths,
        next_step(m, w).0.visited == m.visited,
        next_step(m, w).0.base_domain == m.base_domain,
        next_step(m, w).0.mode == m.mode,
        next_step(m, w).0.max_depth == m.max_depth,
{
    let n = next_step(m, w).0;
    if m.queues[w].len() > 0 {
        let q = m.queues[w];
        assert(all_visited(n)) by {
            assert forall|v: int, k: int|
                0 <= v < n.queues.len() && 0 <= k < n.queues[v].len() implies n.visited.contains(
                (#[trigger] n.queues[v][k]).0,
            ) by {
                if v == w {
                    assert(n.queues[v][k] == m.queues[v][k + 1]);
                } else {
                    assert(n.queues[v][k] == m.queues[v][k]);
                }
            }
            assert forall|v: int|
                0 <= v < n.in_flight.len() && (#[trigger] n.in_flight[v])
                    is Some implies n.visited.contains(n.in_flight[v]->Some_0.0) by {
                if v == w {
                    assert(n.in_flight[v]->Some_0 == m.queues[w][0]);
                } else {
                    assert(n.in_flight[v] == m.in_flight[v]);
                }
            }
        }
        assert(all_distinct(n)) by {
            assert forall|i: int, v: int, k: int|
                0 <= i < n.results.len() && 0 <= v < n.queues.len() && 0 <= k
                    < n.queues[v].len() implies (#[trigger] n.results[i]).url != (
            #[trigger] n.queues[v][k]).0 by {
                if v == w {
                    assert(n.queues[v][k] == m.queues[v][k + 1]);
                } else {
                    assert(n.queues[v][k] == m.queues[v][k]);
                }
            }
            assert forall|a: int, k: int, v: int, j: int|
                0 <= a < n.queues.len() && 0 <= k < n.queues[a].len() && 0 <= v < n.queues.len()
                    && 0 <= j < n.queues[v].len() && (a != v || k != j) implies (
            #[trigger] n.queues[a][k]).0 != (#[trigger] n.queues[v][j]).0 by {
                let k0 = if a == w {
                    k + 1
                } else {
                    k
                };
                let j0 = if v == w {
                    j + 1
                } else {
                    j
                };
                assert(n.queues[a][k] == m.queues[a][k0]);
                assert(n.queues[v][j] == m.queues[v][j0]);
            }
            assert forall|a: int, i: int|
                0 <= a < n.in_flight.len() && (#[trigger] n.in_flight[a]) is Some && 0 <= i
                    < n.results.len() implies n.in_flight[a]->Some_0.0 != (
            #[trigger] n.results[i]).url by {
                if a == w {
                    assert(n.in_flight[a]->Some_0 == m.queues[w][0]);
                } else {
                    assert(n.in_flight[a] == m.in_flight[a]);
                }
            }
            assert forall|a: int, v: int, k: int|
                0 <= a < n.in_flight.len() && (#[trigger] n.in_flight[a]) is Some && 0 <= v
                    < n.queues.len() && 0 <= k < n.queues[v].len() implies n.in_flight[a]->Some_0.0
                != (#[trigger] n.queues[v][k]).0 by {
                let k0 = if v == w {
                    k + 1
                } else {
                    k
                };
                assert(n.queues[v][k] == m.queues[v][k0]);
                if a == w {
                    assert(n.in_flight[a]->Some_0 == m.queues[w][0]);
                } else {
                    assert(n.in_flight[a] == m.in_flight[a]);
                }
            }
            assert forall|a: int, v: int|
                0 <= a < n.in_flight.len() && 0 <= v < n.in_flight.len() && a != v && (
                #[trigger] n.in_flight[a]) is Some && (#[trigger] n.in_flight[v])
                    is Some implies n.in_flight[a]->Some_0.0 != n.in_flight[v]->Some_0.0 by {
                if a == w {
                    assert(n.in_flight[a]->Some_0 == m.queues[w][0]);
                    assert(n.in_flight[v] == m.in_flight[v]);
                } else if v == w {
                    assert(n.in_flight[v]->Some_0 == m.queues[w][0]);
                    assert(n.in_flight[a] == m.in_flight[a]);
                } else {
                    assert(n.in_flight[a] == m.in_flight[a]);
                    assert(n.in_flight[v] == m.in_flight[v]);
                }
            }
        }
        assert(depths_ok(n)) by {
            assert forall|v: int|
                0 <= v < n.in_flight.len() && (#[trigger] n.in_flight[v])
                    is Some implies n.in_flight[v]->Some_0.1 < n.max_depth by {
                if v != w {
                    assert(n.in_flight[v] == m.in_flight[v]);
                }
            }
        }
        if within_domain(m) {
            assert forall|v: int, k: int|
                0 <= v < n.queues.len() && 0 <= k < n.queues[v].len() implies same_domain(
                (#[trigger] n.queues[v][k]).0,
                n.base_domain,
            ) by {
                if v == w {
                    assert(n.queues[v][k] == m.queues[v][k + 1]);
                } else {
                    assert(n.queues[v][k] == m.queues[v][k]);
                }
            }
            assert forall|v: int|
                0 <= v < n.in_flight.len() && (#[trigger] n.in_flight[v])
                    is Some implies same_domain(n.in_flight[v]->Some_0.0, n.base_domain) by {
                if v == w {
                    assert(n.in_flight[v]->Some_0 == m.queues[w][0]);
                } else {
                    assert(n.in_flight[v] == m.in_flight[v]);
                }
            }
        }
    } else {
        assert(n.queues == m.queues);
        assert forall|v: int| 0 <= v < n.in_flight.len() && (#[trigger] n.in_flight[v]) is Some implies v
            != w && n.in_flight[v] == m.in_flight[v] by {}
    }
}

/// Queuing a URL that was not seen before keeps the state in order.
pub proof fn with_link_keeps_order(m: CrawlModel, link: Seq<char>, depth: usize, target: int)
    requires
        crawl_ok(m),
        !m.visited.contains(link),
        0 <= target < m.queues.len(),
    ensures
        crawl_ok(with_link(m, link, depth, target)),
        within_domain(m) && same_domain(link, m.base_domain) ==> within_domain(
            with_link(m, link, depth, target),
        ),
{
    let n = with_link(m, link, depth, target);
    assert forall|u: Seq<char>| m.visited.contains(u) implies n.visited.contains(u) by {
        let i = choose|i: int| 0 <= i < m.visited.len() && m.visited[i] == u;
        assert(n.visited[i] == u);
    }
    assert(n.visited[m.visited.len() as int] == link);
    assert(n.visited.no_duplicates()) by {
        assert forall|i: int, j: int|
            0 <= i < n.visited.len() && 0 <= j < n.visited.len() && i != j implies n.visited[i]
            != n.visited[j] by {
            if i < m.visited.len() && j < m.visited.len() {
            } else if i < m.visited.len() {
                assert(m.visited.contains(m.visited[i]));
            } else {
                assert(m.visited.contains(m.visited[j]));
            }
        }
    }
    assert forall|v: int, k: int| 0 <= v < n.queues.len() && 0 <= k < n.queues[v].len() implies (
    #[trigger] n.queues[v][k]).0 == link && v == target && k == m.queues[v].len() || (k
        < m.queues[v].len() && n.queues[v][k] == m.queues[v][k]) by {}
    assert(all_visited(n)) by {
        assert forall|v: int, k: int|
            0 <= v < n.queues.len() && 0 <= k < n.queues[v].len() implies n.visited.contains(
            (#[trigger] n.queues[v][k]).0,
        ) by {
            if k < m.queues[v].len() {
                assert(n.queues[v][k] == m.queues[v][k]);
            }
        }
    }
    assert(all_distinct(n)) by {
        assert forall|i: int, v: int, k: int|
            0 <= i < n.results.len() && 0 <= v < n.queues.len() && 0 <= k
                < n.queues[v].len() implies (#[trigger] n.results[i]).url != (
        #[trigger] n.queues[v][k]).0 by {
            if k < m.queues[v].len() {
                assert(n.queues[v][k] == m.queues[v][k]);
            } else {
                assert(m.visited.contains(m.results[i].url));
            }
        }
        assert forall|a: int, k: int, v: int, j: int|
            0 <= a < n.queues.len() && 0 <= k < n.queues[a].len() && 0 <= v < n.queues.len() && 0
                <= j < n.queues[v].len() && (a != v || k != j) implies (
        #[trigger] n.queues[a][k]).0 != (#[trigger] n.queues[v][j]).0 by {
            if k < m.queues[a].len() && j < m.queues[v].len() {
                assert(n.queues[a][k] == m.queues[a][k]);
                assert(n.queues[v][j] == m.queues[v][j]);
            } else if k < m.queues[a].len() {
                assert(n.queues[a][k] == m.queues[a][k]);
                assert(m.visited.contains(m.queues[a][k].0));
            } else if j < m.queues[v].len() {
                assert(n.queues[v][j] == m.queues[v][j]);
                assert(m.visited.contains(m.queues[v][j].0));
            } else {
            }
        }
        assert forall|a: int, v: int, k: int|
            0 <= a < n.in_flight.len() && (#[trigger] n.in_flight[a]) is Some && 0 <= v
                < n.queues.len() && 0 <= k < n.queues[v].len() implies n.in_flight[a]->Some_0.0
            != (#[trigger] n.queues[v][k]).0 by {
            if k < m.queues[v].len() {
                assert(n.queues[v][k] == m.queues[v][k]);
            } else {
                assert(m.visited.contains(m.in_flight[a]->Some_0.0));
            }
        }
    }
    if within_domain(m) && same_domain(link, m.base_domain) {
        assert forall|v: int, k: int|
            0 <= v < n.queues.len() && 0 <= k < n.queues[v].len() implies same_domain(
            (#[trigger] n.queues[v][k]).0,
            n.base_domain,
        ) by {
            if k < m.queues[v].len() {
                assert(n.queues[v][k] == m.queues[v][k]);
            }
        }
    }
}

/// Offering links keeps the state in order, and within the domain if it was
/// and every link lies within it. Results and depths are not touched.
pub proof fn enqueued_keeps_order(m: CrawlModel, links: Seq<Seq<char>>, depth: usize, target: int)
    requires
        crawl_ok(m),
        0 <= target < m.queues.len(),
    ensures
        crawl_ok(enqueued(m, links, depth, target)),
        within_domain(m) && (forall|i: int|
            0 <= i < links.len() ==> same_domain(#[trigger] links[i], m.base_domain))
            ==> within_domain(enqueued(m, links, depth, target)),
        enqueued(m, links, depth, target).results == m.results,
        enqueued(m, links, depth, target).depths == m.depths,
        enqueued(m, links, depth, target).in_flight == m.in_flight,
        enqueued(m, links, depth, target).idle == m.idle,
        enqueued(m, links, depth, target).base_domain == m.base_domain,
        enqueued(m, links, depth, target).mode == m.mode,
        enqueued(m, links, depth, target).max_depth == m.max_depth,
        enqueued(m, links, depth, target).queues.len() == m.queues.len(),
    decreases links.len(),
{
    if links.len() > 0 {
        let rest = links.drop_first();
        let all_in = forall|i: int|
            0 <= i < links.len() ==> same_domain(#[trigger] links[i], m.base_domain);
        if all_in {
            assert forall|i: int| 0 <= i < rest.len() implies same_domain(
                #[trigger] rest[i],
                m.base_domain,
            ) by {
                assert(rest[i] == links[i + 1]);
            }
            assert(same_domain(links[0], m.base_domain));
        }
        if m.visited.contains(links[0]) {
            enqueued_keeps_order(m, rest, depth, target);
        } else {
            with_link_keeps_order(m, links[0], depth, target);
            let n = with_link(m, links[0], depth, target);
            let t = (target + 1) % (m.queues.len() as int);
            assert(0 <= t < m.queues.len()) by (nonlinear_arith)
                requires
                    t == (target + 1) % (m.queues.len() as int),
                    0 <= target,
                    m.queues.len() > 0,
            ;
            enqueued_keeps_order(n, rest, depth, t);
        }
    }
}

/// Delivering a response keeps the state in order. It stays within the
/// domain if it was and the scan admitted only links within it.
pub proof fn completed_keeps_order(m: CrawlModel, w: int, response: Response, scan: ScanModel)
    requires
        crawl_ok(m),
        0 <= w < m.queues.len(),
    ensures
        crawl_ok(completed(m, w, response, scan)),
        within_domain(m) && (forall|i: int|
            0 <= i < scan.links.len() ==> same_domain(#[trigger] scan.links[i], m.base_domain))
            ==> within_domain(completed(m, w, response, scan)),
        completed(m, w, response, scan).base_domain == m.base_domain,
        completed(m, w, response, scan).mode == m.mode,
        completed(m, w, response, scan).max_depth == m.max_depth,
        completed(m, w, response, scan).queues.len() == m.queues.len(),
{
    if scan_matches(m, w, scan) {
        let url = m.in_flight[w]->Some_0.0;
        let depth = m.in_flight[w]->Some_0.1;
        let n = CrawlModel {
            in_flight: m.in_flight.update(w, None),
            results: m.results.push(fetched_result(url, response, scan)),
            depths: m.depths.push(depth),
            ..m
        };
        assert(m.in_flight[w] is Some);
        assert forall|v: int| 0 <= v < n.in_flight.len() && (#[trigger] n.in_flight[v]) is Some implies v
            != w && n.in_flight[v] == m.in_flight[v] by {}
        assert(all_visited(n)) by {
            assert forall|i: int| 0 <= i < n.results.len() implies n.visited.contains(
                (#[trigger] n.results[i]).url,
            ) by {
                if i < m.results.len() {
                    assert(n.results[i] == m.results[i]);
                }
            }
        }
        assert(all_distinct(n)) by {
            assert forall|i: int, j: int|
                0 <= i < n.results.len() && 0 <= j < n.results.len() && i != j implies (
            #[trigger] n.results[i]).url != (#[trigger] n.results[j]).url by {
                if i < m.results.len() && j < m.results.len() {
                    assert(n.results[i] == m.results[i]);
                    assert(n.results[j] == m.results[j]);
                } else if i < m.results.len() {
                    assert(n.results[i] == m.results[i]);
                } else {
                    assert(n.results[j] == m.results[j]);
                }
            }
            assert forall|i: int, v: int, k: int|
                0 <= i < n.results.len() && 0 <= v < n.queues.len() && 0 <= k
                    < n.queues[v].len() implies (#[trigger] n.results[i]).url != (
            #[trigger] n.queues[v][k]).0 by {
                if i < m.results.len() {
                    assert(n.results[i] == m.results[i]);
                }
            }
            assert forall|a: int, i: int|
                0 <= a < n.in_flight.len() && (#[trigger] n.in_flight[a]) is Some && 0 <= i
                    < n.results.len() implies n.in_flight[a]->Some_0.0 != (
            #[trigger] n.results[i]).url by {
                assert(n.in_flight[a] == m.in_flight[a]);
                if i < m.results.len() {
                    assert(n.results[i] == m.results[i]);
                }
            }
        }
        assert(depths_ok(n)) by {
            assert forall|i: int| 0 <= i < n.depths.len() implies (#[trigger] n.depths[i])
                < n.max_depth by {
                if i < m.depths.len() {
                    assert(n.depths[i] == m.depths[i]);
                }
            }
        }
        if within_domain(m) {
            assert forall|i: int| 0 <= i < n.results.len() implies same_domain(
                (#[trigger] n.results[i]).url,
                n.base_domain,
            ) by {
                if i < m.results.len() {
                    assert(n.results[i] == m.results[i]);
                }
            }
            assert(within_domain(n));
        }
        enqueued_keeps_order(n, scan.links, (depth + 1) as usize, 0);
    }
}

/// Every URL in the results has been seen, and is listed as seen exactly
/// once.
pub proof fn results_are_visited_once(m: CrawlModel, i: int)
    requires
        crawl_ok(m),
        0 <= i < m.results.len(),
    ensures
        m.visited.contains(m.results[i].url),
        forall|a: int, b: int|
            0 <= a < m.visited.len() && 0 <= b < m.visited.len() && m.visited[a]
                == m.results[i].url && m.visited[b] == m.results[i].url ==> a == b,
{
}

/// No URL appears in the results twice.
pub proof fn results_are_distinct(m: CrawlModel, i: int, j: int)
    requires
        crawl_ok(m),
        0 <= i < m.results.len(),
        0 <= j < m.results.len(),
        i != j,
    ensures
        m.results[i].url != m.results[j].url,
{
}

/// Every result was found at a depth below the limit.
pub proof fn results_are_within_depth(m: CrawlModel, i: int)
    requires
        crawl_ok(m),
        0 <= i < m.results.len(),
    ensures
        m.depths[i] < m.max_depth,
{
}

/// In a crawl that stays within its domain, the host of every result is
/// the domain of the crawl or ends with a dot and that domain.
pub proof fn results_are_within_domain(m: CrawlModel, i: int)
    requires
        within_domain(m),
        0 <= i < m.results.len(),
    ensures
        same_domain(m.results[i].url, m.base_domain),
{
}

/// A crawl that never follows a link to another domain stays within its
/// domain: the scan of a page admits no other link in that mode.
pub proof fn disabled_crawl_stays_within_domain(
    m: CrawlModel,
    w: int,
    response: Response,
    scan: ScanModel,
)
    requires
        crawl_ok(m),
        within_domain(m),
        m.mode == FollowMode::Disabled,
        links_admissible(scan),
        0 <= w < m.queues.len(),
    ensures
        within_domain(completed(m, w, response, scan)),
{
    if scan_matches(m, w, scan) {
        assert forall|i: int| 0 <= i < scan.links.len() implies same_domain(
            #[trigger] scan.links[i],
            m.base_domain,
        ) by {}
        completed_keeps_order(m, w, response, scan);
    }
}

/// What a worker is told to do next.
#[derive(Debug, Clone)]
pub enum CrawlStep {
    /// Fetch this URL, found at this depth.
    Fetch { url: String, depth: usize },
    /// A URL beyond the depth limit was dropped: ask again.
    Skip,
    /// Nothing to do right now: wait a little and ask again.
    Sleep,
    /// The crawl is over for this worker.
    Exit,
}

impl View for CrawlStep {
    type V = StepView;

    open spec fn view(&self) -> StepView {
        match self {
            CrawlStep::Fetch { url, depth } => StepView::Fetch(url@, *depth),
            CrawlStep::Skip => StepView::Skip,
            CrawlStep::Sleep => StepView::Sleep,
            CrawlStep::Exit => StepView::Exit,
        }
    }
}

/// The value of a queue of URLs with their depths.
pub open spec fn item_views(q: Seq<(String, usize)>) -> Seq<(Seq<char>, usize)> {
    q.map_values(|t: (String, usize)| (t.0@, t.1))
}

/// The value of what a worker is fetching.
pub open spec fn opt_item_view(t: Option<(String, usize)>) -> Option<(Seq<char>, usize)> {
    match t {
        Some(x) => Some((x.0@, x.1)),
        None => None,
    }
}

/// The state that the workers of one crawl share.
pub struct CrawlState {
    base_domain: String,
    mode: FollowMode,
    max_depth: usize,
    queues: Vec<VecDeque<(String, usize)>>,
    in_flight: Vec<Option<(String, usize)>>,
    idle: Vec<usize>,
    visited: Vec<String>,
    results: Vec<CrawlResult>,
    depths: Vec<usize>,
}

impl View for CrawlState {
    type V = CrawlModel;

    closed spec fn view(&self) -> CrawlModel {
        CrawlModel {
            base_domain: self.base_domain@,
            mode: self.mode,
            max_depth: self.max_depth,
            queues: Seq::new(self.queues@.len(), |w: int| item_views(self.queues@[w]@)),
            in_flight: Seq::new(self.in_flight@.len(), |w: int| opt_item_view(self.in_flight@[w])),
            idle: self.idle@,
            visited: string_views(self.visited@),
            results: crawl_result_views(self.results@),
            depths: self.depths@,
        }
    }
}

/// The domain of a crawl: the one that the caller fixes, or else the domain
/// that stands for the seed.
pub open spec fn crawl_domain(seed: Seq<char>, fixed: Option<Seq<char>>) -> Seq<char> {
    match fixed {
        Some(d) => d,
        None => domain_of(seed),
    }
}

/// What happens to the state of a crawl.
pub enum CrawlEvent {
    /// A worker asks for work.
    Asks { worker: int },
    /// A worker delivers a response and the scan of its page.
    Delivers { worker: int, response: Response, scan: ScanModel },
}

/// The worker of an event.
pub open spec fn event_worker(e: CrawlEvent) -> int {
    match e {
        CrawlEvent::Asks { worker } => worker,
        CrawlEvent::Delivers { worker, response, scan } => worker,
    }
}

/// The state after one event.
pub open spec fn after_event(m: CrawlModel, e: CrawlEvent) -> CrawlModel {
    match e {
        CrawlEvent::Asks { worker } => next_step(m, worker).0,
        CrawlEvent::Delivers { worker, response, scan } => completed(m, worker, response, scan),
    }
}

/// The state after a sequence of events.
pub open spec fn after_events(m: CrawlModel, events: Seq<CrawlEvent>) -> CrawlModel
    decreases events.len(),
{
    if events.len() == 0 {
        m
    } else {
        after_event(after_events(m, events.drop_last()), events.last())
    }
}

/// The events come from workers of the crawl, and every scan that is
/// delivered admitted only links that its mode lets through.
pub open spec fn events_ok(workers: int, events: Seq<CrawlEvent>) -> bool {
    forall|k: int|
        0 <= k < events.len() ==> 0 <= event_worker(#[trigger] events[k]) < workers && (
        events[k] matches CrawlEvent::Delivers { worker, response, scan } ==> links_admissible(
            scan,
        ))
}

/// Whatever the workers of a crawl do, in whatever order: the state stays
/// in order. So every URL in the results has been seen, and is listed as
/// seen once; no URL appears in the results twice; and every result was
/// found below the depth limit.
pub proof fn every_crawl_stays_in_order(
    seed: Seq<char>,
    workers: int,
    max_depth: usize,
    base_domain: Seq<char>,
    mode: FollowMode,
    events: Seq<CrawlEvent>,
)
    requires
        workers > 0,
        events_ok(workers, events),
    ensures
        crawl_ok(
            after_events(initial_crawl(seed, workers, max_depth, base_domain, mode), events),
        ),
        after_events(
            initial_crawl(seed, workers, max_depth, base_domain, mode),
            events,
        ).queues.len() == workers,
        after_events(initial_crawl(seed, workers, max_depth, base_domain, mode), events).mode
            == mode,
        after_events(
            initial_crawl(seed, workers, max_depth, base_domain, mode),
            events,
        ).base_domain == base_domain,
        mode == FollowMode::Disabled && same_domain(seed, base_domain) ==> within_domain(
            after_events(initial_crawl(seed, workers, max_depth, base_domain, mode), events),
        ),
    decreases events.len(),
{
    let start = initial_crawl(seed, workers, max_depth, base_domain, mode);
    if events.len() == 0 {
        initial_crawl_is_ok(seed, workers, max_depth, base_domain, mode);
    } else {
        let earlier = events.drop_last();
        assert forall|k: int| 0 <= k < earlier.len() implies 0 <= event_worker(
            #[trigger] earlier[k],
        ) < workers && (earlier[k] matches CrawlEvent::Delivers { worker, response, scan }
            ==> links_admissible(scan)) by {
            assert(earlier[k] == events[k]);
        }
        every_crawl_stays_in_order(seed, workers, max_depth, base_domain, mode, earlier);
        let m = after_events(start, earlier);
        let e = events[events.len() - 1];
        assert(0 <= event_worker(e) < workers);
        match e {
            CrawlEvent::Asks { worker } => {
                next_step_keeps_order(m, worker);
                assert(next_step(m, worker).0.queues.len() == workers);
            },
            CrawlEvent::Delivers { worker, response, scan } => {
                completed_keeps_order(m, worker, response, scan);
                if mode == FollowMode::Disabled && same_domain(seed, base_domain) {
                    disabled_crawl_stays_within_domain(m, worker, response, scan);
                }
            },
        }
    }
}

/// A seed with a host lies within the domain that is derived from it.
pub proof fn seed_lies_within_its_domain(seed: Seq<char>)
    requires
        crate::urls::host_of(seed) is Some,
    ensures
        same_domain(seed, crawl_domain(seed, None)),
{
}

impl CrawlState {
    /// Starts the crawl of `seed` with `workers` workers. The seed must be a
    /// URL. The domain of the crawl is `base_domain` where it is given, else
    /// the host of the seed.
    pub fn start(
        seed: &str,
        workers: usize,
        max_depth: usize,
        base_domain: Option<String>,
        mode: FollowMode,
    ) -> (r: Result<CrawlState, ScanError>)
        requires
            workers > 0,
        ensures
            match r {
                Ok(state) => is_url(seed@) && state@ == initial_crawl(
                    seed@,
                    workers as int,
                    max_depth,
                    crawl_domain(seed@, crate::data::opt_chars(base_domain)),
                    mode,
                ) && crawl_ok(state@) && (same_domain(
                    seed@,
                    crawl_domain(seed@, crate::data::opt_chars(base_domain)),
                ) ==> within_domain(state@)),
                Err(e) => !is_url(seed@) && e is InvalidUrl && e.detail() == "Invalid URL: "@
                    + parse_outcome(seed@)->Err_0,
            },
    {
        let parts = match ParsedUrl::parse(seed) {
            Ok(parts) => parts,
            Err(e) => {
                return Err(ScanError::InvalidUrl(owned("Invalid URL: ").concat(e.as_str())));
            },
        };
        let domain = match base_domain {
            Some(d) => d,
            None => match parts.host {
                Some(h) => h,
                None => owned("unknown"),
            },
        };
        let mut queues: Vec<VecDeque<(String, usize)>> = Vec::new();
        let mut in_flight: Vec<Option<(String, usize)>> = Vec::new();
        let mut idle: Vec<usize> = Vec::new();
        let mut w: usize = 0;
        while w < workers
            invariant
                w <= workers,
                queues@.len() == w,
                in_flight@.len() == w,
                idle@.len() == w,
                forall|k: int| 0 <= k < w ==> (#[trigger] queues@[k])@.len() == 0,
                forall|k: int| 0 <= k < w ==> (#[trigger] in_flight@[k]) is None,
                forall|k: int| 0 <= k < w ==> (#[trigger] idle@[k]) == 0,
            decreases workers - w,
        {
            queues.push(VecDeque::new());
            in_flight.push(None);
            idle.push(0);
            w += 1;
        }
        let ghost before = queues@;
        queues[0].push_back((owned(seed), 0));
        let mut visited: Vec<String> = Vec::new();
        visited.push(owned(seed));
        let state = CrawlState {
            base_domain: domain,
            mode,
            max_depth,
            queues,
            in_flight,
            idle,
            visited,
            results: Vec::new(),
            depths: Vec::new(),
        };
        proof {
            let m = initial_crawl(
                seed@,
                workers as int,
                max_depth,
                crawl_domain(seed@, crate::data::opt_chars(base_domain)),
                mode,
            );
            assert(state@.queues =~= m.queues) by {
                assert forall|k: int| 0 <= k < workers implies state@.queues[k] == m.queues[k] by {
                    if k == 0 {
                        assert(item_views(state.queues@[0]@) =~= seq![(seed@, 0usize)]);
                    } else {
                        assert(state.queues@[k] == before[k]);
                        assert(item_views(state.queues@[k]@) =~= Seq::empty());
                    }
                }
            }
            assert(state@.in_flight =~= m.in_flight);
            assert(state@.idle =~= m.idle);
            assert(state@.visited =~= m.visited);
            assert(state@.results =~= m.results);
            assert(state@.depths =~= m.depths);
            initial_crawl_is_ok(seed@, workers as int, max_depth, m.base_domain, mode);
        }
        Ok(state)
    }

    /// The number of workers.
    pub fn worker_count(&self) -> (n: usize)
        ensures
            n == self@.queues.len(),
    {
        self.queues.len()
    }

    /// The number of URLs seen so far.
    pub fn get_visited_count(&self) -> (n: usize)
        ensures
            n == self@.visited.len(),
    {
        self.visited.len()
    }

    /// The results so far, in the order of their arrival. No two of them
    /// have the same URL.
    pub fn get_results(&self) -> (r: &Vec<CrawlResult>)
        ensures
            crawl_result_views(r@) == self@.results,
            crawl_ok(self@) ==> forall|i: int, j: int|
                0 <= i < r@.len() && 0 <= j < r@.len() && i != j ==> (#[trigger] r@[i]).url@ != (
                #[trigger] r@[j]).url@,
    {
        proof {
            if crawl_ok(self@) {
                assert forall|i: int, j: int|
                    0 <= i < self.results@.len() && 0 <= j < self.results@.len() && i
                        != j implies (#[trigger] self.results@[i]).url@ != (
                #[trigger] self.results@[j]).url@ by {
                    assert(self@.results[i].url == self.results@[i].url@);
                    assert(self@.results[j].url == self.results@[j].url@);
                }
            }
        }
        &self.results
    }

    /// The depth at which each result was found: each lies below the limit
    /// of the crawl.
    pub fn get_depths(&self) -> (d: &Vec<usize>)
        ensures
            d@ == self@.depths,
            crawl_ok(self@) ==> forall|i: int|
                0 <= i < d@.len() ==> (#[trigger] d@[i]) < self@.max_depth,
    {
        &self.depths
    }

    /// Ends the crawl and hands over the results.
    pub fn into_results(self) -> (r: Vec<CrawlResult>)
        ensures
            crawl_result_views(r@) == self@.results,
    {
        self.results
    }

    /// The domain of the crawl.
    pub fn base_domain(&self) -> (d: &String)
        ensures
            d@ == self@.base_domain,
    {
        &self.base_domain
    }

    /// Whether every queue is empty.
    pub fn all_queues_empty(&self) -> (b: bool)
        ensures
            b == queues_empty(self@.queues),
    {
        let mut w: usize = 0;
        while w < self.queues.len()
            invariant
                w <= self.queues@.len(),
                forall|k: int| 0 <= k < w ==> (#[trigger] self@.queues[k]).len() == 0,
            decreases self.queues@.len() - w,
        {
            if self.queues[w].len() > 0 {
                assert(self@.queues[w as int].len() > 0);
                return false;
            }
            w += 1;
        }
        true
    }

    /// Tells the worker `worker` what to do next. Whatever the worker was
    /// fetching before is given up.
    pub fn next_work(&mut self, worker: usize) -> (step: CrawlStep)
        requires
            shape_ok(old(self)@),
            worker < old(self)@.queues.len(),
        ensures
            (final(self)@, step@) == next_step(old(self)@, worker as int),
            crawl_ok(old(self)@) ==> crawl_ok(final(self)@),
            within_domain(old(self)@) && crawl_ok(old(self)@) ==> within_domain(final(self)@),
    {
        let ghost m = self@;
        proof {
            if crawl_ok(m) {
                next_step_keeps_order(m, worker as int);
            }
        }
        self.in_flight[worker] = None;
        assert(self@.in_flight =~= m.in_flight.update(worker as int, None));
        let ghost before = self.queues@;
        let front = self.queues[worker].pop_front();
        match front {
            Some(item) => {
                let (url, depth) = item;
                proof {
                    assert(m.queues[worker as int] == item_views(before[worker as int]@));
                    assert(m.queues[worker as int][0] == (url@, depth));
                    assert(self@.queues =~= m.queues.update(
                        worker as int,
                        m.queues[worker as int].drop_first(),
                    )) by {
                        assert forall|k: int| 0 <= k < m.queues.len() implies self@.queues[k]
                            == m.queues.update(
                            worker as int,
                            m.queues[worker as int].drop_first(),
                        )[k] by {
                            if k == worker {
                                assert(item_views(self.queues@[k]@) =~= item_views(
                                    before[k]@,
                                ).drop_first());
                            } else {
                                assert(self.queues@[k] == before[k]);
                            }
                        }
                    }
                }
                self.idle[worker] = 0;
                if depth >= self.max_depth {
                    assert(self@.in_flight =~= m.in_flight.update(worker as int, None));
                    CrawlStep::Skip
                } else {
                    self.in_flight[worker] = Some((url.clone(), depth));
                    assert(self@.in_flight =~= m.in_flight.update(
                        worker as int,
                        Some((url@, depth)),
                    ));
                    CrawlStep::Fetch { url, depth }
                }
            },
            None => {
                proof {
                    assert(self@.queues =~= m.queues) by {
                        assert forall|k: int| 0 <= k < m.queues.len() implies self@.queues[k]
                            == m.queues[k] by {
                            if k != worker {
                                assert(self.queues@[k] == before[k]);
                            }
                        }
                    }
                }
                if self.all_queues_empty() {
                    let seen = self.idle[worker];
                    let n: usize = if seen < MAX_EMPTY_ITERATIONS {
                        seen + 1
                    } else {
                        MAX_EMPTY_ITERATIONS
                    };
                    self.idle[worker] = n;
                    assert(self@.in_flight =~= m.in_flight.update(worker as int, None));
                    if n >= MAX_EMPTY_ITERATIONS {
                        CrawlStep::Exit
                    } else {
                        CrawlStep::Sleep
                    }
                } else {
                    self.idle[worker] = 0;
                    assert(self@.in_flight =~= m.in_flight.update(worker as int, None));
                    CrawlStep::Sleep
                }
            },
        }
    }

    /// Starts the scan of the page that the worker `worker` has fetched:
    /// the scan is made for the URL that the worker is fetching, with the
    /// domain and the mode of the crawl. `None` where the worker is fetching
    /// nothing.
    pub fn begin_scan(&self, worker: usize, content_type: &Option<String>, body: &str) -> (scan:
        Option<PageScan>)
        requires
            shape_ok(self@),
            worker < self@.queues.len(),
        ensures
            scan is Some <==> self@.in_flight[worker as int] is Some,
            scan is Some ==> scan->Some_0@ == crate::crawler::fresh_scan(
                self@.in_flight[worker as int]->Some_0.0,
                self@.base_domain,
                self@.mode,
                crate::data::opt_chars(*content_type),
                body@,
            ) && links_admissible(scan->Some_0@) && scan_matches(
                self@,
                worker as int,
                scan->Some_0@,
            ),
    {
        match &self.in_flight[worker] {
            Some(item) => Some(
                PageScan::new(
                    item.0.as_str(),
                    self.base_domain.as_str(),
                    self.mode,
                    content_type,
                    body,
                ),
            ),
            None => None,
        }
    }

    /// Takes the response to what the worker `worker` was fetching, with
    /// the scan of its page. The result is recorded, and every admitted link
    /// that was not seen before is queued one level deeper, for each worker
    /// in turn. Returns whether the delivery belonged to what the worker was
    /// fetching; if not, nothing changes.
    pub fn complete(&mut self, worker: usize, response: Response, scan: &PageScan) -> (recorded:
        bool)
        requires
            crawl_ok(old(self)@),
            worker < old(self)@.queues.len(),
        ensures
            final(self)@ == completed(old(self)@, worker as int, response, scan@),
            recorded == scan_matches(old(self)@, worker as int, scan@),
            crawl_ok(final(self)@),
            within_domain(old(self)@) && links_admissible(scan@) && old(self)@.mode
                == FollowMode::Disabled ==> within_domain(final(self)@),
    {
        let ghost m = self@;
        proof {
            completed_keeps_order(m, worker as int, response, scan@);
            if within_domain(m) && links_admissible(scan@) && m.mode == FollowMode::Disabled {
                disabled_crawl_stays_within_domain(m, worker as int, response, scan@);
            }
        }
        let matches = match &self.in_flight[worker] {
            Some(item) => str_eq(item.0.as_str(), scan.url()) && str_eq(
                self.base_domain.as_str(),
                scan.base_domain(),
            ) && self.mode == scan.mode(),
            None => false,
        };
        if !matches {
            return false;
        }
        let (url, depth) = match self.in_flight[worker].take() {
            Some(item) => item,
            None => {
                return false;
            },
        };
        assert(self@.in_flight =~= m.in_flight.update(worker as int, None));
        let links = scan.links();
        let ghost lv = string_views(links@);
        let mut found: Vec<String> = Vec::new();
        let mut c: usize = 0;
        while c < links.len()
            invariant
                c <= links.len(),
                string_views(found@) == string_views(links@).take(c as int),
            decreases links.len() - c,
        {
            let ghost fb = found@;
            let copy = links[c].clone();
            assert(copy@ == links@[c as int]@);
            found.push(copy);
            assert(string_views(found@) =~= string_views(fb).push(links@[c as int]@));
            assert(string_views(links@).take(c + 1) =~= string_views(links@).take(c as int).push(
                links@[c as int]@,
            ));
            c += 1;
        }
        assert(string_views(links@).take(c as int) =~= lv);
        let result = CrawlResult {
            url,
            status_code: response.status_code,
            content_type: response.content_type,
            content_length: response.content_length,
            response_time: response.response_time,
            links_found: found,
            forms_found: scan.forms(),
            scripts_found: scan.scripts(),
            error: None,
        };
        let ghost rb = self.results@;
        self.results.push(result);
        assert(crawl_result_views(self.results@) =~= crawl_result_views(rb).push(
            fetched_result(m.in_flight[worker as int]->Some_0.0, response, scan@),
        ));
        self.depths.push(depth);
        let ghost n0 = self@;
        let next_depth: usize = depth + 1;
        let workers = self.queues.len();
        let mut target: usize = 0;
        let mut i: usize = 0;
        assert(lv.skip(0) =~= lv);
        while i < links.len()
            invariant
                i <= links.len(),
                lv == string_views(links@),
                workers == self.queues@.len(),
                workers == n0.queues.len(),
                workers > 0,
                target < workers,
                enqueued(n0, lv, next_depth, 0) == enqueued(
                    self@,
                    lv.skip(i as int),
                    next_depth,
                    target as int,
                ),
            decreases links.len() - i,
        {
            let ghost cur = self@;
            proof {
                assert(lv.skip(i as int)[0] == links@[i as int]@);
                assert(lv.skip(i as int).drop_first() =~= lv.skip(i + 1));
            }
            if !contains_string(&self.visited, links[i].as_str()) {
                let ghost vb = self.visited@;
                let ghost qb = self.queues@;
                self.visited.push(links[i].clone());
                self.queues[target].push_back((links[i].clone(), next_depth));
                proof {
                    let link = links@[i as int]@;
                    let goal = with_link(cur, link, next_depth, target as int);
                    assert(string_views(self.visited@) =~= string_views(vb).push(link));
                    assert(self@.queues =~= goal.queues) by {
                        assert forall|k: int| 0 <= k < workers implies self@.queues[k]
                            == goal.queues[k] by {
                            if k == target {
                                assert(item_views(self.queues@[k]@) =~= item_views(qb[k]@).push(
                                    (link, next_depth),
                                ));
                            } else {
                                assert(self.queues@[k] == qb[k]);
                            }
                        }
                    }
                    assert(self@ == goal);
                }
                target = (target + 1) % workers;
            }
            i += 1;
        }
        true
    }
}

} // verus!
