//! Forced browsing: candidate URLs are built from base URLs and a wordlist,
//! handed out to workers, and every hit becomes a new base.

use vstd::prelude::*;
use vstd::string::StringExecFns;
use vstd::utf8::encode_utf8;
use std::collections::VecDeque;
use crate::text::{
    chars_of, contains_string, has_suffix, owned, str_ends_with, string_of, string_views,
};
use crate::urls::{
    MAX_URL_BYTES, ParsedUrl, is_url, parse_outcome, replace_path, strip_query_and_fragment,
    stripped_url, url_with_path,
};

verus! {

/// Where a fuzz target came from.
#[derive(Debug, Clone, Copy, PartialEq, Eq, Structural)]
pub enum FuzzSource {
    /// Supplied by the caller.
    Initial,
    /// Known from an earlier crawl.
    Database,
    /// Found while fuzzing.
    Discovered,
}

/// The answer to one fuzz request.
#[derive(Debug, Clone)]
pub struct FuzzResult {
    pub url: String,
    pub status_code: u16,
    pub content_length: Option<u64>,
    pub content_type: Option<String>,
    pub source: FuzzSource,
}

/// The mathematical value of a [`FuzzResult`].
pub struct FuzzResultView {
    pub url: Seq<char>,
    pub status_code: u16,
    pub content_length: Option<u64>,
    pub content_type: Option<Seq<char>>,
    pub source: FuzzSource,
}

impl View for FuzzResult {
    type V = FuzzResultView;

    open spec fn view(&self) -> FuzzResultView {
        FuzzResultView {
            url: self.url@,
            status_code: self.status_code,
            content_length: self.content_length,
            content_type: crate::data::opt_chars(self.content_type),
            source: self.source,
        }
    }
}

/// `word` without its leading slashes.
pub open spec fn without_leading_slashes(word: Seq<char>) -> Seq<char>
    decreases word.len(),
{
    if word.len() > 0 && word[0] == '/' {
        without_leading_slashes(word.drop_first())
    } else {
        word
    }
}

/// The path under which `word` is tested below `path`: the path, a slash
/// unless it already ends with one, and the word without leading slashes.
pub open spec fn candidate_path(path: Seq<char>, word: Seq<char>) -> Seq<char> {
    (if has_suffix(path, "/"@) {
        path
    } else {
        path + "/"@
    }) + without_leading_slashes(word)
}

/// `s` is short enough to be handed to the URL rewriting functions.
pub open spec fn fits(s: Seq<char>) -> bool {
    encode_utf8(s).len() <= MAX_URL_BYTES
}

/// The URL that tests `word` below `base`, or why there is none.
pub open spec fn test_url(base: Seq<char>, word: Seq<char>) -> Result<Seq<char>, Seq<char>> {
    match parse_outcome(base) {
        Err(e) => Err("Invalid base URL '"@ + base + "': "@ + e),
        Ok(parts) => {
            let path = candidate_path(parts.path, word);
            if fits(base) && fits(path) {
                url_with_path(base, path)
            } else {
                Err("URL is too long"@)
            }
        },
    }
}

/// The base URL of `url`: the URL without query and fragment, or why there
/// is none.
pub open spec fn base_url_of(url: Seq<char>) -> Result<Seq<char>, Seq<char>> {
    match stripped_url(url) {
        Ok(s) => Ok(s),
        Err(e) => Err("Invalid URL: "@ + e),
    }
}

/// The characters of both sides of a string result.
pub open spec fn result_chars(r: Result<String, String>) -> Result<Seq<char>, Seq<char>> {
    match r {
        Ok(s) => Ok(s@),
        Err(e) => Err(e@),
    }
}

/// The path under which `word` is tested below `path`.
pub fn join_path_and_word(path: &str, word: &str) -> (r: String)
    ensures
        r@ == candidate_path(path@, word@),
{
    let mut out = owned(path);
    if !str_ends_with(path, "/") {
        out.append("/");
    }
    let w = chars_of(word);
    let mut i: usize = 0;
    assert(w@.subrange(0, w@.len() as int) =~= w@);
    while i < w.len() && w[i] == '/'
        invariant
            i <= w.len(),
            without_leading_slashes(w@) == without_leading_slashes(
                w@.subrange(i as int, w@.len() as int),
            ),
        decreases w.len() - i,
    {
        assert(w@.subrange(i as int, w@.len() as int).drop_first() =~= w@.subrange(
            i + 1,
            w@.len() as int,
        ));
        i += 1;
    }
    let rest = string_of(&w, i, w.len());
    out.append(rest.as_str());
    out
}

/// Builds the URL that tests `word` below `base_url`: the base's path gets a
/// trailing slash unless it has one, the word loses its leading slashes, and
/// the two are joined into the new path.
///
/// Fails where `base_url` is no URL, and where the base or the new path is
/// longer than `MAX_URL_BYTES`.
pub fn build_test_url(base_url: &str, word: &str) -> (r: Result<String, String>)
    ensures
        result_chars(r) == test_url(base_url@, word@),
        r is Ok <==> is_url(base_url@) && fits(base_url@) && fits(
            candidate_path(parse_outcome(base_url@)->Ok_0.path, word@),
        ),
{
    match ParsedUrl::parse(base_url) {
        Err(e) => {
            let mut msg = owned("Invalid base URL '");
            msg.append(base_url);
            msg.append("': ");
            msg.append(e.as_str());
            Err(msg)
        },
        Ok(parts) => {
            let new_path = join_path_and_word(parts.path.as_str(), word);
            if base_url.as_bytes().len() <= MAX_URL_BYTES && new_path.as_str().as_bytes().len()
                <= MAX_URL_BYTES {
                replace_path(base_url, new_path.as_str())
            } else {
                Err(owned("URL is too long"))
            }
        },
    }
}

/// Strips the query and the fragment from `url`. Fails where `url` is no
/// URL.
pub fn extract_base_url(url: &str) -> (r: Result<String, String>)
    ensures
        result_chars(r) == base_url_of(url@),
        r is Ok <==> is_url(url@),
{
    match strip_query_and_fragment(url) {
        Ok(s) => Ok(s),
        Err(e) => {
            let mut msg = owned("Invalid URL: ");
            msg.append(e.as_str());
            Err(msg)
        },
    }
}

/// Building a test URL is a function of the base and the word: two calls on
/// the same arguments give the same URL, or the same error.
pub proof fn build_test_url_is_deterministic(
    base: Seq<char>,
    word: Seq<char>,
    first: Result<String, String>,
    second: Result<String, String>,
)
    requires
        result_chars(first) == test_url(base, word),
        result_chars(second) == test_url(base, word),
    ensures
        result_chars(first) == result_chars(second),
{
}

/// A word that begins with a slash is tested as if the slash were absent.
pub proof fn leading_slash_is_ignored(base: Seq<char>, word: Seq<char>)
    ensures
        test_url(base, seq!['/'] + word) == test_url(base, word),
{
    let w = seq!['/'] + word;
    assert(w.drop_first() =~= word);
    assert(without_leading_slashes(w) == without_leading_slashes(word));
}

/// A base path that does not end with a slash has one appended before the
/// word is added; one that does is left as it is.
pub proof fn separator_is_added_once(path: Seq<char>, word: Seq<char>)
    ensures
        !has_suffix(path, "/"@) ==> candidate_path(path, word) == path + "/"@
            + without_leading_slashes(word),
        has_suffix(path, "/"@) ==> candidate_path(path, word) == path + without_leading_slashes(
            word,
        ),
{
}

/// The value of a queued target: the characters of its URL, and its origin.
pub open spec fn target_views(q: Seq<(String, FuzzSource)>) -> Seq<(Seq<char>, FuzzSource)> {
    q.map_values(|t: (String, FuzzSource)| (t.0@, t.1))
}

/// The values of a sequence of results.
pub open spec fn result_views(s: Seq<FuzzResult>) -> Seq<FuzzResultView> {
    s.map_values(|r: FuzzResult| r@)
}

/// The targets that test every word below `base`, tagged with `source`; or
/// the error of the first word that yields no URL.
pub open spec fn tests_for_base(base: Seq<char>, words: Seq<Seq<char>>, source: FuzzSource) -> Result<
    Seq<(Seq<char>, FuzzSource)>,
    Seq<char>,
>
    decreases words.len(),
{
    if words.len() == 0 {
        Ok(Seq::empty())
    } else {
        match tests_for_base(base, words.drop_last(), source) {
            Err(e) => Err(e),
            Ok(targets) => match test_url(base, words.last()) {
                Ok(url) => Ok(targets.push((url, source))),
                Err(e) => Err(e),
            },
        }
    }
}

/// The targets for every base in turn, each with every word; or the first
/// error.
pub open spec fn tests_for_bases(
    bases: Seq<Seq<char>>,
    words: Seq<Seq<char>>,
    source: FuzzSource,
) -> Result<Seq<(Seq<char>, FuzzSource)>, Seq<char>>
    decreases bases.len(),
{
    if bases.len() == 0 {
        Ok(Seq::empty())
    } else {
        match tests_for_bases(bases.drop_last(), words, source) {
            Err(e) => Err(e),
            Ok(targets) => match tests_for_base(bases.last(), words, source) {
                Ok(more) => Ok(targets + more),
                Err(e) => Err(e),
            },
        }
    }
}

/// The initial targets of a fuzz run: the bases that the caller supplied
/// come first, those known from an earlier crawl after them. There must be
/// a base and a word.
pub open spec fn initial_targets(
    base_urls: Seq<Seq<char>>,
    store_urls: Seq<Seq<char>>,
    words: Seq<Seq<char>>,
) -> Result<Seq<(Seq<char>, FuzzSource)>, Seq<char>> {
    if base_urls.len() == 0 {
        Err("No base URLs provided"@)
    } else if words.len() == 0 {
        Err("Wordlist is empty"@)
    } else {
        match tests_for_bases(base_urls, words, FuzzSource::Initial) {
            Err(e) => Err(e),
            Ok(first) => match tests_for_bases(store_urls, words, FuzzSource::Database) {
                Err(e) => Err(e),
                Ok(second) => Ok(first + second),
            },
        }
    }
}

/// The values of a planning result.
pub open spec fn plan_view(r: Result<Vec<(String, FuzzSource)>, String>) -> Result<
    Seq<(Seq<char>, FuzzSource)>,
    Seq<char>,
> {
    match r {
        Ok(targets) => Ok(target_views(targets@)),
        Err(e) => Err(e@),
    }
}

fn push_tests_for_base(
    out: &mut Vec<(String, FuzzSource)>,
    base: &str,
    wordlist: &Vec<String>,
    source: FuzzSource,
) -> (r: Result<(), String>)
    ensures
        match r {
            Ok(_) => tests_for_base(base@, string_views(wordlist@), source) is Ok && target_views(
                final(out)@,
            ) == target_views(old(out)@) + tests_for_base(
                base@,
                string_views(wordlist@),
                source,
            )->Ok_0,
            Err(e) => tests_for_base(base@, string_views(wordlist@), source) == Err::<
                Seq<(Seq<char>, FuzzSource)>,
                Seq<char>,
            >(e@),
        },
{
    let ghost words = string_views(wordlist@);
    let mut i: usize = 0;
    assert(words.take(0) =~= Seq::<Seq<char>>::empty());
    assert(target_views(out@) + Seq::<(Seq<char>, FuzzSource)>::empty() =~= target_views(out@));
    while i < wordlist.len()
        invariant
            i <= wordlist.len(),
            words == string_views(wordlist@),
            tests_for_base(base@, words.take(i as int), source) is Ok,
            target_views(out@) == target_views(old(out)@) + tests_for_base(
                base@,
                words.take(i as int),
                source,
            )->Ok_0,
        decreases wordlist.len() - i,
    {
        proof {
            assert(words.take(i + 1).drop_last() =~= words.take(i as int));
            assert(words.take(i + 1).last() == wordlist@[i as int]@);
        }
        match build_test_url(base, wordlist[i].as_str()) {
            Ok(url) => {
                let ghost before = out@;
                out.push((url, source));
                assert(target_views(out@) =~= target_views(before).push((url@, source)));
                assert(target_views(out@) =~= target_views(old(out)@) + tests_for_base(
                    base@,
                    words.take(i + 1),
                    source,
                )->Ok_0);
            },
            Err(e) => {
                proof {
                    lemma_tests_for_base_fails(base@, words, i as int, source);
                }
                return Err(e);
            },
        }
        i += 1;
    }
    assert(words.take(i as int) =~= words);
    Ok(())
}

/// Once a prefix of the words fails, the whole list fails with the same
/// error.
proof fn lemma_tests_for_base_fails(
    base: Seq<char>,
    words: Seq<Seq<char>>,
    i: int,
    source: FuzzSource,
)
    requires
        0 <= i < words.len(),
        tests_for_base(base, words.take(i + 1), source) is Err,
    ensures
        tests_for_base(base, words, source) == tests_for_base(base, words.take(i + 1), source),
    decreases words.len(),
{
    if words.len() == i + 1 {
        assert(words.take(i + 1) =~= words);
    } else {
        assert(words.drop_last().take(i + 1) =~= words.take(i + 1));
        lemma_tests_for_base_fails(base, words.drop_last(), i, source);
    }
}

/// Once a prefix of the bases fails, the whole list fails with the same
/// error.
proof fn lemma_tests_for_bases_fails(
    bases: Seq<Seq<char>>,
    words: Seq<Seq<char>>,
    i: int,
    source: FuzzSource,
)
    requires
        0 <= i < bases.len(),
        tests_for_bases(bases.take(i + 1), words, source) is Err,
    ensures
        tests_for_bases(bases, words, source) == tests_for_bases(bases.take(i + 1), words, source),
    decreases bases.len(),
{
    if bases.len() == i + 1 {
        assert(bases.take(i + 1) =~= bases);
    } else {
        assert(bases.drop_last().take(i + 1) =~= bases.take(i + 1));
        lemma_tests_for_bases_fails(bases.drop_last(), words, i, source);
    }
}

fn push_tests_for_bases(
    out: &mut Vec<(String, FuzzSource)>,
    bases: &Vec<String>,
    wordlist: &Vec<String>,
    source: FuzzSource,
) -> (r: Result<(), String>)
    ensures
        match r {
            Ok(_) => tests_for_bases(string_views(bases@), string_views(wordlist@), source) is Ok
                && target_views(final(out)@) == target_views(old(out)@) + tests_for_bases(
                string_views(bases@),
                string_views(wordlist@),
                source,
            )->Ok_0,
            Err(e) => tests_for_bases(string_views(bases@), string_views(wordlist@), source)
                == Err::<Seq<(Seq<char>, FuzzSource)>, Seq<char>>(e@),
        },
{
    let ghost bs = string_views(bases@);
    let ghost words = string_views(wordlist@);
    let mut i: usize = 0;
    assert(bs.take(0) =~= Seq::<Seq<char>>::empty());
    assert(target_views(out@) + Seq::<(Seq<char>, FuzzSource)>::empty() =~= target_views(out@));
    while i < bases.len()
        invariant
            i <= bases.len(),
            bs == string_views(bases@),
            words == string_views(wordlist@),
            tests_for_bases(bs.take(i as int), words, source) is Ok,
            target_views(out@) == target_views(old(out)@) + tests_for_bases(
                bs.take(i as int),
                words,
                source,
            )->Ok_0,
        decreases bases.len() - i,
    {
        proof {
            assert(bs.take(i + 1).drop_last() =~= bs.take(i as int));
            assert(bs.take(i + 1).last() == bases@[i as int]@);
        }
        match push_tests_for_base(out, bases[i].as_str(), wordlist, source) {
            Ok(_) => {
                assert(target_views(out@) =~= target_views(old(out)@) + tests_for_bases(
                    bs.take(i + 1),
                    words,
                    source,
                )->Ok_0);
            },
            Err(e) => {
                proof {
                    lemma_tests_for_bases_fails(bs, words, i as int, source);
                }
                return Err(e);
            },
        }
        i += 1;
    }
    assert(bs.take(i as int) =~= bs);
    Ok(())
}

/// Builds the initial targets of a fuzz run from the bases that the caller
/// supplied, the bases known from an earlier crawl, and the wordlist.
pub fn plan_fuzz(base_urls: &Vec<String>, store_urls: &Vec<String>, wordlist: &Vec<String>) -> (r:
    Result<Vec<(String, FuzzSource)>, String>)
    ensures
        plan_view(r) == initial_targets(
            string_views(base_urls@),
            string_views(store_urls@),
            string_views(wordlist@),
        ),
{
    if base_urls.len() == 0 {
        return Err(owned("No base URLs provided"));
    }
    if wordlist.len() == 0 {
        return Err(owned("Wordlist is empty"));
    }
    let mut out: Vec<(String, FuzzSource)> = Vec::new();
    assert(target_views(out@) =~= Seq::<(Seq<char>, FuzzSource)>::empty());
    match push_tests_for_bases(&mut out, base_urls, wordlist, FuzzSource::Initial) {
        Err(e) => {
            return Err(e);
        },
        Ok(_) => {},
    }
    match push_tests_for_bases(&mut out, store_urls, wordlist, FuzzSource::Database) {
        Err(e) => {
            return Err(e);
        },
        Ok(_) => {},
    }
    assert(target_views(out@) =~= tests_for_bases(
        string_views(base_urls@),
        string_views(wordlist@),
        FuzzSource::Initial,
    )->Ok_0 + tests_for_bases(
        string_views(store_urls@),
        string_views(wordlist@),
        FuzzSource::Database,
    )->Ok_0);
    Ok(out)
}

/// The items of `items` that go to `worker` when they are dealt out in
/// turn to `workers` workers: those at the positions that leave the
/// remainder `worker`.
pub open spec fn share<T>(items: Seq<T>, workers: int, worker: int) -> Seq<T>
    decreases items.len(),
{
    if items.len() == 0 {
        Seq::empty()
    } else if (items.len() - 1) % workers == worker {
        share(items.drop_last(), workers, worker).push(items.last())
    } else {
        share(items.drop_last(), workers, worker)
    }
}

/// The state of a fuzz run, as a mathematical value.
pub struct FuzzModel {
    /// One queue of waiting targets for each worker.
    pub queues: Seq<Seq<(Seq<char>, FuzzSource)>>,
    /// The bases that have been expanded already.
    pub tested: Seq<Seq<char>>,
    /// The recorded results, in the order of their arrival.
    pub results: Seq<FuzzResultView>,
    /// The wordlist.
    pub words: Seq<Seq<char>>,
}

/// A status that counts as a hit.
pub open spec fn is_hit(status: u16) -> bool {
    200 <= status < 400
}

/// The state in which a run starts: the targets are dealt out in turn to
/// the workers' queues.
pub open spec fn initial_model(
    targets: Seq<(Seq<char>, FuzzSource)>,
    workers: int,
    words: Seq<Seq<char>>,
) -> FuzzModel {
    FuzzModel {
        queues: Seq::new(workers as nat, |w: int| share(targets, workers, w)),
        tested: Seq::empty(),
        results: Seq::empty(),
        words,
    }
}

/// The first worker at or after `from`, other than `worker`, whose queue
/// holds something; or the number of queues where there is none.
pub open spec fn first_busy_peer(
    queues: Seq<Seq<(Seq<char>, FuzzSource)>>,
    worker: int,
    from: int,
) -> int
    decreases queues.len() - from,
{
    if from >= queues.len() {
        queues.len() as int
    } else if from != worker && queues[from].len() > 0 {
        from
    } else {
        first_busy_peer(queues, worker, from + 1)
    }
}

/// What a worker that asks for work gets, and the state afterwards: the
/// front of its own queue; else the back of the queue of the first peer that
/// has work; else nothing, and then every queue is empty.
pub open spec fn take_work(m: FuzzModel, worker: int) -> (FuzzModel, Option<(Seq<char>, FuzzSource)>) {
    if m.queues[worker].len() > 0 {
        (
            FuzzModel {
                queues: m.queues.update(worker, m.queues[worker].drop_first()),
                tested: m.tested,
                results: m.results,
                words: m.words,
            },
            Some(m.queues[worker][0]),
        )
    } else {
        let peer = first_busy_peer(m.queues, worker, 0);
        if peer < m.queues.len() {
            (
                FuzzModel {
                    queues: m.queues.update(peer, m.queues[peer].drop_last()),
                    tested: m.tested,
                    results: m.results,
                    words: m.words,
                },
                Some(m.queues[peer].last()),
            )
        } else {
            (m, None)
        }
    }
}

/// The targets that a newly found base adds: one for each word that yields
/// a URL below it.
pub open spec fn expansion(base: Seq<char>, words: Seq<Seq<char>>) -> Seq<(Seq<char>, FuzzSource)>
    decreases words.len(),
{
    if words.len() == 0 {
        Seq::empty()
    } else {
        match test_url(base, words.last()) {
            Ok(url) => expansion(base, words.drop_last()).push((url, FuzzSource::Discovered)),
            Err(_) => expansion(base, words.drop_last()),
        }
    }
}

/// The base that a response opens up for expansion: the base URL of a hit,
/// unless it has been expanded before.
pub open spec fn new_base(m: FuzzModel, r: FuzzResultView) -> Option<Seq<char>> {
    if is_hit(r.status_code) {
        match base_url_of(r.url) {
            Ok(base) => if m.tested.contains(base) {
                None
            } else {
                Some(base)
            },
            Err(_) => None,
        }
    } else {
        None
    }
}

/// The state after `worker` has reported the response `r`: the response is
/// recorded unless it is a server error, and a hit on a new base puts that
/// base's targets at the back of the worker's own queue.
pub open spec fn record(m: FuzzModel, worker: int, r: FuzzResultView) -> FuzzModel {
    let results = if r.status_code < 500 {
        m.results.push(r)
    } else {
        m.results
    };
    match new_base(m, r) {
        Some(base) => FuzzModel {
            queues: m.queues.update(worker, m.queues[worker] + expansion(base, m.words)),
            tested: m.tested.push(base),
            results,
            words: m.words,
        },
        None => FuzzModel { queues: m.queues, tested: m.tested, results, words: m.words },
    }
}

/// What holds of every state of a run: there is a worker, no recorded
/// result is a server error, and no base is listed twice.
pub open spec fn model_ok(m: FuzzModel) -> bool {
    &&& m.queues.len() > 0
    &&& forall|i: int| 0 <= i < m.results.len() ==> (#[trigger] m.results[i]).status_code < 500
    &&& m.tested.no_duplicates()
}

/// A run starts in a state that is in order.
pub proof fn initial_model_is_ok(
    targets: Seq<(Seq<char>, FuzzSource)>,
    workers: int,
    words: Seq<Seq<char>>,
)
    requires
        workers > 0,
    ensures
        model_ok(initial_model(targets, workers, words)),
{
}

/// The first busy peer, where there is one, is a worker other than `worker`
/// whose queue holds something, and no peer before it has work.
pub proof fn first_busy_peer_is_first(
    queues: Seq<Seq<(Seq<char>, FuzzSource)>>,
    worker: int,
    from: int,
)
    requires
        0 <= from <= queues.len(),
    ensures
        from <= first_busy_peer(queues, worker, from) <= queues.len(),
        first_busy_peer(queues, worker, from) < queues.len() ==> first_busy_peer(
            queues,
            worker,
            from,
        ) != worker && queues[first_busy_peer(queues, worker, from)].len() > 0,
        forall|p: int|
            from <= p < first_busy_peer(queues, worker, from) && p != worker ==> (
            #[trigger] queues[p]).len() == 0,
    decreases queues.len() - from,
{
    if from < queues.len() && !(from != worker && queues[from].len() > 0) {
        first_busy_peer_is_first(queues, worker, from + 1);
    }
}

/// Handing out work keeps the state in order and changes neither the
/// results nor the expanded bases.
pub proof fn take_work_keeps_order(m: FuzzModel, worker: int)
    requires
        model_ok(m),
        0 <= worker < m.queues.len(),
    ensures
        model_ok(take_work(m, worker).0),
        take_work(m, worker).0.results == m.results,
        take_work(m, worker).0.tested == m.tested,
{
    first_busy_peer_is_first(m.queues, worker, 0);
}

/// A worker is told that there is no work only when every queue is empty.
pub proof fn no_work_means_all_empty(m: FuzzModel, worker: int)
    requires
        0 <= worker < m.queues.len(),
        take_work(m, worker).1 is None,
    ensures
        forall|p: int| 0 <= p < m.queues.len() ==> (#[trigger] m.queues[p]).len() == 0,
{
    first_busy_peer_is_first(m.queues, worker, 0);
}

/// Recording a response keeps the state in order: in particular no result
/// with a status of 500 or more is ever recorded.
pub proof fn record_keeps_order(m: FuzzModel, worker: int, r: FuzzResultView)
    requires
        model_ok(m),
        0 <= worker < m.queues.len(),
    ensures
        model_ok(record(m, worker, r)),
{
    let n = record(m, worker, r);
    assert forall|i: int| 0 <= i < n.results.len() implies (#[trigger] n.results[i]).status_code
        < 500 by {
        if i < m.results.len() {
            assert(n.results[i] == m.results[i]);
        }
    }
    match new_base(m, r) {
        Some(base) => {
            assert forall|i: int, j: int|
                0 <= i < n.tested.len() && 0 <= j < n.tested.len() && i != j implies n.tested[i]
                != n.tested[j] by {
                if i < m.tested.len() && j < m.tested.len() {
                } else if i < m.tested.len() {
                    assert(m.tested.contains(m.tested[i]));
                } else {
                    assert(m.tested.contains(m.tested[j]));
                }
            }
        },
        None => {},
    }
}

/// What happens to the state of a fuzz run.
pub enum FuzzEvent {
    /// A worker asks for work.
    Asks { worker: int },
    /// A worker reports a response.
    Reports { worker: int, result: FuzzResultView },
}

/// The worker of an event.
pub open spec fn fuzz_event_worker(e: FuzzEvent) -> int {
    match e {
        FuzzEvent::Asks { worker } => worker,
        FuzzEvent::Reports { worker, result } => worker,
    }
}

/// The state after a sequence of events.
pub open spec fn after_fuzz_events(m: FuzzModel, events: Seq<FuzzEvent>) -> FuzzModel
    decreases events.len(),
{
    if events.len() == 0 {
        m
    } else {
        let earlier = after_fuzz_events(m, events.drop_last());
        match events.last() {
            FuzzEvent::Asks { worker } => take_work(earlier, worker).0,
            FuzzEvent::Reports { worker, result } => record(earlier, worker, result),
        }
    }
}

/// Whatever the workers of a fuzz run do, in whatever order: no result with
/// a status of 500 or more is recorded, and no base is expanded twice.
pub proof fn every_fuzz_stays_in_order(
    targets: Seq<(Seq<char>, FuzzSource)>,
    workers: int,
    words: Seq<Seq<char>>,
    events: Seq<FuzzEvent>,
)
    requires
        workers > 0,
        forall|k: int|
            0 <= k < events.len() ==> 0 <= fuzz_event_worker(#[trigger] events[k]) < workers,
    ensures
        model_ok(after_fuzz_events(initial_model(targets, workers, words), events)),
        after_fuzz_events(initial_model(targets, workers, words), events).queues.len()
            == workers,
    decreases events.len(),
{
    let start = initial_model(targets, workers, words);
    if events.len() > 0 {
        let earlier = events.drop_last();
        assert forall|k: int| 0 <= k < earlier.len() implies 0 <= fuzz_event_worker(
            #[trigger] earlier[k],
        ) < workers by {
            assert(earlier[k] == events[k]);
        }
        every_fuzz_stays_in_order(targets, workers, words, earlier);
        let m = after_fuzz_events(start, earlier);
        let e = events[events.len() - 1];
        assert(0 <= fuzz_event_worker(e) < workers);
        match e {
            FuzzEvent::Asks { worker } => {
                take_work_keeps_order(m, worker);
                first_busy_peer_is_first(m.queues, worker, 0);
            },
            FuzzEvent::Reports { worker, result } => {
                record_keeps_order(m, worker, result);
            },
        }
    }
}

/// The length of a worker's share: the number of positions below the
/// length of `items` that leave the remainder `worker`.
pub proof fn share_len<T>(items: Seq<T>, workers: int, worker: int)
    requires
        0 <= worker < workers,
    ensures
        share(items, workers, worker).len() == (items.len() + workers - 1 - worker) / workers,
    decreases items.len(),
{
    let n = items.len() as int;
    if n > 0 {
        share_len(items.drop_last(), workers, worker);
        let q = (n - 1) / workers;
        let r = (n - 1) % workers;
        assert(n - 1 == q * workers + r && 0 <= r < workers) by (nonlinear_arith)
            requires
                workers > 0,
                n - 1 >= 0,
                q == (n - 1) / workers,
                r == (n - 1) % workers,
        ;
        if r == worker {
            assert((n + workers - 1 - worker) / workers == q + 1 && (n - 1 + workers - 1 - worker)
                / workers == q) by (nonlinear_arith)
                requires
                    workers > 0,
                    n - 1 == q * workers + r,
                    r == worker,
                    0 <= worker < workers,
            ;
        } else {
            assert((n + workers - 1 - worker) / workers == (n - 1 + workers - 1 - worker)
                / workers) by (nonlinear_arith)
                requires
                    workers > 0,
                    n - 1 == q * workers + r,
                    0 <= r < workers,
                    r != worker,
                    0 <= worker < workers,
            ;
        }
    } else {
        assert((workers - 1 - worker) / workers == 0) by (nonlinear_arith)
            requires
                0 <= worker < workers,
        ;
    }
}

/// With at least as many initial targets as workers, every worker starts
/// with work of its own; with twice as many, every worker starts with at
/// least two targets.
pub proof fn every_worker_starts_with_work(
    targets: Seq<(Seq<char>, FuzzSource)>,
    workers: int,
    words: Seq<Seq<char>>,
    worker: int,
)
    requires
        0 <= worker < workers,
        targets.len() >= workers,
    ensures
        initial_model(targets, workers, words).queues[worker].len() >= 1,
        targets.len() >= 2 * workers ==> initial_model(targets, workers, words).queues[worker].len()
            >= 2,
{
    share_len(targets, workers, worker);
    let n = targets.len() as int;
    assert((n + workers - 1 - worker) / workers >= 1) by (nonlinear_arith)
        requires
            0 <= worker < workers,
            n >= workers,
    ;
    if n >= 2 * workers {
        assert((n + workers - 1 - worker) / workers >= 2) by (nonlinear_arith)
            requires
                0 <= worker < workers,
                n >= 2 * workers,
        ;
    }
}

/// The state of a fuzz run: the workers' queues, the bases expanded so far,
/// the recorded results and the wordlist. Workers take their turns on it one
/// at a time; the requests themselves are sent elsewhere.
pub struct FuzzState {
    queues: Vec<VecDeque<(String, FuzzSource)>>,
    tested: Vec<String>,
    results: Vec<FuzzResult>,
    wordlist: Vec<String>,
}

impl View for FuzzState {
    type V = FuzzModel;

    closed spec fn view(&self) -> FuzzModel {
        FuzzModel {
            queues: Seq::new(self.queues@.len(), |w: int| target_views(self.queues@[w]@)),
            tested: string_views(self.tested@),
            results: result_views(self.results@),
            words: string_views(self.wordlist@),
        }
    }
}

/// The result `r` with its origin set to `source`.
pub open spec fn with_source(r: FuzzResultView, source: FuzzSource) -> FuzzResultView {
    FuzzResultView {
        url: r.url,
        status_code: r.status_code,
        content_length: r.content_length,
        content_type: r.content_type,
        source,
    }
}

/// The value of an optional target.
pub open spec fn opt_target_view(t: Option<(String, FuzzSource)>) -> Option<(Seq<char>, FuzzSource)> {
    match t {
        Some(x) => Some((x.0@, x.1)),
        None => None,
    }
}

impl FuzzState {
    /// Starts a run: the targets are dealt out in turn to the queues of
    /// `workers` workers.
    pub fn new(targets: Vec<(String, FuzzSource)>, workers: usize, wordlist: Vec<String>) -> (s:
        FuzzState)
        requires
            workers > 0,
        ensures
            s@ == initial_model(
                target_views(targets@),
                workers as int,
                string_views(wordlist@),
            ),
            model_ok(s@),
    {
        let ghost tv = target_views(targets@);
        proof {
            initial_model_is_ok(tv, workers as int, string_views(wordlist@));
        }
        let mut queues: Vec<VecDeque<(String, FuzzSource)>> = Vec::new();
        let mut w: usize = 0;
        while w < workers
            invariant
                w <= workers,
                queues@.len() == w,
                forall|k: int| 0 <= k < w ==> (#[trigger] queues@[k])@.len() == 0,
            decreases workers - w,
        {
            queues.push(VecDeque::new());
            w += 1;
        }
        let mut i: usize = 0;
        assert(tv.take(0) =~= Seq::<(Seq<char>, FuzzSource)>::empty());
        assert forall|k: int| 0 <= k < workers implies target_views((#[trigger] queues@[k])@)
            == share(tv.take(0), workers as int, k) by {
            assert(target_views(queues@[k]@) =~= Seq::<(Seq<char>, FuzzSource)>::empty());
        }
        while i < targets.len()
            invariant
                i <= targets.len(),
                workers > 0,
                queues@.len() == workers,
                tv == target_views(targets@),
                forall|k: int|
                    0 <= k < workers ==> target_views((#[trigger] queues@[k])@) == share(
                        tv.take(i as int),
                        workers as int,
                        k,
                    ),
            decreases targets.len() - i,
        {
            let to: usize = i % workers;
            let item = (targets[i].0.clone(), targets[i].1);
            let ghost before = queues@;
            queues[to].push_back(item);
            proof {
                assert(tv.take(i + 1).drop_last() =~= tv.take(i as int));
                assert(tv.take(i + 1).last() == (targets@[i as int].0@, targets@[i as int].1));
                assert forall|k: int| 0 <= k < workers implies target_views(
                    (#[trigger] queues@[k])@,
                ) == share(tv.take(i + 1), workers as int, k) by {
                    if k == to {
                        assert(target_views(queues@[k]@) =~= target_views(before[k]@).push(
                            (item.0@, item.1),
                        ));
                    } else {
                        assert(queues@[k] == before[k]);
                    }
                }
            }
            i += 1;
        }
        assert(tv.take(i as int) =~= tv);
        let s = FuzzState { queues, tested: Vec::new(), results: Vec::new(), wordlist };
        proof {
            let m = initial_model(tv, workers as int, string_views(wordlist@));
            assert(s@.queues =~= m.queues);
            assert(s@.tested =~= m.tested);
            assert(s@.results =~= m.results);
        }
        s
    }

    /// The number of workers.
    pub fn worker_count(&self) -> (n: usize)
        ensures
            n == self@.queues.len(),
    {
        self.queues.len()
    }

    /// The number of targets that wait in the queue of `worker_id`.
    pub fn pending(&self, worker_id: usize) -> (n: usize)
        requires
            worker_id < self@.queues.len(),
        ensures
            n == self@.queues[worker_id as int].len(),
    {
        self.queues[worker_id].len()
    }

    /// The results recorded so far, in the order of their arrival. None of
    /// them is a server error.
    pub fn results(&self) -> (r: &Vec<FuzzResult>)
        ensures
            result_views(r@) == self@.results,
            model_ok(self@) ==> forall|i: int|
                0 <= i < r@.len() ==> (#[trigger] r@[i]).status_code < 500,
    {
        proof {
            if model_ok(self@) {
                assert forall|i: int| 0 <= i < self.results@.len() implies (
                #[trigger] self.results@[i]).status_code < 500 by {
                    assert(self@.results[i].status_code == self.results@[i].status_code);
                }
            }
        }
        &self.results
    }

    /// Ends the run and hands over the recorded results. None of them is a
    /// server error.
    pub fn into_results(self) -> (r: Vec<FuzzResult>)
        ensures
            result_views(r@) == self@.results,
            model_ok(self@) ==> forall|i: int|
                0 <= i < r@.len() ==> (#[trigger] r@[i]).status_code < 500,
    {
        proof {
            if model_ok(self@) {
                assert forall|i: int| 0 <= i < self.results@.len() implies (
                #[trigger] self.results@[i]).status_code < 500 by {
                    assert(self@.results[i].status_code == self.results@[i].status_code);
                }
            }
        }
        self.results
    }

    /// Hands the next target to the worker `worker_id`: the front of its own
    /// queue, else the back of the queue of the first other worker that has
    /// work. `None` means that every queue is empty.
    pub fn next_work(&mut self, worker_id: usize) -> (work: Option<(String, FuzzSource)>)
        requires
            worker_id < old(self)@.queues.len(),
        ensures
            (final(self)@, opt_target_view(work)) == take_work(old(self)@, worker_id as int),
            model_ok(old(self)@) ==> model_ok(final(self)@),
    {
        let ghost m = self@;
        proof {
            if model_ok(m) {
                take_work_keeps_order(m, worker_id as int);
            }
        }
        let own = self.queues[worker_id].pop_front();
        if let Some(item) = own {
            proof {
                assert(self@.queues =~= m.queues.update(
                    worker_id as int,
                    m.queues[worker_id as int].drop_first(),
                )) by {
                    assert forall|k: int| 0 <= k < m.queues.len() implies self@.queues[k]
                        == m.queues.update(
                        worker_id as int,
                        m.queues[worker_id as int].drop_first(),
                    )[k] by {
                        if k == worker_id {
                            assert(target_views(self.queues@[k]@) =~= target_views(
                                old(self).queues@[k]@,
                            ).drop_first());
                        }
                    }
                }
            }
            return Some(item);
        }
        assert(self@ == m) by {
            assert(self@.queues =~= m.queues);
        }
        let mut p: usize = 0;
        while p < self.queues.len()
            invariant
                p <= self.queues@.len(),
                self@ == m,
                m == old(self)@,
                worker_id < m.queues.len(),
                m.queues[worker_id as int].len() == 0,
                first_busy_peer(m.queues, worker_id as int, 0) == first_busy_peer(
                    m.queues,
                    worker_id as int,
                    p as int,
                ),
            decreases self.queues@.len() - p,
        {
            if p != worker_id {
                let ghost before = self.queues@;
                let stolen = self.queues[p].pop_back();
                if let Some(item) = stolen {
                    proof {
                        assert(m.queues[p as int] == target_views(before[p as int]@));
                        assert(m.queues[p as int].len() > 0);
                        assert(m.queues[p as int].last() == (item.0@, item.1));
                        assert(first_busy_peer(m.queues, worker_id as int, p as int) == p);
                        assert(first_busy_peer(m.queues, worker_id as int, 0) == p);
                        assert(self@.queues =~= m.queues.update(
                            p as int,
                            m.queues[p as int].drop_last(),
                        )) by {
                            assert forall|k: int| 0 <= k < m.queues.len() implies self@.queues[k]
                                == m.queues.update(p as int, m.queues[p as int].drop_last())[k] by {
                                if k == p {
                                    assert(target_views(self.queues@[k]@) =~= target_views(
                                        before[k]@,
                                    ).drop_last());
                                } else {
                                    assert(self.queues@[k] == before[k]);
                                }
                            }
                        }
                    }
                    return Some(item);
                }
                proof {
                    assert(self@.queues =~= m.queues) by {
                        assert forall|k: int| 0 <= k < m.queues.len() implies self@.queues[k]
                            == m.queues[k] by {
                            if k != p {
                                assert(self.queues@[k] == before[k]);
                            }
                        }
                    }
                    assert(m.queues[p as int].len() == 0);
                }
            }
            p += 1;
        }
        None
    }

    /// Records the response to a target that `worker_id` was handed, with
    /// the origin `source` of that target. The response is kept unless its
    /// status is 500 or more. A hit whose base URL has not been expanded yet
    /// puts one target for each word at the back of the worker's own queue.
    /// The result says whether the response was a hit.
    pub fn record_response(&mut self, worker_id: usize, result: FuzzResult, source: FuzzSource) -> (hit:
        bool)
        requires
            worker_id < old(self)@.queues.len(),
        ensures
            final(self)@ == record(old(self)@, worker_id as int, with_source(result@, source)),
            hit == is_hit(result.status_code),
            model_ok(old(self)@) ==> model_ok(final(self)@),
    {
        let ghost m = self@;
        let ghost rv = with_source(result@, source);
        proof {
            if model_ok(m) {
                record_keeps_order(m, worker_id as int, rv);
            }
        }
        let status = result.status_code;
        let hit = status >= 200 && status < 400;
        let base = if hit {
            match extract_base_url(result.url.as_str()) {
                Ok(b) => if contains_string(&self.tested, b.as_str()) {
                    None
                } else {
                    Some(b)
                },
                Err(_) => None,
            }
        } else {
            None
        };
        assert(crate::data::opt_chars(base) == new_base(m, rv));
        if status < 500 {
            let kept = FuzzResult {
                url: result.url,
                status_code: result.status_code,
                content_length: result.content_length,
                content_type: result.content_type,
                source,
            };
            let ghost before = self.results@;
            self.results.push(kept);
            assert(result_views(self.results@) =~= result_views(before).push(rv));
        }
        assert(self@.queues =~= m.queues);
        if let Some(b) = base {
            let ghost q0 = m.queues[worker_id as int];
            let mut i: usize = 0;
            assert(m.words.take(0) =~= Seq::<Seq<char>>::empty());
            assert(q0 + expansion(b@, m.words.take(0)) =~= q0);
            while i < self.wordlist.len()
                invariant
                    i <= self.wordlist@.len(),
                    worker_id < self.queues@.len(),
                    self.queues@.len() == m.queues.len(),
                    m.words == string_views(self.wordlist@),
                    self@.tested == m.tested,
                    self@.results == record(m, worker_id as int, rv).results,
                    q0 == m.queues[worker_id as int],
                    forall|k: int|
                        0 <= k < m.queues.len() && k != worker_id ==> #[trigger] self@.queues[k]
                            == m.queues[k],
                    self@.queues[worker_id as int] == q0 + expansion(b@, m.words.take(i as int)),
                decreases self.wordlist@.len() - i,
            {
                proof {
                    assert(m.words.take(i + 1).drop_last() =~= m.words.take(i as int));
                    assert(m.words.take(i + 1).last() == self.wordlist@[i as int]@);
                }
                let ghost before = self.queues@;
                let ghost before_model = self@;
                match build_test_url(b.as_str(), self.wordlist[i].as_str()) {
                    Ok(url) => {
                        let ghost u = url@;
                        self.queues[worker_id].push_back((url, FuzzSource::Discovered));
                        proof {
                            assert(target_views(self.queues@[worker_id as int]@) =~= target_views(
                                before[worker_id as int]@,
                            ).push((u, FuzzSource::Discovered)));
                            assert(self@.queues[worker_id as int] =~= q0 + expansion(
                                b@,
                                m.words.take(i + 1),
                            ));
                            assert forall|k: int|
                                0 <= k < m.queues.len() && k != worker_id implies #[trigger] self@.queues[k]
                                == m.queues[k] by {
                                assert(self.queues@[k] == before[k]);
                                assert(before_model.queues[k] == m.queues[k]);
                            }
                        }
                    },
                    Err(_) => {},
                }
                i += 1;
            }
            assert(m.words.take(i as int) =~= m.words);
            self.tested.push(b);
            proof {
                let n = record(m, worker_id as int, rv);
                assert(self@.tested =~= n.tested);
                assert(self@.queues =~= n.queues);
            }
        }
        hit
    }
}

/// The hosts of the target URLs, in order: one for each target that is a URL
/// with a host.
pub open spec fn target_hosts(targets: Seq<Seq<char>>) -> Seq<Seq<char>>
    decreases targets.len(),
{
    if targets.len() == 0 {
        Seq::empty()
    } else {
        match crate::urls::host_of(targets.last()) {
            Some(h) => target_hosts(targets.drop_last()).push(h),
            None => target_hosts(targets.drop_last()),
        }
    }
}

/// The domains for which endpoints of earlier crawls are looked up: the
/// hosts of the target URLs.
pub fn target_domains(target_urls: &Vec<String>) -> (domains: Vec<String>)
    ensures
        string_views(domains@) == target_hosts(string_views(target_urls@)),
{
    let ghost tv = string_views(target_urls@);
    let mut domains: Vec<String> = Vec::new();
    let mut i: usize = 0;
    assert(tv.take(0) =~= Seq::<Seq<char>>::empty());
    assert(string_views(domains@) =~= Seq::<Seq<char>>::empty());
    while i < target_urls.len()
        invariant
            i <= target_urls.len(),
            tv == string_views(target_urls@),
            string_views(domains@) == target_hosts(tv.take(i as int)),
        decreases target_urls.len() - i,
    {
        proof {
            assert(tv.take(i + 1).drop_last() =~= tv.take(i as int));
            assert(tv.take(i + 1).last() == target_urls@[i as int]@);
        }
        match ParsedUrl::parse(target_urls[i].as_str()) {
            Ok(parts) => match parts.host {
                Some(h) => {
                    let ghost before = domains@;
                    let ghost hv = h@;
                    domains.push(h);
                    assert(string_views(domains@) =~= string_views(before).push(hv));
                },
                None => {},
            },
            Err(_) => {},
        }
        i += 1;
    }
    assert(tv.take(i as int) =~= tv);
    domains
}

/// The stored URLs that belong to `domain`, in order: those that are URLs
/// whose host is the domain or ends with a dot and the domain.
pub open spec fn endpoints_in_domain(stored: Seq<Seq<char>>, domain: Seq<char>) -> Seq<Seq<char>>
    decreases stored.len(),
{
    if stored.len() == 0 {
        Seq::empty()
    } else if crate::crawler::same_domain(stored.last(), domain) {
        endpoints_in_domain(stored.drop_last(), domain).push(stored.last())
    } else {
        endpoints_in_domain(stored.drop_last(), domain)
    }
}

/// Picks from the URLs stored for `domain` those that lie within it. They
/// become bases of the fuzz run.
pub fn known_endpoints(stored: &Vec<String>, domain: &str) -> (endpoints: Vec<String>)
    ensures
        string_views(endpoints@) == endpoints_in_domain(string_views(stored@), domain@),
{
    let ghost sv = string_views(stored@);
    let mut endpoints: Vec<String> = Vec::new();
    let mut i: usize = 0;
    assert(sv.take(0) =~= Seq::<Seq<char>>::empty());
    assert(string_views(endpoints@) =~= Seq::<Seq<char>>::empty());
    while i < stored.len()
        invariant
            i <= stored.len(),
            sv == string_views(stored@),
            string_views(endpoints@) == endpoints_in_domain(sv.take(i as int), domain@),
        decreases stored.len() - i,
    {
        proof {
            assert(sv.take(i + 1).drop_last() =~= sv.take(i as int));
            assert(sv.take(i + 1).last() == stored@[i as int]@);
        }
        if crate::crawler::is_same_domain(stored[i].as_str(), domain) {
            let ghost before = endpoints@;
            let copy = stored[i].clone();
            endpoints.push(copy);
            assert(string_views(endpoints@) =~= string_views(before).push(stored@[i as int]@));
        }
        i += 1;
    }
    assert(sv.take(i as int) =~= sv);
    endpoints
}

/// A path in the file system, as `std::path::PathBuf` holds it. The library
/// only carries such a path; it never opens it.
#[verifier::external_type_specification]
#[verifier::external_body]
pub struct ExPathBuf(std::path::PathBuf);

/// The options of a fuzz run.
pub struct FuzzOptions {
    pub base_urls: Vec<String>,
    pub wordlist: Vec<String>,
    pub threads: usize,
    pub show_progress_bars: bool,
    pub use_head_requests: bool,
    pub timeout_secs: u64,
    /// The store of earlier crawls, if its endpoints are to be fuzzed too.
    pub db_path: Option<std::path::PathBuf>,
}

} // verus!
