//! The report of a scan as text.

use vstd::prelude::*;
use vstd::string::StringExecFns;
use vstd::utf8::encode_utf8;
use crate::report::{FindingData, ReportData, SitemapNode};
use crate::text::{
    before_char, char_is_whitespace, chars_of, decimal, find_char, index_of_char, is_whitespace,
    owned, push_char, push_decimal, push_signed_decimal, signed_decimal, str_eq, string_of,
    string_views, to_uppercase, uppercase,
};
use crate::urls::{ParsedUrl, host_of, parse_outcome};

verus! {

/// The moment `timestamp` seconds after the start of 1970, in UTC, written
/// in the strftime layout `layout`; `None` where the moment lies outside
/// the range of dates or the layout cannot be written.
pub uninterp spec fn utc_text(timestamp: i64, layout: Seq<char>) -> Option<Seq<char>>;

/// The list of strings that the JSON text `json` holds; `None` where it is
/// no JSON array of strings.
pub uninterp spec fn json_string_list(json: Seq<char>) -> Option<Seq<Seq<char>>>;

/// The character `c` in upper case, which may be more than one character.
pub uninterp spec fn upper_of_char(c: char) -> Seq<char>;

/// Makes the moment with `chrono::DateTime::<Utc>::from_timestamp(timestamp,
/// 0)` and writes it with `DateTime::format(layout)` and
/// `DelayedFormat::write_to`.
///
/// The contract only names the outcome. It is `None` where chrono makes no
/// moment of the timestamp, or reports an error while writing.
#[verifier::external_body]
pub(crate) fn utc_date_text(timestamp: i64, layout: &str) -> (r: Option<String>)
    ensures
        crate::data::opt_chars(r) == utc_text(timestamp, layout@),
{
    let mut text = String::new();
    match ::chrono::DateTime::<::chrono::Utc>::from_timestamp(timestamp, 0) {
        Some(moment) => match moment.format(layout).write_to(&mut text) {
            Ok(_) => Some(text),
            Err(_) => None,
        },
        None => None,
    }
}

/// Reads the clock with `chrono::Utc::now()` and writes the moment with
/// `DateTime::format(layout)` and `DelayedFormat::write_to`. Nothing is
/// claimed of the text: it depends on when the call is made.
#[verifier::external_body]
pub(crate) fn current_utc_text(layout: &str) -> (r: String) {
    let mut text = String::new();
    let _ = ::chrono::Utc::now().format(layout).write_to(&mut text);
    text
}

/// Reads a JSON array of strings with `serde_json::from_str`.
///
/// The contract only names the outcome.
#[verifier::external_body]
pub(crate) fn parse_string_list(json: &str) -> (r: Option<Vec<String>>)
    ensures
        match r {
            Some(list) => json_string_list(json@) == Some(string_views(list@)),
            None => json_string_list(json@) is None,
        },
{
    ::serde_json::from_str::<Vec<String>>(json).ok()
}

/// Upper-cases one character with `char::to_uppercase`, which follows
/// Unicode's case tables. The contract only names the result.
#[verifier::external_body]
pub(crate) fn char_to_uppercase(c: char) -> (r: String)
    ensures
        r@ == upper_of_char(c),
{
    c.to_uppercase().collect()
}

/// The words of `s` from position `i` on, where `current` holds the
/// characters of the word that `i` stands in. A word is a longest run of
/// characters that are not white space.
pub open spec fn words_from(s: Seq<char>, i: int, current: Seq<char>) -> Seq<Seq<char>>
    decreases s.len() - i,
{
    let finished = if current.len() > 0 {
        seq![current]
    } else {
        Seq::empty()
    };
    if i < 0 || i >= s.len() {
        finished
    } else if is_whitespace(s[i]) {
        finished + words_from(s, i + 1, Seq::empty())
    } else {
        words_from(s, i + 1, current.push(s[i]))
    }
}

/// The words of `s`.
pub open spec fn words_of(s: Seq<char>) -> Seq<Seq<char>> {
    words_from(s, 0, Seq::empty())
}

/// The words of `text`, in order.
pub fn split_words(text: &str) -> (words: Vec<String>)
    ensures
        string_views(words@) == words_of(text@),
{
    let v = chars_of(text);
    let mut words: Vec<String> = Vec::new();
    let mut current = String::new();
    let mut i: usize = 0;
    assert(string_views(words@) + words_from(v@, 0, current@) =~= words_of(text@));
    while i < v.len()
        invariant
            i <= v.len(),
            v@ == text@,
            string_views(words@) + words_from(v@, i as int, current@) == words_of(text@),
        decreases v.len() - i,
    {
        if char_is_whitespace(v[i]) {
            if current.as_str().unicode_len() > 0 {
                let ghost before = words@;
                let ghost w = current@;
                words.push(current);
                current = String::new();
                assert(string_views(words@) =~= string_views(before).push(w));
                assert(string_views(before) + (seq![w] + words_from(v@, i + 1, Seq::empty()))
                    =~= string_views(words@) + words_from(v@, i + 1, current@));
            } else {
                assert(current@ =~= Seq::<char>::empty());
                assert(string_views(words@) + (Seq::<Seq<char>>::empty() + words_from(
                    v@,
                    i + 1,
                    Seq::empty(),
                )) =~= string_views(words@) + words_from(v@, i + 1, current@));
            }
        } else {
            push_char(&mut current, v[i]);
        }
        i += 1;
    }
    if current.as_str().unicode_len() > 0 {
        let ghost before = words@;
        let ghost w = current@;
        words.push(current);
        assert(string_views(words@) =~= string_views(before).push(w));
        assert(string_views(words@) =~= string_views(before) + seq![w]);
    } else {
        assert(string_views(words@) + Seq::<Seq<char>>::empty() =~= string_views(words@));
    }
    words
}

/// `s` with every `from` replaced by `to`.
pub open spec fn replaced(s: Seq<char>, from: char, to: char) -> Seq<char> {
    s.map_values(
        |c: char|
            if c == from {
                to
            } else {
                c
            },
    )
}

/// The word with its first character in upper case.
pub open spec fn capitalized(word: Seq<char>) -> Seq<char> {
    if word.len() == 0 {
        word
    } else {
        upper_of_char(word[0]) + word.drop_first()
    }
}

/// The words, each capitalized, with one space between them.
pub open spec fn title_of_words(words: Seq<Seq<char>>) -> Seq<char>
    decreases words.len(),
{
    if words.len() == 0 {
        Seq::empty()
    } else if words.len() == 1 {
        capitalized(words[0])
    } else {
        title_of_words(words.drop_last()) + " "@ + capitalized(words.last())
    }
}

/// The name of a finding kind as a title: underscores become spaces, and
/// every word begins with a capital.
pub open spec fn finding_type_title(finding_type: Seq<char>) -> Seq<char> {
    title_of_words(words_of(replaced(finding_type, '_', ' ')))
}

/// Joins words into a title: each is capitalized, and one space stands
/// between two.
pub fn title_case(words: &Vec<String>) -> (title: String)
    ensures
        title@ == title_of_words(string_views(words@)),
{
    let ghost wv = string_views(words@);
    let mut title = String::new();
    let mut i: usize = 0;
    assert(wv.take(0) =~= Seq::<Seq<char>>::empty());
    while i < words.len()
        invariant
            i <= words.len(),
            wv == string_views(words@),
            title@ == title_of_words(wv.take(i as int)),
        decreases words.len() - i,
    {
        proof {
            assert(wv.take(i + 1).drop_last() =~= wv.take(i as int));
            assert(wv.take(i + 1).last() == words@[i as int]@);
            if i == 0 {
                assert(wv.take(1)[0] == words@[0]@);
            }
        }
        if i > 0 {
            title.append(" ");
        }
        let w = chars_of(words[i].as_str());
        if w.len() > 0 {
            let first = char_to_uppercase(w[0]);
            let rest = string_of(&w, 1, w.len());
            assert(w@.subrange(1, w@.len() as int) =~= w@.drop_first());
            let ghost before = title@;
            title.append(first.as_str());
            title.append(rest.as_str());
            assert(title@ =~= before + capitalized(w@));
        } else {
            assert(title@ =~= title@ + capitalized(w@));
        }
        assert(title@ =~= title_of_words(wv.take(i + 1)));
        i += 1;
    }
    assert(wv.take(i as int) =~= wv);
    title
}

/// Writes the name of a finding kind as a title.
pub fn format_finding_type(finding_type: &str) -> (title: String)
    ensures
        title@ == finding_type_title(finding_type@),
{
    let v = chars_of(finding_type);
    let mut spaced = String::new();
    let mut i: usize = 0;
    while i < v.len()
        invariant
            i <= v.len(),
            v@ == finding_type@,
            spaced@ == replaced(v@.take(i as int), '_', ' '),
        decreases v.len() - i,
    {
        let c = if v[i] == '_' {
            ' '
        } else {
            v[i]
        };
        push_char(&mut spaced, c);
        assert(spaced@ =~= replaced(v@.take(i + 1), '_', ' '));
        i += 1;
    }
    assert(v@.take(i as int) =~= v@);
    let words = split_words(spaced.as_str());
    title_case(&words)
}

/// The length of `s` in bytes.
pub open spec fn byte_len(s: Seq<char>) -> nat {
    encode_utf8(s).len()
}

/// The text of the words from the `i`-th on, wrapped: a word that would
/// make the line `current` longer than `limit` bytes, counting the space
/// before it, starts a new line. Every line begins with `indent` and ends
/// with a line feed.
pub open spec fn wrapped_from(
    words: Seq<Seq<char>>,
    i: int,
    current: Seq<char>,
    limit: int,
    indent: Seq<char>,
) -> Seq<char>
    decreases words.len() - i,
{
    if i < 0 || i >= words.len() {
        if current.len() > 0 {
            indent + current + "\n"@
        } else {
            Seq::empty()
        }
    } else {
        let word = words[i];
        let full = current.len() > 0 && byte_len(current) + byte_len(word) + 1 > limit;
        let kept = if full {
            Seq::empty()
        } else {
            current
        };
        let line = if kept.len() > 0 {
            kept + " "@ + word
        } else {
            word
        };
        (if full {
            indent + current + "\n"@
        } else {
            Seq::empty()
        }) + wrapped_from(words, i + 1, line, limit, indent)
    }
}

/// `text` wrapped to lines of `width` bytes that begin with `indent`.
pub open spec fn wrapped(text: Seq<char>, width: int, indent: Seq<char>) -> Seq<char> {
    wrapped_from(words_of(text), 0, Seq::empty(), width - byte_len(indent), indent)
}

/// Wraps `text` to lines of at most `width` bytes, as far as its words
/// allow: words are never broken. Every line begins with `indent`, which
/// counts towards the width, and ends with a line feed.
pub fn wrap_text(text: &str, width: usize, indent: &str) -> (result: String)
    requires
        byte_len(indent@) <= width,
    ensures
        result@ == wrapped(text@, width as int, indent@),
{
    let limit: usize = width - indent.as_bytes().len();
    let words = split_words(text);
    let ghost wv = string_views(words@);
    let mut result = String::new();
    let mut current = String::new();
    let mut i: usize = 0;
    assert(result@ + wrapped_from(wv, 0, current@, limit as int, indent@) =~= wrapped(
        text@,
        width as int,
        indent@,
    ));
    while i < words.len()
        invariant
            i <= words.len(),
            wv == string_views(words@),
            limit == width - byte_len(indent@),
            result@ + wrapped_from(wv, i as int, current@, limit as int, indent@) == wrapped(
                text@,
                width as int,
                indent@,
            ),
        decreases words.len() - i,
    {
        let word = words[i].as_str();
        let ghost cur = current@;
        let ghost res = result@;
        let current_bytes = current.as_str().as_bytes().len();
        let word_bytes = word.as_bytes().len();
        let full = current.as_str().unicode_len() > 0 && (current_bytes as u128) + (
        word_bytes as u128) + 1 > (limit as u128);
        if full {
            result.append(indent);
            result.append(current.as_str());
            result.append("\n");
            current = String::new();
        }
        if current.as_str().unicode_len() > 0 {
            current.append(" ");
        }
        current.append(word);
        proof {
            let kept = if full {
                Seq::<char>::empty()
            } else {
                cur
            };
            let line = if kept.len() > 0 {
                kept + " "@ + word@
            } else {
                word@
            };
            assert(current@ =~= line);
            let flushed = if full {
                indent@ + cur + "\n"@
            } else {
                Seq::<char>::empty()
            };
            assert(result@ =~= res + flushed);
            assert(res + (flushed + wrapped_from(wv, i + 1, line, limit as int, indent@))
                =~= result@ + wrapped_from(wv, i + 1, current@, limit as int, indent@));
        }
        i += 1;
    }
    if current.as_str().unicode_len() > 0 {
        let ghost res = result@;
        result.append(indent);
        result.append(current.as_str());
        result.append("\n");
        assert(result@ =~= res + (indent@ + current@ + "\n"@));
    } else {
        assert(result@ + Seq::<char>::empty() =~= result@);
    }
    result
}

/// The sign that tells the kind of a status at a glance.
pub open spec fn status_indicator(code: u16) -> Seq<char> {
    if 200 <= code <= 299 {
        "✓"@
    } else if 300 <= code <= 399 {
        "→"@
    } else if 400 <= code <= 499 {
        "⚠"@
    } else if 500 <= code <= 599 {
        "✗"@
    } else {
        "?"@
    }
}

/// What stands between the first slash of `s` and the next, or the end;
/// `None` where `s` holds no slash.
pub open spec fn second_segment(s: Seq<char>) -> Option<Seq<char>> {
    let i = index_of_char(s, '/') as int;
    if i >= s.len() {
        None
    } else {
        Some(before_char(s.subrange(i + 1, s.len() as int), '/'))
    }
}

/// The short form of a content type: its subtype, without parameters, or a
/// question mark where there is none.
pub open spec fn content_type_short(content_type: Option<Seq<char>>) -> Seq<char> {
    match content_type {
        Some(ct) => match second_segment(before_char(ct, ';')) {
            Some(sub) => sub,
            None => "?"@,
        },
        None => "?"@,
    }
}

/// How the URL of the `i`-th node is shown: host and path, with the host
/// left out where the node before has the same; the text itself where it is
/// no URL.
pub open spec fn shown_url(nodes: Seq<SitemapNode>, i: int) -> Seq<char> {
    match parse_outcome(nodes[i].url@) {
        Ok(parts) => {
            let host = match parts.host {
                Some(h) => h,
                None => "unknown"@,
            };
            if i > 0 && host_of(nodes[i - 1].url@) == Some(host) {
                "    "@ + parts.path
            } else {
                host + parts.path
            }
        },
        Err(_) => nodes[i].url@,
    }
}

/// The line of the `i`-th node of the site map.
pub open spec fn sitemap_line(nodes: Seq<SitemapNode>, i: int) -> Seq<char> {
    (if i == nodes.len() - 1 {
        "└── "@
    } else {
        "├── "@
    }) + shown_url(nodes, i) + "  ["@ + status_indicator(nodes[i].status_code) + " "@ + decimal(
        nodes[i].status_code as nat,
    ) + "] "@ + content_type_short(crate::data::opt_chars(nodes[i].content_type)) + "\n"@
}

/// The lines of the first `n` nodes of the site map.
pub open spec fn sitemap_lines(nodes: Seq<SitemapNode>, n: int) -> Seq<char>
    decreases n,
{
    if n <= 0 {
        Seq::empty()
    } else {
        sitemap_lines(nodes, n - 1) + sitemap_line(nodes, n - 1)
    }
}

/// The site map as text: one line for each node, in the order given.
pub open spec fn sitemap_tree(nodes: Seq<SitemapNode>) -> Seq<char> {
    if nodes.len() == 0 {
        "  (empty)\n"@
    } else {
        sitemap_lines(nodes, nodes.len() as int)
    }
}

/// The short form of a content type.
pub fn short_content_type(content_type: &Option<String>) -> (short: String)
    ensures
        short@ == content_type_short(crate::data::opt_chars(*content_type)),
{
    match content_type {
        Some(ct) => {
            let v = chars_of(ct.as_str());
            assert(v@.subrange(0, v@.len() as int) =~= v@);
            let semi = find_char(&v, 0, ';');
            let head = string_of(&v, 0, semi);
            let h = chars_of(head.as_str());
            assert(h@.subrange(0, h@.len() as int) =~= h@);
            let slash = find_char(&h, 0, '/');
            if slash >= h.len() {
                owned("?")
            } else {
                let end = find_char(&h, slash + 1, '/');
                let sub = string_of(&h, slash + 1, end);
                proof {
                    let tail = h@.subrange(slash + 1, h@.len() as int);
                    assert(tail.subrange(0, end - (slash + 1)) =~= h@.subrange(
                        slash + 1,
                        end as int,
                    ));
                }
                sub
            }
        },
        None => owned("?"),
    }
}

fn shown_url_text(nodes: &Vec<SitemapNode>, i: usize, previous_host: &Option<String>) -> (r: (
    String,
    Option<String>,
))
    requires
        i < nodes.len(),
        i > 0 ==> crate::data::opt_chars(*previous_host) == host_of(nodes@[i - 1].url@),
    ensures
        r.0@ == shown_url(nodes@, i as int),
        crate::data::opt_chars(r.1) == host_of(nodes@[i as int].url@),
{
    let node = &nodes[i];
    match ParsedUrl::parse(node.url.as_str()) {
        Ok(parts) => {
            let host = match &parts.host {
                Some(h) => h.clone(),
                None => owned("unknown"),
            };
            let same = i > 0 && match previous_host {
                Some(p) => str_eq(p.as_str(), host.as_str()),
                None => false,
            };
            let shown = if same {
                owned("    ").concat(parts.path.as_str())
            } else {
                host.concat(parts.path.as_str())
            };
            (shown, parts.host)
        },
        Err(_) => (node.url.clone(), None),
    }
}

fn indicator(code: u16) -> (sign: &'static str)
    ensures
        sign@ == status_indicator(code),
{
    if code >= 200 && code <= 299 {
        "✓"
    } else if code >= 300 && code <= 399 {
        "→"
    } else if code >= 400 && code <= 499 {
        "⚠"
    } else if code >= 500 && code <= 599 {
        "✗"
    } else {
        "?"
    }
}

fn sitemap_line_text(nodes: &Vec<SitemapNode>, i: usize, shown: &str) -> (line: String)
    requires
        i < nodes.len(),
        shown@ == shown_url(nodes@, i as int),
    ensures
        line@ == sitemap_line(nodes@, i as int),
{
    let node = &nodes[i];
    let mut line = if i == nodes.len() - 1 {
        owned("└── ")
    } else {
        owned("├── ")
    };
    line.append(shown);
    line.append("  [");
    line.append(indicator(node.status_code));
    line.append(" ");
    push_decimal(&mut line, node.status_code as u128);
    line.append("] ");
    let short = short_content_type(&node.content_type);
    line.append(short.as_str());
    line.append("\n");
    line
}

/// Writes the site map: one line for each node, with its URL, status and
/// content type.
pub fn generate_sitemap_tree(nodes: &Vec<SitemapNode>) -> (tree: String)
    ensures
        tree@ == sitemap_tree(nodes@),
{
    if nodes.len() == 0 {
        return owned("  (empty)\n");
    }
    let mut tree = String::new();
    let mut previous_host: Option<String> = None;
    let mut i: usize = 0;
    while i < nodes.len()
        invariant
            i <= nodes.len(),
            tree@ == sitemap_lines(nodes@, i as int),
            i > 0 ==> crate::data::opt_chars(previous_host) == host_of(nodes@[i - 1].url@),
        decreases nodes.len() - i,
    {
        let (shown, host_now) = shown_url_text(nodes, i, &previous_host);
        let line = sitemap_line_text(nodes, i, shown.as_str());
        tree.append(line.as_str());
        previous_host = host_now;
        i += 1;
    }
    tree
}

/// The heavy rule that frames the parts of the report.
pub open spec fn report_rule() -> Seq<char> {
    "━━━━━━━━━━━━━━━━━━━━━━━━━━━━━━━━━━━━━━━━━━━━━━━━━━━━━━━━━━━━━━━━━━━━━━━━━━━━━━\n"@
}

/// The light rule that ends one finding.
pub open spec fn finding_rule() -> Seq<char> {
    "────────────────────────────────────────────────────────────────────────────────\n\n"@
}

fn push_report_rule(out: &mut String)
    ensures
        final(out)@ == old(out)@ + report_rule(),
{
    out.append("━━━━━━━━━━━━━━━━━━━━━━━━━━━━━━━━━━━━━━━━━━━━━━━━━━━━━━━━━━━━━━━━━━━━━━━━━━━━━━\n");
}

/// The status of a scan as the report shows it.
pub open spec fn status_text(status: Seq<char>) -> Seq<char> {
    if status == "completed"@ {
        "Completed"@
    } else if status == "failed"@ {
        "Failed"@
    } else if status == "running"@ {
        "Running"@
    } else if status == "cancelled"@ {
        "Cancelled"@
    } else {
        "Unknown"@
    }
}

/// The targets of a scan as the report shows them: the URL where there is
/// one, else their number, and `Unknown` where the list cannot be read.
pub open spec fn targets_text(list: Option<Seq<Seq<char>>>) -> Seq<char> {
    match list {
        Some(urls) => if urls.len() == 1 {
            urls[0]
        } else {
            decimal(urls.len()) + " URLs"@
        },
        None => "Unknown"@,
    }
}

/// The layout in which the report writes the date of the scan.
pub open spec fn date_layout() -> Seq<char> {
    "%Y-%m-%d %H:%M:%S UTC"@
}

impl ReportData {
    /// The status of the scan as the report shows it.
    pub fn status_to_string(&self) -> (text: &'static str)
        ensures
            text@ == status_text(self.scan_info.status@),
    {
        let status = self.scan_info.status.as_str();
        if str_eq(status, "completed") {
            "Completed"
        } else if str_eq(status, "failed") {
            "Failed"
        } else if str_eq(status, "running") {
            "Running"
        } else if str_eq(status, "cancelled") {
            "Cancelled"
        } else {
            "Unknown"
        }
    }

    /// The targets of the scan as the report shows them.
    pub fn format_targets(&self) -> (text: String)
        ensures
            text@ == targets_text(json_string_list(self.scan_info.seed_urls@)),
    {
        match parse_string_list(self.scan_info.seed_urls.as_str()) {
            Some(urls) => {
                if urls.len() == 1 {
                    urls[0].clone()
                } else {
                    let mut text = String::new();
                    push_decimal(&mut text, urls.len() as u128);
                    text.append(" URLs");
                    assert(text@ =~= decimal(urls@.len()) + " URLs"@);
                    text
                }
            },
            None => owned("Unknown"),
        }
    }

    /// The moment `timestamp` as the report shows it. A timestamp outside
    /// the range of dates is shown as the present moment.
    pub fn format_timestamp(&self, timestamp: i64) -> (text: String)
        ensures
            utc_text(timestamp, date_layout()) is Some ==> text@ == utc_text(
                timestamp,
                date_layout(),
            )->Some_0,
    {
        match utc_date_text(timestamp, "%Y-%m-%d %H:%M:%S UTC") {
            Some(text) => text,
            None => current_utc_text("%Y-%m-%d %H:%M:%S UTC"),
        }
    }
}

/// The head of the report: the title, and what is known of the session.
pub open spec fn session_block(data: ReportData, scan_date: Seq<char>, targets: Seq<char>) -> Seq<
    char,
> {
    report_rule() + "                        RINZLER SECURITY SCAN REPORT\n"@ + report_rule()
        + "\n"@ + "Session ID:   "@ + data.session_id@ + "\n"@ + "Status:       "@ + status_text(
        data.scan_info.status@,
    ) + "\n"@ + "Scan Date:    "@ + scan_date + "\n"@ + (match data.scan_info.end_time {
        Some(end) => "Duration:     "@ + signed_decimal(end - data.scan_info.start_time)
            + " seconds\n"@,
        None => Seq::empty(),
    }) + "Targets:      "@ + targets + "\n"@ + "Pages Found:  "@ + decimal(data.total_nodes as nat)
        + "\n"@ + "\n"@
}

/// The site map of the report, where the data holds one.
pub open spec fn sitemap_block(data: ReportData) -> Seq<char> {
    match data.sitemap_nodes {
        Some(nodes) => report_rule() + "SITE MAP\n"@ + report_rule() + "\n"@ + sitemap_tree(
            nodes@,
        ) + "\n"@,
        None => Seq::empty(),
    }
}

/// One line of the summary: shown where the count is positive.
pub open spec fn count_line(label: Seq<char>, count: i64, note: Seq<char>) -> Seq<char> {
    if count > 0 {
        label + decimal(count as nat) + note
    } else {
        Seq::empty()
    }
}

/// The summary of the report: the number of findings, and the number for
/// each severity that has any.
pub open spec fn summary_block(data: ReportData) -> Seq<char> {
    let c = data.severity_counts;
    report_rule() + "EXECUTIVE SUMMARY\n"@ + report_rule() + "\n"@ + "Total Findings: "@
        + signed_decimal(c.critical + c.high + c.medium + c.low + c.info) + "\n\n"@ + count_line(
        "  [CRITICAL] "@,
        c.critical,
        "  (Immediate action required)\n"@,
    ) + count_line("  [HIGH]     "@, c.high, "  (High priority)\n"@) + count_line(
        "  [MEDIUM]   "@,
        c.medium,
        "  (Should be addressed)\n"@,
    ) + count_line("  [LOW]      "@, c.low, "  (Minor issues)\n"@) + count_line(
        "  [INFO]     "@,
        c.info,
        "  (Informational)\n"@,
    ) + "\n"@
}

/// A line with a label and a value, where there is a value.
pub open spec fn optional_line(label: Seq<char>, value: Option<String>) -> Seq<char> {
    match value {
        Some(v) => label + v@ + "\n"@,
        None => Seq::empty(),
    }
}

/// A wrapped paragraph under a heading, where there is a text.
pub open spec fn optional_paragraph(heading: Seq<char>, text: Option<String>) -> Seq<char> {
    match text {
        Some(t) => heading + wrapped(t@, 80, "  "@) + "\n\n"@,
        None => Seq::empty(),
    }
}

/// The part of the report about the finding `f`, the `number`-th.
pub open spec fn finding_block(f: FindingData, number: nat) -> Seq<char> {
    "["@ + decimal(number) + "] "@ + f.title@ + "\n"@ + "Severity:     "@ + uppercase(f.severity@)
        + "\n"@ + "Type:         "@ + finding_type_title(f.finding_type@) + "\n"@
        + "URL:          "@ + f.url@ + "\n"@ + optional_line("CWE:          "@, f.cwe_id)
        + optional_line("OWASP:        "@, f.owasp_category) + "\nDescription:\n"@ + wrapped(
        f.description@,
        80,
        "  "@,
    ) + "\n\n"@ + optional_paragraph("Impact:\n"@, f.impact) + optional_paragraph(
        "Remediation:\n"@,
        f.remediation,
    ) + finding_rule()
}

/// The parts about the first `n` findings.
pub open spec fn finding_blocks(findings: Seq<FindingData>, n: int) -> Seq<char>
    decreases n,
{
    if n <= 0 {
        Seq::empty()
    } else {
        finding_blocks(findings, n - 1) + finding_block(findings[n - 1], n as nat)
    }
}

/// The findings of the report in detail, where there are any.
pub open spec fn findings_block(data: ReportData) -> Seq<char> {
    if data.findings@.len() > 0 {
        report_rule() + "DETAILED FINDINGS\n"@ + report_rule() + "\n"@ + finding_blocks(
            data.findings@,
            data.findings@.len() as int,
        )
    } else {
        Seq::empty()
    }
}

/// The end of the report.
pub open spec fn footer_block() -> Seq<char> {
    report_rule() + "                          End of Report\n"@ + report_rule()
        + "\nGenerated by Rinzler - A somewhat intelligent Web API scanner\n"@
        + "For authorized security testing only.\n\n"@
}

/// The report of a scan as text, with the date of the scan and its targets
/// as they are to be shown.
pub open spec fn text_report(data: ReportData, scan_date: Seq<char>, targets: Seq<char>) -> Seq<
    char,
> {
    session_block(data, scan_date, targets) + sitemap_block(data) + summary_block(data)
        + findings_block(data) + footer_block()
}

proof fn lemma_indent_bytes()
    ensures
        byte_len("  "@) == 2,
{
    reveal_strlit("  ");
    vstd::utf8::is_ascii_chars_encode_utf8("  "@);
}

fn push_session_block(out: &mut String, data: &ReportData, scan_date: &str, targets: &str)
    ensures
        final(out)@ == old(out)@ + session_block(*data, scan_date@, targets@),
{
    let mut block = String::new();
    push_report_rule(&mut block);
    block.append("                        RINZLER SECURITY SCAN REPORT\n");
    push_report_rule(&mut block);
    block.append("\n");
    block.append("Session ID:   ");
    block.append(data.session_id.as_str());
    block.append("\n");
    block.append("Status:       ");
    block.append(data.status_to_string());
    block.append("\n");
    block.append("Scan Date:    ");
    block.append(scan_date);
    block.append("\n");
    let ghost before = block@;
    match data.scan_info.end_time {
        Some(end) => {
            block.append("Duration:     ");
            push_signed_decimal(&mut block, (end as i128) - (data.scan_info.start_time as i128));
            block.append(" seconds\n");
            assert(block@ =~= before + ("Duration:     "@ + signed_decimal(
                end - data.scan_info.start_time,
            ) + " seconds\n"@));
        },
        None => {
            assert(block@ =~= before + Seq::<char>::empty());
        },
    }
    block.append("Targets:      ");
    block.append(targets);
    block.append("\n");
    block.append("Pages Found:  ");
    push_decimal(&mut block, data.total_nodes as u128);
    block.append("\n");
    block.append("\n");
    assert(block@ =~= session_block(*data, scan_date@, targets@));
    out.append(block.as_str());
}

fn push_sitemap_block(out: &mut String, data: &ReportData)
    ensures
        final(out)@ == old(out)@ + sitemap_block(*data),
{
    match &data.sitemap_nodes {
        Some(nodes) => {
            let mut block = String::new();
            push_report_rule(&mut block);
            block.append("SITE MAP\n");
            push_report_rule(&mut block);
            block.append("\n");
            let tree = generate_sitemap_tree(nodes);
            block.append(tree.as_str());
            block.append("\n");
            assert(block@ =~= sitemap_block(*data));
            out.append(block.as_str());
        },
        None => {
            assert(old(out)@ + sitemap_block(*data) =~= old(out)@);
        },
    }
}

fn push_count_line(out: &mut String, label: &str, count: i64, note: &str)
    ensures
        final(out)@ == old(out)@ + count_line(label@, count, note@),
{
    if count > 0 {
        let mut line = owned(label);
        push_decimal(&mut line, count as u128);
        line.append(note);
        out.append(line.as_str());
    } else {
        assert(old(out)@ + count_line(label@, count, note@) =~= old(out)@);
    }
}

fn push_summary_block(out: &mut String, data: &ReportData)
    ensures
        final(out)@ == old(out)@ + summary_block(*data),
{
    let c = data.severity_counts;
    let mut block = String::new();
    push_report_rule(&mut block);
    block.append("EXECUTIVE SUMMARY\n");
    push_report_rule(&mut block);
    block.append("\n");
    block.append("Total Findings: ");
    let total: i128 = (c.critical as i128) + (c.high as i128) + (c.medium as i128) + (
    c.low as i128) + (c.info as i128);
    push_signed_decimal(&mut block, total);
    block.append("\n\n");
    push_count_line(&mut block, "  [CRITICAL] ", c.critical, "  (Immediate action required)\n");
    push_count_line(&mut block, "  [HIGH]     ", c.high, "  (High priority)\n");
    push_count_line(&mut block, "  [MEDIUM]   ", c.medium, "  (Should be addressed)\n");
    push_count_line(&mut block, "  [LOW]      ", c.low, "  (Minor issues)\n");
    push_count_line(&mut block, "  [INFO]     ", c.info, "  (Informational)\n");
    block.append("\n");
    assert(block@ =~= summary_block(*data));
    out.append(block.as_str());
}

fn push_optional_line(out: &mut String, label: &str, value: &Option<String>)
    ensures
        final(out)@ == old(out)@ + optional_line(label@, *value),
{
    match value {
        Some(v) => {
            let mut line = owned(label);
            line.append(v.as_str());
            line.append("\n");
            out.append(line.as_str());
        },
        None => {
            assert(old(out)@ + optional_line(label@, *value) =~= old(out)@);
        },
    }
}

fn push_optional_paragraph(out: &mut String, heading: &str, text: &Option<String>)
    ensures
        final(out)@ == old(out)@ + optional_paragraph(heading@, *text),
{
    match text {
        Some(t) => {
            proof {
                lemma_indent_bytes();
            }
            let mut paragraph = owned(heading);
            let body = wrap_text(t.as_str(), 80, "  ");
            paragraph.append(body.as_str());
            paragraph.append("\n\n");
            out.append(paragraph.as_str());
        },
        None => {
            assert(old(out)@ + optional_paragraph(heading@, *text) =~= old(out)@);
        },
    }
}

fn push_finding_block(out: &mut String, f: &FindingData, number: usize)
    ensures
        final(out)@ == old(out)@ + finding_block(*f, number as nat),
{
    proof {
        lemma_indent_bytes();
    }
    let mut block = owned("[");
    push_decimal(&mut block, number as u128);
    block.append("] ");
    block.append(f.title.as_str());
    block.append("\n");
    block.append("Severity:     ");
    let severity = to_uppercase(f.severity.as_str());
    block.append(severity.as_str());
    block.append("\n");
    block.append("Type:         ");
    let kind = format_finding_type(f.finding_type.as_str());
    block.append(kind.as_str());
    block.append("\n");
    block.append("URL:          ");
    block.append(f.url.as_str());
    block.append("\n");
    push_optional_line(&mut block, "CWE:          ", &f.cwe_id);
    push_optional_line(&mut block, "OWASP:        ", &f.owasp_category);
    block.append("\nDescription:\n");
    let description = wrap_text(f.description.as_str(), 80, "  ");
    block.append(description.as_str());
    block.append("\n\n");
    push_optional_paragraph(&mut block, "Impact:\n", &f.impact);
    push_optional_paragraph(&mut block, "Remediation:\n", &f.remediation);
    block.append("────────────────────────────────────────────────────────────────────────────────\n\n");
    assert(block@ =~= finding_block(*f, number as nat));
    out.append(block.as_str());
}

fn push_findings_block(out: &mut String, data: &ReportData)
    ensures
        final(out)@ == old(out)@ + findings_block(*data),
{
    if data.findings.len() > 0 {
        let mut block = String::new();
        push_report_rule(&mut block);
        block.append("DETAILED FINDINGS\n");
        push_report_rule(&mut block);
        block.append("\n");
        let ghost head = block@;
        let mut i: usize = 0;
        assert(head + finding_blocks(data.findings@, 0) =~= head);
        while i < data.findings.len()
            invariant
                i <= data.findings@.len(),
                block@ == head + finding_blocks(data.findings@, i as int),
            decreases data.findings@.len() - i,
        {
            push_finding_block(&mut block, &data.findings[i], i + 1);
            assert(block@ =~= head + finding_blocks(data.findings@, i + 1));
            i += 1;
        }
        assert(block@ =~= findings_block(*data));
        out.append(block.as_str());
    } else {
        assert(old(out)@ + findings_block(*data) =~= old(out)@);
    }
}

fn push_footer_block(out: &mut String)
    ensures
        final(out)@ == old(out)@ + footer_block(),
{
    let mut block = String::new();
    push_report_rule(&mut block);
    block.append("                          End of Report\n");
    push_report_rule(&mut block);
    block.append("\nGenerated by Rinzler - A somewhat intelligent Web API scanner\n");
    block.append("For authorized security testing only.\n\n");
    assert(block@ =~= footer_block());
    out.append(block.as_str());
}

/// Writes the report of a scan as text, with the date of the scan and its
/// targets as they are to be shown: the session, the site map where there is
/// one, the summary, the findings in detail, and the footer.
pub fn render_text_report(data: &ReportData, scan_date: &str, targets: &str) -> (report: String)
    ensures
        report@ == text_report(*data, scan_date@, targets@),
{
    let mut report = String::new();
    push_session_block(&mut report, data, scan_date, targets);
    push_sitemap_block(&mut report, data);
    push_summary_block(&mut report, data);
    push_findings_block(&mut report, data);
    push_footer_block(&mut report);
    assert(report@ =~= text_report(*data, scan_date@, targets@));
    report
}

/// Writes the report of a scan as text. The date is the start of the scan
/// in UTC, and the targets are read from the seed URLs of the session.
pub fn generate_text_report(data: &ReportData) -> (report: String)
    ensures
        utc_text(data.scan_info.start_time, date_layout()) is Some ==> report@ == text_report(
            *data,
            utc_text(data.scan_info.start_time, date_layout())->Some_0,
            targets_text(json_string_list(data.scan_info.seed_urls@)),
        ),
{
    let scan_date = data.format_timestamp(data.scan_info.start_time);
    let targets = data.format_targets();
    render_text_report(data, scan_date.as_str(), targets.as_str())
}

} // verus!
