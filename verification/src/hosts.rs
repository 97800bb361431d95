//! The hosts-file format: one target on a line, as a URL or as a bare host
//! name.

use vstd::prelude::*;
use vstd::string::StringExecFns;
use crate::text::{
    chars_of, lemma_first_line_len_bound, line_end, lines_of, owned, string_of, string_views,
    trim_bounds, trimmed,
};
use crate::urls::{ParsedUrl, is_url};

verus! {

/// The URL that a line of a hosts file stands for: the line itself where it
/// is a URL, else the line with `http://` before it where that is one.
pub open spec fn url_of_line(line: Seq<char>) -> Option<Seq<char>> {
    if is_url(line) {
        Some(line)
    } else if is_url("http://"@ + line) {
        Some("http://"@ + line)
    } else {
        None
    }
}

/// Reads one line of a hosts file as a URL, with `http://` put before it
/// where it is no URL by itself. `None` where neither is a URL.
pub fn parse_url_line(line: &str) -> (r: Option<String>)
    ensures
        crate::data::opt_chars(r) == url_of_line(line@),
{
    if ParsedUrl::parse(line).is_ok() {
        return Some(owned(line));
    }
    let with_scheme = owned("http://").concat(line);
    if ParsedUrl::parse(with_scheme.as_str()).is_ok() {
        return Some(with_scheme);
    }
    None
}

/// The URLs that a sequence of lines holds, in order: each line that is not
/// blank is trimmed and read as a URL, and dropped where it is none.
pub open spec fn urls_of_lines(lines: Seq<Seq<char>>) -> Seq<Seq<char>>
    decreases lines.len(),
{
    if lines.len() == 0 {
        Seq::empty()
    } else if trimmed(lines.last()).len() > 0 && url_of_line(trimmed(lines.last())) is Some {
        urls_of_lines(lines.drop_last()).push(url_of_line(trimmed(lines.last()))->Some_0)
    } else {
        urls_of_lines(lines.drop_last())
    }
}

/// The URLs of a hosts file with the given content.
pub open spec fn hosts_of(content: Seq<char>) -> Seq<Seq<char>> {
    urls_of_lines(lines_of(content))
}

/// Reads the URLs of a hosts file from its content.
pub fn parse_hosts(content: &str) -> (urls: Vec<String>)
    ensures
        string_views(urls@) == hosts_of(content@),
{
    let v = chars_of(content);
    let mut urls: Vec<String> = Vec::new();
    let mut pos: usize = 0;
    let ghost mut done: Seq<Seq<char>> = Seq::empty();
    assert(v@.subrange(0, v@.len() as int) =~= v@);
    assert(string_views(urls@) =~= urls_of_lines(done));
    while pos < v.len()
        invariant
            pos <= v.len(),
            v@ == content@,
            lines_of(v@) == done + lines_of(v@.subrange(pos as int, v@.len() as int)),
            string_views(urls@) == urls_of_lines(done),
        decreases v.len() - pos,
    {
        let end = line_end(&v, pos);
        let ghost rest = v@.subrange(pos as int, v@.len() as int);
        let ghost line = v@.subrange(pos as int, end as int);
        let next: usize = if end < v.len() {
            end + 1
        } else {
            end
        };
        proof {
            lemma_first_line_len_bound(rest);
            assert(rest.subrange(0, end - pos) =~= line);
            if end < v.len() {
                assert(rest.subrange(end - pos + 1, rest.len() as int) =~= v@.subrange(
                    next as int,
                    v@.len() as int,
                ));
            } else {
                assert(rest =~= line);
                assert(v@.subrange(next as int, v@.len() as int) =~= Seq::<char>::empty());
            }
            assert(lines_of(rest) =~= seq![line] + lines_of(
                v@.subrange(next as int, v@.len() as int),
            ));
            assert(done + lines_of(rest) =~= done.push(line) + lines_of(
                v@.subrange(next as int, v@.len() as int),
            ));
            assert(done.push(line).drop_last() =~= done);
        }
        let (a, b) = trim_bounds(&v, pos, end);
        if a < b {
            let text = string_of(&v, a, b);
            match parse_url_line(text.as_str()) {
                Some(url) => {
                    let ghost before = urls@;
                    let ghost u = url@;
                    urls.push(url);
                    assert(string_views(urls@) =~= string_views(before).push(u));
                },
                None => {},
            }
        }
        proof {
            done = done.push(line);
        }
        pos = next;
    }
    assert(done + Seq::<Seq<char>>::empty() =~= done);
    urls
}

/// A hosts file: its name, for messages, and its content.
pub struct HostsFile {
    pub name: String,
    pub content: String,
}

/// The message that reports a hosts file without a URL.
pub open spec fn no_urls_message(name: Seq<char>) -> Seq<char> {
    "No valid URLs found in "@ + name
}

/// Reads the URLs of the hosts file called `name` from its content, and
/// fails where it holds none.
pub fn load_urls_from_text(content: &str, name: &str) -> (r: Result<Vec<String>, String>)
    ensures
        match r {
            Ok(urls) => string_views(urls@) == hosts_of(content@) && urls@.len() > 0,
            Err(e) => hosts_of(content@).len() == 0 && e@ == no_urls_message(name@),
        },
{
    let urls = parse_hosts(content);
    if urls.len() == 0 {
        Err(owned("No valid URLs found in ").concat(name))
    } else {
        Ok(urls)
    }
}

/// The targets of a scan: the URLs of the hosts file where one is given,
/// else the single URL, and an error where neither is given.
pub fn load_urls_from_source(url: Option<&str>, hosts: Option<&HostsFile>) -> (r: Result<
    Vec<String>,
    String,
>)
    ensures
        match r {
            Ok(urls) => match hosts {
                Some(file) => string_views(urls@) == hosts_of(file.content@) && urls@.len() > 0,
                None => url is Some && string_views(urls@) == seq![url->Some_0@],
            },
            Err(e) => match hosts {
                Some(file) => hosts_of(file.content@).len() == 0 && e@ == no_urls_message(
                    file.name@,
                ),
                None => url is None && e@ == "Either --url or --hosts-file must be provided"@,
            },
        },
{
    match hosts {
        Some(file) => load_urls_from_text(file.content.as_str(), file.name.as_str()),
        None => match url {
            Some(u) => {
                let mut urls: Vec<String> = Vec::new();
                urls.push(owned(u));
                assert(string_views(urls@) =~= seq![u@]);
                Ok(urls)
            },
            None => Err(owned("Either --url or --hosts-file must be provided")),
        },
    }
}

} // verus!
