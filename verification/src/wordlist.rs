//! The wordlist format: one word on a line, with blank lines and `#`
//! comments ignored.

use vstd::prelude::*;
use vstd::string::StringExecFns;
use crate::text::{
    chars_of, first_line_len, is_whitespace, lemma_first_line_len_bound, line_end, lines_of, owned,
    drop_trailing_whitespace, skip_whitespace, string_of, string_views, trim_bounds, trimmed,
};

verus! {

/// A line of a wordlist holds a word unless it is blank or a comment: a
/// comment is a line whose first character after white space is `#`.
pub open spec fn is_word_line(line: Seq<char>) -> bool {
    trimmed(line).len() > 0 && trimmed(line)[0] != '#'
}

/// The words that a sequence of lines holds, in order: each word line,
/// trimmed.
pub open spec fn words_of_lines(lines: Seq<Seq<char>>) -> Seq<Seq<char>>
    decreases lines.len(),
{
    if lines.len() == 0 {
        Seq::empty()
    } else if is_word_line(lines.last()) {
        words_of_lines(lines.drop_last()).push(trimmed(lines.last()))
    } else {
        words_of_lines(lines.drop_last())
    }
}

/// The words of a wordlist file with the given content.
pub open spec fn wordlist_of(content: Seq<char>) -> Seq<Seq<char>> {
    words_of_lines(lines_of(content))
}

/// Reads the words of a wordlist from the content of its file: blank lines
/// and comment lines are skipped, every other line is trimmed.
pub fn parse_wordlist(content: &str) -> (words: Vec<String>)
    ensures
        string_views(words@) == wordlist_of(content@),
{
    let v = chars_of(content);
    let mut words: Vec<String> = Vec::new();
    let mut pos: usize = 0;
    let ghost mut done: Seq<Seq<char>> = Seq::empty();
    assert(v@.subrange(0, v@.len() as int) =~= v@);
    assert(string_views(words@) =~= words_of_lines(done));
    while pos < v.len()
        invariant
            pos <= v.len(),
            v@ == content@,
            lines_of(v@) == done + lines_of(v@.subrange(pos as int, v@.len() as int)),
            string_views(words@) == words_of_lines(done),
        decreases v.len() - pos,
    {
        let end = line_end(&v, pos);
        let ghost rest = v@.subrange(pos as int, v@.len() as int);
        let ghost line = v@.subrange(pos as int, end as int);
        let next: usize = if end < v.len() {
            end + 1
        } else {
            end
        };
        proof {
            lemma_first_line_len_bound(rest);
            assert(rest.subrange(0, end - pos) =~= line);
            if end < v.len() {
                assert(rest.subrange(end - pos + 1, rest.len() as int) =~= v@.subrange(
                    next as int,
                    v@.len() as int,
                ));
            } else {
                assert(rest =~= line);
                assert(v@.subrange(next as int, v@.len() as int) =~= Seq::<char>::empty());
            }
            assert(lines_of(rest) =~= seq![line] + lines_of(
                v@.subrange(next as int, v@.len() as int),
            ));
            assert(done + lines_of(rest) =~= done.push(line) + lines_of(
                v@.subrange(next as int, v@.len() as int),
            ));
            assert(done.push(line).drop_last() =~= done);
        }
        let (a, b) = trim_bounds(&v, pos, end);
        if a < b && v[a] != '#' {
            let word = string_of(&v, a, b);
            let ghost before = words@;
            words.push(word);
            assert(string_views(words@) =~= string_views(before).push(trimmed(line)));
        }
        proof {
            done = done.push(line);
        }
        pos = next;
    }
    assert(done + Seq::<Seq<char>>::empty() =~= done);
    words
}

/// The message that reports a wordlist without words.
pub open spec fn empty_wordlist_message(name: Seq<char>) -> Seq<char> {
    "Wordlist "@ + name + " is empty or contains only comments"@
}

/// Reads a wordlist from the content of the file called `name`, and fails
/// where it holds no word.
pub fn load_wordlist_from_text(content: &str, name: &str) -> (r: Result<Vec<String>, String>)
    ensures
        match r {
            Ok(words) => string_views(words@) == wordlist_of(content@) && words@.len() > 0,
            Err(e) => wordlist_of(content@).len() == 0 && e@ == empty_wordlist_message(name@),
        },
{
    let words = parse_wordlist(content);
    if words.len() == 0 {
        let mut msg = owned("Wordlist ");
        msg.append(name);
        msg.append(" is empty or contains only comments");
        Err(msg)
    } else {
        Ok(words)
    }
}

/// The content of a file that holds the given words, one on a line.
pub open spec fn join_lines(words: Seq<Seq<char>>) -> Seq<char>
    decreases words.len(),
{
    if words.len() == 0 {
        Seq::empty()
    } else if words.len() == 1 {
        words[0]
    } else {
        words[0] + seq!['\n'] + join_lines(words.drop_first())
    }
}

/// Adding a word to a list that holds one puts a line feed and the word
/// after the text of the list.
pub proof fn lemma_join_lines_push(words: Seq<Seq<char>>, word: Seq<char>)
    requires
        words.len() > 0,
    ensures
        join_lines(words.push(word)) == join_lines(words) + seq!['\n'] + word,
    decreases words.len(),
{
    let all = words.push(word);
    assert(all.drop_first() =~= words.drop_first().push(word));
    assert(all[0] == words[0]);
    if words.len() == 1 {
        assert(all.drop_first() =~= seq![word]);
        assert(join_lines(all.drop_first()) == word);
        assert(join_lines(all) =~= words[0] + seq!['\n'] + word);
    } else {
        lemma_join_lines_push(words.drop_first(), word);
        assert(join_lines(all) =~= join_lines(words) + seq!['\n'] + word);
    }
}

/// Writes words one on a line, with a line feed between two.
pub fn write_lines(words: &Vec<String>) -> (text: String)
    ensures
        text@ == join_lines(string_views(words@)),
{
    let ghost wv = string_views(words@);
    let mut text = String::new();
    let mut i: usize = 0;
    assert(wv.take(0) =~= Seq::<Seq<char>>::empty());
    while i < words.len()
        invariant
            i <= words.len(),
            wv == string_views(words@),
            text@ == join_lines(wv.take(i as int)),
        decreases words.len() - i,
    {
        proof {
            assert(wv.take(i + 1) =~= wv.take(i as int).push(words@[i as int]@));
            if i > 0 {
                lemma_join_lines_push(wv.take(i as int), words@[i as int]@);
            } else {
                assert(wv.take(1)[0] == words@[0]@);
            }
        }
        if i > 0 {
            text.append("\n");
            proof {
                reveal_strlit("\n");
                assert("\n"@ =~= seq!['\n']);
            }
        }
        text.append(words[i].as_str());
        assert(text@ =~= join_lines(wv.take(i + 1)));
        i += 1;
    }
    assert(wv.take(i as int) =~= wv);
    text
}

/// `s` holds no line feed.
pub open spec fn on_one_line(s: Seq<char>) -> bool {
    forall|k: int| 0 <= k < s.len() ==> s[k] != '\n'
}

/// A word as a wordlist yields it: not empty, on one line, without white
/// space around it, and not a comment.
pub open spec fn is_clean_word(w: Seq<char>) -> bool {
    w.len() > 0 && on_one_line(w) && trimmed(w) == w && w[0] != '#'
}

proof fn lemma_skip_whitespace(s: Seq<char>)
    ensures
        skip_whitespace(s).len() <= s.len(),
        skip_whitespace(s) == s.subrange(s.len() - skip_whitespace(s).len(), s.len() as int),
        skip_whitespace(s).len() > 0 ==> !is_whitespace(skip_whitespace(s)[0]),
    decreases s.len(),
{
    if s.len() > 0 && is_whitespace(s[0]) {
        lemma_skip_whitespace(s.drop_first());
        let t = skip_whitespace(s);
        assert(t =~= s.subrange(s.len() - t.len(), s.len() as int));
    } else {
        assert(s =~= s.subrange(0, s.len() as int));
    }
}

proof fn lemma_drop_trailing_whitespace(s: Seq<char>)
    ensures
        drop_trailing_whitespace(s).len() <= s.len(),
        drop_trailing_whitespace(s) == s.subrange(0, drop_trailing_whitespace(s).len() as int),
        drop_trailing_whitespace(s).len() > 0 ==> !is_whitespace(
            drop_trailing_whitespace(s).last(),
        ),
    decreases s.len(),
{
    if s.len() > 0 && is_whitespace(s.last()) {
        lemma_drop_trailing_whitespace(s.drop_last());
        let t = drop_trailing_whitespace(s);
        assert(t =~= s.subrange(0, t.len() as int));
    } else {
        assert(s =~= s.subrange(0, s.len() as int));
    }
}

/// Trimming a second time changes nothing, and what is trimmed off a line
/// leaves the rest on one line.
pub proof fn lemma_trimmed(x: Seq<char>)
    ensures
        trimmed(trimmed(x)) == trimmed(x),
        on_one_line(x) ==> on_one_line(trimmed(x)),
{
    let s = skip_whitespace(x);
    let t = trimmed(x);
    lemma_skip_whitespace(x);
    lemma_drop_trailing_whitespace(s);
    if t.len() > 0 {
        assert(t[0] == s[0]);
        assert(skip_whitespace(t) == t);
        assert(drop_trailing_whitespace(t) == t);
    } else {
        assert(skip_whitespace(t) == t);
        assert(drop_trailing_whitespace(t) == t);
    }
    if on_one_line(x) {
        assert forall|k: int| 0 <= k < t.len() implies t[k] != '\n' by {
            assert(t[k] == s[k]);
            assert(s[k] == x[x.len() - s.len() + k]);
        }
    }
}

proof fn lemma_lines_on_one_line(s: Seq<char>)
    ensures
        forall|i: int| 0 <= i < lines_of(s).len() ==> on_one_line(#[trigger] lines_of(s)[i]),
    decreases s.len(),
{
    if s.len() > 0 {
        lemma_first_line_len_bound(s);
        let n = first_line_len(s) as int;
        if n < s.len() {
            let rest = s.subrange(n + 1, s.len() as int);
            lemma_lines_on_one_line(rest);
            assert forall|i: int| 0 <= i < lines_of(s).len() implies on_one_line(
                #[trigger] lines_of(s)[i],
            ) by {
                if i > 0 {
                    assert(lines_of(s)[i] == lines_of(rest)[i - 1]);
                }
            }
        }
    }
}

proof fn lemma_words_are_clean(lines: Seq<Seq<char>>)
    requires
        forall|i: int| 0 <= i < lines.len() ==> on_one_line(#[trigger] lines[i]),
    ensures
        forall|i: int|
            0 <= i < words_of_lines(lines).len() ==> is_clean_word(
                #[trigger] words_of_lines(lines)[i],
            ),
    decreases lines.len(),
{
    if lines.len() > 0 {
        assert forall|i: int| 0 <= i < lines.drop_last().len() implies on_one_line(
            #[trigger] lines.drop_last()[i],
        ) by {
            assert(lines.drop_last()[i] == lines[i]);
        }
        lemma_words_are_clean(lines.drop_last());
        lemma_trimmed(lines.last());
        assert(on_one_line(lines[lines.len() - 1]));
        let words = words_of_lines(lines);
        let earlier = words_of_lines(lines.drop_last());
        assert forall|i: int| 0 <= i < words.len() implies is_clean_word(#[trigger] words[i]) by {
            if i < earlier.len() {
                assert(words[i] == earlier[i]);
            } else {
                assert(words[i] == trimmed(lines.last()));
            }
        }
    }
}

proof fn lemma_first_line_of_concat(a: Seq<char>, b: Seq<char>)
    requires
        on_one_line(a),
        b.len() == 0 || b[0] == '\n',
    ensures
        first_line_len(a + b) == a.len(),
    decreases a.len(),
{
    if a.len() == 0 {
        assert(a + b =~= b);
    } else {
        assert((a + b)[0] == a[0]);
        assert((a + b).drop_first() =~= a.drop_first() + b);
        assert forall|k: int| 0 <= k < a.drop_first().len() implies a.drop_first()[k] != '\n' by {
            assert(a.drop_first()[k] == a[k + 1]);
        }
        lemma_first_line_of_concat(a.drop_first(), b);
    }
}

proof fn lemma_lines_of_join(words: Seq<Seq<char>>)
    requires
        forall|i: int| 0 <= i < words.len() ==> is_clean_word(#[trigger] words[i]),
    ensures
        lines_of(join_lines(words)) == words,
    decreases words.len(),
{
    if words.len() == 0 {
        assert(lines_of(join_lines(words)) =~= words);
    } else if words.len() == 1 {
        let w = words[0];
        assert(is_clean_word(w));
        lemma_first_line_of_concat(w, Seq::empty());
        assert(w + Seq::<char>::empty() =~= w);
        assert(lines_of(w) =~= seq![w]);
        assert(seq![w] =~= words);
    } else {
        let w = words[0];
        let rest = words.drop_first();
        assert(is_clean_word(w));
        assert forall|i: int| 0 <= i < rest.len() implies is_clean_word(#[trigger] rest[i]) by {
            assert(rest[i] == words[i + 1]);
        }
        lemma_lines_of_join(rest);
        let tail = seq!['\n'] + join_lines(rest);
        let s = join_lines(words);
        assert(s =~= w + tail);
        lemma_first_line_of_concat(w, tail);
        assert(s.subrange(0, w.len() as int) =~= w);
        assert(s.subrange(w.len() as int + 1, s.len() as int) =~= join_lines(rest));
        assert(lines_of(s) =~= seq![w] + lines_of(join_lines(rest)));
        assert(seq![w] + rest =~= words);
    }
}

proof fn lemma_words_of_clean(words: Seq<Seq<char>>)
    requires
        forall|i: int| 0 <= i < words.len() ==> is_clean_word(#[trigger] words[i]),
    ensures
        words_of_lines(words) == words,
    decreases words.len(),
{
    if words.len() > 0 {
        assert forall|i: int| 0 <= i < words.drop_last().len() implies is_clean_word(
            #[trigger] words.drop_last()[i],
        ) by {
            assert(words.drop_last()[i] == words[i]);
        }
        lemma_words_of_clean(words.drop_last());
        assert(is_clean_word(words.last()));
        assert(words.drop_last().push(words.last()) =~= words);
    } else {
        assert(words_of_lines(words) =~= words);
    }
}

/// Every word of a wordlist is clean.
pub proof fn wordlist_words_are_clean(content: Seq<char>)
    ensures
        forall|i: int|
            0 <= i < wordlist_of(content).len() ==> is_clean_word(
                #[trigger] wordlist_of(content)[i],
            ),
{
    lemma_lines_on_one_line(content);
    lemma_words_are_clean(lines_of(content));
}

/// Reading a wordlist, writing its words one on a line, and reading that
/// again yields the same words.
pub proof fn wordlist_round_trip(content: Seq<char>)
    ensures
        wordlist_of(join_lines(wordlist_of(content))) == wordlist_of(content),
{
    let words = wordlist_of(content);
    wordlist_words_are_clean(content);
    lemma_lines_of_join(words);
    lemma_words_of_clean(words);
}

} // verus!
