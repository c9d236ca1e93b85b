//! Lexical structure of a scene script: lines, and words within a line.

use vstd::prelude::*;
use vstd::slice::slice_subrange;

verus! {

/// A word of a script, as the characters it is made of.
pub type Token = Vec<char>;

/// The characters that separate words: exactly those with the Unicode property
/// `White_Space`.
pub open spec fn is_space(c: char) -> bool {
    let n = c as u32;
    ||| 0x09 <= n <= 0x0D
    ||| n == 0x20
    ||| n == 0x85
    ||| n == 0xA0
    ||| n == 0x1680
    ||| 0x2000 <= n <= 0x200A
    ||| n == 0x2028
    ||| n == 0x2029
    ||| n == 0x202F
    ||| n == 0x205F
    ||| n == 0x3000
}

/// The word in progress, as a list of zero or one finished words.
pub open spec fn flush(word: Seq<char>) -> Seq<Seq<char>> {
    if word.len() > 0 {
        seq![word]
    } else {
        Seq::empty()
    }
}

/// The words found by reading `s` one character at a time while `word` holds
/// the characters of the word that is being read.
pub open spec fn scan(s: Seq<char>, word: Seq<char>) -> Seq<Seq<char>>
    decreases s.len(),
{
    if s.len() == 0 {
        flush(word)
    } else if is_space(s[0]) {
        flush(word) + scan(s.drop_first(), Seq::empty())
    } else {
        scan(s.drop_first(), word.push(s[0]))
    }
}

/// The words of `s`: its maximal runs of characters that are not separators,
/// from left to right.
pub open spec fn words(s: Seq<char>) -> Seq<Seq<char>> {
    scan(s, Seq::empty())
}

/// Number of characters of `s` before the first occurrence of `stop`, or the
/// length of `s` if `stop` does not occur in it.
pub open spec fn until(s: Seq<char>, stop: char) -> nat
    decreases s.len(),
{
    if s.len() == 0 || s[0] == stop {
        0
    } else {
        1 + until(s.drop_first(), stop)
    }
}

/// Number of characters before the first line feed of `s`, or the length of
/// `s` if it has none.
pub open spec fn line_len(s: Seq<char>) -> nat {
    until(s, '\n')
}

/// A line's words, as a list of zero or one statements: a line without words
/// is no statement.
pub open spec fn statement(line: Seq<char>) -> Seq<Seq<Seq<char>>> {
    if words(line).len() > 0 {
        seq![words(line)]
    } else {
        Seq::empty()
    }
}

/// The statements of a script: the text is cut at every line feed, and each
/// piece that holds at least one word contributes its words.
pub open spec fn statements(text: Seq<char>) -> Seq<Seq<Seq<char>>>
    decreases text.len(),
{
    let n = line_len(text);
    if n >= text.len() {
        statement(text)
    } else {
        statement(text.take(n as int)) + statements(text.skip(n as int + 1))
    }
}

/// The texts of a list of tokens.
pub open spec fn texts(tokens: Seq<Token>) -> Seq<Seq<char>> {
    tokens.map_values(|t: Token| t@)
}

/// The texts of a list of tokenised lines.
pub open spec fn line_texts(lines: Seq<Vec<Token>>) -> Seq<Seq<Seq<char>>> {
    lines.map_values(|l: Vec<Token>| texts(l@))
}

/// Tells whether `word` has at least one character and no separator.
pub open spec fn is_word_text(word: Seq<char>) -> bool {
    word.len() > 0 && forall|i: int| 0 <= i < word.len() ==> !is_space(#[trigger] word[i])
}

/// Tells whether every one of `ws` is a word: not empty, and free of
/// separators.
pub open spec fn all_words(ws: Seq<Seq<char>>) -> bool {
    forall|k: int| 0 <= k < ws.len() ==> is_word_text(#[trigger] ws[k])
}

/// Tells whether every one of `lines` is a statement: at least one word, and
/// words only.
pub open spec fn all_statements(lines: Seq<Seq<Seq<char>>>) -> bool {
    forall|k: int| 0 <= k < lines.len() ==> (#[trigger] lines[k]).len() > 0 && all_words(lines[k])
}

/// Every word that a scan gives is free of separators, and none is empty.
pub proof fn lemma_scan_gives_words(s: Seq<char>, word: Seq<char>)
    requires
        forall|i: int| 0 <= i < word.len() ==> !is_space(#[trigger] word[i]),
    ensures
        all_words(scan(s, word)),
    decreases s.len(),
{
    if s.len() == 0 {
    } else if is_space(s[0]) {
        lemma_scan_gives_words(s.drop_first(), Seq::empty());
    } else {
        lemma_scan_gives_words(s.drop_first(), word.push(s[0]));
    }
}

/// The words of a text are free of separators, and none is empty.
pub proof fn lemma_words_are_words(s: Seq<char>)
    ensures
        all_words(words(s)),
{
    lemma_scan_gives_words(s, Seq::empty());
}

/// Every statement of a script has a first word, and all its words are free
/// of separators.
pub proof fn lemma_statements_have_words(text: Seq<char>)
    ensures
        all_statements(statements(text)),
    decreases text.len(),
{
    let n = line_len(text);
    if n >= text.len() {
        lemma_words_are_words(text);
    } else {
        lemma_words_are_words(text.take(n as int));
        lemma_statements_have_words(text.skip(n as int + 1));
    }
}

/// Tells whether `c` separates words.
pub fn whitespace(c: char) -> (b: bool)
    ensures
        b == is_space(c),
{
    let n: u32 = c as u32;
    (0x09 <= n && n <= 0x0D) || n == 0x20 || n == 0x85 || n == 0xA0 || n == 0x1680 || (0x2000 <= n
        && n <= 0x200A) || n == 0x2028 || n == 0x2029 || n == 0x202F || n == 0x205F || n == 0x3000
}

/// The characters of a string, in order.
pub fn chars_of(text: &str) -> (out: Vec<char>)
    ensures
        out@ == text@,
{
    let mut out: Vec<char> = Vec::new();
    for c in it: text.chars()
        invariant
            out@ == it.seq().take(it.index()),
            it.seq() == text@,
    {
        out.push(c);
    }
    out
}

/// Finds the first `stop` in `chars`: its position, or the length of `chars`
/// if there is none.
pub fn find(chars: &[char], stop: char) -> (at: usize)
    ensures
        at == until(chars@, stop),
        at <= chars.len(),
{
    let mut at: usize = 0;
    proof {
        assert(chars@.skip(0) == chars@);
    }
    while at < chars.len() && chars[at] != stop
        invariant
            at <= chars.len(),
            until(chars@, stop) == at + until(chars@.skip(at as int), stop),
        decreases chars.len() - at,
    {
        proof {
            assert(chars@.skip(at as int).drop_first() == chars@.skip(at + 1));
        }
        at = at + 1;
    }
    at
}

/// Splits a line into its words.
pub fn split_words(line: &[char]) -> (out: Vec<Token>)
    ensures
        texts(out@) == words(line@),
{
    let mut out: Vec<Token> = Vec::new();
    let mut word: Token = Vec::new();
    let mut i: usize = 0;
    proof {
        assert(line@.skip(0) == line@);
        assert(texts(out@) == Seq::<Seq<char>>::empty());
    }
    while i < line.len()
        invariant
            i <= line.len(),
            words(line@) == texts(out@) + scan(line@.skip(i as int), word@),
        decreases line.len() - i,
    {
        let c = line[i];
        let ghost rest = line@.skip(i as int);
        let ghost next = line@.skip(i + 1);
        let ghost before = texts(out@);
        let ghost current = word@;
        proof {
            assert(rest[0] == c);
            assert(rest.drop_first() == next);
        }
        if whitespace(c) {
            proof {
                assert(scan(rest, current) == flush(current) + scan(next, Seq::empty()));
            }
            if word.len() > 0 {
                out.push(word);
                word = Vec::new();
                proof {
                    assert(texts(out@) == before.push(current));
                    assert(before.push(current) + scan(next, Seq::empty()) == before + (seq![current]
                        + scan(next, Seq::empty())));
                }
            } else {
                proof {
                    assert(current == Seq::<char>::empty());
                    assert(flush(current) + scan(next, Seq::empty()) == scan(next, Seq::empty()));
                }
            }
        } else {
            word.push(c);
            proof {
                assert(scan(rest, current) == scan(next, current.push(c)));
            }
        }
        i = i + 1;
    }
    proof {
        assert(line@.skip(line.len() as int).len() == 0);
    }
    if word.len() > 0 {
        let ghost before = texts(out@);
        let ghost done = word@;
        out.push(word);
        proof {
            assert(texts(out@) == before.push(done));
            assert(before.push(done) == before + seq![done]);
        }
    }
    out
}

/// Cuts a script into statements: one list of words for every line that has
/// any.
pub fn split_statements(text: &str) -> (out: Vec<Vec<Token>>)
    ensures
        line_texts(out@) == statements(text@),
{
    let chars = chars_of(text);
    let mut out: Vec<Vec<Token>> = Vec::new();
    let mut start: usize = 0;
    proof {
        assert(chars@.skip(0) == chars@);
        assert(line_texts(out@) == Seq::<Seq<Seq<char>>>::empty());
    }
    loop
        invariant_except_break
            start <= chars.len(),
            statements(chars@) == line_texts(out@) + statements(chars@.skip(start as int)),
        invariant
            chars@ == text@,
        ensures
            statements(chars@) == line_texts(out@),
        decreases chars.len() - start,
    {
        let ghost tail = chars@.skip(start as int);
        let rest = slice_subrange(chars.as_slice(), start, chars.len());
        proof {
            assert(rest@ == tail);
        }
        let n = find(rest, '\n');
        let line = split_words(slice_subrange(rest, 0, n));
        let ghost before = line_texts(out@);
        let ghost found = texts(line@);
        proof {
            assert(tail.take(n as int) == tail.subrange(0, n as int));
            if n >= rest.len() {
                assert(tail.take(n as int) == tail);
            }
        }
        if line.len() > 0 {
            out.push(line);
            proof {
                assert(line_texts(out@) == before.push(found));
                assert(before.push(found) == before + seq![found]);
            }
        } else {
            proof {
                assert(before + Seq::<Seq<Seq<char>>>::empty() == before);
            }
        }
        if n >= rest.len() {
            break ;
        }
        proof {
            let later = statements(chars@.skip(start + n + 1));
            assert(tail.skip(n + 1) == chars@.skip(start + n + 1));
            assert(statements(tail) == statement(tail.take(n as int)) + later);
            assert(before + (statement(tail.take(n as int)) + later) == (before + statement(
                tail.take(n as int),
            )) + later);
        }
        start = start + n + 1;
    }
    out
}

} // verus!
