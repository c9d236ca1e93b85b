//! Statements written out as text, and read back: what the lexer gives is
//! what was written.

use crate::scene::lexer::{
    all_statements, all_words, is_space, is_word_text, scan, statements, until, words,
};
use vstd::prelude::*;

verus! {

/// Words written on one line, a single space between neighbours.
pub open spec fn join_words(ws: Seq<Seq<char>>) -> Seq<char>
    decreases ws.len(),
{
    if ws.len() == 0 {
        Seq::empty()
    } else if ws.len() == 1 {
        ws[0]
    } else {
        ws[0] + seq![' '] + join_words(ws.drop_first())
    }
}

/// Statements written one to a line, each line ended by a line feed.
pub open spec fn join_statements(lines: Seq<Seq<Seq<char>>>) -> Seq<char>
    decreases lines.len(),
{
    if lines.len() == 0 {
        Seq::empty()
    } else {
        join_words(lines[0]) + seq!['\n'] + join_statements(lines.drop_first())
    }
}

/// Reading characters that are no separators only makes the word in progress
/// longer.
pub proof fn lemma_scan_reads_word(w: Seq<char>, rest: Seq<char>, word: Seq<char>)
    requires
        forall|i: int| 0 <= i < w.len() ==> !is_space(#[trigger] w[i]),
    ensures
        scan(w + rest, word) == scan(rest, word + w),
    decreases w.len(),
{
    if w.len() > 0 {
        let shorter = w.drop_first();
        assert((w + rest).drop_first() == shorter + rest);
        assert forall|i: int| 0 <= i < shorter.len() implies !is_space(#[trigger] shorter[i]) by {
            assert(shorter[i] == w[i + 1]);
        }
        lemma_scan_reads_word(shorter, rest, word.push(w[0]));
        assert(word.push(w[0]) + shorter == word + w);
    }
}

/// All but the first of a list of words are words.
pub proof fn lemma_later_words(ws: Seq<Seq<char>>)
    requires
        all_words(ws),
        ws.len() > 0,
    ensures
        is_word_text(ws[0]),
        all_words(ws.drop_first()),
{
    let later = ws.drop_first();
    assert forall|k: int| 0 <= k < later.len() implies is_word_text(#[trigger] later[k]) by {
        assert(later[k] == ws[k + 1]);
    }
}

/// Words that are written on a line are the words of that line.
pub proof fn lemma_words_of_joined(ws: Seq<Seq<char>>)
    requires
        all_words(ws),
    ensures
        words(join_words(ws)) == ws,
    decreases ws.len(),
{
    if ws.len() == 1 {
        lemma_scan_reads_word(ws[0], Seq::empty(), Seq::empty());
    } else if ws.len() > 1 {
        let later = ws.drop_first();
        let tail = seq![' '] + join_words(later);
        lemma_later_words(ws);
        lemma_words_of_joined(later);
        assert(join_words(ws) == ws[0] + tail);
        lemma_scan_reads_word(ws[0], tail, Seq::empty());
        assert(tail.drop_first() == join_words(later));
    }
}

/// A line of words holds no line feed.
pub proof fn lemma_joined_is_one_line(ws: Seq<Seq<char>>)
    requires
        all_words(ws),
    ensures
        forall|i: int| 0 <= i < join_words(ws).len() ==> (#[trigger] join_words(ws)[i]) != '\n',
    decreases ws.len(),
{
    if ws.len() > 1 {
        let w = ws[0];
        let later = ws.drop_first();
        let line = join_words(ws);
        lemma_later_words(ws);
        lemma_joined_is_one_line(later);
        assert forall|i: int| 0 <= i < line.len() implies (#[trigger] line[i]) != '\n' by {
            if i > w.len() {
                assert(line[i] == join_words(later)[i - w.len() - 1]);
            }
        }
    }
}

/// A text that is free of `stop` and has `stop` behind it ends right there.
pub proof fn lemma_until_behind(a: Seq<char>, stop: char, b: Seq<char>)
    requires
        forall|i: int| 0 <= i < a.len() ==> (#[trigger] a[i]) != stop,
    ensures
        until(a + seq![stop] + b, stop) == a.len(),
    decreases a.len(),
{
    if a.len() > 0 {
        let shorter = a.drop_first();
        assert((a + seq![stop] + b).drop_first() == shorter + seq![stop] + b);
        assert forall|i: int| 0 <= i < shorter.len() implies (#[trigger] shorter[i]) != stop by {
            assert(shorter[i] == a[i + 1]);
        }
        lemma_until_behind(shorter, stop, b);
    }
}

/// Statements that are written out and read back are the same statements.
pub proof fn lemma_statements_of_joined(lines: Seq<Seq<Seq<char>>>)
    requires
        all_statements(lines),
    ensures
        statements(join_statements(lines)) == lines,
    decreases lines.len(),
{
    if lines.len() > 0 {
        let first = lines[0];
        let later = lines.drop_first();
        let line = join_words(first);
        let text = join_statements(lines);
        assert forall|k: int| 0 <= k < later.len() implies (#[trigger] later[k]).len() > 0
            && all_words(later[k]) by {
            assert(later[k] == lines[k + 1]);
        }
        lemma_statements_of_joined(later);
        lemma_words_of_joined(first);
        lemma_joined_is_one_line(first);
        lemma_until_behind(line, '\n', join_statements(later));
        assert(text.take(line.len() as int) == line);
        assert(text.skip(line.len() as int + 1) == join_statements(later));
    }
}

} // verus!
