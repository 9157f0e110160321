//! The wordlist: which lines of a source are candidate labels.

use vstd::prelude::*;
use vstd::string::StrSliceExecFns;
use crate::text::{lemma_trimmed_idempotent, trim, trimmed};

verus! {

/// The candidate that a line holds: the trimmed line, unless that is empty
/// or a comment, which starts with `#`.
pub open spec fn cleaned(line: Seq<char>) -> Option<Seq<char>> {
    let word = trimmed(line);
    if word.len() > 0 && word[0] != '#' {
        Some(word)
    } else {
        None
    }
}

/// The candidates that `lines` hold, in their order.
pub open spec fn wordlist_of(lines: Seq<Seq<char>>) -> Seq<Seq<char>> {
    lines.filter_map(|line: Seq<char>| cleaned(line))
}

/// Every candidate of a wordlist is a non-empty text that is no comment and
/// that trimming leaves as it is.
pub proof fn lemma_wordlist_entries(lines: Seq<Seq<char>>, k: int)
    requires
        0 <= k < wordlist_of(lines).len(),
    ensures
        wordlist_of(lines)[k].len() > 0,
        wordlist_of(lines)[k][0] != '#',
        trimmed(wordlist_of(lines)[k]) == wordlist_of(lines)[k],
{
    let clean = |line: Seq<char>| cleaned(line);
    let word = wordlist_of(lines)[k];
    lines.lemma_filter_map_contains(clean, word);
    let line = choose|line: Seq<char>| #[trigger] lines.contains(line) && clean(line) == Some(word);
    lemma_trimmed_idempotent(line);
}

/// Reads one line of a wordlist: its candidate, or nothing for a blank line
/// or a comment.
pub fn clean_line(line: &str) -> (word: Option<String>)
    ensures
        match word {
            Some(text) => cleaned(line@) == Some(text@),
            None => cleaned(line@) is None,
        },
{
    let text = trim(line);
    if text.as_str().is_empty() {
        None
    } else if text.as_str().get_char(0) == '#' {
        None
    } else {
        Some(text)
    }
}

/// Reads a wordlist from the lines of its source: every line is trimmed,
/// and blank lines and comments are left out.
pub fn load_wordlist(lines: &Vec<String>) -> (words: Vec<String>)
    ensures
        words.deep_view() == wordlist_of(lines.deep_view()),
{
    let ghost source = lines.deep_view();
    let ghost clean = |line: Seq<char>| cleaned(line);
    let mut words: Vec<String> = Vec::new();
    let mut i: usize = 0;
    while i < lines.len()
        invariant
            i <= lines.len(),
            source == lines.deep_view(),
            clean == |line: Seq<char>| cleaned(line),
            words.deep_view() == source.take(i as int).filter_map(clean),
        decreases lines.len() - i,
    {
        proof {
            source.lemma_filter_map_take_succ(clean, i as int);
        }
        match clean_line(lines[i].as_str()) {
            Some(word) => {
                words.push(word);
            },
            None => {},
        }
        i += 1;
    }
    assert(source.take(i as int) =~= source);
    words
}

} // verus!
