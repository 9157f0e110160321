//! The output file: one discovered name per line.

use vstd::prelude::*;
use vstd::std_specs::iter::IteratorSpec;
use vstd::string::{StrSliceExecFns, StringExecFns};

verus! {

/// The text of the output file for `names`: each name followed by a line
/// feed, in order, and nothing else.
pub open spec fn rendered(names: Seq<Seq<char>>) -> Seq<char>
    decreases names.len(),
{
    if names.len() == 0 {
        Seq::empty()
    } else {
        rendered(names.drop_last()) + names.last() + seq!['\n']
    }
}

/// The length of the first line of `text`: the number of characters before
/// its first line feed, or all of them if it has none.
pub open spec fn line_end(text: Seq<char>) -> int
    decreases text.len(),
{
    if text.len() == 0 || text[0] == '\n' {
        0
    } else {
        1 + line_end(text.drop_first())
    }
}

/// The lines of `text`. A line ends at a line feed, which is not part of
/// it, or at the end of the text; a text that ends in a line feed has no
/// empty line after it.
pub open spec fn lines_of(text: Seq<char>) -> Seq<Seq<char>>
    decreases text.len(),
{
    if text.len() == 0 {
        Seq::empty()
    } else {
        let end = line_end(text);
        if 0 <= end < text.len() {
            seq![text.take(end)] + lines_of(text.skip(end + 1))
        } else {
            seq![text]
        }
    }
}

/// Whether `line` can stand in a line of its own: it holds no line feed.
pub open spec fn single_line(line: Seq<char>) -> bool {
    forall|i: int| 0 <= i < line.len() ==> line[i] != '\n'
}

/// The first line of a text ends at its first line feed.
pub proof fn lemma_line_end(line: Seq<char>, rest: Seq<char>)
    requires
        single_line(line),
        rest.len() == 0 || rest[0] == '\n',
    ensures
        line_end(line + rest) == line.len(),
    decreases line.len(),
{
    if line.len() > 0 {
        assert((line + rest).drop_first() =~= line.drop_first() + rest);
        lemma_line_end(line.drop_first(), rest);
    }
}

/// A line and its line feed in front of a text add that line in front of
/// the text's lines.
pub proof fn lemma_lines_prepend(line: Seq<char>, rest: Seq<char>)
    requires
        single_line(line),
    ensures
        lines_of(line + seq!['\n'] + rest) == seq![line] + lines_of(rest),
{
    let tail = seq!['\n'] + rest;
    let text = line + seq!['\n'] + rest;
    assert(text =~= line + tail);
    lemma_line_end(line, tail);
    assert(text.take(line.len() as int) =~= line);
    assert(text.skip(line.len() as int + 1) =~= rest);
}

/// A text without a line feed is one line, or none if it is empty.
pub proof fn lemma_lines_single(line: Seq<char>)
    requires
        single_line(line),
    ensures
        lines_of(line) == if line.len() == 0 {
            Seq::<Seq<char>>::empty()
        } else {
            seq![line]
        },
{
    lemma_line_end(line, Seq::empty());
}

/// The text for a list of names starts with the first name's line.
pub proof fn lemma_rendered_front(names: Seq<Seq<char>>)
    requires
        names.len() > 0,
    ensures
        rendered(names) == names[0] + seq!['\n'] + rendered(names.drop_first()),
    decreases names.len(),
{
    if names.len() == 1 {
        assert(rendered(names.drop_last()) =~= Seq::<char>::empty());
    } else {
        let front = names.drop_last();
        lemma_rendered_front(front);
        assert(front.drop_first() =~= names.drop_first().drop_last());
    }
}

/// Writes the output file's text for `names`.
pub fn render(names: &Vec<String>) -> (text: String)
    ensures
        text@ == rendered(names.deep_view()),
{
    let ghost all = names.deep_view();
    let mut text = String::new();
    let mut i: usize = 0;
    while i < names.len()
        invariant
            i <= names.len(),
            all == names.deep_view(),
            text@ == rendered(all.take(i as int)),
        decreases names.len() - i,
    {
        proof {
            assert(all.take(i + 1).drop_last() =~= all.take(i as int));
        }
        text.append(names[i].as_str());
        text.push('\n');
        i += 1;
    }
    assert(all.take(i as int) =~= all);
    text
}

/// Reads the lines of `text`.
pub fn split_lines(text: &str) -> (lines: Vec<String>)
    ensures
        lines.deep_view() == lines_of(text@),
{
    broadcast use vstd::string::group_string_axioms;

    let mut lines: Vec<String> = Vec::new();
    let mut line = String::new();
    let mut i: usize = 0;
    let n: usize = text.unicode_len();
    let mut chars = text.chars();
    assert(line@ + text@.skip(0) =~= text@);
    while i < n
        invariant
            n == text@.len(),
            i <= n,
            chars.obeys_prophetic_iter_laws(),
            chars.remaining() == text@.skip(i as int),
            single_line(line@),
            lines_of(text@) == lines.deep_view() + lines_of(line@ + text@.skip(i as int)),
        decreases n - i,
    {
        let next = chars.next();
        let ghost before = lines.deep_view();
        let ghost rest = text@.skip(i + 1);
        match next {
            Some(c) => {
                if c == '\n' {
                    proof {
                        lemma_lines_prepend(line@, rest);
                        assert(line@ + text@.skip(i as int) =~= line@ + seq!['\n'] + rest);
                    }
                    let ghost done = line@;
                    lines.push(line);
                    line = String::new();
                    assert(lines.deep_view() =~= before + seq![done]);
                } else {
                    let ghost grown = line@.push(c);
                    assert(grown + rest =~= line@ + text@.skip(i as int));
                    line.push(c);
                }
            },
            None => {},
        }
        i += 1;
    }
    proof {
        lemma_lines_single(line@);
    }
    if !line.as_str().is_empty() {
        let ghost before = lines.deep_view();
        let ghost done = line@;
        lines.push(line);
        assert(lines.deep_view() =~= before + seq![done]);
    }
    lines
}

} // verus!
