//! Text helpers shared by the other modules: whitespace, trimming and
//! decimal numerals.

use vstd::prelude::*;
use vstd::std_specs::iter::IteratorSpec;

verus! {

/// Whether `c` has the Unicode property `White_Space`. The property is a
/// table of the Unicode character database; it is named here, not defined.
pub uninterp spec fn is_unicode_whitespace(c: char) -> bool;

/// `char::is_whitespace` answers by the `White_Space` property, and by
/// nothing but the character it is asked about.
pub assume_specification[ char::is_whitespace ](c: char) -> (blank: bool)
    ensures
        blank == is_unicode_whitespace(c),
;

/// `String::push` appends the character to the end of the string and leaves
/// what was there as it was.
pub assume_specification[ String::push ](text: &mut String, c: char)
    ensures
        final(text)@ == old(text)@.push(c),
;

/// `s` without its leading whitespace.
pub open spec fn strip_start(s: Seq<char>) -> Seq<char>
    decreases s.len(),
{
    if s.len() > 0 && is_unicode_whitespace(s[0]) {
        strip_start(s.drop_first())
    } else {
        s
    }
}

/// `s` without its trailing whitespace.
pub open spec fn strip_end(s: Seq<char>) -> Seq<char>
    decreases s.len(),
{
    if s.len() > 0 && is_unicode_whitespace(s.last()) {
        strip_end(s.drop_last())
    } else {
        s
    }
}

/// `s` without its leading and trailing whitespace.
pub open spec fn trimmed(s: Seq<char>) -> Seq<char> {
    strip_end(strip_start(s))
}

/// Stripping the start drops exactly the leading run of whitespace.
pub proof fn lemma_strip_start(s: Seq<char>, a: int)
    requires
        0 <= a <= s.len(),
        forall|k: int| 0 <= k < a ==> is_unicode_whitespace(s[k]),
        a < s.len() ==> !is_unicode_whitespace(s[a]),
    ensures
        strip_start(s) == s.skip(a),
    decreases a,
{
    if a > 0 {
        let rest = s.drop_first();
        assert forall|k: int| 0 <= k < a - 1 implies is_unicode_whitespace(rest[k]) by {
            assert(rest[k] == s[k + 1]);
        }
        lemma_strip_start(rest, a - 1);
    }
}

/// Stripping the end drops exactly the trailing run of whitespace.
pub proof fn lemma_strip_end(s: Seq<char>, b: int)
    requires
        0 <= b <= s.len(),
        forall|k: int| b <= k < s.len() ==> is_unicode_whitespace(s[k]),
        0 < b ==> !is_unicode_whitespace(s[b - 1]),
    ensures
        strip_end(s) == s.take(b),
    decreases s.len() - b,
{
    if b < s.len() {
        lemma_strip_end(s.drop_last(), b);
    }
}

/// What is left of a text after stripping starts and ends with a character
/// that is no whitespace, unless nothing is left.
pub proof fn lemma_trimmed_ends(s: Seq<char>)
    ensures
        trimmed(s).len() > 0 ==> !is_unicode_whitespace(trimmed(s)[0]) && !is_unicode_whitespace(
            trimmed(s).last(),
        ),
{
    lemma_strip_start_head(s);
    lemma_strip_end_tail(strip_start(s));
}

/// Trimming a trimmed text changes nothing.
pub proof fn lemma_trimmed_idempotent(s: Seq<char>)
    ensures
        trimmed(trimmed(s)) == trimmed(s),
{
    lemma_trimmed_ends(s);
}

proof fn lemma_strip_start_head(s: Seq<char>)
    ensures
        strip_start(s).len() > 0 ==> !is_unicode_whitespace(strip_start(s)[0]),
    decreases s.len(),
{
    if s.len() > 0 && is_unicode_whitespace(s[0]) {
        lemma_strip_start_head(s.drop_first());
    }
}

proof fn lemma_strip_end_tail(s: Seq<char>)
    ensures
        strip_end(s).len() > 0 ==> !is_unicode_whitespace(strip_end(s).last()) && strip_end(s)[0]
            == s[0],
    decreases s.len(),
{
    if s.len() > 0 && is_unicode_whitespace(s.last()) {
        lemma_strip_end_tail(s.drop_last());
    }
}

/// Trims `line`: the result is the line without its leading and trailing
/// whitespace.
pub fn trim(line: &str) -> (out: String)
    ensures
        out@ == trimmed(line@),
{
    broadcast use vstd::string::group_string_axioms;

    let mut start: usize = 0;
    let mut end: usize = 0;
    let mut seen: bool = false;
    let mut i: usize = 0;
    let n: usize = line.unicode_len();
    let mut chars = line.chars();
    while i < n
        invariant
            n == line@.len(),
            i <= n,
            chars.obeys_prophetic_iter_laws(),
            chars.remaining() == line@.skip(i as int),
            start <= end <= i,
            !seen ==> start == i,
            seen ==> start < end && !is_unicode_whitespace(line@[start as int])
                && !is_unicode_whitespace(line@[end - 1]),
            forall|k: int| 0 <= k < start ==> is_unicode_whitespace(line@[k]),
            forall|k: int| end <= k < i ==> is_unicode_whitespace(line@[k]),
        decreases n - i,
    {
        let next = chars.next();
        match next {
            Some(c) => {
                if !c.is_whitespace() {
                    if !seen {
                        start = i;
                        seen = true;
                    }
                    end = i + 1;
                } else if !seen {
                    start = i + 1;
                    end = i + 1;
                }
            },
            None => {},
        }
        i += 1;
    }
    let piece = line.substring_char(start, end);
    proof {
        let s = line@;
        let t = s.skip(start as int);
        lemma_strip_start(s, start as int);
        assert forall|k: int| end - start <= k < t.len() implies is_unicode_whitespace(t[k]) by {
            assert(t[k] == s[k + start]);
        }
        lemma_strip_end(t, end - start);
    }
    String::from_str(piece)
}

/// The character for the digit `d`, which is below ten.
pub open spec fn digit(d: nat) -> char {
    if d == 0 {
        '0'
    } else if d == 1 {
        '1'
    } else if d == 2 {
        '2'
    } else if d == 3 {
        '3'
    } else if d == 4 {
        '4'
    } else if d == 5 {
        '5'
    } else if d == 6 {
        '6'
    } else if d == 7 {
        '7'
    } else if d == 8 {
        '8'
    } else {
        '9'
    }
}

/// The decimal numeral of `n`: no sign, no leading zero, `"0"` for zero.
pub open spec fn decimal(n: nat) -> Seq<char>
    decreases n,
{
    if n < 10 {
        seq![digit(n)]
    } else {
        decimal(n / 10).push(digit(n % 10))
    }
}

fn digit_char(d: u32) -> (c: char)
    requires
        d < 10,
    ensures
        c == digit(d as nat),
{
    if d == 0 {
        '0'
    } else if d == 1 {
        '1'
    } else if d == 2 {
        '2'
    } else if d == 3 {
        '3'
    } else if d == 4 {
        '4'
    } else if d == 5 {
        '5'
    } else if d == 6 {
        '6'
    } else if d == 7 {
        '7'
    } else if d == 8 {
        '8'
    } else {
        '9'
    }
}

/// Appends the decimal numeral of `n` to `out`.
pub fn push_decimal(out: &mut String, n: u32)
    ensures
        final(out)@ == old(out)@ + decimal(n as nat),
    decreases n,
{
    if n >= 10 {
        push_decimal(out, n / 10);
    }
    out.push(digit_char(n % 10));
}

} // verus!
