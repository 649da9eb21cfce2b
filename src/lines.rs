//! Splitting a text into its physical lines.

use vstd::prelude::*;
use vstd::std_specs::iter::IteratorSpec;

verus! {

broadcast use vstd::string::axiom_spec_iter, vstd::string::next_postcondition;

/// A line without the carriage return that ends a `\r\n` terminator.
pub open spec fn strip_cr(l: Seq<char>) -> Seq<char> {
    if l.len() > 0 && l.last() == '\r' {
        l.drop_last()
    } else {
        l
    }
}

/// The lines of `s[start..]`, where the current line began at `start` and the
/// characters `s[start..i]` hold no line feed.
pub open spec fn split_from(s: Seq<char>, start: int, i: int) -> Seq<Seq<char>>
    decreases s.len() - i,
{
    if i >= s.len() {
        if start < s.len() {
            seq![s.subrange(start, s.len() as int)]
        } else {
            seq![]
        }
    } else if s[i] == '\n' {
        seq![strip_cr(s.subrange(start, i))] + split_from(s, i + 1, i + 1)
    } else {
        split_from(s, start, i + 1)
    }
}

/// The physical lines of a text: split at each line feed, a carriage return
/// before it dropped, and no empty line after a final terminator.
pub open spec fn lines_of(s: Seq<char>) -> Seq<Seq<char>> {
    split_from(s, 0, 0)
}

/// The characters of a string, in order.
pub fn chars_of(s: &str) -> (r: Vec<char>)
    ensures
        r@ == s@,
{
    let mut out: Vec<char> = Vec::new();
    let mut it = s.chars();
    loop
        invariant
            out@ + it.remaining() == s@,
            it.decrease() is Some,
        ensures
            out@ == s@,
        decreases it.decrease()->0,
    {
        match it.next() {
            Some(c) => {
                out.push(c);
            },
            None => {
                assert(out@ =~= s@);
                break;
            },
        }
    }
    out
}

/// The lines of a text, as `lines_of` describes them.
pub fn split_lines(text: &Vec<char>) -> (r: Vec<Vec<char>>)
    ensures
        r@.map_values(|l: Vec<char>| l@) == lines_of(text@),
{
    let mut out: Vec<Vec<char>> = Vec::new();
    let mut cur: Vec<char> = Vec::new();
    let ghost mut start: int = 0;
    let mut i: usize = 0;
    while i < text.len()
        invariant
            0 <= start <= i <= text@.len(),
            cur@ == text@.subrange(start, i as int),
            out@.map_values(|l: Vec<char>| l@) + split_from(text@, start, i as int) == lines_of(
                text@,
            ),
        decreases text.len() - i,
    {
        let c = text[i];
        if c == '\n' {
            let ghost prev = out@.map_values(|l: Vec<char>| l@);
            if cur.len() > 0 && cur[cur.len() - 1] == '\r' {
                cur.pop();
            }
            assert(cur@ == strip_cr(text@.subrange(start, i as int)));
            out.push(cur);
            cur = Vec::new();
            proof {
                assert(out@.map_values(|l: Vec<char>| l@) =~= prev.push(
                    strip_cr(text@.subrange(start, i as int)),
                ));
                assert(prev + split_from(text@, start, i as int) =~= out@.map_values(
                    |l: Vec<char>| l@,
                ) + split_from(text@, i + 1, i + 1));
                start = i + 1;
            }
            assert(cur@ =~= text@.subrange(start, i + 1));
        } else {
            cur.push(c);
            assert(cur@ =~= text@.subrange(start, i + 1));
        }
        i += 1;
    }
    if cur.len() > 0 {
        let ghost prev = out@.map_values(|l: Vec<char>| l@);
        out.push(cur);
        assert(out@.map_values(|l: Vec<char>| l@) =~= prev + split_from(text@, start, i as int));
    } else {
        assert(out@.map_values(|l: Vec<char>| l@) =~= out@.map_values(|l: Vec<char>| l@) + split_from(text@, start, i as int));
    }
    out
}

} // verus!
