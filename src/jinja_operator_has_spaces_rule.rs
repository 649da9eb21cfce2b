//! The rule that a filter pipe inside `{{ ... }}` is set off by whitespace.

use vstd::prelude::*;
use crate::diagnostic::{
    diagnostics_for_flags,
    diagnostics_of,
    flagged_numbers,
    views,
    Diagnostic,
    DiagnosticView,
};
use crate::lines::{chars_of, lines_of, split_lines};

verus! {

/// The message of a diagnostic from this rule.
pub const OPERATOR_SPACING_MESSAGE: &'static str = "Operator '|' should be enclosed by spaces.";

/// A character of the Unicode `White_Space` property.
pub open spec fn is_space(c: char) -> bool {
    let u = c as u32;
    ||| (0x9 <= u && u <= 0xd)
    ||| u == 0x20
    ||| u == 0x85
    ||| u == 0xa0
    ||| u == 0x1680
    ||| (0x2000 <= u && u <= 0x200a)
    ||| u == 0x2028
    ||| u == 0x2029
    ||| u == 0x202f
    ||| u == 0x205f
    ||| u == 0x3000
}

pub open spec fn is_brace(c: char) -> bool {
    c == '{' || c == '}'
}

/// `line[a..b + 2]` is an expression span: `{{`, characters that are not
/// braces, then `}}`.
pub open spec fn is_span(line: Seq<char>, a: int, b: int) -> bool {
    &&& 0 <= a
    &&& a + 2 <= b
    &&& b + 2 <= line.len()
    &&& line[a] == '{'
    &&& line[a + 1] == '{'
    &&& line[b] == '}'
    &&& line[b + 1] == '}'
    &&& forall|k: int| a + 2 <= k < b ==> !is_brace(#[trigger] line[k])
}

/// The expression span that opens at `a` holds a `|`.
pub open spec fn pipe_span_at(line: Seq<char>, a: int) -> bool {
    exists|b: int, k: int|
        #![trigger is_span(line, a, b), line[k]]
        is_span(line, a, b) && a + 2 <= k < b && line[k] == '|'
}

/// The expression span that opens at `a` holds a `|` with whitespace on both sides.
pub open spec fn spaced_pipe_span_at(line: Seq<char>, a: int) -> bool {
    exists|b: int, k: int|
        #![trigger is_span(line, a, b), line[k]]
        is_span(line, a, b) && a + 3 <= k && k + 2 <= b && is_space(line[k - 1]) && line[k]
            == '|' && is_space(line[k + 1])
}

/// Some expression span of the line holds a `|`.
pub open spec fn has_pipe_span(line: Seq<char>) -> bool {
    exists|a: int| pipe_span_at(line, a)
}

/// Some expression span of the line holds a `|` with whitespace on both sides.
pub open spec fn has_spaced_pipe_span(line: Seq<char>) -> bool {
    exists|a: int| spaced_pipe_span_at(line, a)
}

/// The line is flagged: a span holds a `|`, and no span holds one set off by
/// whitespace on both sides.
pub open spec fn operator_spacing_violated(line: Seq<char>) -> bool {
    has_pipe_span(line) && !has_spaced_pipe_span(line)
}

/// The diagnostics of this rule for a file at `path` with text `content`.
pub open spec fn operator_spacing_diagnostics(path: Seq<char>, content: Seq<char>) -> Seq<
    DiagnosticView,
> {
    diagnostics_of(
        path,
        flagged_numbers(lines_of(content).map_values(|l: Seq<char>| operator_spacing_violated(l))),
        OPERATOR_SPACING_MESSAGE@,
    )
}

/// Whether `c` is a whitespace character.
pub fn is_space_char(c: char) -> (r: bool)
    ensures
        r == is_space(c),
{
    let u = c as u32;
    (0x9 <= u && u <= 0xd) || u == 0x20 || u == 0x85 || u == 0xa0 || u == 0x1680 || (0x2000 <= u
        && u <= 0x200a) || u == 0x2028 || u == 0x2029 || u == 0x202f || u == 0x205f || u == 0x3000
}

/// Flags filter pipes inside `{{ ... }}` that are not set off by whitespace.
#[derive(Clone, Copy)]
pub struct JinjaOperatorHasSpacesRule {}

impl JinjaOperatorHasSpacesRule {
    pub fn new() -> Self {
        JinjaOperatorHasSpacesRule {  }
    }

    /// Whether an expression span opens at `a`, and whether it holds a `|`,
    /// and one with whitespace on both sides.
    fn span_at(line: &Vec<char>, a: usize) -> (r: (bool, bool))
        requires
            a < line@.len(),
        ensures
            r.0 == pipe_span_at(line@, a as int),
            r.1 == spaced_pipe_span_at(line@, a as int),
    {
        let n = line.len();
        if !(a + 1 < n && line[a] == '{' && line[a + 1] == '{') {
            return (false, false);
        }
        let mut b: usize = a + 2;
        let mut pipe = false;
        let mut spaced = false;
        while b < n && !(line[b] == '{' || line[b] == '}')
            invariant
                n == line@.len(),
                a + 2 <= b <= n,
                forall|k: int| a + 2 <= k < b ==> !is_brace(#[trigger] line@[k]),
                pipe == exists|k: int| a + 2 <= k < b && line@[k] == '|',
                spaced == exists|k: int|
                    a + 3 <= k && k + 1 < b && is_space(line@[k - 1]) && #[trigger] line@[k] == '|'
                        && is_space(line@[k + 1]),
            decreases n - b,
        {
            if line[b] == '|' {
                pipe = true;
            }
            if b - a >= 4 && line[b - 1] == '|' && is_space_char(line[b - 2]) && is_space_char(
                line[b],
            ) {
                spaced = true;
            }
            b += 1;
        }
        if b < n && b + 1 < n && line[b] == '}' && line[b + 1] == '}' {
            assert(is_span(line@, a as int, b as int));
            proof {
                assert forall|b2: int| #[trigger] is_span(line@, a as int, b2) implies b2 == b by {
                    if b2 < b {
                        assert(!is_brace(line@[b2]));
                    } else if b2 > b {
                        assert(!is_brace(line@[b as int]));
                    }
                }
            }
            (pipe, spaced)
        } else {
            proof {
                assert forall|b2: int| !#[trigger] is_span(line@, a as int, b2) by {
                    if is_span(line@, a as int, b2) {
                        if b2 < b {
                            assert(!is_brace(line@[b2]));
                        } else if b2 > b {
                            assert(!is_brace(line@[b as int]));
                        }
                    }
                }
            }
            (false, false)
        }
    }

    /// Whether one line breaks the rule.
    pub fn is_line_flagged(&self, line: &Vec<char>) -> (r: bool)
        ensures
            r == operator_spacing_violated(line@),
    {
        let n = line.len();
        let mut pipe = false;
        let mut spaced = false;
        let mut a: usize = 0;
        while a < n
            invariant
                n == line@.len(),
                a <= n,
                pipe == exists|j: int| 0 <= j < a && pipe_span_at(line@, j),
                spaced == exists|j: int| 0 <= j < a && spaced_pipe_span_at(line@, j),
            decreases n - a,
        {
            let (p, s) = Self::span_at(line, a);
            pipe = pipe || p;
            spaced = spaced || s;
            a += 1;
        }
        proof {
            assert forall|j: int| pipe_span_at(line@, j) implies 0 <= j < n by {
                let (b, k) = choose|b: int, k: int|
                    #![trigger is_span(line@, j, b), line@[k]]
                    is_span(line@, j, b) && j + 2 <= k < b && line@[k] == '|';
            }
            assert forall|j: int| spaced_pipe_span_at(line@, j) implies 0 <= j < n by {
                let (b, k) = choose|b: int, k: int|
                    #![trigger is_span(line@, j, b), line@[k]]
                    is_span(line@, j, b) && j + 3 <= k && k + 2 <= b && is_space(line@[k - 1])
                        && line@[k] == '|' && is_space(line@[k + 1]);
            }
        }
        pipe && !spaced
    }

    /// The diagnostics of this rule for a file at `path` with text `content`,
    /// one per flagged line, in line order.
    pub fn check_content(&self, path: &str, content: &str) -> (r: Vec<Diagnostic>)
        ensures
            views(r@) == operator_spacing_diagnostics(path@, content@),
    {
        let text = chars_of(content);
        let lines = split_lines(&text);
        let ghost line_views = lines@.map_values(|l: Vec<char>| l@);
        let mut flags: Vec<bool> = Vec::new();
        let mut i: usize = 0;
        while i < lines.len()
            invariant
                i <= lines@.len(),
                line_views == lines@.map_values(|l: Vec<char>| l@),
                flags@ == line_views.take(i as int).map_values(
                    |l: Seq<char>| operator_spacing_violated(l),
                ),
            decreases lines.len() - i,
        {
            let f = self.is_line_flagged(&lines[i]);
            flags.push(f);
            i += 1;
            assert(flags@ =~= line_views.take(i as int).map_values(
                |l: Seq<char>| operator_spacing_violated(l),
            ));
        }
        assert(line_views.take(i as int) =~= line_views);
        diagnostics_for_flags(path, &flags, OPERATOR_SPACING_MESSAGE)
    }
}

} // verus!
