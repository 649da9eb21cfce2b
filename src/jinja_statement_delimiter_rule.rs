//! The rule that statement tags carry no whitespace-control modifiers.

use vstd::prelude::*;
use crate::diagnostic::{
    diagnostics_for_flags,
    diagnostics_of,
    flagged_numbers,
    views,
    Diagnostic,
    DiagnosticView,
};
use crate::lines::{chars_of, lines_of, split_lines};

verus! {

/// The message of a diagnostic from this rule.
pub const STATEMENT_DELIMITER_MESSAGE: &'static str = "Jinja statements should not have wrong delimiters.";

/// A whitespace-control modifier.
pub open spec fn is_modifier(c: char) -> bool {
    c == '-' || c == '+'
}

/// At `i` starts `{%` followed by a modifier, or a modifier followed by `%}`.
pub open spec fn wrong_delimiter_at(line: Seq<char>, i: int) -> bool {
    &&& 0 <= i
    &&& i + 3 <= line.len()
    &&& {
        ||| (line[i] == '{' && line[i + 1] == '%' && is_modifier(line[i + 2]))
        ||| (is_modifier(line[i]) && line[i + 1] == '%' && line[i + 2] == '}')
    }
}

/// The line holds a statement delimiter with a whitespace-control modifier.
pub open spec fn has_wrong_delimiter(line: Seq<char>) -> bool {
    exists|i: int| wrong_delimiter_at(line, i)
}

/// The diagnostics of this rule for a file at `path` with text `content`.
pub open spec fn statement_delimiter_diagnostics(path: Seq<char>, content: Seq<char>) -> Seq<
    DiagnosticView,
> {
    diagnostics_of(
        path,
        flagged_numbers(lines_of(content).map_values(|l: Seq<char>| has_wrong_delimiter(l))),
        STATEMENT_DELIMITER_MESSAGE@,
    )
}

/// Flags statement tags that carry a `-` or `+` whitespace-control modifier.
#[derive(Clone, Copy)]
pub struct JinjaStatementDelimiterRule {}

impl JinjaStatementDelimiterRule {
    pub fn new() -> Self {
        JinjaStatementDelimiterRule {  }
    }

    /// Whether one line breaks the rule.
    pub fn is_line_flagged(&self, line: &Vec<char>) -> (r: bool)
        ensures
            r == has_wrong_delimiter(line@),
    {
        let n = line.len();
        let mut i: usize = 0;
        while n >= 3 && i <= n - 3
            invariant
                n == line@.len(),
                i <= n,
                forall|j: int| 0 <= j < i ==> !wrong_delimiter_at(line@, j),
            decreases n - i,
        {
            let a = line[i];
            let b = line[i + 1];
            let c = line[i + 2];
            if (a == '{' && b == '%' && (c == '-' || c == '+')) || ((a == '-' || a == '+') && b
                == '%' && c == '}') {
                assert(wrong_delimiter_at(line@, i as int));
                return true;
            }
            i += 1;
        }
        assert forall|j: int| !wrong_delimiter_at(line@, j) by {
            if 0 <= j < i {
            }
        }
        false
    }

    /// The diagnostics of this rule for a file at `path` with text `content`,
    /// one per flagged line, in line order.
    pub fn check_content(&self, path: &str, content: &str) -> (r: Vec<Diagnostic>)
        ensures
            views(r@) == statement_delimiter_diagnostics(path@, content@),
    {
        let text = chars_of(content);
        let lines = split_lines(&text);
        let ghost line_views = lines@.map_values(|l: Vec<char>| l@);
        let mut flags: Vec<bool> = Vec::new();
        let mut i: usize = 0;
        while i < lines.len()
            invariant
                i <= lines@.len(),
                line_views == lines@.map_values(|l: Vec<char>| l@),
                flags@ == line_views.take(i as int).map_values(
                    |l: Seq<char>| has_wrong_delimiter(l),
                ),
            decreases lines.len() - i,
        {
            let f = self.is_line_flagged(&lines[i]);
            flags.push(f);
            i += 1;
            assert(flags@ =~= line_views.take(i as int).map_values(
                |l: Seq<char>| has_wrong_delimiter(l),
            ));
        }
        assert(line_views.take(i as int) =~= line_views);
        diagnostics_for_flags(path, &flags, STATEMENT_DELIMITER_MESSAGE)
    }
}

} // verus!
