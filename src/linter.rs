//! Applying every rule to a file, and to a batch of files.

use vstd::prelude::*;
use crate::diagnostic::{flagged_numbers, views, Diagnostic, DiagnosticView};
use crate::jinja_operator_has_spaces_rule::{
    operator_spacing_diagnostics,
    operator_spacing_violated,
    JinjaOperatorHasSpacesRule,
    OPERATOR_SPACING_MESSAGE,
};
use crate::jinja_statement_delimiter_rule::{
    has_wrong_delimiter,
    statement_delimiter_diagnostics,
    JinjaStatementDelimiterRule,
    STATEMENT_DELIMITER_MESSAGE,
};
use crate::lines::lines_of;

verus! {

/// The diagnostics of every rule for a file at `path` with text `content`:
/// those of the operator-spacing rule, then those of the statement-delimiter rule.
pub open spec fn lint_diagnostics(path: Seq<char>, content: Seq<char>) -> Seq<DiagnosticView> {
    operator_spacing_diagnostics(path, content) + statement_delimiter_diagnostics(path, content)
}

/// Applies every rule to the text of one file.
pub fn lint_content(path: &str, content: &str) -> (r: Vec<Diagnostic>)
    ensures
        views(r@) == lint_diagnostics(path@, content@),
{
    let operator_rule = JinjaOperatorHasSpacesRule::new();
    let statement_rule = JinjaStatementDelimiterRule::new();
    let mut r = operator_rule.check_content(path, content);
    let mut more = statement_rule.check_content(path, content);
    let ghost first = views(r@);
    let ghost second = views(more@);
    r.append(&mut more);
    assert(views(r@) =~= first + second);
    r
}

/// A file of a batch: its path, and its text, or `None` where it could not be read.
pub struct SourceFile {
    pub path: String,
    pub content: Option<String>,
}

/// `r` is what a batch gives for `files`: for each readable file the
/// diagnostics of every rule, and `None` for each unreadable one.
pub open spec fn batch_outcome(files: Seq<SourceFile>, r: Seq<Option<Vec<Diagnostic>>>) -> bool {
    &&& r.len() == files.len()
    &&& forall|i: int|
        0 <= i < files.len() ==> match #[trigger] files[i].content {
            Some(c) => r[i] is Some && views(r[i]->0@) == lint_diagnostics(files[i].path@, c@),
            None => r[i] is None,
        }
}

/// Lints each file of a batch on its own; an unreadable file gives `None`.
pub fn lint_batch(files: &Vec<SourceFile>) -> (r: Vec<Option<Vec<Diagnostic>>>)
    ensures
        batch_outcome(files@, r@),
{
    let mut out: Vec<Option<Vec<Diagnostic>>> = Vec::new();
    let mut i: usize = 0;
    while i < files.len()
        invariant
            i <= files@.len(),
            batch_outcome(files@.take(i as int), out@),
        decreases files.len() - i,
    {
        let file = &files[i];
        let d = match &file.content {
            Some(c) => Some(lint_content(file.path.as_str(), c.as_str())),
            None => None,
        };
        out.push(d);
        i += 1;
        assert(forall|j: int| 0 <= j < i ==> files@.take(i as int)[j] == files@[j]);
    }
    assert(files@.take(i as int) =~= files@);
    out
}

/// Each file's diagnostics in a batch are those it has alone: a file that
/// cannot be read takes nothing from the others.
pub proof fn lemma_failure_isolated(
    files: Seq<SourceFile>,
    r: Seq<Option<Vec<Diagnostic>>>,
    bad: int,
    i: int,
)
    requires
        batch_outcome(files, r),
        0 <= bad < files.len(),
        files[bad].content is None,
        0 <= i < files.len(),
        files[i].content is Some,
    ensures
        r[i] is Some,
        views(r[i]->0@) == lint_diagnostics(files[i].path@, files[i].content->0@),
{
}

/// The 1-based number `i + 1` is among the flagged numbers exactly when
/// `flags[i]` holds, and none is there when no flag holds.
pub proof fn lemma_flagged_numbers(flags: Seq<bool>)
    ensures
        forall|i: int|
            0 <= i < flags.len() ==> (flags[i] <==> flagged_numbers(flags).contains(i + 1)),
        (forall|i: int| 0 <= i < flags.len() ==> !flags[i]) ==> flagged_numbers(flags).len()
            == 0,
        forall|k: int| 0 <= k < flagged_numbers(flags).len() ==> 1 <= #[trigger] flagged_numbers(flags)[k] <= flags.len(),
    decreases flags.len(),
{
    if flags.len() > 0 {
        let prev = flags.drop_last();
        lemma_flagged_numbers(prev);
        assert forall|i: int| 0 <= i < flags.len() implies (flags[i] <==> flagged_numbers(
            flags,
        ).contains(i + 1)) by {
            if i < flags.len() - 1 {
                assert(prev[i] == flags[i]);
                if flagged_numbers(flags).contains(i + 1) && !flagged_numbers(prev).contains(i + 1) {
                    let k = choose|k: int| 0 <= k < flagged_numbers(flags).len() && flagged_numbers(flags)[k] == i + 1;
                    assert(k == flagged_numbers(prev).len());
                }
                if flagged_numbers(prev).contains(i + 1) {
                    let k = choose|k: int| 0 <= k < flagged_numbers(prev).len() && flagged_numbers(prev)[k] == i + 1;
                    assert(flagged_numbers(flags)[k] == i + 1);
                }
            } else if flags[i] {
                assert(flagged_numbers(flags).last() == i + 1);
            } else if flagged_numbers(flags).contains(i + 1) {
                let k = choose|k: int| 0 <= k < flagged_numbers(flags).len() && flagged_numbers(flags)[k] == i + 1;
                assert(flagged_numbers(prev)[k] <= prev.len());
            }
        }
        if forall|i: int| 0 <= i < flags.len() ==> !flags[i] {
            assert(!flags[flags.len() - 1]);
            assert forall|i: int| 0 <= i < prev.len() implies !prev[i] by {
                assert(prev[i] == flags[i]);
            }
        }
    }
}

/// The rules act independently: a line that breaks a rule gives a diagnostic
/// with that rule's message whatever the other rule finds, and a file whose
/// lines break neither rule gives none.
pub proof fn lemma_rules_independent(path: Seq<char>, content: Seq<char>)
    ensures
        forall|i: int|
            0 <= i < lines_of(content).len() && operator_spacing_violated(
                #[trigger] lines_of(content)[i],
            ) ==> lint_diagnostics(path, content).contains(
                (path, i + 1, OPERATOR_SPACING_MESSAGE@),
            ),
        forall|i: int|
            0 <= i < lines_of(content).len() && has_wrong_delimiter(#[trigger] lines_of(content)[i])
                ==> lint_diagnostics(path, content).contains(
                (path, i + 1, STATEMENT_DELIMITER_MESSAGE@),
            ),
        (forall|i: int|
            0 <= i < lines_of(content).len() ==> !operator_spacing_violated(
                #[trigger] lines_of(content)[i],
            ) && !has_wrong_delimiter(lines_of(content)[i])) ==> lint_diagnostics(
            path,
            content,
        ).len() == 0,
{
    let lines = lines_of(content);
    let op_flags = lines.map_values(|l: Seq<char>| operator_spacing_violated(l));
    let st_flags = lines.map_values(|l: Seq<char>| has_wrong_delimiter(l));
    lemma_flagged_numbers(op_flags);
    lemma_flagged_numbers(st_flags);
    let ops = operator_spacing_diagnostics(path, content);
    let sts = statement_delimiter_diagnostics(path, content);
    assert(lint_diagnostics(path, content) == ops + sts);
    assert forall|i: int|
        0 <= i < lines.len() && operator_spacing_violated(#[trigger] lines[i]) implies lint_diagnostics(
        path,
        content,
    ).contains((path, i + 1, OPERATOR_SPACING_MESSAGE@)) by {
        assert(op_flags[i]);
        let k = choose|k: int| 0 <= k < flagged_numbers(op_flags).len() && flagged_numbers(op_flags)[k] == i + 1;
        assert((ops + sts)[k] == (path, i + 1, OPERATOR_SPACING_MESSAGE@));
    }
    assert forall|i: int|
        0 <= i < lines.len() && has_wrong_delimiter(#[trigger] lines[i]) implies lint_diagnostics(
        path,
        content,
    ).contains((path, i + 1, STATEMENT_DELIMITER_MESSAGE@)) by {
        assert(st_flags[i]);
        let k = choose|k: int| 0 <= k < flagged_numbers(st_flags).len() && flagged_numbers(st_flags)[k] == i + 1;
        assert((ops + sts)[ops.len() + k] == (path, i + 1, STATEMENT_DELIMITER_MESSAGE@));
    }
    if forall|i: int|
        0 <= i < lines.len() ==> !operator_spacing_violated(#[trigger] lines[i])
            && !has_wrong_delimiter(lines[i]) {
        assert forall|i: int| 0 <= i < op_flags.len() implies !op_flags[i] by {
            assert(!operator_spacing_violated(lines[i]));
        }
        assert forall|i: int| 0 <= i < st_flags.len() implies !st_flags[i] by {
            assert(!has_wrong_delimiter(lines[i]));
        }
    }
}

} // verus!
