//! Diagnostics, and the numbering of flagged lines.

use vstd::prelude::*;

verus! {

/// One reported violation: the file, the 1-based line number and the message.
pub struct Diagnostic {
    pub path: String,
    pub line: usize,
    pub message: String,
}

/// A diagnostic as plain values: path, line number, message.
pub type DiagnosticView = (Seq<char>, int, Seq<char>);

impl View for Diagnostic {
    type V = DiagnosticView;

    open spec fn view(&self) -> DiagnosticView {
        (self.path@, self.line as int, self.message@)
    }
}

/// The views of a sequence of diagnostics.
pub open spec fn views(d: Seq<Diagnostic>) -> Seq<DiagnosticView> {
    d.map_values(|x: Diagnostic| x@)
}

/// The 1-based positions at which `flags` holds `true`, in increasing order.
pub open spec fn flagged_numbers(flags: Seq<bool>) -> Seq<int>
    decreases flags.len(),
{
    if flags.len() == 0 {
        seq![]
    } else {
        let prev = flagged_numbers(flags.drop_last());
        if flags.last() {
            prev.push(flags.len() as int)
        } else {
            prev
        }
    }
}

/// One diagnostic for each of `numbers`, all for `path` and with `message`.
pub open spec fn diagnostics_of(path: Seq<char>, numbers: Seq<int>, message: Seq<char>) -> Seq<
    DiagnosticView,
> {
    numbers.map_values(|n: int| (path, n, message))
}

/// The diagnostics for a file whose lines are flagged as `flags` says.
pub fn diagnostics_for_flags(path: &str, flags: &Vec<bool>, message: &str) -> (r: Vec<Diagnostic>)
    ensures
        views(r@) == diagnostics_of(path@, flagged_numbers(flags@), message@),
{
    let mut out: Vec<Diagnostic> = Vec::new();
    let mut i: usize = 0;
    while i < flags.len()
        invariant
            i <= flags@.len(),
            views(out@) == diagnostics_of(path@, flagged_numbers(flags@.take(i as int)), message@),
        decreases flags.len() - i,
    {
        let ghost before = views(out@);
        assert(flags@.take(i + 1).drop_last() =~= flags@.take(i as int));
        if flags[i] {
            out.push(Diagnostic { path: path.to_owned(), line: i + 1, message: message.to_owned() });
            assert(views(out@) =~= before.push((path@, i + 1, message@)));
            assert(views(out@) =~= diagnostics_of(
                path@,
                flagged_numbers(flags@.take(i + 1)),
                message@,
            ));
        } else {
            assert(views(out@) =~= diagnostics_of(
                path@,
                flagged_numbers(flags@.take(i + 1)),
                message@,
            ));
        }
        i += 1;
    }
    assert(flags@.take(i as int) =~= flags@);
    out
}

} // verus!
