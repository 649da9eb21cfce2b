//! Finding template files in a directory tree by their extension.

use vstd::prelude::*;
use crate::lines::chars_of;

verus! {

/// A directory tree as it was read from disk.
pub enum DirEntry {
    /// A file, with its full path and its own name.
    File { path: String, name: String },
    /// A directory that could be listed, with its entries.
    Dir { path: String, entries: Vec<DirEntry> },
    /// A directory whose listing failed.
    Unreadable { path: String },
}

/// Why a scan could not start at its root.
#[derive(Debug, Clone, Copy, PartialEq, Eq, Structural)]
pub enum ScanError {
    /// The root is a file, not a directory.
    NotADirectory,
    /// The root directory could not be listed.
    Unreadable,
}

/// The index of the last `.` among the first `n` characters of `name`, or -1.
pub open spec fn last_dot(name: Seq<char>, n: int) -> int
    decreases n,
{
    if n <= 0 {
        -1
    } else if name[n - 1] == '.' {
        n - 1
    } else {
        last_dot(name, n - 1)
    }
}

/// The extension of a file name: the text after its last `.`, if it has one.
pub open spec fn extension_of(name: Seq<char>) -> Option<Seq<char>> {
    let d = last_dot(name, name.len() as int);
    if d < 0 {
        None
    } else {
        Some(name.subrange(d + 1, name.len() as int))
    }
}

/// A file of this name is scanned: it has an extension, and that extension is
/// one of `allowed` (compared exactly, case included).
pub open spec fn is_allowed_name(name: Seq<char>, allowed: Seq<Seq<char>>) -> bool {
    match extension_of(name) {
        Some(e) => allowed.contains(e),
        None => false,
    }
}

/// The views of a list of strings.
pub open spec fn string_views(v: Seq<String>) -> Seq<Seq<char>> {
    v.map_values(|s: String| s@)
}

/// How many entries a directory has; zero for any other entry.
pub open spec fn entry_count(e: DirEntry) -> int {
    match e {
        DirEntry::Dir { entries, .. } => entries.len() as int,
        _ => 0,
    }
}

/// The paths of the matching files under `e`, in depth-first order of the
/// listing; an unreadable directory gives none.
pub open spec fn scanned(e: DirEntry, allowed: Seq<Seq<char>>) -> Seq<Seq<char>>
    decreases e, entry_count(e) + 1,
{
    match e {
        DirEntry::File { path, name } => if is_allowed_name(name@, allowed) {
            seq![path@]
        } else {
            seq![]
        },
        DirEntry::Dir { .. } => scanned_prefix(e, entry_count(e), allowed),
        DirEntry::Unreadable { .. } => seq![],
    }
}

/// The paths of the matching files under the first `n` entries of directory `e`.
pub open spec fn scanned_prefix(e: DirEntry, n: int, allowed: Seq<Seq<char>>) -> Seq<Seq<char>>
    decreases e, n,
{
    match e {
        DirEntry::Dir { entries, .. } => if n <= 0 || n > entries.len() {
            seq![]
        } else {
            scanned_prefix(e, n - 1, allowed) + scanned(entries@[n - 1], allowed)
        },
        _ => seq![],
    }
}

/// The tree under `e` holds a file with this path and name, reached by
/// descending through directories that could be listed.
pub open spec fn has_file(e: DirEntry, path: Seq<char>, name: Seq<char>) -> bool
    decreases e, entry_count(e) + 1,
{
    match e {
        DirEntry::File { path: p, name: n } => p@ == path && n@ == name,
        DirEntry::Dir { .. } => has_file_in_prefix(e, entry_count(e), path, name),
        DirEntry::Unreadable { .. } => false,
    }
}

/// One of the first `n` entries of directory `e` holds a file with this path and name.
pub open spec fn has_file_in_prefix(e: DirEntry, n: int, path: Seq<char>, name: Seq<char>) -> bool
    decreases e, n,
{
    match e {
        DirEntry::Dir { entries, .. } => if n <= 0 || n > entries.len() {
            false
        } else {
            has_file_in_prefix(e, n - 1, path, name) || has_file(entries@[n - 1], path, name)
        },
        _ => false,
    }
}

/// What a scan from `root` gives: the matching files when the root is a
/// readable directory, else the reason it could not start.
pub open spec fn scan_outcome(root: DirEntry, allowed: Seq<Seq<char>>) -> Result<
    Seq<Seq<char>>,
    ScanError,
> {
    match root {
        DirEntry::File { .. } => Err(ScanError::NotADirectory),
        DirEntry::Dir { .. } => Ok(scanned(root, allowed)),
        DirEntry::Unreadable { .. } => Err(ScanError::Unreadable),
    }
}

/// A scan result as plain values.
pub open spec fn result_view(r: Result<Vec<String>, ScanError>) -> Result<
    Seq<Seq<char>>,
    ScanError,
> {
    match r {
        Ok(v) => Ok(string_views(v@)),
        Err(e) => Err(e),
    }
}

/// A path is among the scanned files under `e` exactly when the tree holds a
/// file at that path whose name has an allowed extension.
pub proof fn lemma_scan_complete(e: DirEntry, allowed: Seq<Seq<char>>)
    ensures
        forall|p: Seq<char>|
            #[trigger] scanned(e, allowed).contains(p) <==> exists|name: Seq<char>|
                has_file(e, p, name) && is_allowed_name(name, allowed),
    decreases e, entry_count(e) + 1,
{
    match e {
        DirEntry::File { path, name } => {
            assert forall|p: Seq<char>|
                #[trigger] scanned(e, allowed).contains(p) <==> exists|nm: Seq<char>|
                    has_file(e, p, nm) && is_allowed_name(nm, allowed) by {
                if scanned(e, allowed).contains(p) {
                    assert(scanned(e, allowed)[0] == path@);
                    assert(has_file(e, p, name@) && is_allowed_name(name@, allowed));
                }
                if exists|nm: Seq<char>| has_file(e, p, nm) && is_allowed_name(nm, allowed) {
                    let nm = choose|nm: Seq<char>| has_file(e, p, nm) && is_allowed_name(nm, allowed);
                    assert(nm == name@ && p == path@);
                    assert(scanned(e, allowed)[0] == p);
                }
            }
        },
        DirEntry::Dir { .. } => {
            lemma_scan_prefix_complete(e, entry_count(e), allowed);
            assert(scanned(e, allowed) == scanned_prefix(e, entry_count(e), allowed));
            assert forall|p: Seq<char>, nm: Seq<char>|
                #[trigger] has_file(e, p, nm) == has_file_in_prefix(e, entry_count(e), p, nm) by {
            }
        },
        DirEntry::Unreadable { .. } => {
        },
    }
}

/// A path is among the scanned files under the first `n` entries of `e`
/// exactly when one of them holds a file at that path with an allowed name.
pub proof fn lemma_scan_prefix_complete(e: DirEntry, n: int, allowed: Seq<Seq<char>>)
    ensures
        forall|p: Seq<char>|
            #[trigger] scanned_prefix(e, n, allowed).contains(p) <==> exists|name: Seq<char>|
                has_file_in_prefix(e, n, p, name) && is_allowed_name(name, allowed),
    decreases e, n,
{
    match e {
        DirEntry::Dir { entries, .. } => {
            if !(n <= 0 || n > entries.len()) {
                let child = entries@[n - 1];
                lemma_scan_prefix_complete(e, n - 1, allowed);
                lemma_scan_complete(child, allowed);
                let left = scanned_prefix(e, n - 1, allowed);
                let right = scanned(child, allowed);
                assert(scanned_prefix(e, n, allowed) == left + right);
                assert forall|p: Seq<char>|
                    #[trigger] scanned_prefix(e, n, allowed).contains(p) implies exists|
                        name: Seq<char>,
                    | has_file_in_prefix(e, n, p, name) && is_allowed_name(name, allowed) by {
                    let k = choose|k: int|
                        0 <= k < (left + right).len() && (left + right)[k] == p;
                    if k < left.len() {
                        assert(left.contains(p));
                    } else {
                        assert(right[k - left.len()] == p);
                        assert(right.contains(p));
                    }
                }
                assert forall|p: Seq<char>, name: Seq<char>|
                    #[trigger] has_file_in_prefix(e, n, p, name) && is_allowed_name(
                        name,
                        allowed,
                    ) implies scanned_prefix(e, n, allowed).contains(p) by {
                    if has_file_in_prefix(e, n - 1, p, name) {
                        assert(left.contains(p));
                        let k = choose|k: int| 0 <= k < left.len() && left[k] == p;
                        assert((left + right)[k] == p);
                    } else {
                        assert(right.contains(p));
                        let k = choose|k: int| 0 <= k < right.len() && right[k] == p;
                        assert((left + right)[left.len() + k] == p);
                    }
                }
            }
        },
        _ => {
        },
    }
}

/// A file of the tree, at a path that no other file of the tree shares, is
/// scanned exactly when its name has an extension among `allowed`.
pub proof fn lemma_extension_filter(
    root: DirEntry,
    allowed: Seq<Seq<char>>,
    path: Seq<char>,
    name: Seq<char>,
)
    requires
        has_file(root, path, name),
        forall|other: Seq<char>| has_file(root, path, other) ==> other == name,
    ensures
        scanned(root, allowed).contains(path) <==> match extension_of(name) {
            Some(ext) => allowed.contains(ext),
            None => false,
        },
{
    lemma_scan_complete(root, allowed);
    if scanned(root, allowed).contains(path) {
        let other = choose|other: Seq<char>|
            has_file(root, path, other) && is_allowed_name(other, allowed);
        assert(other == name);
    }
    if is_allowed_name(name, allowed) {
        assert(has_file(root, path, name) && is_allowed_name(name, allowed));
    }
}

/// Two scans of one unchanged tree give the same outcome, and on success the
/// same set of files.
pub proof fn lemma_scan_idempotent(
    root: DirEntry,
    allowed: Seq<Seq<char>>,
    first: Result<Vec<String>, ScanError>,
    second: Result<Vec<String>, ScanError>,
)
    requires
        result_view(first) == scan_outcome(root, allowed),
        result_view(second) == scan_outcome(root, allowed),
    ensures
        first is Ok <==> second is Ok,
        first is Ok ==> string_views(first->Ok_0@).to_set() == string_views(
            second->Ok_0@,
        ).to_set(),
{
}

/// The extension of a file name, as `extension_of` describes it.
pub fn file_extension(name: &str) -> (r: Option<String>)
    ensures
        match r {
            Some(s) => extension_of(name@) == Some(s@),
            None => extension_of(name@) is None,
        },
{
    let chars = chars_of(name);
    let n = chars.len();
    let mut i: usize = n;
    while i > 0
        invariant
            i <= n,
            n == name@.len(),
            chars@ == name@,
            last_dot(name@, n as int) == last_dot(name@, i as int),
        decreases i,
    {
        if chars[i - 1] == '.' {
            return Some(name.substring_char(i, n).to_owned());
        }
        i -= 1;
    }
    None
}

/// Whether a file of this name is scanned.
pub fn is_allowed(name: &str, allowed: &Vec<String>) -> (r: bool)
    ensures
        r == is_allowed_name(name@, string_views(allowed@)),
{
    match file_extension(name) {
        None => false,
        Some(ext) => {
            let mut i: usize = 0;
            while i < allowed.len()
                invariant
                    i <= allowed@.len(),
                    extension_of(name@) == Some(ext@),
                    forall|j: int| 0 <= j < i ==> allowed@[j]@ != ext@,
                decreases allowed.len() - i,
            {
                if allowed[i] == ext {
                    assert(string_views(allowed@)[i as int] == ext@);
                    assert(string_views(allowed@).contains(ext@));
                    return true;
                }
                i += 1;
            }
            assert forall|j: int| 0 <= j < string_views(allowed@).len() implies string_views(
                allowed@,
            )[j] != ext@ by {
                assert(string_views(allowed@)[j] == allowed@[j]@);
            }
            false
        },
    }
}

/// Appends the matching files under `e` to `out`, in listing order.
fn collect(e: &DirEntry, allowed: &Vec<String>, out: &mut Vec<String>)
    ensures
        string_views(final(out)@) == string_views(old(out)@) + scanned(*e, string_views(allowed@)),
    decreases e,
{
    let ghost start = string_views(out@);
    let ghost a = string_views(allowed@);
    match e {
        DirEntry::File { path, name } => {
            if is_allowed(name.as_str(), allowed) {
                out.push(path.clone());
                assert(string_views(out@) =~= start + seq![path@]);
            } else {
                assert(string_views(out@) =~= start + Seq::<Seq<char>>::empty());
            }
        },
        DirEntry::Dir { entries, .. } => {
            let mut i: usize = 0;
            assert(string_views(out@) =~= start + scanned_prefix(*e, 0, a));
            while i < entries.len()
                invariant
                    i <= entries@.len(),
                    *e matches DirEntry::Dir { entries: es, .. } && es == entries,
                    a == string_views(allowed@),
                    string_views(out@) == start + scanned_prefix(*e, i as int, a),
                decreases entries.len() - i,
            {
                collect(&entries[i], allowed, out);
                i += 1;
                assert(string_views(out@) =~= start + scanned_prefix(*e, i as int, a));
            }
        },
        DirEntry::Unreadable { .. } => {
            assert(string_views(out@) =~= start + Seq::<Seq<char>>::empty());
        },
    }
}

/// Scans the tree read from `root` for files whose extension is allowed.
/// Fails when the root is not a directory or could not be listed; a
/// subdirectory that could not be listed is skipped.
pub fn scan_for_files(root: &DirEntry, allowed: &Vec<String>) -> (r: Result<Vec<String>, ScanError>)
    ensures
        result_view(r) == scan_outcome(*root, string_views(allowed@)),
{
    match root {
        DirEntry::File { .. } => Err(ScanError::NotADirectory),
        DirEntry::Unreadable { .. } => Err(ScanError::Unreadable),
        DirEntry::Dir { .. } => {
            let mut out: Vec<String> = Vec::new();
            collect(root, allowed, &mut out);
            assert(string_views(out@) =~= scanned(*root, string_views(allowed@)));
            Ok(out)
        },
    }
}

} // verus!
