//! The configuration the linter reads: which file extensions to scan.

use vstd::prelude::*;

verus! {

/// The linter's own table of the configuration file.
pub struct Jinja2LinterCli {
    pub allowed_extensions: Vec<String>,
}

/// The `tool` table of the configuration file.
pub struct Tool {
    pub jinja2_linter_cli: Jinja2LinterCli,
}

/// The configuration file, as far as the linter reads it.
pub struct PyProject {
    pub tool: Tool,
}

/// The extensions scanned when the configuration names none.
pub open spec fn default_extensions() -> Seq<Seq<char>> {
    seq!["html"@, "j2"@, "jinja2"@, "tmpl"@, "jinja"@, "j2t"@]
}

/// The allowed extensions used when the configuration file gives none.
pub fn default_allowed_extensions() -> (r: Vec<String>)
    ensures
        r@.map_values(|s: String| s@) == default_extensions(),
{
    let mut r: Vec<String> = Vec::new();
    r.push(String::from_str("html"));
    r.push(String::from_str("j2"));
    r.push(String::from_str("jinja2"));
    r.push(String::from_str("tmpl"));
    r.push(String::from_str("jinja"));
    r.push(String::from_str("j2t"));
    proof {
        assert(r@.map_values(|s: String| s@) =~= default_extensions());
    }
    r
}

} // verus!
