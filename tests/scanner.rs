use jinja2_linter_cli::config::default_allowed_extensions;
use jinja2_linter_cli::file_scanner::{
    file_extension, is_allowed, scan_for_files, DirEntry, ScanError,
};
use jinja2_linter_cli::linter::{lint_batch, SourceFile};

fn file(path: &str, name: &str) -> DirEntry {
    DirEntry::File { path: path.to_string(), name: name.to_string() }
}

fn dir(path: &str, entries: Vec<DirEntry>) -> DirEntry {
    DirEntry::Dir { path: path.to_string(), entries }
}

fn allowed(list: &[&str]) -> Vec<String> {
    list.iter().map(|s| s.to_string()).collect()
}

fn sample_tree() -> DirEntry {
    dir(
        "root",
        vec![
            file("root/a.html", "a.html"),
            file("root/b.txt", "b.txt"),
            dir(
                "root/sub",
                vec![
                    file("root/sub/c.j2", "c.j2"),
                    dir("root/sub/empty", vec![]),
                    file("root/sub/README", "README"),
                ],
            ),
            DirEntry::Unreadable { path: "root/locked".to_string() },
            file("root/D.HTML", "D.HTML"),
        ],
    )
}

#[test]
fn extension_is_text_after_last_dot() {
    assert_eq!(file_extension("a.html"), Some("html".to_string()));
    assert_eq!(file_extension("a.b.j2"), Some("j2".to_string()));
    assert_eq!(file_extension("noext"), None);
    assert_eq!(file_extension("trailing."), Some("".to_string()));
    assert_eq!(file_extension(""), None);
}

#[test]
fn extension_match_is_exact_and_case_sensitive() {
    let a = allowed(&["html", "j2"]);
    assert!(is_allowed("x.html", &a));
    assert!(!is_allowed("x.HTML", &a));
    assert!(!is_allowed("x.htm", &a));
    assert!(!is_allowed("html", &a));
    assert!(!is_allowed("x.html", &allowed(&[])));
}

#[test]
fn scan_finds_every_matching_file() {
    let got = scan_for_files(&sample_tree(), &allowed(&["html", "j2"])).unwrap();
    assert_eq!(got, vec!["root/a.html".to_string(), "root/sub/c.j2".to_string()]);
}

#[test]
fn scan_of_empty_directory_is_empty() {
    let got = scan_for_files(&dir("e", vec![]), &allowed(&["html"])).unwrap();
    assert!(got.is_empty());
}

#[test]
fn scan_root_errors() {
    let a = allowed(&["html"]);
    assert_eq!(
        scan_for_files(&file("x.html", "x.html"), &a),
        Err(ScanError::NotADirectory)
    );
    assert_eq!(
        scan_for_files(&DirEntry::Unreadable { path: "gone".to_string() }, &a),
        Err(ScanError::Unreadable)
    );
}

#[test]
fn scan_twice_gives_the_same_files() {
    let tree = sample_tree();
    let a = default_allowed_extensions();
    let mut first = scan_for_files(&tree, &a).unwrap();
    let mut second = scan_for_files(&tree, &a).unwrap();
    first.sort();
    second.sort();
    assert_eq!(first, second);
    assert_eq!(first, vec!["root/a.html".to_string(), "root/sub/c.j2".to_string()]);
}

#[test]
fn default_extensions_are_listed() {
    assert_eq!(
        default_allowed_extensions(),
        allowed(&["html", "j2", "jinja2", "tmpl", "jinja", "j2t"])
    );
}

#[test]
fn unreadable_file_does_not_stop_the_batch() {
    let files = vec![
        SourceFile { path: "a.html".to_string(), content: Some("{{ a|b }}".to_string()) },
        SourceFile { path: "b.html".to_string(), content: None },
        SourceFile { path: "c.html".to_string(), content: Some("x\n{%- if y %}".to_string()) },
    ];
    let r = lint_batch(&files);
    assert_eq!(r.len(), 3);
    let a = r[0].as_ref().unwrap();
    assert_eq!(a.len(), 1);
    assert_eq!((a[0].path.as_str(), a[0].line), ("a.html", 1));
    assert!(r[1].is_none());
    let c = r[2].as_ref().unwrap();
    assert_eq!(c.len(), 1);
    assert_eq!((c[0].path.as_str(), c[0].line), ("c.html", 2));
}
