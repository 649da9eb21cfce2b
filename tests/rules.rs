use jinja2_linter_cli::diagnostic::Diagnostic;
use jinja2_linter_cli::jinja_operator_has_spaces_rule::{
    is_space_char, JinjaOperatorHasSpacesRule, OPERATOR_SPACING_MESSAGE,
};
use jinja2_linter_cli::jinja_statement_delimiter_rule::{
    JinjaStatementDelimiterRule, STATEMENT_DELIMITER_MESSAGE,
};
use jinja2_linter_cli::lines::{chars_of, split_lines};
use jinja2_linter_cli::linter::lint_content;

fn chars(s: &str) -> Vec<char> {
    s.chars().collect()
}

fn operator_flagged(line: &str) -> bool {
    JinjaOperatorHasSpacesRule::new().is_line_flagged(&chars(line))
}

fn statement_flagged(line: &str) -> bool {
    JinjaStatementDelimiterRule::new().is_line_flagged(&chars(line))
}

fn lines(s: &str) -> Vec<String> {
    split_lines(&chars(s))
        .into_iter()
        .map(|l| l.into_iter().collect())
        .collect()
}

fn triple(d: &Diagnostic) -> (String, usize, String) {
    (d.path.clone(), d.line, d.message.clone())
}

#[test]
fn operator_without_spaces_is_flagged() {
    assert!(operator_flagged("{{ value|filter }}"));
}

#[test]
fn operator_with_spaces_is_not_flagged() {
    assert!(!operator_flagged("{{ value | filter }}"));
}

#[test]
fn operator_spaced_on_one_side_is_flagged() {
    assert!(operator_flagged("{{ value |filter }}"));
    assert!(operator_flagged("{{ value| filter }}"));
}

#[test]
fn operator_rule_ignores_text_outside_spans() {
    assert!(!operator_flagged("a|b"));
    assert!(!operator_flagged("{{ value }}|filter"));
    assert!(!operator_flagged("{{ value|filter"));
    assert!(!operator_flagged(""));
}

#[test]
fn operator_rule_span_without_braces_inside() {
    assert!(!operator_flagged("{{ a { b|c }}"));
    assert!(operator_flagged("{{{ a|b }}"));
    assert!(operator_flagged("{{|}}"));
}

#[test]
fn operator_rule_is_line_level() {
    assert!(!operator_flagged("{{ a|b }} {{ c | d }}"));
    assert!(operator_flagged("{{ a|b }} {{ c|d }}"));
}

#[test]
fn operator_rule_accepts_unicode_whitespace() {
    assert!(!operator_flagged("{{ a\u{a0}|\u{3000}b }}"));
    assert!(!operator_flagged("{{ a\t|\tb }}"));
    assert!(is_space_char('\u{2028}'));
    assert!(!is_space_char('\u{200b}'));
    assert!(!is_space_char('x'));
}

#[test]
fn statement_opening_modifier_is_flagged() {
    assert!(statement_flagged("{%- if x %}"));
    assert!(statement_flagged("{%+ if x %}"));
}

#[test]
fn statement_closing_modifier_is_flagged() {
    assert!(statement_flagged("{% if x -%}"));
    assert!(statement_flagged("{% if x +%}"));
}

#[test]
fn statement_without_modifier_is_not_flagged() {
    assert!(!statement_flagged("{% if x %}"));
    assert!(!statement_flagged("{{ a - b }}"));
    assert!(!statement_flagged("{%"));
    assert!(!statement_flagged(""));
}

#[test]
fn line_splitting_follows_terminators() {
    assert_eq!(lines(""), Vec::<String>::new());
    assert_eq!(lines("a"), vec!["a"]);
    assert_eq!(lines("a\n"), vec!["a"]);
    assert_eq!(lines("a\r\nb\n\nc"), vec!["a", "b", "", "c"]);
    assert_eq!(lines("\n"), vec![""]);
    assert_eq!(lines("x\r"), vec!["x\r"]);
}

#[test]
fn chars_of_keeps_every_character() {
    assert_eq!(chars_of("aé\u{3000}z"), vec!['a', 'é', '\u{3000}', 'z']);
}

#[test]
fn diagnostic_reports_second_line() {
    let content = "{{ a | b }}\n{{ a|b }}\n{{ c }}\n";
    let d = JinjaOperatorHasSpacesRule::new().check_content("t.html", content);
    assert_eq!(d.len(), 1);
    assert_eq!(
        triple(&d[0]),
        ("t.html".to_string(), 2, OPERATOR_SPACING_MESSAGE.to_string())
    );
}

#[test]
fn statement_diagnostics_keep_line_order() {
    let content = "{%- if a %}\nplain\r\n{% endif -%}";
    let d = JinjaStatementDelimiterRule::new().check_content("p.j2", content);
    let got: Vec<(String, usize, String)> = d.iter().map(triple).collect();
    assert_eq!(
        got,
        vec![
            ("p.j2".to_string(), 1, STATEMENT_DELIMITER_MESSAGE.to_string()),
            ("p.j2".to_string(), 3, STATEMENT_DELIMITER_MESSAGE.to_string()),
        ]
    );
}

#[test]
fn file_violating_both_rules_gets_both_diagnostics() {
    let content = "ok\n{%- if x|y %}{{ x|y }}";
    let got: Vec<(String, usize, String)> =
        lint_content("f.html", content).iter().map(triple).collect();
    assert_eq!(
        got,
        vec![
            ("f.html".to_string(), 2, OPERATOR_SPACING_MESSAGE.to_string()),
            ("f.html".to_string(), 2, STATEMENT_DELIMITER_MESSAGE.to_string()),
        ]
    );
}

#[test]
fn clean_file_gets_no_diagnostics() {
    let content = "{% if x %}\n{{ a | b }}\n{% endif %}\n";
    assert!(lint_content("clean.html", content).is_empty());
}

#[test]
fn messages_are_fixed() {
    assert_eq!(OPERATOR_SPACING_MESSAGE, "Operator '|' should be enclosed by spaces.");
    assert_eq!(
        STATEMENT_DELIMITER_MESSAGE,
        "Jinja statements should not have wrong delimiters."
    );
}

#[test]
fn line_splitting_agrees_with_std() {
    for s in ["", "a", "a\n", "a\r\n", "\r\n\r\n", "a\n\nb\r", "x\ry\nz", "é\r\nü"] {
        let ours = lines(s);
        let std_lines: Vec<String> = s.lines().map(|l| l.to_string()).collect();
        assert_eq!(ours, std_lines, "input {:?}", s);
    }
}
