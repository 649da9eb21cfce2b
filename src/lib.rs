//! A linter for Jinja templates: finds template files under a directory by
//! extension and checks each line against two style rules.

pub mod config;
pub mod diagnostic;
pub mod file_scanner;
pub mod jinja_operator_has_spaces_rule;
pub mod jinja_statement_delimiter_rule;
pub mod lines;
pub mod linter;
