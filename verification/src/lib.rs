//! Counting code, comment and blank lines of source files, with the rules
//! that pick the files, detect project kinds and summarise the counts.
pub mod cli;
pub mod counter;
pub mod detect;
pub mod history;
pub mod lang;
pub mod output;
pub mod outside;
pub mod ranking;
pub mod scanner;
pub mod text;
pub mod tui;
