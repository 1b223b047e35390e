//! Counting lines, words, bytes and characters of a fully buffered input,
//! and rendering the requested counts as one summary line.

pub mod args;
pub mod count;
pub mod modes;
pub mod report;

pub use args::{input_path, process, FileArgs, ProgArgs, StdInArgs};
pub use count::{
    count_content_bytes, count_content_characters, count_content_lines, count_content_words,
    CountError,
};
pub use modes::{FlagSet, ProgOption};
pub use report::{count_all, count_one, format_counts, parse_contents};
