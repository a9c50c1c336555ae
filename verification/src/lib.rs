//! Curse-word coverage of source comments: which files to inspect, which
//! comments count as cursed, and the coverage ratio of a file and of a run.

pub mod comments;
pub mod coverage;
pub mod error;
pub mod paths;
pub mod report;
pub mod run;
pub mod vocabulary;

pub use comments::{
    count_curse_comments, count_curse_comments_in_file, count_curse_comments_in_source,
    count_curse_comments_with, SourceFile,
};
pub use coverage::{
    calculate_total_curse_coverage, check_coverage, coverage_percent, validate_min_coverage,
    FileCountAnalysis, Shortfall,
};
pub use error::{CursecovError, ErrorKind};
pub use paths::{resolve_paths, split_patterns};
pub use report::{elide_path, generate_coverage_table, insufficient_coverage_message};
pub use run::{report_run, run_cursecov, RunReport};
pub use vocabulary::CurseMatcher;
