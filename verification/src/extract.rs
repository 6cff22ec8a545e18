//! Extractors: the matched template and the decoded path parameters.

pub mod de;
pub mod matched_path;
pub mod path;

pub use matched_path::MatchedPath;
pub use path::Path;
