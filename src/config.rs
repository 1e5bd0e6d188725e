//! The configuration of one extraction.

use vstd::prelude::*;

verus! {

/// Supported output formats.
#[derive(Debug, Clone, Copy, PartialEq, Eq)]
pub enum OutputFormat {
    Xml,
    Json,
    Text,
}

/// Configuration for repository processing.
///
/// Paths are held as text: `directory` is the root to walk and
/// `output_file`, when present, the file the document is written to.
#[derive(Debug, Clone)]
pub struct Config {
    pub directory: String,
    pub output_file: Option<String>,
    pub format: OutputFormat,
    pub include_patterns: Vec<String>,
    pub exclude_patterns: Vec<String>,
    pub exclude_dir_patterns: Vec<String>,
    pub max_file_size: u64,
    pub pretty_print: bool,
}

/// The include patterns used when none are given: common text-file extensions.
pub open spec fn default_include_patterns() -> Seq<Seq<char>> {
    seq!["*.py"@, "*.js"@, "*.rs"@, "*.md"@, "*.txt"@, "*.ini"@]
}

/// The largest file size, in bytes, collected by default.
pub const DEFAULT_MAX_FILE_SIZE: u64 = 1_000_000;

impl Default for Config {
    /// The current directory, XML output, the default include patterns, no
    /// excludes, files up to one megabyte, compact output.
    fn default() -> (r: Config)
        ensures
            r.directory@ == "."@,
            r.output_file is None,
            r.format == OutputFormat::Xml,
            r.include_patterns@.map_values(|s: String| s@) == default_include_patterns(),
            r.exclude_patterns@.len() == 0,
            r.exclude_dir_patterns@.len() == 0,
            r.max_file_size == DEFAULT_MAX_FILE_SIZE,
            !r.pretty_print,
    {
        let include_patterns = vec![
            "*.py".to_owned(),
            "*.js".to_owned(),
            "*.rs".to_owned(),
            "*.md".to_owned(),
            "*.txt".to_owned(),
            "*.ini".to_owned(),
        ];
        proof {
            assert(include_patterns@.map_values(|s: String| s@) =~= default_include_patterns());
        }
        Config {
            directory: ".".to_owned(),
            output_file: None,
            format: OutputFormat::Xml,
            include_patterns,
            exclude_patterns: Vec::new(),
            exclude_dir_patterns: Vec::new(),
            max_file_size: DEFAULT_MAX_FILE_SIZE,
            pretty_print: false,
        }
    }
}

} // verus!
