//! Options of the passes whose policy the caller supplies.

use vstd::prelude::*;

verus! {

/// How lines that hold metadata instead of lyrics are stripped.
#[derive(Debug, Clone)]
pub struct MetadataStripperOptions {
    pub enabled: bool,
    pub keywords: Option<Vec<String>>,
    pub keyword_case_sensitive: bool,
    pub enable_regex_stripping: bool,
    pub regex_patterns: Option<Vec<String>>,
    pub regex_case_sensitive: bool,
}

impl Default for MetadataStripperOptions {
    /// Stripping by keyword and by pattern is on, without regard to case,
    /// and no keyword or pattern is given.
    fn default() -> (r: Self)
        ensures
            r.enabled,
            r.keywords is None,
            !r.keyword_case_sensitive,
            r.enable_regex_stripping,
            r.regex_patterns is None,
            !r.regex_case_sensitive,
    {
        MetadataStripperOptions {
            enabled: true,
            keywords: None,
            keyword_case_sensitive: false,
            enable_regex_stripping: true,
            regex_patterns: None,
            regex_case_sensitive: false,
        }
    }
}

/// How Chinese text is converted: the name of the conversion to apply.
#[derive(Debug, Clone, Default)]
pub struct ChineseConversionOptions {
    pub config_name: Option<String>,
}

/// Where smoothing applies.
#[derive(Debug, Clone, Copy, PartialEq, Eq)]
pub enum SmoothingMode {
    /// To every line.
    Global,
}

impl Default for SmoothingMode {
    fn default() -> (r: Self)
        ensures
            r == SmoothingMode::Global,
    {
        SmoothingMode::Global
    }
}

} // verus!
