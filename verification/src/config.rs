//! The configuration snapshot the indexing core works from, and its
//! validation gate.
//!
//! A loaded configuration is refused outright when its version is not
//! the one this library expects, or when its sectioning parameters
//! would silently skip lines (a stride of zero, or one larger than the
//! window).

use vstd::prelude::*;
use vstd::string::StringExecFns;

verus! {

/// Errors that make a configuration unusable; every one of them is
/// reported before any indexing work starts.
#[derive(Debug)]
pub enum ConfigError {
    /// The file's `config_version` is not the version this library expects.
    VersionMismatch { found: u32, expected: u32 },
    /// The sectioning parameters would never advance or would skip lines.
    InvalidSectioning { size_lines: usize, offset_lines: usize },
    /// A source pattern is not a valid regular expression.
    InvalidPattern { pattern: String },
}

/// The configuration snapshot: which paths to index, which embedding
/// model to ask for, and how to section each file.
pub struct Config {
    pub config_version: u32,
    pub source_files: Vec<String>,
    pub code_search_embedding_model: String,
    pub section_subdividing_size_lines: usize,
    pub section_subdividing_offset_lines: usize,
}

impl Config {
    /// The sectioning parameters are usable: the stride (offset) is
    /// positive and does not exceed the window (size), so no line is
    /// ever skipped.
    pub open spec fn spec_sectioning_ok(&self) -> bool {
        1 <= self.section_subdividing_offset_lines <= self.section_subdividing_size_lines
    }

    /// Gate a loaded configuration: the version must match exactly, and
    /// the sectioning parameters must not skip lines. The version is
    /// judged first.
    pub fn check(&self) -> (r: Result<(), ConfigError>)
        ensures
            r is Ok <==> (self.config_version == crate::CONFIG_VERSION
                && self.spec_sectioning_ok()),
            self.config_version != crate::CONFIG_VERSION ==> r == Err::<(), ConfigError>(
                (ConfigError::VersionMismatch {
                    found: self.config_version,
                    expected: crate::CONFIG_VERSION,
                }),
            ),
            self.config_version == crate::CONFIG_VERSION && !self.spec_sectioning_ok() ==> r
                == Err::<(), ConfigError>(
                (ConfigError::InvalidSectioning {
                    size_lines: self.section_subdividing_size_lines,
                    offset_lines: self.section_subdividing_offset_lines,
                }),
            ),
    {
        if self.config_version != crate::CONFIG_VERSION {
            return Err(
                ConfigError::VersionMismatch {
                    found: self.config_version,
                    expected: crate::CONFIG_VERSION,
                },
            );
        }
        if self.section_subdividing_offset_lines < 1 || self.section_subdividing_offset_lines
            > self.section_subdividing_size_lines {
            return Err(
                ConfigError::InvalidSectioning {
                    size_lines: self.section_subdividing_size_lines,
                    offset_lines: self.section_subdividing_offset_lines,
                },
            );
        }
        Ok(())
    }
}

impl Default for Config {
    /// The starting configuration: the current version, a small set of
    /// source patterns, and a 50-line window advanced 25 lines at a
    /// time.
    fn default() -> (r: Config)
        ensures
            r.config_version == crate::CONFIG_VERSION,
            r.source_files@.len() == 4,
            r.source_files@[0]@ == "./README.md"@,
            r.source_files@[1]@ == "./*.txt"@,
            r.source_files@[2]@ == "./*.rs"@,
            r.source_files@[3]@ == "./src/"@,
            r.code_search_embedding_model@ == "text-embedding-ada-002"@,
            r.section_subdividing_size_lines == 50,
            r.section_subdividing_offset_lines == 25,
            r.spec_sectioning_ok(),
    {
        let mut source_files: Vec<String> = Vec::new();
        source_files.push(String::from_str("./README.md"));
        source_files.push(String::from_str("./*.txt"));
        source_files.push(String::from_str("./*.rs"));
        source_files.push(String::from_str("./src/"));
        Config {
            config_version: crate::CONFIG_VERSION,
            source_files,
            code_search_embedding_model: String::from_str("text-embedding-ada-002"),
            section_subdividing_size_lines: 50,
            section_subdividing_offset_lines: 25,
        }
    }
}

} // verus!
