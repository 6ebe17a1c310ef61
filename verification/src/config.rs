//! User configuration: enumerated options with their stock values.
//! Loading the YAML file and resolving home-relative directories is
//! filesystem work and stays with the caller; this module holds the
//! values and the derived settings.

use vstd::prelude::*;
use crate::parser::ParserLimits;

verus! {

/// Options of an out-of-core web aggregator; carried, never read here.
#[derive(Clone, Debug)]
pub struct WebServerConfig {
    pub path: String,
    pub url: String,
}

/// Indexing options.
#[derive(Clone, Debug)]
pub struct IndexConfig {
    pub auto_index_on_startup: bool,
    pub writer_heap_mb: u32,
    pub cache_dir: Option<String>,
    pub claude_dir: Option<String>,
}

impl Default for IndexConfig {
    /// Auto-index on, 50 MiB writer heap, stock directories.
    fn default() -> (r: Self)
        ensures
            r.auto_index_on_startup == true,
            r.writer_heap_mb == 50,
            r.cache_dir is None,
            r.claude_dir is None,
    {
        IndexConfig {
            auto_index_on_startup: true,
            writer_heap_mb: 50,
            cache_dir: None,
            claude_dir: None,
        }
    }
}

/// Advisory locking options.
#[derive(Clone, Debug)]
pub struct LockingConfig {
    pub enabled: bool,
    pub lock_file: Option<String>,
}

impl Default for LockingConfig {
    fn default() -> (r: Self)
        ensures
            r.enabled == true,
            r.lock_file is None,
    {
        LockingConfig { enabled: true, lock_file: None }
    }
}

/// Content budgets.
#[derive(Clone, Copy, Debug)]
pub struct LimitsConfig {
    pub per_file_chars: usize,
    pub tool_input_max_chars: usize,
    pub tool_result_max_chars: usize,
}

impl Default for LimitsConfig {
    fn default() -> (r: Self)
        ensures
            r.per_file_chars == 150000,
            r.tool_input_max_chars == 200,
            r.tool_result_max_chars == 500,
    {
        LimitsConfig { per_file_chars: 150000, tool_input_max_chars: 200, tool_result_max_chars: 500 }
    }
}

/// Search options.
#[derive(Clone, Debug)]
pub struct SearchConfig {
    pub exclude_patterns: Vec<String>,
}

impl Default for SearchConfig {
    fn default() -> (r: Self)
        ensures
            r.exclude_patterns@.len() == 0,
    {
        SearchConfig { exclude_patterns: Vec::new() }
    }
}

/// The whole user configuration.
#[derive(Clone, Debug)]
pub struct Config {
    pub web_server: Option<WebServerConfig>,
    pub index: IndexConfig,
    pub locking: LockingConfig,
    pub limits: LimitsConfig,
    pub search: SearchConfig,
}

impl Default for Config {
    fn default() -> (r: Self)
        ensures
            r.web_server is None,
            r.index.auto_index_on_startup == true,
            r.index.writer_heap_mb == 50,
            r.locking.enabled == true,
            r.limits.per_file_chars == 150000,
            r.search.exclude_patterns@.len() == 0,
    {
        Config {
            web_server: None,
            index: IndexConfig::default(),
            locking: LockingConfig::default(),
            limits: LimitsConfig::default(),
            search: SearchConfig::default(),
        }
    }
}

/// `mb` megabytes in bytes, clamped to `usize::MAX`.
pub open spec fn heap_bytes_of(mb: u32) -> int {
    if mb as int * 1048576 > usize::MAX {
        usize::MAX as int
    } else {
        mb as int * 1048576
    }
}

impl Config {
    /// The writer's in-memory buffer budget, in bytes.
    pub fn get_writer_heap_size(&self) -> (r: usize)
        ensures
            r as int == heap_bytes_of(self.index.writer_heap_mb),
    {
        let mb = self.index.writer_heap_mb as u64;
        let bytes = mb * 1048576;
        if bytes > usize::MAX as u64 {
            usize::MAX
        } else {
            bytes as usize
        }
    }

    /// The lock sentinel path: the configured override, else
    /// `index.lock` inside the cache directory.
    pub fn get_lock_file_path(&self, cache_dir: &str) -> (r: String)
        ensures
            match self.locking.lock_file {
                Some(p) => r@ == p@,
                None => r@ == cache_dir@ + "/index.lock"@,
            },
    {
        match &self.locking.lock_file {
            Some(p) => p.clone(),
            None => {
                let mut r: String = cache_dir.to_owned();
                r.append("/index.lock");
                r
            },
        }
    }

    /// The parser budgets, clamped to at least one character so that
    /// truncation always has room for its ellipsis.
    pub fn parser_limits(&self) -> (r: ParserLimits)
        ensures
            r.tool_input_max_chars == if self.limits.tool_input_max_chars >= 1 {
                self.limits.tool_input_max_chars
            } else {
                1
            },
            r.tool_result_max_chars == if self.limits.tool_result_max_chars >= 1 {
                self.limits.tool_result_max_chars
            } else {
                1
            },
    {
        ParserLimits {
            tool_input_max_chars: if self.limits.tool_input_max_chars >= 1 {
                self.limits.tool_input_max_chars
            } else {
                1
            },
            tool_result_max_chars: if self.limits.tool_result_max_chars >= 1 {
                self.limits.tool_result_max_chars
            } else {
                1
            },
        }
    }
}

} // verus!
