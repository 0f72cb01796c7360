//! The configuration model: user-level sections, their defaults, the
//! repo-level sections that override them, and the decisions taken while
//! locating and loading configuration files.
use vstd::prelude::*;
use std::path::PathBuf;
use crate::text::strs;

verus! {

broadcast use vstd::string::group_string_axioms;

/// `std::path::PathBuf`, held opaque: the library only carries it.
#[verifier::external_type_specification]
#[verifier::external_body]
pub struct ExPathBuf(std::path::PathBuf);

/// The whole configuration.
#[derive(Debug)]
pub struct Config {
    pub tracking: TrackingConfig,
    pub display: DisplayConfig,
    pub filters: FilterConfig,
    pub telemetry: TelemetryConfig,
    pub hooks: HooksConfig,
    pub limits: LimitsConfig,
    pub gradle: GradleConfig,
}

/// Hook settings.
#[derive(Debug)]
pub struct HooksConfig {
    /// Commands to exclude from auto-rewrite (e.g. `["curl", "playwright"]`).
    pub exclude_commands: Vec<String>,
}

/// Command tracking settings.
#[derive(Debug)]
pub struct TrackingConfig {
    pub enabled: bool,
    pub history_days: u32,
    pub database_path: Option<PathBuf>,
}

/// Display settings.
#[derive(Debug)]
pub struct DisplayConfig {
    pub colors: bool,
    pub emoji: bool,
    pub max_width: usize,
}

/// Directories and files to ignore.
#[derive(Debug)]
pub struct FilterConfig {
    pub ignore_dirs: Vec<String>,
    pub ignore_files: Vec<String>,
}

/// Telemetry settings.
#[derive(Debug)]
pub struct TelemetryConfig {
    pub enabled: bool,
}

/// Output limits.
#[derive(Debug)]
pub struct LimitsConfig {
    /// Max total grep results to show.
    pub grep_max_results: usize,
    /// Max matches per file in grep output.
    pub grep_max_per_file: usize,
    /// Max staged/modified files shown in git status.
    pub status_max_files: usize,
    /// Max untracked files shown in git status.
    pub status_max_untracked: usize,
    /// Max chars for parser passthrough fallback.
    pub passthrough_max_chars: usize,
}

/// Gradle settings.
#[derive(Debug)]
pub struct GradleConfig {
    /// Package prefixes treated as user code in stack traces (kept, not dropped).
    pub user_packages: Vec<String>,
    /// Additional regex patterns for lines to drop, applied after the
    /// built-in global filters.
    pub extra_drop_patterns: Vec<String>,
    /// Additional package prefixes treated as framework noise in stack traces
    /// (built-in: `java.*`, `kotlin.*`, `sun.*`, `javax.*`, `jdk.*`,
    /// `jakarta.*`, `*.internal.*`). Default extras: `org.gradle`,
    /// `org.junit.platform`, `org.junit.jupiter.engine`, `org.springframework`,
    /// `com.google.inject`, `io.grpc`, `org.mockito`, `io.mockk`,
    /// `org.eclipse.jetty`.
    pub drop_frame_packages: Vec<String>,
}

/// Repo-level configuration: only the sections that make sense at repo
/// scope; an absent section is `None` and overrides nothing.
#[derive(Debug)]
pub struct RepoConfig {
    pub gradle: Option<GradleConfig>,
    pub hooks: Option<HooksConfig>,
    pub filters: Option<FilterConfig>,
}

impl Default for TrackingConfig {
    fn default() -> (r: Self)
        ensures
            r.enabled,
            r.history_days == 90,
            r.database_path is None,
    {
        TrackingConfig { enabled: true, history_days: 90, database_path: None }
    }
}

impl Default for DisplayConfig {
    fn default() -> (r: Self)
        ensures
            r.colors,
            r.emoji,
            r.max_width == 120,
    {
        DisplayConfig { colors: true, emoji: true, max_width: 120 }
    }
}

/// The directories ignored by default.
pub open spec fn default_ignore_dirs() -> Seq<Seq<char>> {
    seq![".git"@, "node_modules"@, "target"@, "__pycache__"@, ".venv"@, "vendor"@]
}

/// The files ignored by default.
pub open spec fn default_ignore_files() -> Seq<Seq<char>> {
    seq!["*.lock"@, "*.min.js"@, "*.min.css"@]
}

impl Default for FilterConfig {
    fn default() -> (r: Self)
        ensures
            strs(r.ignore_dirs@) == default_ignore_dirs(),
            strs(r.ignore_files@) == default_ignore_files(),
    {
        let ignore_dirs = vec![
            ".git".to_string(),
            "node_modules".to_string(),
            "target".to_string(),
            "__pycache__".to_string(),
            ".venv".to_string(),
            "vendor".to_string(),
        ];
        let ignore_files = vec!["*.lock".to_string(), "*.min.js".to_string(), "*.min.css".to_string()];
        assert(strs(ignore_dirs@) =~= default_ignore_dirs());
        assert(strs(ignore_files@) =~= default_ignore_files());
        FilterConfig { ignore_dirs, ignore_files }
    }
}

impl Default for TelemetryConfig {
    fn default() -> (r: Self)
        ensures
            r.enabled,
    {
        TelemetryConfig { enabled: true }
    }
}

impl Default for HooksConfig {
    fn default() -> (r: Self)
        ensures
            r.exclude_commands@.len() == 0,
    {
        HooksConfig { exclude_commands: Vec::new() }
    }
}

/// The default limits.
pub open spec fn is_default_limits(l: LimitsConfig) -> bool {
    &&& l.grep_max_results == 200
    &&& l.grep_max_per_file == 25
    &&& l.status_max_files == 15
    &&& l.status_max_untracked == 10
    &&& l.passthrough_max_chars == 2000
}

impl Default for LimitsConfig {
    fn default() -> (r: Self)
        ensures
            is_default_limits(r),
    {
        LimitsConfig {
            grep_max_results: 200,
            grep_max_per_file: 25,
            status_max_files: 15,
            status_max_untracked: 10,
            passthrough_max_chars: 2000,
        }
    }
}

impl Default for GradleConfig {
    fn default() -> (r: Self)
        ensures
            r.user_packages@.len() == 0,
            r.extra_drop_patterns@.len() == 0,
            strs(r.drop_frame_packages@) == default_drop_frame_package_spec(),
    {
        GradleConfig {
            user_packages: Vec::new(),
            extra_drop_patterns: Vec::new(),
            drop_frame_packages: default_drop_frame_packages(),
        }
    }
}

impl Default for RepoConfig {
    fn default() -> (r: Self)
        ensures
            r.gradle is None,
            r.hooks is None,
            r.filters is None,
    {
        RepoConfig { gradle: None, hooks: None, filters: None }
    }
}

impl Default for Config {
    fn default() -> (r: Self)
        ensures
            r.tracking.enabled && r.tracking.history_days == 90 && r.tracking.database_path is None,
            r.display.colors && r.display.emoji && r.display.max_width == 120,
            strs(r.filters.ignore_dirs@) == default_ignore_dirs(),
            strs(r.filters.ignore_files@) == default_ignore_files(),
            r.telemetry.enabled,
            r.hooks.exclude_commands@.len() == 0,
            is_default_limits(r.limits),
            r.gradle.user_packages@.len() == 0,
            r.gradle.extra_drop_patterns@.len() == 0,
            strs(r.gradle.drop_frame_packages@) == default_drop_frame_package_spec(),
    {
        Config {
            tracking: TrackingConfig::default(),
            display: DisplayConfig::default(),
            filters: FilterConfig::default(),
            telemetry: TelemetryConfig::default(),
            hooks: HooksConfig::default(),
            limits: LimitsConfig::default(),
            gradle: GradleConfig::default(),
        }
    }
}

/// The framework package prefixes dropped from stack traces by default.
pub open spec fn default_drop_frame_package_spec() -> Seq<Seq<char>> {
    seq![
        "org.gradle"@,
        "org.junit.platform"@,
        "org.junit.jupiter.engine"@,
        "org.springframework"@,
        "com.google.inject"@,
        "io.grpc"@,
        "org.mockito"@,
        "io.mockk"@,
        "org.eclipse.jetty"@,
    ]
}

/// The framework package prefixes treated as noise in stack traces when
/// the configuration names none.
pub fn default_drop_frame_packages() -> (r: Vec<String>)
    ensures
        strs(r@) == default_drop_frame_package_spec(),
{
    let r = vec![
        "org.gradle".to_string(),
        "org.junit.platform".to_string(),
        "org.junit.jupiter.engine".to_string(),
        "org.springframework".to_string(),
        "com.google.inject".to_string(),
        "io.grpc".to_string(),
        "org.mockito".to_string(),
        "io.mockk".to_string(),
        "org.eclipse.jetty".to_string(),
    ];
    assert(strs(r@) =~= default_drop_frame_package_spec());
    r
}

/// The limits of a loaded configuration, or the default limits when none
/// could be loaded.
pub fn limits(loaded: Option<Config>) -> (r: LimitsConfig)
    ensures
        match loaded {
            Some(c) => r == c.limits,
            None => is_default_limits(r),
        },
{
    match loaded {
        Some(c) => c.limits,
        None => LimitsConfig::default(),
    }
}

/// Whether telemetry is enabled in a loaded configuration; `None` when none
/// could be loaded.
pub fn telemetry_enabled(loaded: Option<Config>) -> (r: Option<bool>)
    ensures
        match loaded {
            Some(c) => r == Some(c.telemetry.enabled),
            None => r is None,
        },
{
    match loaded {
        Some(c) => Some(c.telemetry.enabled),
        None => None,
    }
}

impl Config {
    /// Merges repo-level sections on top of this configuration: the repo
    /// wins for every section it holds (`gradle`, `hooks`, `filters`); all
    /// other sections are user-only and stay as they are.
    pub fn merge_repo(&mut self, repo: RepoConfig)
        ensures
            final(self).gradle == (match repo.gradle {
                Some(g) => g,
                None => old(self).gradle,
            }),
            final(self).hooks == (match repo.hooks {
                Some(h) => h,
                None => old(self).hooks,
            }),
            final(self).filters == (match repo.filters {
                Some(f) => f,
                None => old(self).filters,
            }),
            final(self).tracking == old(self).tracking,
            final(self).display == old(self).display,
            final(self).telemetry == old(self).telemetry,
            final(self).limits == old(self).limits,
    {
        if let Some(gradle) = repo.gradle {
            self.gradle = gradle;
        }
        if let Some(hooks) = repo.hooks {
            self.hooks = hooks;
        }
        if let Some(filters) = repo.filters {
            self.filters = filters;
        }
    }
}

/// What to do at one directory while walking up from the working directory
/// in search of the repo-level `.rtk.toml`.
#[derive(Debug, Clone, Copy, PartialEq, Eq, Structural)]
pub enum RepoConfigSearch {
    /// `.rtk.toml` is in this directory.
    Found,
    /// This directory is a repository root (holds `.git`): stop, none found.
    NotFound,
    /// Go on with the parent directory.
    GoUp,
}

/// The search decision at one directory: `.rtk.toml` there is found, else
/// a `.git` there ends the search at the repository root, else the search
/// goes up.
pub fn repo_config_search_step(has_repo_config: bool, has_git_dir: bool) -> (r: RepoConfigSearch)
    ensures
        r == (if has_repo_config {
            RepoConfigSearch::Found
        } else if has_git_dir {
            RepoConfigSearch::NotFound
        } else {
            RepoConfigSearch::GoUp
        }),
{
    if has_repo_config {
        RepoConfigSearch::Found
    } else if has_git_dir {
        RepoConfigSearch::NotFound
    } else {
        RepoConfigSearch::GoUp
    }
}

} // verus!
