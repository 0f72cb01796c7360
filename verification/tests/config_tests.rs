use rtk::config::{
    default_drop_frame_packages, limits, repo_config_search_step, telemetry_enabled, Config,
    FilterConfig, GradleConfig, HooksConfig, LimitsConfig, RepoConfig, RepoConfigSearch,
};

/// What a repo file `[gradle]\nuser_packages = [...]` reads as.
fn gradle_section(user_packages: &[&str]) -> GradleConfig {
    GradleConfig {
        user_packages: user_packages.iter().map(|s| s.to_string()).collect(),
        extra_drop_patterns: vec![],
        drop_frame_packages: default_drop_frame_packages(),
    }
}

#[test]
fn test_hooks_config_default_empty() {
    let config = Config::default();
    assert!(config.hooks.exclude_commands.is_empty());
}

#[test]
fn test_merge_repo_gradle_overrides_user() {
    let mut user = Config::default();
    user.gradle.user_packages = vec!["com.user".to_string()];

    let repo = RepoConfig { gradle: Some(gradle_section(&["com.faire"])), ..Default::default() };
    user.merge_repo(repo);
    assert_eq!(user.gradle.user_packages, vec!["com.faire"]);
}

#[test]
fn test_merge_repo_absent_section_keeps_user() {
    let mut user = Config::default();
    user.gradle.user_packages = vec!["com.user".to_string()];
    user.tracking.history_days = 30;

    let repo = RepoConfig {
        hooks: Some(HooksConfig { exclude_commands: vec!["curl".to_string()] }),
        ..Default::default()
    };
    user.merge_repo(repo);
    assert_eq!(user.gradle.user_packages, vec!["com.user"]);
    assert_eq!(user.hooks.exclude_commands, vec!["curl"]);
    assert_eq!(user.tracking.history_days, 30);
}

#[test]
fn test_merge_repo_ignores_user_only_sections() {
    let mut user = Config::default();
    user.tracking.history_days = 30;
    user.display.max_width = 80;

    // The repo file also holds [tracking] and [display]; they are not
    // repo-scoped, so the repo configuration carries only [gradle].
    let repo = RepoConfig { gradle: Some(gradle_section(&["com.faire"])), ..Default::default() };
    user.merge_repo(repo);
    assert_eq!(user.tracking.history_days, 30, "tracking is user-only");
    assert_eq!(user.display.max_width, 80, "display is user-only");
    assert_eq!(user.gradle.user_packages, vec!["com.faire"], "gradle is repo-scoped");
}

#[test]
fn test_merge_repo_filters_section_replaces_user() {
    let mut user = Config::default();
    let repo = RepoConfig {
        filters: Some(FilterConfig {
            ignore_dirs: vec!["build".to_string()],
            ignore_files: vec![],
        }),
        ..Default::default()
    };
    user.merge_repo(repo);
    assert_eq!(user.filters.ignore_dirs, vec!["build"]);
    assert!(user.filters.ignore_files.is_empty());
    assert_eq!(user.display.max_width, 120);
}

#[test]
fn test_merge_repo_empty_changes_nothing() {
    let mut user = Config::default();
    user.gradle.user_packages = vec!["com.user".to_string()];
    user.hooks.exclude_commands = vec!["gh".to_string()];
    user.merge_repo(RepoConfig::default());
    assert_eq!(user.gradle.user_packages, vec!["com.user"]);
    assert_eq!(user.hooks.exclude_commands, vec!["gh"]);
    assert_eq!(user.filters.ignore_dirs.len(), 6);
}

#[test]
fn test_config_defaults() {
    let c = Config::default();
    assert!(c.tracking.enabled);
    assert_eq!(c.tracking.history_days, 90);
    assert!(c.tracking.database_path.is_none());
    assert!(c.display.colors && c.display.emoji);
    assert_eq!(c.display.max_width, 120);
    assert_eq!(
        c.filters.ignore_dirs,
        vec![".git", "node_modules", "target", "__pycache__", ".venv", "vendor"]
    );
    assert_eq!(c.filters.ignore_files, vec!["*.lock", "*.min.js", "*.min.css"]);
    assert!(c.telemetry.enabled);
    assert_eq!(c.limits.grep_max_results, 200);
    assert_eq!(c.limits.grep_max_per_file, 25);
    assert_eq!(c.limits.status_max_files, 15);
    assert_eq!(c.limits.status_max_untracked, 10);
    assert_eq!(c.limits.passthrough_max_chars, 2000);
    assert!(c.gradle.user_packages.is_empty());
    assert!(c.gradle.extra_drop_patterns.is_empty());
    assert_eq!(c.gradle.drop_frame_packages, default_drop_frame_packages());
}

#[test]
fn test_default_drop_frame_packages() {
    let p = default_drop_frame_packages();
    assert_eq!(
        p,
        vec![
            "org.gradle",
            "org.junit.platform",
            "org.junit.jupiter.engine",
            "org.springframework",
            "com.google.inject",
            "io.grpc",
            "org.mockito",
            "io.mockk",
            "org.eclipse.jetty",
        ]
    );
}

#[test]
fn test_gradle_config_default_has_documented_extras() {
    let g = GradleConfig::default();
    assert!(g.user_packages.is_empty());
    assert!(g.extra_drop_patterns.is_empty());
    assert_eq!(g.drop_frame_packages.len(), 9);
    assert_eq!(g.drop_frame_packages[8], "org.eclipse.jetty");
}

#[test]
fn test_limits_from_loaded_config() {
    let mut c = Config::default();
    c.limits.grep_max_results = 7;
    assert_eq!(limits(Some(c)).grep_max_results, 7);
    let d: LimitsConfig = limits(None);
    assert_eq!(d.grep_max_results, 200);
    assert_eq!(d.passthrough_max_chars, 2000);
}

#[test]
fn test_telemetry_enabled_from_loaded_config() {
    let mut c = Config::default();
    c.telemetry.enabled = false;
    assert_eq!(telemetry_enabled(Some(c)), Some(false));
    assert_eq!(telemetry_enabled(Some(Config::default())), Some(true));
    assert_eq!(telemetry_enabled(None), None);
}

#[test]
fn test_repo_config_search_step() {
    assert_eq!(repo_config_search_step(true, true), RepoConfigSearch::Found);
    assert_eq!(repo_config_search_step(true, false), RepoConfigSearch::Found);
    assert_eq!(repo_config_search_step(false, true), RepoConfigSearch::NotFound);
    assert_eq!(repo_config_search_step(false, false), RepoConfigSearch::GoUp);
}
