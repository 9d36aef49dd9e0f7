use ignore::gitignore::GitignoreBuilder;
use vibe_review::filter::{filter_files, FilterConfig, FilterError};
use vibe_review::git::{DiffFile, FileStatus, Language};

fn file(path: &str) -> DiffFile {
    DiffFile {
        path: String::from(path),
        status: FileStatus::Modified,
        diff: String::from("@@"),
        language: Language::Other,
    }
}

fn paths(files: &[DiffFile]) -> Vec<&str> {
    files.iter().map(|f| f.path.as_str()).collect()
}

#[test]
fn default_config_keeps_rust_and_cargo_files() {
    let config = FilterConfig::default();
    assert_eq!(config.include_patterns, vec!["*.rs", "Cargo.toml", "Cargo.lock"]);
    assert_eq!(config.exclude_patterns, vec!["target/**", "*.generated.rs"]);
    assert!(config.respect_gitignore);
}

#[test]
fn filter_keeps_matching_files_in_order() {
    let config = FilterConfig::default();
    let files = vec![
        file("src/main.rs"),
        file("notes.txt"),
        file("Cargo.toml"),
        file("assets/logo.png"),
        file("src/lib.rs"),
    ];
    let kept = filter_files(files, &config, None).unwrap();
    assert_eq!(paths(&kept), vec!["src/main.rs", "Cargo.toml", "src/lib.rs"]);
}

#[test]
fn filter_drops_excluded_files() {
    let config = FilterConfig::default();
    let files = vec![
        file("target/debug/build.rs"),
        file("api.generated.rs"),
        file("src/real.rs"),
    ];
    let kept = filter_files(files, &config, None).unwrap();
    assert_eq!(paths(&kept), vec!["src/real.rs"]);
}

#[test]
fn filter_honours_gitignore_rules() {
    let mut builder = GitignoreBuilder::new(".");
    builder.add_line(None, "ignored.rs").unwrap();
    let gitignore = builder.build().unwrap();

    let config = FilterConfig::default();
    let files = vec![file("ignored.rs"), file("kept.rs")];
    let kept = filter_files(files, &config, Some(&gitignore)).unwrap();
    assert_eq!(paths(&kept), vec!["kept.rs"]);
}

#[test]
fn gitignore_is_not_applied_when_not_respected() {
    let mut builder = GitignoreBuilder::new(".");
    builder.add_line(None, "ignored.rs").unwrap();
    let gitignore = builder.build().unwrap();

    let mut config = FilterConfig::default();
    config.respect_gitignore = false;
    let files = vec![file("ignored.rs"), file("kept.rs")];
    let kept = filter_files(files, &config, Some(&gitignore)).unwrap();
    assert_eq!(paths(&kept), vec!["ignored.rs", "kept.rs"]);
}

#[test]
fn invalid_pattern_fails_the_filter() {
    let mut config = FilterConfig::default();
    config.include_patterns = vec![String::from("a[")];
    let result = filter_files(vec![file("a.rs")], &config, None);
    assert!(matches!(result, Err(FilterError::InvalidPattern(_))));
}

#[test]
fn filter_error_messages() {
    assert_eq!(
        FilterError::InvalidPattern(String::from("bad")).message(),
        "failed to build glob patterns: bad"
    );
    assert_eq!(
        FilterError::Gitignore(String::from("gone")).message(),
        "failed to read gitignore: gone"
    );
}
