use vibe_review::git::{
    build_range, detect_language, extract_diff, map_status, parse_name_status, parse_number,
    parse_stats, DiffConfig, DiffError, FileStatus, Language,
};

#[test]
fn stats_line_is_read_exactly() {
    let diff = "diff --git a/x b/x\n 3 files changed, 4 insertions(+), 2 deletions(-)\n";
    let stats = parse_stats(diff);
    assert_eq!(stats.files_changed, 3);
    assert_eq!(stats.insertions, 4);
    assert_eq!(stats.deletions, 2);
}

#[test]
fn stats_line_without_counts_keeps_zeroes() {
    let diff = " 1 files changed\n";
    let stats = parse_stats(diff);
    assert_eq!(stats.files_changed, 1);
    assert_eq!(stats.insertions, 0);
    assert_eq!(stats.deletions, 0);
}

#[test]
fn stats_ignore_unrelated_lines() {
    let diff = "files changed everywhere\n+++ b/x\n-3 files changed, 9 insertions(+)\n";
    let stats = parse_stats(diff);
    assert_eq!(stats.files_changed, 0);
    assert_eq!(stats.insertions, 0);
    assert_eq!(stats.deletions, 0);
}

#[test]
fn parse_number_reads_first_field() {
    assert_eq!(parse_number(" 7 insertions(+)"), 7);
    assert_eq!(parse_number("+12"), 12);
    assert_eq!(parse_number("abc"), 0);
    assert_eq!(parse_number(""), 0);
    assert_eq!(parse_number(" 99999999999999999999999999 things"), 0);
}

#[test]
fn name_status_entries_take_first_and_last_field() {
    let listing = "M\tsrc/main.rs\nA\tREADME.md\n\nR100\told.rs\tnew.rs\n";
    let entries = parse_name_status(listing);
    assert_eq!(entries.len(), 3);
    assert_eq!(entries[0].status, "M");
    assert_eq!(entries[0].path, "src/main.rs");
    assert_eq!(entries[1].status, "A");
    assert_eq!(entries[1].path, "README.md");
    assert_eq!(entries[2].status, "R100");
    assert_eq!(entries[2].path, "new.rs");
}

#[test]
fn name_status_skips_lines_without_path() {
    let listing = "M\n\nD\tgone.rs\n";
    let entries = parse_name_status(listing);
    assert_eq!(entries.len(), 1);
    assert_eq!(entries[0].status, "D");
    assert_eq!(entries[0].path, "gone.rs");
}

#[test]
fn map_status_by_first_character() {
    assert_eq!(map_status("A"), FileStatus::Added);
    assert_eq!(map_status("D"), FileStatus::Deleted);
    assert_eq!(map_status("R100"), FileStatus::Renamed);
    assert_eq!(map_status("M"), FileStatus::Modified);
    assert_eq!(map_status("C50"), FileStatus::Modified);
    assert_eq!(map_status(""), FileStatus::Modified);
}

#[test]
fn language_from_path_suffix() {
    assert_eq!(detect_language("src/lib.rs"), Language::Rust);
    assert_eq!(detect_language("Cargo.toml"), Language::Toml);
    assert_eq!(detect_language("sub/Cargo.lock"), Language::Toml);
    assert_eq!(detect_language("docs/README.md"), Language::Markdown);
    assert_eq!(detect_language("setup.py"), Language::Other);
    assert_eq!(detect_language("other.toml"), Language::Other);
}

#[test]
fn range_for_single_commit() {
    let config = DiffConfig { commit: Some(String::from("abc123")), ..Default::default() };
    assert_eq!(build_range(&config), "abc123^!");
}

#[test]
fn range_for_staged_changes() {
    let config = DiffConfig { staged: true, ..Default::default() };
    assert_eq!(build_range(&config), "HEAD");
}

#[test]
fn range_for_base_and_head() {
    let config = DiffConfig {
        base: Some(String::from("main")),
        head: Some(String::from("feature")),
        ..Default::default()
    };
    assert_eq!(build_range(&config), "main..feature");
}

#[test]
fn range_for_base_only() {
    let config = DiffConfig { base: Some(String::from("main")), ..Default::default() };
    assert_eq!(build_range(&config), "main..HEAD");
}

#[test]
fn range_for_head_only() {
    let config = DiffConfig { head: Some(String::from("dev")), ..Default::default() };
    assert_eq!(build_range(&config), "dev^!");

    let config = DiffConfig { head: Some(String::from("HEAD")), ..Default::default() };
    assert_eq!(build_range(&config), "HEAD^!");
}

#[test]
fn range_defaults_to_latest_commit() {
    let config = DiffConfig::default();
    assert_eq!(build_range(&config), "HEAD^!");
}

#[test]
fn commit_takes_precedence_over_everything() {
    let config = DiffConfig {
        commit: Some(String::from("c0ffee")),
        base: Some(String::from("main")),
        head: Some(String::from("dev")),
        staged: true,
        ..Default::default()
    };
    assert_eq!(build_range(&config), "c0ffee^!");
}

#[test]
fn extract_diff_rejects_blank_output() {
    let result = extract_diff("  \n\t\n", "", &Vec::new());
    assert!(matches!(result, Err(DiffError::EmptyDiff)));
}

#[test]
fn extract_diff_builds_entries_and_stats() {
    let diff_output = "diff --git a/src/lib.rs b/src/lib.rs\n 2 files changed, 5 insertions(+), 1 deletions(-)\n";
    let name_status = "M\tsrc/lib.rs\nA\tREADME.md\n";
    let file_diffs = vec![
        String::from("@@ -1 +1 @@\n-a\n+b"),
        String::from("@@ -0,0 +1 @@\n+hello"),
    ];
    let result = extract_diff(diff_output, name_status, &file_diffs).unwrap();

    assert_eq!(result.stats.files_changed, 2);
    assert_eq!(result.stats.insertions, 5);
    assert_eq!(result.stats.deletions, 1);

    assert_eq!(result.files.len(), 2);
    assert_eq!(result.files[0].path, "src/lib.rs");
    assert_eq!(result.files[0].status, FileStatus::Modified);
    assert_eq!(result.files[0].language, Language::Rust);
    assert_eq!(result.files[0].diff, "@@ -1 +1 @@\n-a\n+b");
    assert_eq!(result.files[1].path, "README.md");
    assert_eq!(result.files[1].status, FileStatus::Added);
    assert_eq!(result.files[1].language, Language::Markdown);
    assert_eq!(result.files[1].diff, "@@ -0,0 +1 @@\n+hello");
}

#[test]
fn diff_error_messages() {
    assert_eq!(
        DiffError::CommandFailed(String::from("boom")).message(),
        "git diff failed: boom"
    );
    assert_eq!(DiffError::InvalidOutput.message(), "diff output was not valid utf-8");
    assert_eq!(DiffError::EmptyDiff.message(), "no diff content detected");
}
