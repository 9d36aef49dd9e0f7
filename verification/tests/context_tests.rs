use vibe_review::context::{build_context, validate_path_within_root, ContextError};
use vibe_review::git::{DiffResult, DiffStats};

fn empty_diff() -> DiffResult {
    DiffResult {
        files: Vec::new(),
        stats: DiffStats { files_changed: 0, insertions: 0, deletions: 0 },
    }
}

fn components(parts: &[&str]) -> Vec<String> {
    parts.iter().map(|p| String::from(*p)).collect()
}

#[test]
fn context_carries_its_parts_through() {
    let context = build_context(
        empty_diff(),
        Some(String::from("guide")),
        Some(String::from("readme")),
    )
    .unwrap();
    assert_eq!(context.style_guide.as_deref(), Some("guide"));
    assert_eq!(context.project_readme.as_deref(), Some("readme"));
    assert_eq!(context.diff.files.len(), 0);

    let bare = build_context(empty_diff(), None, None).unwrap();
    assert!(bare.style_guide.is_none());
    assert!(bare.project_readme.is_none());
}

#[test]
fn path_inside_root_is_accepted() {
    let path = components(&["", "home", "work", "docs", "rust.md"]);
    let root = components(&["", "home", "work"]);
    assert!(validate_path_within_root(&path, &root).is_ok());

    let same = components(&["", "home", "work"]);
    assert!(validate_path_within_root(&same, &root).is_ok());
}

#[test]
fn path_outside_root_is_rejected_with_the_path() {
    let path = components(&["", "etc", "passwd"]);
    let root = components(&["", "home", "work"]);
    match validate_path_within_root(&path, &root) {
        Err(ContextError::PathTraversal(shown)) => assert_eq!(shown, "/etc/passwd"),
        _ => panic!("a path outside the root must be rejected"),
    }
}

#[test]
fn shorter_path_than_root_is_rejected() {
    let path = components(&["", "home"]);
    let root = components(&["", "home", "work"]);
    assert!(validate_path_within_root(&path, &root).is_err());
}

#[test]
fn sibling_with_common_prefix_is_rejected() {
    let path = components(&["", "home", "workshop", "x.md"]);
    let root = components(&["", "home", "work"]);
    assert!(validate_path_within_root(&path, &root).is_err());
}

#[test]
fn context_error_messages() {
    assert_eq!(
        ContextError::StyleGuide(String::from("nope")).message(),
        "failed to read style guide: nope"
    );
    assert_eq!(
        ContextError::Readme(String::from("gone")).message(),
        "failed to read README: gone"
    );
    assert_eq!(
        ContextError::PathTraversal(String::from("/tmp/x")).message(),
        "path traversal detected: /tmp/x is outside project root"
    );
}
