//! The review context: the parsed diff together with the optional
//! style guide and project README texts, and the path containment check
//! used before those files are read.

use vstd::prelude::*;

verus! {

use crate::git::DiffResult;

/// Everything a review prompt is built from.
#[derive(Debug)]
pub struct ReviewContext {
    pub style_guide: Option<String>,
    pub project_readme: Option<String>,
    pub diff: DiffResult,
}

/// What can go wrong while gathering the review context.
#[derive(Debug)]
pub enum ContextError {
    /// The style guide could not be read.
    StyleGuide(String),
    /// The README could not be read.
    Readme(String),
    /// A file path escaped the project root.
    PathTraversal(String),
}

impl ContextError {
    /// A human-readable description of the error.
    pub fn message(&self) -> (r: String)
        ensures
            self matches ContextError::StyleGuide(d) ==> r@ == "failed to read style guide: "@
                + d@,
            self matches ContextError::Readme(d) ==> r@ == "failed to read README: "@ + d@,
            self matches ContextError::PathTraversal(d) ==> r@ == "path traversal detected: "@
                + d@ + " is outside project root"@,
    {
        match self {
            ContextError::StyleGuide(detail) => {
                let mut r = String::from_str("failed to read style guide: ");
                r.append(detail.as_str());
                r
            },
            ContextError::Readme(detail) => {
                let mut r = String::from_str("failed to read README: ");
                r.append(detail.as_str());
                r
            },
            ContextError::PathTraversal(detail) => {
                let mut r = String::from_str("path traversal detected: ");
                r.append(detail.as_str());
                r.append(" is outside project root");
                r
            },
        }
    }
}

/// Whether the path, given as its components, stays inside the root:
/// the root's components are a prefix of the path's.
pub open spec fn path_within(path: Seq<Seq<char>>, root: Seq<Seq<char>>) -> bool {
    root.len() <= path.len() && path.take(root.len() as int) == root
}

/// The components at and after `i` joined onto `acc`, each behind one
/// separator.
pub open spec fn joined_path_from(parts: Seq<Seq<char>>, i: int, acc: Seq<char>) -> Seq<char>
    decreases parts.len() - i,
{
    if i >= parts.len() {
        acc
    } else {
        joined_path_from(parts, i + 1, acc + "/"@ + parts[i])
    }
}

/// The components joined with a separator between each pair.
pub open spec fn joined_path(parts: Seq<Seq<char>>) -> Seq<char> {
    if parts.len() == 0 {
        Seq::empty()
    } else {
        joined_path_from(parts, 1, parts[0])
    }
}

/// Joins path components back into one path string.
pub fn join_components(parts: &Vec<String>) -> (r: String)
    ensures
        r@ == joined_path(parts.deep_view()),
{
    let ghost dv = parts.deep_view();
    if parts.len() == 0 {
        return String::new();
    }
    let mut r = parts[0].clone();
    let mut i: usize = 1;
    while i < parts.len()
        invariant
            1 <= i <= parts@.len(),
            dv == parts.deep_view(),
            joined_path_from(dv, i as int, r@) == joined_path(dv),
        decreases parts@.len() - i,
    {
        r.append("/");
        r.append(parts[i].as_str());
        proof {
            assert(parts@[i as int]@ == dv[i as int]);
        }
        i = i + 1;
    }
    r
}

/// Checks that a canonical path, given as its components, lies inside
/// the canonical root, also given as components. A path outside the
/// root is reported with the offending path joined back together.
pub fn validate_path_within_root(path: &Vec<String>, root: &Vec<String>) -> (r: Result<
    (),
    ContextError,
>)
    ensures
        r is Ok <==> path_within(path.deep_view(), root.deep_view()),
        r matches Err(e) ==> e matches ContextError::PathTraversal(d) && d@ == joined_path(
            path.deep_view(),
        ),
{
    let ghost pv = path.deep_view();
    let ghost rv = root.deep_view();
    if root.len() > path.len() {
        return Err(ContextError::PathTraversal(join_components(path)));
    }
    let mut i: usize = 0;
    while i < root.len()
        invariant
            i <= root@.len() <= path@.len(),
            pv == path.deep_view(),
            rv == root.deep_view(),
            forall|j: int| 0 <= j < i ==> #[trigger] pv[j] == rv[j],
        decreases root@.len() - i,
    {
        if !(path[i] == root[i]) {
            proof {
                assert(pv[i as int] != rv[i as int]);
                assert(pv.take(rv.len() as int)[i as int] == pv[i as int]);
            }
            return Err(ContextError::PathTraversal(join_components(path)));
        }
        proof {
            assert(pv[i as int] == rv[i as int]);
        }
        i = i + 1;
    }
    proof {
        assert(pv.take(rv.len() as int) =~= rv);
    }
    Ok(())
}

/// Packs the parsed diff and the optional style guide and README texts
/// into a review context.
pub fn build_context(
    diff: DiffResult,
    style_guide: Option<String>,
    project_readme: Option<String>,
) -> (r: Result<ReviewContext, ContextError>)
    ensures
        r matches Ok(c) && c.diff == diff && c.style_guide == style_guide && c.project_readme
            == project_readme,
{
    Ok(ReviewContext { style_guide, project_readme, diff })
}

} // verus!
