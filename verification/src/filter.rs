//! Filtering of changed files by include and exclude glob patterns and
//! by gitignore rules.
//!
//! The glob matching and the gitignore matching come from outside
//! crates; each call stands behind a small trusted item whose contract
//! names what the call returns, and the filtering logic around them is
//! verified against those names.

use vstd::prelude::*;

verus! {

use crate::git::DiffFile;

/// Which files a review should look at: paths must match one of the
/// include patterns, none of the exclude patterns, and optionally must
/// not be ignored by git.
#[derive(Debug, Clone)]
pub struct FilterConfig {
    pub include_patterns: Vec<String>,
    pub exclude_patterns: Vec<String>,
    pub respect_gitignore: bool,
}

impl Default for FilterConfig {
    /// Rust sources and the cargo manifest and lockfile, minus build
    /// output and generated sources, honouring gitignore.
    fn default() -> (r: Self)
        ensures
            r.include_patterns.deep_view() == seq!["*.rs"@, "Cargo.toml"@, "Cargo.lock"@],
            r.exclude_patterns.deep_view() == seq!["target/**"@, "*.generated.rs"@],
            r.respect_gitignore == true,
    {
        let include_patterns = vec![
            String::from_str("*.rs"),
            String::from_str("Cargo.toml"),
            String::from_str("Cargo.lock"),
        ];
        let exclude_patterns = vec![String::from_str("target/**"), String::from_str("*.generated.rs")];
        proof {
            assert(include_patterns.deep_view() =~= seq!["*.rs"@, "Cargo.toml"@, "Cargo.lock"@]);
            assert(exclude_patterns.deep_view() =~= seq!["target/**"@, "*.generated.rs"@]);
        }
        FilterConfig { include_patterns, exclude_patterns, respect_gitignore: true }
    }
}

/// What can go wrong while filtering files.
#[derive(Debug)]
pub enum FilterError {
    /// A glob pattern could not be compiled.
    InvalidPattern(String),
    /// The gitignore rules could not be read.
    Gitignore(String),
}

impl FilterError {
    /// A human-readable description of the error.
    pub fn message(&self) -> (r: String)
        ensures
            self matches FilterError::InvalidPattern(d) ==> r@ == "failed to build glob patterns: "@
                + d@,
            self matches FilterError::Gitignore(d) ==> r@ == "failed to read gitignore: "@ + d@,
    {
        match self {
            FilterError::InvalidPattern(detail) => {
                let mut r = String::from_str("failed to build glob patterns: ");
                r.append(detail.as_str());
                r
            },
            FilterError::Gitignore(detail) => {
                let mut r = String::from_str("failed to read gitignore: ");
                r.append(detail.as_str());
                r
            },
        }
    }
}

#[verifier::external_type_specification]
#[verifier::external_body]
pub struct ExGlob(globset::Glob);

#[verifier::external_type_specification]
#[verifier::external_body]
pub struct ExGlobSetBuilder(globset::GlobSetBuilder);

#[verifier::external_type_specification]
#[verifier::external_body]
pub struct ExGlobSet(globset::GlobSet);

#[verifier::external_type_specification]
#[verifier::external_body]
pub struct ExGitignore(ignore::gitignore::Gitignore);

/// Whether a pattern is well-formed glob syntax, as the glob parser
/// decides it.
pub uninterp spec fn glob_pattern_ok(pattern: Seq<char>) -> bool;

/// The pattern a compiled glob was built from.
pub uninterp spec fn glob_pattern(g: globset::Glob) -> Seq<char>;

/// The patterns a glob set builder holds so far.
pub uninterp spec fn glob_builder_patterns(b: globset::GlobSetBuilder) -> Seq<Seq<char>>;

/// The patterns a compiled glob set was built from.
pub uninterp spec fn glob_set_patterns(gs: globset::GlobSet) -> Seq<Seq<char>>;

/// Whether any of the patterns matches the path, as glob matching
/// decides it: a function of the patterns and the path alone.
pub uninterp spec fn glob_set_match(patterns: Seq<Seq<char>>, path: Seq<char>) -> bool;

/// The set of paths that a loaded gitignore ignores (as plain files,
/// not directories).
pub uninterp spec fn gitignore_ignored(gi: ignore::gitignore::Gitignore) -> Set<Seq<char>>;

/// Relies on globset::Glob::new: parsing is deterministic, succeeds
/// exactly on well-formed glob syntax, and the compiled glob keeps its
/// pattern. A failure is carried as the error's description.
#[verifier::external_body]
fn glob_new(pattern: &String) -> (r: Result<globset::Glob, String>)
    ensures
        r is Ok <==> glob_pattern_ok(pattern@),
        r matches Ok(g) ==> glob_pattern(g) == pattern@,
{
    match globset::Glob::new(pattern.as_str()) {
        Ok(g) => Ok(g),
        Err(e) => Err(e.to_string()),
    }
}

/// Relies on globset::GlobSetBuilder::new: a fresh builder holds no
/// patterns.
#[verifier::external_body]
fn glob_builder_new() -> (b: globset::GlobSetBuilder)
    ensures
        glob_builder_patterns(b) == Seq::<Seq<char>>::empty(),
{
    globset::GlobSetBuilder::new()
}

/// Relies on globset::GlobSetBuilder::add: the glob is appended to the
/// patterns of the set under construction.
#[verifier::external_body]
fn glob_builder_add(b: &mut globset::GlobSetBuilder, g: globset::Glob)
    ensures
        glob_builder_patterns(*final(b)) == glob_builder_patterns(*old(b)).push(glob_pattern(g)),
{
    b.add(g);
}

/// Relies on globset::GlobSetBuilder::build: on success the compiled
/// set stands for exactly the patterns added so far.
#[verifier::external_body]
fn glob_builder_build(b: &globset::GlobSetBuilder) -> (r: Result<globset::GlobSet, String>)
    ensures
        r matches Ok(gs) ==> glob_set_patterns(gs) == glob_builder_patterns(*b),
{
    match b.build() {
        Ok(gs) => Ok(gs),
        Err(e) => Err(e.to_string()),
    }
}

/// Relies on globset::GlobSet::is_match: whether the set matches a path
/// is a function of its patterns and the path alone.
#[verifier::external_body]
fn glob_set_is_match(gs: &globset::GlobSet, path: &String) -> (r: bool)
    ensures
        r == glob_set_match(glob_set_patterns(*gs), path@),
{
    gs.is_match(path.as_str())
}

/// Relies on ignore::gitignore::Gitignore::matched (with is_dir false)
/// and ignore::Match::is_ignore: for one loaded gitignore value the
/// ignored paths are one fixed set.
#[verifier::external_body]
fn gitignore_is_ignored(gi: &ignore::gitignore::Gitignore, path: &String) -> (r: bool)
    ensures
        r == gitignore_ignored(*gi).contains(path@),
{
    gi.matched(path.as_str(), false).is_ignore()
}

/// Compiles a list of patterns into one glob set.
fn build_glob_set(patterns: &Vec<String>) -> (r: Result<globset::GlobSet, FilterError>)
    ensures
        r matches Ok(gs) ==> glob_set_patterns(gs) == patterns.deep_view(),
        (exists|k: int|
            0 <= k < patterns@.len() && !glob_pattern_ok(#[trigger] patterns.deep_view()[k]))
            ==> r is Err,
        r matches Err(e) ==> e is InvalidPattern,
{
    let ghost dv = patterns.deep_view();
    let mut builder = glob_builder_new();
    proof {
        assert(glob_builder_patterns(builder) =~= dv.take(0));
    }
    let mut i: usize = 0;
    while i < patterns.len()
        invariant
            i <= patterns@.len(),
            dv == patterns.deep_view(),
            glob_builder_patterns(builder) == dv.take(i as int),
            forall|k: int| 0 <= k < i ==> glob_pattern_ok(#[trigger] dv[k]),
        decreases patterns@.len() - i,
    {
        match glob_new(&patterns[i]) {
            Ok(g) => {
                glob_builder_add(&mut builder, g);
                proof {
                    assert(dv[i as int] == patterns@[i as int]@);
                    assert(glob_builder_patterns(builder) =~= dv.take(i as int + 1));
                }
            },
            Err(e) => {
                proof {
                    assert(dv[i as int] == patterns@[i as int]@);
                }
                return Err(FilterError::InvalidPattern(e));
            },
        }
        i = i + 1;
    }
    proof {
        assert(dv.take(patterns@.len() as int) =~= dv);
    }
    match glob_builder_build(&builder) {
        Ok(gs) => Ok(gs),
        Err(e) => Err(FilterError::InvalidPattern(e)),
    }
}

/// Whether one file survives the filter: its path matches the include
/// patterns, does not match the exclude patterns, and is not in the
/// ignored set when one applies.
pub open spec fn file_kept(
    f: DiffFile,
    inc: Seq<Seq<char>>,
    exc: Seq<Seq<char>>,
    ign: Option<Set<Seq<char>>>,
) -> bool {
    &&& glob_set_match(inc, f.path@)
    &&& !glob_set_match(exc, f.path@)
    &&& match ign {
        Option::Some(s) => !s.contains(f.path@),
        Option::None => true,
    }
}

/// The files at and after `i` that survive the filter, appended onto
/// `acc` in their original order.
pub open spec fn filtered_from(
    files: Seq<DiffFile>,
    i: int,
    inc: Seq<Seq<char>>,
    exc: Seq<Seq<char>>,
    ign: Option<Set<Seq<char>>>,
    acc: Seq<DiffFile>,
) -> Seq<DiffFile>
    decreases files.len() - i,
{
    if i >= files.len() {
        acc
    } else if file_kept(files[i], inc, exc, ign) {
        filtered_from(files, i + 1, inc, exc, ign, acc.push(files[i]))
    } else {
        filtered_from(files, i + 1, inc, exc, ign, acc)
    }
}

/// The files that survive the filter, in order.
pub open spec fn filtered(
    files: Seq<DiffFile>,
    inc: Seq<Seq<char>>,
    exc: Seq<Seq<char>>,
    ign: Option<Set<Seq<char>>>,
) -> Seq<DiffFile> {
    filtered_from(files, 0, inc, exc, ign, Seq::empty())
}

/// The ignored-path set that a filter run works against: the loaded
/// gitignore's set when the configuration asks for it and one is at
/// hand, otherwise nothing.
pub open spec fn applied_ignore(
    config: &FilterConfig,
    gitignore: Option<&ignore::gitignore::Gitignore>,
) -> Option<Set<Seq<char>>> {
    if config.respect_gitignore && gitignore is Some {
        Option::Some(gitignore_ignored(*gitignore->0))
    } else {
        Option::None
    }
}

/// Keeps the changed files that the configuration lets through: the
/// path must match an include pattern, no exclude pattern, and, when
/// gitignore is respected and loaded, must not be ignored. Order is
/// kept. A pattern that is not valid glob syntax fails the filter.
pub fn filter_files(
    files: Vec<DiffFile>,
    config: &FilterConfig,
    gitignore: Option<&ignore::gitignore::Gitignore>,
) -> (r: Result<Vec<DiffFile>, FilterError>)
    ensures
        r matches Ok(out) ==> out@ == filtered(
            files@,
            config.include_patterns.deep_view(),
            config.exclude_patterns.deep_view(),
            applied_ignore(config, gitignore),
        ),
        (exists|k: int|
            0 <= k < config.include_patterns@.len() && !glob_pattern_ok(
                #[trigger] config.include_patterns.deep_view()[k],
            )) ==> r is Err,
        (exists|k: int|
            0 <= k < config.exclude_patterns@.len() && !glob_pattern_ok(
                #[trigger] config.exclude_patterns.deep_view()[k],
            )) ==> r is Err,
        r matches Err(e) ==> e is InvalidPattern,
{
    let ghost files0 = files@;
    let ghost inc = config.include_patterns.deep_view();
    let ghost exc = config.exclude_patterns.deep_view();
    let ghost ign = applied_ignore(config, gitignore);
    let inc_set = match build_glob_set(&config.include_patterns) {
        Ok(gs) => gs,
        Err(e) => {
            return Err(e);
        },
    };
    let exc_set = match build_glob_set(&config.exclude_patterns) {
        Ok(gs) => gs,
        Err(e) => {
            return Err(e);
        },
    };
    let mut rest = files;
    let mut out: Vec<DiffFile> = Vec::new();
    proof {
        assert(rest@ =~= files0.skip(0));
    }
    while rest.len() > 0
        invariant
            rest@.len() <= files0.len(),
            rest@ == files0.skip(files0.len() - rest@.len()),
            glob_set_patterns(inc_set) == inc,
            glob_set_patterns(exc_set) == exc,
            ign == applied_ignore(config, gitignore),
            filtered_from(files0, files0.len() - rest@.len(), inc, exc, ign, out@) == filtered(
                files0,
                inc,
                exc,
                ign,
            ),
        decreases rest@.len(),
    {
        let ghost i: int = files0.len() - rest@.len();
        let f = rest.remove(0);
        assert(f == files0[i]);
        proof {
            assert(rest@ =~= files0.skip(i + 1));
        }
        let keep_inc = glob_set_is_match(&inc_set, &f.path);
        let keep_exc = glob_set_is_match(&exc_set, &f.path);
        let ignored = if config.respect_gitignore {
            match gitignore {
                Some(gi) => gitignore_is_ignored(gi, &f.path),
                None => false,
            }
        } else {
            false
        };
        if keep_inc && !keep_exc && !ignored {
            assert(file_kept(files0[i], inc, exc, ign));
            out.push(f);
        } else {
            assert(!file_kept(files0[i], inc, exc, ign));
        }
    }
    proof {
        assert(rest@.len() == 0);
    }
    Ok(out)
}

} // verus!
