//! Git diff data model and the parsing of git's textual output.
//!
//! The git commands themselves run outside this library; the functions
//! here turn their captured output - the unified diff, the name-status
//! listing - into structured values, and build the revision range
//! argument that the commands are given.

use vstd::prelude::*;

verus! {

use crate::text::{
    chars_end_with,
    contains_seq,
    ends_with_seq,
    field_spans,
    find_field_spans,
    find_line_spans,
    find_split_spans,
    is_space,
    line_spans,
    number_val,
    range_contains,
    read_number,
    space_char,
    split_spans,
    str_chars,
};

/// How a file changed between the two sides of a diff.
#[derive(Debug, Clone, Copy, PartialEq, Eq)]
pub enum FileStatus {
    Added,
    Modified,
    Deleted,
    Renamed,
}

/// Rough classification of a changed file by its path.
#[derive(Debug, Clone, Copy, PartialEq, Eq)]
pub enum Language {
    Rust,
    Toml,
    Markdown,
    Other,
}

/// One changed file: its path, change kind, unified diff text and
/// detected language.
#[derive(Debug, Clone, PartialEq, Eq)]
pub struct DiffFile {
    pub path: String,
    pub status: FileStatus,
    pub diff: String,
    pub language: Language,
}

/// Summary counters of a diff.
#[derive(Debug, Clone, PartialEq, Eq)]
pub struct DiffStats {
    pub files_changed: usize,
    pub insertions: usize,
    pub deletions: usize,
}

/// A parsed diff: the changed files and the summary counters.
#[derive(Debug, Clone, PartialEq, Eq)]
pub struct DiffResult {
    pub files: Vec<DiffFile>,
    pub stats: DiffStats,
}

/// Selection of what to diff: a project directory, an optional single
/// commit, an optional base/head pair, and whether to look at staged
/// changes only.
#[derive(Debug, Clone)]
pub struct DiffConfig {
    pub project: String,
    pub commit: Option<String>,
    pub base: Option<String>,
    pub head: Option<String>,
    pub staged: bool,
}

impl Default for DiffConfig {
    /// An empty selection: no project path, no revisions, not staged.
    fn default() -> (r: Self)
        ensures
            r.project@ == Seq::<char>::empty(),
            r.commit is None,
            r.base is None,
            r.head is None,
            r.staged == false,
    {
        DiffConfig { project: String::new(), commit: None, base: None, head: None, staged: false }
    }
}

/// What can go wrong while obtaining or reading a diff.
#[derive(Debug)]
pub enum DiffError {
    /// The git invocation failed; carries what the command reported.
    CommandFailed(String),
    /// The command output was not valid text.
    InvalidOutput,
    /// The diff has no content at all.
    EmptyDiff,
}

impl DiffError {
    /// A human-readable description of the error.
    pub fn message(&self) -> (r: String)
        ensures
            self matches DiffError::CommandFailed(d) ==> r@ == "git diff failed: "@ + d@,
            self is InvalidOutput ==> r@ == "diff output was not valid utf-8"@,
            self is EmptyDiff ==> r@ == "no diff content detected"@,
    {
        match self {
            DiffError::CommandFailed(detail) => {
                let mut r = String::from_str("git diff failed: ");
                r.append(detail.as_str());
                r
            },
            DiffError::InvalidOutput => String::from_str("diff output was not valid utf-8"),
            DiffError::EmptyDiff => String::from_str("no diff content detected"),
        }
    }
}

/// One entry of a name-status listing: the raw status token and the
/// path it applies to.
#[derive(Debug, Clone, PartialEq, Eq)]
pub struct NameStatus {
    pub status: String,
    pub path: String,
}

/// The revision range that `build_range` hands to git: a single commit
/// becomes `commit^!`, staged mode compares against `HEAD`, a base
/// compares up to the head or `HEAD`, a bare head other than `HEAD`
/// becomes `head^!`, and everything else means the latest commit.
pub open spec fn range_model(c: &DiffConfig) -> Seq<char> {
    if c.commit is Some {
        c.commit->0@ + "^!"@
    } else if c.staged {
        "HEAD"@
    } else if c.base is Some && c.head is Some {
        c.base->0@ + ".."@ + c.head->0@
    } else if c.base is Some {
        c.base->0@ + "..HEAD"@
    } else if c.head is Some && c.head->0@ != "HEAD"@ {
        c.head->0@ + "^!"@
    } else {
        "HEAD^!"@
    }
}

/// Builds the revision range argument for the git diff commands.
pub fn build_range(config: &DiffConfig) -> (r: String)
    ensures
        r@ == range_model(config),
{
    if let Some(commit) = &config.commit {
        let mut r = commit.clone();
        r.append("^!");
        return r;
    }
    if config.staged {
        return String::from_str("HEAD");
    }
    match (&config.base, &config.head) {
        (Some(base), Some(head)) => {
            let mut r = base.clone();
            r.append("..");
            r.append(head.as_str());
            r
        },
        (Some(base), None) => {
            let mut r = base.clone();
            r.append("..HEAD");
            r
        },
        (None, Some(head)) => {
            let head_rev = String::from_str("HEAD");
            if !(*head == head_rev) {
                let mut r = head.clone();
                r.append("^!");
                r
            } else {
                String::from_str("HEAD^!")
            }
        },
        (None, None) => String::from_str("HEAD^!"),
    }
}

/// The change kind that a raw name-status token denotes: by its first
/// character, `A` added, `D` deleted, `R` renamed, anything else
/// (including an empty token) modified.
pub open spec fn status_model(st: Seq<char>) -> FileStatus {
    if st.len() > 0 && st[0] == 'A' {
        FileStatus::Added
    } else if st.len() > 0 && st[0] == 'D' {
        FileStatus::Deleted
    } else if st.len() > 0 && st[0] == 'R' {
        FileStatus::Renamed
    } else {
        FileStatus::Modified
    }
}

/// Maps a raw name-status token to the change kind it denotes.
pub fn map_status(status: &str) -> (r: FileStatus)
    ensures
        r == status_model(status@),
{
    let cs = str_chars(status);
    if cs.len() == 0 {
        return FileStatus::Modified;
    }
    let c = cs[0];
    if c == 'A' {
        FileStatus::Added
    } else if c == 'D' {
        FileStatus::Deleted
    } else if c == 'R' {
        FileStatus::Renamed
    } else {
        FileStatus::Modified
    }
}

/// The language a path suggests: `.rs` is Rust, a cargo manifest or
/// lockfile is TOML, `.md` is Markdown, anything else is other.
pub open spec fn language_model(p: Seq<char>) -> Language {
    if ends_with_seq(p, ".rs"@) {
        Language::Rust
    } else if ends_with_seq(p, "Cargo.toml"@) || ends_with_seq(p, "Cargo.lock"@) {
        Language::Toml
    } else if ends_with_seq(p, ".md"@) {
        Language::Markdown
    } else {
        Language::Other
    }
}

/// Detects the language of a changed file from its path.
pub fn detect_language(path: &str) -> (r: Language)
    ensures
        r == language_model(path@),
{
    let cs = str_chars(path);
    if chars_end_with(&cs, &str_chars(".rs")) {
        return Language::Rust;
    }
    if chars_end_with(&cs, &str_chars("Cargo.toml")) || chars_end_with(&cs, &str_chars("Cargo.lock")) {
        return Language::Toml;
    }
    if chars_end_with(&cs, &str_chars(".md")) {
        return Language::Markdown;
    }
    Language::Other
}

/// The (status, path) pairs of the name-status lines of `s` at and
/// after line `i`: a line contributes its first whitespace field as the
/// status and its last as the path, and lines with fewer than two
/// fields are skipped.
pub open spec fn name_status_pairs_from(
    s: Seq<char>,
    ls: Seq<(int, int)>,
    i: int,
    acc: Seq<(Seq<char>, Seq<char>)>,
) -> Seq<(Seq<char>, Seq<char>)>
    decreases ls.len() - i,
{
    if i >= ls.len() {
        acc
    } else {
        let fs = field_spans(s, ls[i].0, ls[i].1);
        if fs.len() >= 2 {
            name_status_pairs_from(
                s,
                ls,
                i + 1,
                acc.push(
                    (
                        s.subrange(fs[0].0, fs[0].1),
                        s.subrange(fs[fs.len() - 1].0, fs[fs.len() - 1].1),
                    ),
                ),
            )
        } else {
            name_status_pairs_from(s, ls, i + 1, acc)
        }
    }
}

/// The (status, path) pairs that a name-status listing holds.
pub open spec fn name_status_pairs(s: Seq<char>) -> Seq<(Seq<char>, Seq<char>)> {
    name_status_pairs_from(s, line_spans(s), 0, Seq::empty())
}

/// Parses the output of a name-status diff listing into its entries.
pub fn parse_name_status(output: &str) -> (r: Vec<NameStatus>)
    ensures
        r@.map_values(|ns: NameStatus| (ns.status@, ns.path@)) == name_status_pairs(output@),
{
    let ghost model = name_status_pairs(output@);
    let cs = str_chars(output);
    let ls = find_line_spans(&cs);
    let ghost lsp = line_spans(cs@);
    let mut r: Vec<NameStatus> = Vec::new();
    proof {
        assert(r@.map_values(|ns: NameStatus| (ns.status@, ns.path@)) =~= Seq::<
            (Seq<char>, Seq<char>),
        >::empty());
    }
    let mut i: usize = 0;
    while i < ls.len()
        invariant
            i <= ls@.len(),
            cs@ == output@,
            ls@.map_values(|p: (usize, usize)| (p.0 as int, p.1 as int)) == lsp,
            forall|k: int|
                0 <= k < ls@.len() ==> 0 <= #[trigger] ls@[k].0 <= ls@[k].1 <= cs@.len(),
            name_status_pairs_from(
                cs@,
                lsp,
                i as int,
                r@.map_values(|ns: NameStatus| (ns.status@, ns.path@)),
            ) == model,
        decreases ls@.len() - i,
    {
        let ghost rv = r@.map_values(|ns: NameStatus| (ns.status@, ns.path@));
        let (lo, hi) = ls[i];
        assert(lsp[i as int] == (lo as int, hi as int));
        let fs = find_field_spans(&cs, lo, hi);
        let ghost fsp = field_spans(cs@, lo as int, hi as int);
        if fs.len() >= 2 {
            let (a, b) = fs[0];
            let last = fs.len() - 1;
            let (c, d) = fs[last];
            assert(fsp[0] == (a as int, b as int));
            assert(fsp[fsp.len() - 1] == (c as int, d as int));
            let status = output.substring_char(a, b).to_owned();
            let path = output.substring_char(c, d).to_owned();
            r.push(NameStatus { status, path });
            proof {
                assert(r@.map_values(|ns: NameStatus| (ns.status@, ns.path@)) =~= rv.push(
                    (cs@.subrange(a as int, b as int), cs@.subrange(c as int, d as int)),
                ));
            }
        }
        i = i + 1;
    }
    r
}

/// What a piece of a stat line counts as: its first
/// whitespace-separated field read as a number, or zero when the piece
/// has no field at all.
pub open spec fn segment_number(s: Seq<char>, lo: int, hi: int) -> int {
    let fs = field_spans(s, lo, hi);
    if fs.len() == 0 {
        0
    } else {
        number_val(s, fs[0].0, fs[0].1)
    }
}

/// Reads the leading number out of `cs[lo..hi]`.
fn read_segment_number(cs: &Vec<char>, lo: usize, hi: usize) -> (r: usize)
    requires
        lo <= hi <= cs@.len(),
    ensures
        r as int == segment_number(cs@, lo as int, hi as int),
{
    let fs = find_field_spans(cs, lo, hi);
    if fs.len() == 0 {
        return 0;
    }
    let (a, b) = fs[0];
    assert(field_spans(cs@, lo as int, hi as int)[0] == (a as int, b as int));
    read_number(cs, a, b)
}

/// Reads a stat-line piece as the original diff summary does: its first
/// whitespace-separated field as an unsigned number, zero otherwise.
pub fn parse_number(segment: &str) -> (r: usize)
    ensures
        r as int == segment_number(segment@, 0, segment@.len() as int),
{
    let cs = str_chars(segment);
    read_segment_number(&cs, 0, cs.len())
}

/// The summary counters that the stat lines of `s` leave behind,
/// starting from line `i` with counters `acc`: a line that starts with
/// a blank and mentions "files changed" is split at commas, and its
/// first piece sets the file count while the second and third, when
/// present, set insertions and deletions.
pub open spec fn stats_from(
    s: Seq<char>,
    ls: Seq<(int, int)>,
    i: int,
    acc: (int, int, int),
) -> (int, int, int)
    decreases ls.len() - i,
{
    if i >= ls.len() {
        acc
    } else {
        let lo = ls[i].0;
        let hi = ls[i].1;
        if lo < hi && s[lo] == ' ' && contains_seq(s, lo, hi, "files changed"@) {
            let toks = split_spans(s, lo, hi, ',');
            let a0 = segment_number(s, toks[0].0, toks[0].1);
            let a1 = if toks.len() >= 2 {
                segment_number(s, toks[1].0, toks[1].1)
            } else {
                acc.1
            };
            let a2 = if toks.len() >= 3 {
                segment_number(s, toks[2].0, toks[2].1)
            } else {
                acc.2
            };
            stats_from(s, ls, i + 1, (a0, a1, a2))
        } else {
            stats_from(s, ls, i + 1, acc)
        }
    }
}

/// The summary counters that a whole diff text yields.
pub open spec fn stats_model(s: Seq<char>) -> (int, int, int) {
    stats_from(s, line_spans(s), 0, (0, 0, 0))
}

/// Reads the summary counters out of a unified diff text.
pub fn parse_stats(diff: &str) -> (r: DiffStats)
    ensures
        (r.files_changed as int, r.insertions as int, r.deletions as int) == stats_model(diff@),
{
    let ghost model = stats_model(diff@);
    let cs = str_chars(diff);
    let ls = find_line_spans(&cs);
    let ghost lsp = line_spans(cs@);
    let needle = str_chars("files changed");
    let mut files_changed: usize = 0;
    let mut insertions: usize = 0;
    let mut deletions: usize = 0;
    let mut i: usize = 0;
    while i < ls.len()
        invariant
            i <= ls@.len(),
            cs@ == diff@,
            needle@ == "files changed"@,
            ls@.map_values(|p: (usize, usize)| (p.0 as int, p.1 as int)) == lsp,
            forall|k: int|
                0 <= k < ls@.len() ==> 0 <= #[trigger] ls@[k].0 <= ls@[k].1 <= cs@.len(),
            stats_from(
                cs@,
                lsp,
                i as int,
                (files_changed as int, insertions as int, deletions as int),
            ) == model,
        decreases ls@.len() - i,
    {
        let (lo, hi) = ls[i];
        assert(lsp[i as int] == (lo as int, hi as int));
        if lo < hi && cs[lo] == ' ' && range_contains(&cs, lo, hi, &needle) {
            let toks = find_split_spans(&cs, lo, hi, ',');
            let ghost tsp = split_spans(cs@, lo as int, hi as int, ',');
            proof {
                crate::text::lemma_split_spans_len(
                    cs@,
                    hi as int,
                    ',',
                    lo as int,
                    lo as int,
                    Seq::empty(),
                );
            }
            assert(tsp[0] == (toks@[0].0 as int, toks@[0].1 as int));
            let (a, b) = toks[0];
            files_changed = read_segment_number(&cs, a, b);
            if toks.len() >= 2 {
                assert(tsp[1] == (toks@[1].0 as int, toks@[1].1 as int));
                let (c, d) = toks[1];
                insertions = read_segment_number(&cs, c, d);
            }
            if toks.len() >= 3 {
                assert(tsp[2] == (toks@[2].0 as int, toks@[2].1 as int));
                let (e, f) = toks[2];
                deletions = read_segment_number(&cs, e, f);
            }
        }
        i = i + 1;
    }
    DiffStats { files_changed, insertions, deletions }
}

/// Whether the diff text is blank: nothing but whitespace, so trimming
/// leaves it empty.
pub open spec fn all_blank(s: Seq<char>) -> bool {
    forall|m: int| 0 <= m < s.len() ==> is_space(#[trigger] s[m])
}

/// Exec twin of `all_blank`.
pub fn is_all_blank(s: &str) -> (r: bool)
    ensures
        r == all_blank(s@),
{
    let cs = str_chars(s);
    let mut i: usize = 0;
    while i < cs.len()
        invariant
            i <= cs@.len(),
            cs@ == s@,
            forall|m: int| 0 <= m < i ==> is_space(#[trigger] cs@[m]),
        decreases cs@.len() - i,
    {
        if !space_char(cs[i]) {
            assert(!all_blank(s@));
            return false;
        }
        i = i + 1;
    }
    true
}

/// Assembles the structured diff out of the captured command outputs:
/// `diff_output` is the unified diff, `name_status_output` the
/// name-status listing, and `file_diffs` holds one per-file diff text
/// for each listed entry, in order. A blank unified diff is rejected;
/// otherwise every listed file comes back with its status, language and
/// per-file diff, together with the summary counters.
pub fn extract_diff(diff_output: &str, name_status_output: &str, file_diffs: &Vec<String>) -> (r:
    Result<DiffResult, DiffError>)
    requires
        file_diffs@.len() == name_status_pairs(name_status_output@).len(),
    ensures
        r is Err <==> all_blank(diff_output@),
        r matches Err(e) ==> e is EmptyDiff,
        r matches Ok(dr) ==> {
            let pairs = name_status_pairs(name_status_output@);
            &&& (
                dr.stats.files_changed as int,
                dr.stats.insertions as int,
                dr.stats.deletions as int,
            ) == stats_model(diff_output@)
            &&& dr.files@.len() == pairs.len()
            &&& forall|k: int|
                0 <= k < pairs.len() ==> {
                    &&& (#[trigger] dr.files@[k]).path@ == pairs[k].1
                    &&& dr.files@[k].status == status_model(pairs[k].0)
                    &&& dr.files@[k].diff@ == file_diffs@[k]@
                    &&& dr.files@[k].language == language_model(pairs[k].1)
                }
        },
{
    if is_all_blank(diff_output) {
        return Err(DiffError::EmptyDiff);
    }
    let ghost pairs = name_status_pairs(name_status_output@);
    let entries = parse_name_status(name_status_output);
    let mut files: Vec<DiffFile> = Vec::new();
    let mut k: usize = 0;
    while k < entries.len()
        invariant
            k <= entries@.len(),
            entries@.map_values(|ns: NameStatus| (ns.status@, ns.path@)) == pairs,
            file_diffs@.len() == pairs.len(),
            files@.len() == k,
            forall|j: int|
                0 <= j < k ==> {
                    &&& (#[trigger] files@[j]).path@ == pairs[j].1
                    &&& files@[j].status == status_model(pairs[j].0)
                    &&& files@[j].diff@ == file_diffs@[j]@
                    &&& files@[j].language == language_model(pairs[j].1)
                },
        decreases entries@.len() - k,
    {
        let entry = &entries[k];
        assert(pairs[k as int] == (entry.status@, entry.path@));
        let status = map_status(entry.status.as_str());
        let language = detect_language(entry.path.as_str());
        let diff = file_diffs[k].clone();
        let path = entry.path.clone();
        files.push(DiffFile { path, status, diff, language });
        k = k + 1;
    }
    let stats = parse_stats(diff_output);
    Ok(DiffResult { files, stats })
}

} // verus!
