//! Assembly of the review prompt out of the system prompt text, the
//! optional style guide and README, and the per-file diffs.

use vstd::prelude::*;

verus! {

use crate::context::ReviewContext;
use crate::git::DiffFile;

/// The block of text that one changed file contributes to the prompt.
pub open spec fn diff_file_block(f: DiffFile) -> Seq<char> {
    "#### "@ + f.path@ + "\n\n"@ + "```diff\n"@ + f.diff@ + "\n```\n\n"@
}

/// The blocks of the files at and after `i`, concatenated.
pub open spec fn diff_blocks_from(files: Seq<DiffFile>, i: int) -> Seq<char>
    decreases files.len() - i,
{
    if i >= files.len() {
        Seq::empty()
    } else {
        diff_file_block(files[i]) + diff_blocks_from(files, i + 1)
    }
}

/// The whole prompt: the system prompt, a context header, the style
/// guide and README sections when they are present, and one block per
/// changed file under a diff header.
pub open spec fn prompt_model(context: &ReviewContext, sys: Seq<char>) -> Seq<char> {
    let base = sys + "\n\n## Review Context\n\n"@;
    let with_style = if context.style_guide is Some {
        base + "### Style Guide\n\n"@ + context.style_guide->0@ + "\n\n"@
    } else {
        base
    };
    let with_readme = if context.project_readme is Some {
        with_style + "### Project README\n\n"@ + context.project_readme->0@ + "\n\n"@
    } else {
        with_style
    };
    with_readme + "### Diff\n\n"@ + diff_blocks_from(context.diff.files@, 0)
}

/// Appends the block for one changed file to the prompt in progress.
pub fn append_diff_file(content: &mut String, file: &DiffFile)
    ensures
        final(content)@ == old(content)@ + diff_file_block(*file),
{
    content.append("#### ");
    content.append(file.path.as_str());
    content.append("\n\n");
    content.append("```diff\n");
    content.append(file.diff.as_str());
    content.append("\n```\n\n");
    proof {
        assert(content@ =~= old(content)@ + diff_file_block(*file));
    }
}

/// Builds the complete review prompt from the context and the system
/// prompt text.
pub fn build_prompt(context: &ReviewContext, system_prompt: &str) -> (r: String)
    ensures
        r@ == prompt_model(context, system_prompt@),
{
    let ghost model = prompt_model(context, system_prompt@);
    let mut content = String::from_str(system_prompt);
    content.append("\n\n## Review Context\n\n");
    if let Some(style_guide) = &context.style_guide {
        content.append("### Style Guide\n\n");
        content.append(style_guide.as_str());
        content.append("\n\n");
    }
    if let Some(readme) = &context.project_readme {
        content.append("### Project README\n\n");
        content.append(readme.as_str());
        content.append("\n\n");
    }
    content.append("### Diff\n\n");
    proof {
        assert(content@ + diff_blocks_from(context.diff.files@, 0) =~= model);
    }
    let files = &context.diff.files;
    let mut i: usize = 0;
    while i < files.len()
        invariant
            i <= files@.len(),
            files@ == context.diff.files@,
            content@ + diff_blocks_from(files@, i as int) == model,
        decreases files@.len() - i,
    {
        append_diff_file(&mut content, &files[i]);
        proof {
            assert(content@ + diff_blocks_from(files@, i as int + 1) =~= model);
        }
        i = i + 1;
    }
    proof {
        assert(content@ =~= model);
    }
    content
}

} // verus!
