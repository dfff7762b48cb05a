//! The update_description tool: the new description for each way of
//! updating, and the answer.

use crate::error::{JiraMcpError, JiraMcpResult};
use vstd::prelude::*;

verus! {

/// How the description is updated
#[derive(Debug, Clone, Copy, PartialEq, Eq, Structural)]
pub enum UpdateMode {
    /// The content replaces the description
    Replace,
    /// The content goes after the description (the default)
    Append,
    /// The content goes before the description
    Prepend,
}

impl Default for UpdateMode {
    fn default() -> (r: Self)
        ensures
            r == UpdateMode::Append,
    {
        UpdateMode::Append
    }
}

/// Parameters for updating a description
#[derive(Debug, Clone)]
pub struct UpdateDescriptionParams {
    /// Issue key
    pub issue_key: String,
    /// The content
    pub content: String,
    /// How to update (default: append)
    pub mode: UpdateMode,
}

/// Result of updating a description
#[derive(Debug, Clone)]
pub struct UpdateDescriptionResult {
    /// Whether the update was made
    pub success: bool,
    /// Issue key
    pub issue_key: String,
    /// The mode used, in lower case
    pub mode: String,
    /// The description written
    pub new_description: String,
}

fn owned(s: &str) -> (r: String)
    ensures
        r@ == s@,
{
    s.to_owned()
}

/// Whether the update needs the current description.
pub fn needs_current(mode: UpdateMode) -> (r: bool)
    ensures
        r == (mode != UpdateMode::Replace),
{
    match mode {
        UpdateMode::Replace => false,
        _ => true,
    }
}

/// The new description: the content alone when replacing or when there is
/// no description yet; else the two joined by a blank line, the content
/// after the description when appending, before it when prepending.
pub open spec fn spec_new_description(mode: UpdateMode, current: Seq<char>, content: Seq<char>) -> Seq<
    char,
> {
    match mode {
        UpdateMode::Replace => content,
        UpdateMode::Append => if current.len() == 0 {
            content
        } else {
            current + "\n\n"@ + content
        },
        UpdateMode::Prepend => if current.len() == 0 {
            content
        } else {
            content + "\n\n"@ + current
        },
    }
}

/// Compute the new description.
pub fn new_description(mode: UpdateMode, current: &str, content: &str) -> (r: String)
    ensures
        r@ == spec_new_description(mode, current@, content@),
{
    match mode {
        UpdateMode::Replace => owned(content),
        UpdateMode::Append => if current.is_empty() {
            owned(content)
        } else {
            let mut d = owned(current);
            d.append("\n\n");
            d.append(content);
            d
        },
        UpdateMode::Prepend => if current.is_empty() {
            owned(content)
        } else {
            let mut d = owned(content);
            d.append("\n\n");
            d.append(current);
            d
        },
    }
}

/// The name of a mode, in lower case.
pub open spec fn mode_name(mode: UpdateMode) -> Seq<char> {
    match mode {
        UpdateMode::Replace => "replace"@,
        UpdateMode::Append => "append"@,
        UpdateMode::Prepend => "prepend"@,
    }
}

/// The answer to a description written.
pub fn description_result(issue_key: String, mode: UpdateMode, new_description: String) -> (r:
    UpdateDescriptionResult)
    ensures
        r.success,
        r.issue_key@ == issue_key@,
        r.mode@ == mode_name(mode),
        r.new_description@ == new_description@,
{
    let m = match mode {
        UpdateMode::Replace => owned("replace"),
        UpdateMode::Append => owned("append"),
        UpdateMode::Prepend => owned("prepend"),
    };
    UpdateDescriptionResult { success: true, issue_key, mode: m, new_description }
}

/// Replacing writes exactly the content; appending or prepending to an
/// empty description does too; appending keeps the old description as a
/// prefix.
pub proof fn law_update_description(mode: UpdateMode, current: Seq<char>, content: Seq<char>)
    ensures
        mode == UpdateMode::Replace ==> spec_new_description(mode, current, content) == content,
        current.len() == 0 ==> spec_new_description(mode, current, content) == content,
        mode == UpdateMode::Append && current.len() > 0 ==> spec_new_description(
            mode,
            current,
            content,
        ).subrange(0, current.len() as int) == current,
        mode == UpdateMode::Prepend && current.len() > 0 ==> spec_new_description(
            mode,
            current,
            content,
        ).subrange(0, content.len() as int) == content,
{
    if mode == UpdateMode::Append && current.len() > 0 {
        assert((current + "\n\n"@ + content).subrange(0, current.len() as int) =~= current);
    }
    if mode == UpdateMode::Prepend && current.len() > 0 {
        assert((content + "\n\n"@ + current).subrange(0, content.len() as int) =~= content);
    }
}

} // verus!
