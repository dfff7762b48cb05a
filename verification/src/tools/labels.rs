//! The label tools: what a label change asks JIRA for, its answer, and
//! the listing of the labels in use.

use crate::error::{JiraMcpError, JiraMcpResult};
use crate::semantic_mapping::{dedup_seq, dedup_strings};
use crate::text::{
    contains_seq, decimal_seq, decimal_string, join, join_seq, replace_seq, str_contains,
    str_replace, views,
};
use crate::tools::validation::invalid_param_is;
use vstd::prelude::*;

verus! {

/// Parameters for changing the labels of an issue
#[derive(Debug, Clone)]
pub struct ManageLabelsParams {
    /// Issue key
    pub issue_key: String,
    /// Labels to add
    pub add_labels: Option<Vec<String>>,
    /// Labels to remove
    pub remove_labels: Option<Vec<String>>,
    /// Replace all labels with add_labels
    pub replace_all: bool,
}

/// Result of changing labels
#[derive(Debug, Clone)]
pub struct ManageLabelsResult {
    /// Issue key
    pub issue_key: String,
    /// Labels that were added
    pub added: Vec<String>,
    /// Labels that were removed
    pub removed: Vec<String>,
    /// Labels of the issue afterwards
    pub current_labels: Vec<String>,
    /// Success message
    pub message: String,
}

/// Parameters for listing available labels
#[derive(Debug, Clone)]
pub struct GetAvailableLabelsParams {
    /// Only labels used in this project, if given
    pub project_key: Option<String>,
    /// Maximum number of labels (default and cap: 1000)
    pub max_results: Option<u32>,
    /// Starting index (default: 0)
    pub start_at: Option<u32>,
}

/// Result of listing available labels
#[derive(Debug, Clone)]
pub struct GetAvailableLabelsResult {
    /// The labels
    pub labels: Vec<String>,
    /// Total number of labels
    pub total: u32,
    /// Starting index used
    pub start_at: u32,
    /// Maximum results used
    pub max_results: u32,
    /// Whether this is the last page
    pub is_last: bool,
}

fn owned(s: &str) -> (r: String)
    ensures
        r@ == s@,
{
    s.to_owned()
}

/// The labels a list option holds (none when not given).
pub open spec fn given_labels(o: Option<Vec<String>>) -> Seq<Seq<char>> {
    match o {
        Some(v) => views(v@),
        None => Seq::empty(),
    }
}

fn labels_of(o: &Option<Vec<String>>) -> (r: Vec<String>)
    ensures
        views(r@) == given_labels(*o),
{
    match o {
        Some(v) => {
            let c = crate::text::clone_strings(v);
            assert(views(c@) =~= views(v@));
            c
        },
        None => Vec::new(),
    }
}

/// A label change with nothing to add or remove is refused unless it
/// replaces all labels.
pub fn check_manage(params: &ManageLabelsParams) -> (r: JiraMcpResult<()>)
    ensures
        !params.replace_all && given_labels(params.add_labels).len() == 0 && given_labels(
            params.remove_labels,
        ).len() == 0 ==> (r matches Err(e) && invalid_param_is(
            e,
            "labels"@,
            "Must specify at least one label to add or remove"@,
        )),
        params.replace_all || given_labels(params.add_labels).len() > 0 || given_labels(
            params.remove_labels,
        ).len() > 0 ==> r is Ok,
{
    let adds = match &params.add_labels {
        Some(v) => v.len(),
        None => 0,
    };
    let removes = match &params.remove_labels {
        Some(v) => v.len(),
        None => 0,
    };
    if !params.replace_all && adds == 0 && removes == 0 {
        return Err(
            JiraMcpError::invalid_param("labels", "Must specify at least one label to add or remove"),
        );
    }
    Ok(())
}

/// What a label change asks JIRA for.
#[derive(Debug, Clone)]
pub enum LabelUpdate {
    /// Set the labels to exactly these
    Replace(Vec<String>),
    /// Add and remove labels one by one: `true` adds, `false` removes
    Operations(Vec<(bool, String)>),
}

/// The view of label operations.
pub open spec fn ops_view(v: Seq<(bool, String)>) -> Seq<(bool, Seq<char>)> {
    v.map_values(|p: (bool, String)| (p.0, p.1@))
}

/// The request of a label change: the labels to add as the new set when
/// replacing; else each label to add, then each to remove.
pub fn label_update(params: &ManageLabelsParams) -> (r: LabelUpdate)
    ensures
        params.replace_all ==> (r matches LabelUpdate::Replace(v) && views(v@) == given_labels(
            params.add_labels,
        )),
        !params.replace_all ==> (r matches LabelUpdate::Operations(ops) && ops_view(ops@)
            == given_labels(params.add_labels).map_values(|l: Seq<char>| (true, l))
            + given_labels(params.remove_labels).map_values(|l: Seq<char>| (false, l))),
{
    if params.replace_all {
        return LabelUpdate::Replace(labels_of(&params.add_labels));
    }
    let adds = labels_of(&params.add_labels);
    let removes = labels_of(&params.remove_labels);
    let ghost fa = |l: Seq<char>| (true, l);
    let ghost fr = |l: Seq<char>| (false, l);
    let mut ops: Vec<(bool, String)> = Vec::new();
    let mut i: usize = 0;
    while i < adds.len()
        invariant
            i <= adds@.len(),
            fa == (|l: Seq<char>| (true, l)),
            ops_view(ops@) == views(adds@).subrange(0, i as int).map_values(fa),
        decreases adds@.len() - i,
    {
        let ghost before = ops_view(ops@);
        ops.push((true, adds[i].clone()));
        assert(ops_view(ops@) =~= before.push((true, adds@[i as int]@)));
        assert(views(adds@).subrange(0, i + 1).map_values(fa) =~= views(adds@).subrange(
            0,
            i as int,
        ).map_values(fa).push(fa(adds@[i as int]@)));
        i = i + 1;
    }
    assert(views(adds@).subrange(0, adds@.len() as int) =~= views(adds@));
    let ghost mid = ops_view(ops@);
    let mut j: usize = 0;
    while j < removes.len()
        invariant
            j <= removes@.len(),
            fr == (|l: Seq<char>| (false, l)),
            ops_view(ops@) == mid + views(removes@).subrange(0, j as int).map_values(fr),
        decreases removes@.len() - j,
    {
        let ghost before = ops_view(ops@);
        ops.push((false, removes[j].clone()));
        assert(ops_view(ops@) =~= before.push((false, removes@[j as int]@)));
        assert(views(removes@).subrange(0, j + 1).map_values(fr) =~= views(removes@).subrange(
            0,
            j as int,
        ).map_values(fr).push(fr(removes@[j as int]@)));
        j = j + 1;
    }
    assert(views(removes@).subrange(0, removes@.len() as int) =~= views(removes@));
    LabelUpdate::Operations(ops)
}

/// The error of a failed label change: a 404 or Not Found means the issue
/// does not exist.
pub fn label_update_error(detail: &str, issue_key: &str) -> (r: JiraMcpError)
    ensures
        contains_seq(detail@, "404"@) || contains_seq(detail@, "Not Found"@) ==> (r matches JiraMcpError::NotFound {
            resource,
            key,
        } && resource@ == "issue"@ && key@ == issue_key@),
        !(contains_seq(detail@, "404"@) || contains_seq(detail@, "Not Found"@)) ==> (r matches JiraMcpError::Internal {
            message,
        } && message@ == "Failed to update labels: "@ + detail@),
{
    if str_contains(detail, "404") || str_contains(detail, "Not Found") {
        JiraMcpError::not_found("issue", issue_key)
    } else {
        let mut m = owned("Failed to update labels: ");
        m.append(detail);
        JiraMcpError::Internal { message: m }
    }
}

/// The message of a label change.
pub open spec fn spec_labels_message(
    issue_key: Seq<char>,
    replace_all: bool,
    added: nat,
    removed: nat,
) -> Seq<char> {
    if replace_all {
        "Successfully replaced all labels on "@ + issue_key + " with "@ + decimal_seq(added)
            + " label(s)"@
    } else {
        let parts = (if added > 0 {
            seq!["added "@ + decimal_seq(added) + " label(s)"@]
        } else {
            Seq::empty()
        }) + (if removed > 0 {
            seq!["removed "@ + decimal_seq(removed) + " label(s)"@]
        } else {
            Seq::empty()
        });
        "Successfully "@ + join_seq(parts, " and "@) + " on "@ + issue_key
    }
}

/// The answer to a label change, with the labels the issue has afterwards.
pub fn labels_result(params: &ManageLabelsParams, current_labels: Vec<String>) -> (r:
    ManageLabelsResult)
    ensures
        r.issue_key@ == params.issue_key@,
        views(r.added@) == given_labels(params.add_labels),
        views(r.removed@) == given_labels(params.remove_labels),
        r.current_labels@ == current_labels@,
        r.message@ == spec_labels_message(
            params.issue_key@,
            params.replace_all,
            given_labels(params.add_labels).len(),
            given_labels(params.remove_labels).len(),
        ),
{
    let added = labels_of(&params.add_labels);
    let removed = labels_of(&params.remove_labels);
    let message = if params.replace_all {
        let mut m = owned("Successfully replaced all labels on ");
        m.append(params.issue_key.as_str());
        m.append(" with ");
        let n = decimal_string(added.len() as u64);
        m.append(n.as_str());
        m.append(" label(s)");
        m
    } else {
        let mut parts: Vec<String> = Vec::new();
        if added.len() > 0 {
            let mut p = owned("added ");
            let n = decimal_string(added.len() as u64);
            p.append(n.as_str());
            p.append(" label(s)");
            parts.push(p);
        }
        if removed.len() > 0 {
            let mut p = owned("removed ");
            let n = decimal_string(removed.len() as u64);
            p.append(n.as_str());
            p.append(" label(s)");
            parts.push(p);
        }
        assert(views(parts@) =~= (if added@.len() > 0 {
            seq!["added "@ + decimal_seq(added@.len() as nat) + " label(s)"@]
        } else {
            Seq::<Seq<char>>::empty()
        }) + (if removed@.len() > 0 {
            seq!["removed "@ + decimal_seq(removed@.len() as nat) + " label(s)"@]
        } else {
            Seq::<Seq<char>>::empty()
        }));
        let mut m = owned("Successfully ");
        let j = join(&parts, " and ");
        m.append(j.as_str());
        m.append(" on ");
        m.append(params.issue_key.as_str());
        m
    };
    ManageLabelsResult {
        issue_key: params.issue_key.clone(),
        added,
        removed,
        current_labels,
        message,
    }
}

/// The page of a label listing: at most 1000 (1000 by default) from offset
/// 0 by default.
pub fn labels_page(params: &GetAvailableLabelsParams) -> (r: (u32, u32))
    ensures
        r.0 == ({
            let m = match params.max_results {
                Some(m) => m,
                None => 1000,
            };
            if m < 1000 {
                m
            } else {
                1000
            }
        }),
        r.1 == match params.start_at {
            Some(s) => s,
            None => 0,
        },
{
    let m = match params.max_results {
        Some(m) => m,
        None => 1000,
    };
    let max = if m < 1000 {
        m
    } else {
        1000
    };
    let start = match params.start_at {
        Some(s) => s,
        None => 0,
    };
    (max, start)
}

/// The search for the labels used in a project: the query with its
/// spaces and '=' escaped for a URL, asking for the labels field only.
pub fn project_labels_endpoint(project_key: &str, max_results: u32) -> (r: String)
    ensures
        r@ == "/search?jql="@ + replace_seq(
            replace_seq("project = "@ + project_key@ + " AND labels is not EMPTY"@, " "@, "%20"@),
            "="@,
            "%3D"@,
        ) + "&fields=labels&maxResults="@ + decimal_seq(max_results as nat),
{
    let mut jql = owned("project = ");
    jql.append(project_key);
    jql.append(" AND labels is not EMPTY");
    proof {
        reveal_strlit(" ");
        reveal_strlit("=");
    }
    let a = str_replace(jql.as_str(), " ", "%20");
    let b = str_replace(a.as_str(), "=", "%3D");
    let mut e = owned("/search?jql=");
    e.append(b.as_str());
    e.append("&fields=labels&maxResults=");
    let n = decimal_string(max_results as u64);
    e.append(n.as_str());
    e
}

/// The listing of all labels, a page at a time.
pub fn labels_endpoint(start_at: u32, max_results: u32) -> (r: String)
    ensures
        r@ == "/label?startAt="@ + decimal_seq(start_at as nat) + "&maxResults="@ + decimal_seq(
            max_results as nat,
        ),
{
    let mut e = owned("/label?startAt=");
    let s = decimal_string(start_at as u64);
    e.append(s.as_str());
    e.append("&maxResults=");
    let m = decimal_string(max_results as u64);
    e.append(m.as_str());
    e
}

/// Strings in the order of their UTF-8 bytes, the order of `str`.
pub open spec fn bytes_le(a: Seq<u8>, b: Seq<u8>) -> bool
    decreases a.len(),
{
    if a.len() == 0 {
        true
    } else if b.len() == 0 {
        false
    } else if a[0] != b[0] {
        a[0] < b[0]
    } else {
        bytes_le(a.drop_first(), b.drop_first())
    }
}

/// `a` comes no later than `b` in the order of `str`.
pub open spec fn str_le(a: Seq<char>, b: Seq<char>) -> bool {
    bytes_le(vstd::utf8::encode_utf8(a), vstd::utf8::encode_utf8(b))
}

/// `slice::sort` on strings: the same strings, in the order of `str`
/// (their UTF-8 bytes compared lexicographically).
#[verifier::external_body]
fn sort_strings(v: &mut Vec<String>)
    ensures
        views(final(v)@).to_multiset() == views(old(v)@).to_multiset(),
        forall|i: int, j: int|
            0 <= i < j < final(v)@.len() ==> str_le(final(v)@[i]@, final(v)@[j]@),
{
    v.sort()
}

/// The labels used in a project, each once, sorted.
pub fn collect_labels(found: &Vec<String>) -> (r: Vec<String>)
    ensures
        views(r@).to_multiset() == dedup_seq(views(found@)).to_multiset(),
        forall|i: int, j: int| 0 <= i < j < r@.len() ==> str_le(r@[i]@, r@[j]@),
{
    let mut labels = dedup_strings(found);
    sort_strings(&mut labels);
    labels
}

} // verus!
