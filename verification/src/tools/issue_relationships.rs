//! The issue relationship graph tool: the checks of the root key, which
//! link types the graph leaves out, the relationships each issue
//! contributes, and the counts of the summary.

use crate::error::{JiraMcpError, JiraMcpResult};
use crate::jira_client::IssueInfo;
use crate::text::{chars_of, opt_view, str_eq, views};
use crate::tools::transitions::count_char;
use crate::tools::validation::check_result;
use vstd::prelude::*;

verus! {

/// Parameters for extracting issue relationship graphs
#[derive(Debug, Clone)]
pub struct IssueRelationshipsParams {
    /// The root issue key to start relationship extraction from (e.g., "PROJ-123")
    pub root_issue_key: String,
    /// Maximum depth to traverse relationships (default: 2)
    pub max_depth: u32,
    /// Whether to include subtasks (default: true)
    pub include_subtasks: bool,
    /// Whether to include blocked/blocks relationships (default: true)
    pub include_blocks: bool,
    /// Whether to include relates to relationships (default: true)
    pub include_relates: bool,
    /// Whether to include epic-story relationships (default: true)
    pub include_epic_links: bool,
    /// Whether to include duplicate relationships (default: false)
    pub include_duplicates: bool,
}

/// Issue relationship information
#[derive(Debug, Clone)]
pub struct IssueRelationship {
    /// Source issue key
    pub from_issue: String,
    /// Target issue key
    pub to_issue: String,
    /// Type of relationship (e.g., "blocks", "subtask", "relates_to")
    pub relationship_type: String,
    /// Direction of the relationship ("inward" or "outward")
    pub direction: String,
    /// Description of the relationship
    pub description: Option<String>,
}

/// Issue node in the relationship graph
#[derive(Debug, Clone)]
pub struct IssueNode {
    /// Issue key
    pub key: String,
    /// Issue summary/title
    pub summary: String,
    /// Issue type (e.g., "Story", "Bug", "Epic")
    pub issue_type: String,
    /// Current status
    pub status: String,
    /// Priority level
    pub priority: Option<String>,
    /// Assigned user
    pub assignee: Option<String>,
    /// Project key
    pub project_key: String,
    /// Depth level in the relationship graph (0 = root issue)
    pub depth: u32,
}

/// Result of relationship graph extraction
#[derive(Debug, Clone)]
pub struct IssueRelationshipsResult {
    /// The root issue that was used as starting point
    pub root_issue: String,
    /// Maximum depth that was traversed
    pub max_depth: u32,
    /// All issue nodes in the relationship graph
    pub nodes: Vec<IssueNode>,
    /// All relationships found between issues
    pub relationships: Vec<IssueRelationship>,
    /// Summary statistics
    pub summary: RelationshipSummary,
    /// Execution time in milliseconds
    pub execution_time_ms: u64,
}

/// Summary statistics about the relationship graph
#[derive(Debug, Clone)]
pub struct RelationshipSummary {
    /// Total number of issues found
    pub total_issues: usize,
    /// Total number of relationships found
    pub total_relationships: usize,
    /// Issues by depth level, each depth once
    pub issues_by_depth: Vec<(u32, usize)>,
    /// Relationships by type, each type once
    pub relationships_by_type: Vec<(String, usize)>,
    /// Issues that couldn't be accessed (due to permissions, etc.)
    pub inaccessible_issues: Vec<String>,
}

/// The links of one issue in the graph, as JIRA reports them.
#[derive(Debug, Clone)]
pub struct IssueLinks {
    /// Issues that this issue blocks
    pub blocks: Vec<String>,
    /// Issues that block this issue
    pub blocked_by: Vec<String>,
    /// Issues related to this issue
    pub relates_to: Vec<String>,
    /// Issues that this issue duplicates
    pub duplicates: Vec<String>,
    /// Parent issue
    pub parent: Option<String>,
    /// Child issues
    pub children: Vec<String>,
    /// Epic that contains this issue
    pub epic: Option<String>,
    /// Custom link types with their related issues
    pub custom: Vec<(String, Vec<String>)>,
}

fn owned(s: &str) -> (r: String)
    ensures
        r@ == s@,
{
    s.to_owned()
}

// ---------------------------------------------------------------------------
// The root key

/// Every character is an ASCII capital letter.
pub open spec fn all_ascii_upper(s: Seq<char>) -> bool {
    forall|i: int| 0 <= i < s.len() ==> 'A' <= #[trigger] s[i] <= 'Z'
}

/// Every character is an ASCII digit.
pub open spec fn all_ascii_digits(s: Seq<char>) -> bool {
    forall|i: int| 0 <= i < s.len() ==> '0' <= #[trigger] s[i] <= '9'
}

/// Why a root key is refused: empty, not exactly two parts at '-', a
/// project part that is not capital letters, a number part that is not
/// digits.
pub open spec fn spec_root_key_failure(key: Seq<char>) -> Option<(Seq<char>, Seq<char>)> {
    if key.len() == 0 {
        Some(("root_issue_key"@, "Issue key cannot be empty"@))
    } else if count_char(key, '-') != 1 {
        Some(("root_issue_key"@, "Issue key must be in format 'PROJECT-123'"@))
    } else {
        let project = crate::tools::issue_details::first_segment(key);
        let number = crate::tools::issue_details::second_segment(key);
        if project.len() == 0 || !all_ascii_upper(project) {
            Some(("root_issue_key"@, "Project key must contain only uppercase letters"@))
        } else if number.len() == 0 || !all_ascii_digits(number) {
            Some(("root_issue_key"@, "Issue number must contain only digits"@))
        } else {
            None
        }
    }
}

fn upper_only(s: &str) -> (r: bool)
    ensures
        r == all_ascii_upper(s@),
{
    let cs = chars_of(s);
    let mut i: usize = 0;
    while i < cs.len()
        invariant
            i <= cs@.len(),
            cs@ == s@,
            forall|j: int| 0 <= j < i ==> 'A' <= #[trigger] cs@[j] <= 'Z',
        decreases cs@.len() - i,
    {
        if !('A' <= cs[i] && cs[i] <= 'Z') {
            return false;
        }
        i = i + 1;
    }
    true
}

fn digits_only(s: &str) -> (r: bool)
    ensures
        r == all_ascii_digits(s@),
{
    let cs = chars_of(s);
    let mut i: usize = 0;
    while i < cs.len()
        invariant
            i <= cs@.len(),
            cs@ == s@,
            forall|j: int| 0 <= j < i ==> '0' <= #[trigger] cs@[j] <= '9',
        decreases cs@.len() - i,
    {
        if !('0' <= cs[i] && cs[i] <= '9') {
            return false;
        }
        i = i + 1;
    }
    true
}

/// Validate issue key format
pub fn validate_issue_key(issue_key: &str) -> (r: JiraMcpResult<()>)
    ensures
        check_result(r, spec_root_key_failure(issue_key@)),
{
    match crate::tools::transitions::validate_issue_key(issue_key) {
        Ok(()) => {},
        Err(JiraMcpError::InvalidParameter { message, .. }) => {
            return Err(JiraMcpError::InvalidParameter { parameter: owned("root_issue_key"), message });
        },
        Err(e) => {
            return Err(e);
        },
    }
    proof {
        crate::tools::issue_details::lemma_has_dash(issue_key@);
    }
    let (project, number) = crate::tools::issue_details::key_segments(issue_key);
    if project.as_str().is_empty() || !upper_only(project.as_str()) {
        return Err(
            JiraMcpError::invalid_param(
                "root_issue_key",
                "Project key must contain only uppercase letters",
            ),
        );
    }
    if number.as_str().is_empty() || !digits_only(number.as_str()) {
        return Err(
            JiraMcpError::invalid_param("root_issue_key", "Issue number must contain only digits"),
        );
    }
    Ok(())
}

// ---------------------------------------------------------------------------
// Graph options

/// The link types the graph leaves out: blocking links unless asked for,
/// related links unless asked for, duplicates unless asked for.
pub open spec fn spec_exclude_types(p: IssueRelationshipsParams) -> Seq<Seq<char>> {
    (if !p.include_blocks {
        seq!["Blocks"@, "blocks"@, "is blocked by"@]
    } else {
        Seq::empty()
    }) + (if !p.include_relates {
        seq!["Relates"@, "relates to"@]
    } else {
        Seq::empty()
    }) + (if !p.include_duplicates {
        seq!["Duplicate"@, "Duplicates"@, "is duplicated by"@]
    } else {
        Seq::empty()
    })
}

/// The link types to exclude from the graph, or none when nothing is
/// excluded.
pub fn exclude_types(params: &IssueRelationshipsParams) -> (r: Option<Vec<String>>)
    ensures
        spec_exclude_types(*params).len() == 0 ==> r is None,
        spec_exclude_types(*params).len() > 0 ==> (r matches Some(v) && views(v@)
            == spec_exclude_types(*params)),
{
    let mut v: Vec<String> = Vec::new();
    if !params.include_blocks {
        v.push(owned("Blocks"));
        v.push(owned("blocks"));
        v.push(owned("is blocked by"));
    }
    if !params.include_relates {
        v.push(owned("Relates"));
        v.push(owned("relates to"));
    }
    if !params.include_duplicates {
        v.push(owned("Duplicate"));
        v.push(owned("Duplicates"));
        v.push(owned("is duplicated by"));
    }
    assert(views(v@) =~= spec_exclude_types(*params));
    if v.len() == 0 {
        None
    } else {
        Some(v)
    }
}

// ---------------------------------------------------------------------------
// Relationships

/// The plain view of a relationship: from, to, type, direction and
/// description.
pub open spec fn rel_view(r: IssueRelationship) -> (Seq<char>, Seq<char>, Seq<char>, Seq<char>, Option<Seq<char>>) {
    (r.from_issue@, r.to_issue@, r.relationship_type@, r.direction@, opt_view(r.description))
}

/// One relationship of `from` to each target, of a type and direction,
/// described as `from`, the phrase and the target.
pub open spec fn rels_to(
    from: Seq<char>,
    targets: Seq<Seq<char>>,
    kind: Seq<char>,
    direction: Seq<char>,
    phrase: Seq<char>,
) -> Seq<(Seq<char>, Seq<char>, Seq<char>, Seq<char>, Option<Seq<char>>)> {
    targets.map_values(
        |t: Seq<char>| (from, t, kind, direction, Some(from + phrase + t)),
    )
}

/// The targets an optional link names.
pub open spec fn opt_targets(o: Option<String>) -> Seq<Seq<char>> {
    match o {
        Some(t) => seq![t@],
        None => Seq::empty(),
    }
}

/// The relationships of custom link types, type by type.
pub open spec fn custom_rels(from: Seq<char>, custom: Seq<(String, Vec<String>)>) -> Seq<
    (Seq<char>, Seq<char>, Seq<char>, Seq<char>, Option<Seq<char>>),
>
    decreases custom.len(),
{
    if custom.len() == 0 {
        Seq::empty()
    } else {
        let (kind, targets) = custom.last();
        custom_rels(from, custom.drop_last()) + rels_to(
            from,
            views(targets@),
            kind@,
            "outward"@,
            " "@ + kind@ + " "@,
        )
    }
}

/// The blocking relationships of an issue, both ways, when asked for.
pub open spec fn blocks_part(from: Seq<char>, l: IssueLinks, p: IssueRelationshipsParams) -> Seq<
    (Seq<char>, Seq<char>, Seq<char>, Seq<char>, Option<Seq<char>>),
> {
    if p.include_blocks {
        rels_to(from, views(l.blocks@), "blocks"@, "outward"@, " blocks "@) + rels_to(
            from,
            views(l.blocked_by@),
            "blocked_by"@,
            "inward"@,
            " is blocked by "@,
        )
    } else {
        Seq::empty()
    }
}

/// The parent and subtask relationships of an issue, when asked for.
pub open spec fn subtasks_part(from: Seq<char>, l: IssueLinks, p: IssueRelationshipsParams) -> Seq<
    (Seq<char>, Seq<char>, Seq<char>, Seq<char>, Option<Seq<char>>),
> {
    if p.include_subtasks {
        rels_to(from, opt_targets(l.parent), "parent"@, "inward"@, " is subtask of "@) + rels_to(
            from,
            views(l.children@),
            "subtask"@,
            "outward"@,
            " has subtask "@,
        )
    } else {
        Seq::empty()
    }
}

/// The relationships of one standard kind, when asked for.
pub open spec fn part_if(
    cond: bool,
    from: Seq<char>,
    targets: Seq<Seq<char>>,
    kind: Seq<char>,
    direction: Seq<char>,
    phrase: Seq<char>,
) -> Seq<(Seq<char>, Seq<char>, Seq<char>, Seq<char>, Option<Seq<char>>)> {
    if cond {
        rels_to(from, targets, kind, direction, phrase)
    } else {
        Seq::empty()
    }
}

/// The relationships of the standard link types an issue contributes, in
/// order: blocking (both ways), related, duplicates, parent and subtasks,
/// epic, each when asked for.
pub open spec fn standard_rels(from: Seq<char>, l: IssueLinks, p: IssueRelationshipsParams) -> Seq<
    (Seq<char>, Seq<char>, Seq<char>, Seq<char>, Option<Seq<char>>),
> {
    blocks_part(from, l, p) + part_if(
        p.include_relates,
        from,
        views(l.relates_to@),
        "relates_to"@,
        "outward"@,
        " relates to "@,
    ) + part_if(
        p.include_duplicates,
        from,
        views(l.duplicates@),
        "duplicates"@,
        "outward"@,
        " duplicates "@,
    ) + subtasks_part(from, l, p) + part_if(
        p.include_epic_links,
        from,
        opt_targets(l.epic),
        "epic"@,
        "inward"@,
        " is in epic "@,
    )
}

/// The relationships an issue contributes, in order: those of the
/// standard link types asked for, then those of custom link types.
pub open spec fn spec_issue_rels(from: Seq<char>, l: IssueLinks, p: IssueRelationshipsParams) -> Seq<
    (Seq<char>, Seq<char>, Seq<char>, Seq<char>, Option<Seq<char>>),
> {
    standard_rels(from, l, p) + custom_rels(from, l.custom@)
}

/// The views of relationships.
pub open spec fn rel_views(v: Seq<IssueRelationship>) -> Seq<
    (Seq<char>, Seq<char>, Seq<char>, Seq<char>, Option<Seq<char>>),
> {
    v.map_values(|r: IssueRelationship| rel_view(r))
}

fn push_rels(
    out: &mut Vec<IssueRelationship>,
    from: &str,
    targets: &Vec<String>,
    kind: &str,
    direction: &str,
    phrase: &str,
)
    ensures
        rel_views(final(out)@) == rel_views(old(out)@) + rels_to(
            from@,
            views(targets@),
            kind@,
            direction@,
            phrase@,
        ),
{
    let ghost start = rel_views(out@);
    let ghost f = |t: Seq<char>| (from@, t, kind@, direction@, Some(from@ + phrase@ + t));
    let mut i: usize = 0;
    while i < targets.len()
        invariant
            i <= targets@.len(),
            f == (|t: Seq<char>| (from@, t, kind@, direction@, Some(from@ + phrase@ + t))),
            rel_views(out@) == start + views(targets@).subrange(0, i as int).map_values(f),
        decreases targets@.len() - i,
    {
        let mut d = owned(from);
        d.append(phrase);
        d.append(targets[i].as_str());
        let r = IssueRelationship {
            from_issue: owned(from),
            to_issue: targets[i].clone(),
            relationship_type: owned(kind),
            direction: owned(direction),
            description: Some(d),
        };
        let ghost before = rel_views(out@);
        out.push(r);
        assert(rel_views(out@) =~= before.push(rel_view(r)));
        assert(views(targets@).subrange(0, i + 1).map_values(f) =~= views(targets@).subrange(
            0,
            i as int,
        ).map_values(f).push(f(targets@[i as int]@)));
        i = i + 1;
    }
    assert(views(targets@).subrange(0, targets@.len() as int) =~= views(targets@));
}

fn opt_vec(o: &Option<String>) -> (r: Vec<String>)
    ensures
        views(r@) == opt_targets(*o),
{
    let mut v: Vec<String> = Vec::new();
    if let Some(t) = o {
        v.push(t.clone());
    }
    assert(views(v@) =~= opt_targets(*o));
    v
}

fn push_if(
    out: &mut Vec<IssueRelationship>,
    cond: bool,
    from: &str,
    targets: &Vec<String>,
    kind: &str,
    direction: &str,
    phrase: &str,
)
    ensures
        rel_views(final(out)@) == rel_views(old(out)@) + part_if(
            cond,
            from@,
            views(targets@),
            kind@,
            direction@,
            phrase@,
        ),
{
    if cond {
        push_rels(out, from, targets, kind, direction, phrase);
    } else {
        assert(rel_views(out@) =~= rel_views(out@) + Seq::empty());
    }
}

fn push_blocks(
    out: &mut Vec<IssueRelationship>,
    from_issue: &str,
    links: &IssueLinks,
    params: &IssueRelationshipsParams,
)
    ensures
        rel_views(final(out)@) == rel_views(old(out)@) + blocks_part(from_issue@, *links, *params),
{
    let ghost v0 = rel_views(out@);
    if params.include_blocks {
        push_rels(out, from_issue, &links.blocks, "blocks", "outward", " blocks ");
        let ghost v1 = rel_views(out@);
        push_rels(out, from_issue, &links.blocked_by, "blocked_by", "inward", " is blocked by ");
        assert(rel_views(out@) =~= v0 + blocks_part(from_issue@, *links, *params));
    } else {
        assert(rel_views(out@) =~= v0 + blocks_part(from_issue@, *links, *params));
    }
}

fn push_subtasks(
    out: &mut Vec<IssueRelationship>,
    from_issue: &str,
    links: &IssueLinks,
    params: &IssueRelationshipsParams,
)
    ensures
        rel_views(final(out)@) == rel_views(old(out)@) + subtasks_part(from_issue@, *links, *params),
{
    let ghost v0 = rel_views(out@);
    if params.include_subtasks {
        let parent = opt_vec(&links.parent);
        push_rels(out, from_issue, &parent, "parent", "inward", " is subtask of ");
        push_rels(out, from_issue, &links.children, "subtask", "outward", " has subtask ");
        assert(rel_views(out@) =~= v0 + subtasks_part(from_issue@, *links, *params));
    } else {
        assert(rel_views(out@) =~= v0 + subtasks_part(from_issue@, *links, *params));
    }
}

fn push_standard(
    out: &mut Vec<IssueRelationship>,
    from_issue: &str,
    links: &IssueLinks,
    params: &IssueRelationshipsParams,
)
    ensures
        rel_views(final(out)@) == rel_views(old(out)@) + standard_rels(from_issue@, *links, *params),
{
    let ghost v0 = rel_views(out@);
    push_blocks(out, from_issue, links, params);
    push_if(
        out,
        params.include_relates,
        from_issue,
        &links.relates_to,
        "relates_to",
        "outward",
        " relates to ",
    );
    push_if(
        out,
        params.include_duplicates,
        from_issue,
        &links.duplicates,
        "duplicates",
        "outward",
        " duplicates ",
    );
    push_subtasks(out, from_issue, links, params);
    let epic = opt_vec(&links.epic);
    push_if(out, params.include_epic_links, from_issue, &epic, "epic", "inward", " is in epic ");
    assert(rel_views(out@) =~= v0 + standard_rels(from_issue@, *links, *params));
}

/// Add the relationships an issue contributes, in order.
pub fn add_relationships(
    from_issue: &str,
    links: &IssueLinks,
    params: &IssueRelationshipsParams,
    relationships: &mut Vec<IssueRelationship>,
)
    ensures
        rel_views(final(relationships)@) == rel_views(old(relationships)@) + spec_issue_rels(
            from_issue@,
            *links,
            *params,
        ),
{
    let ghost start = rel_views(relationships@);
    push_standard(relationships, from_issue, links, params);
    let ghost after_standard = rel_views(relationships@);
    let mut i: usize = 0;
    while i < links.custom.len()
        invariant
            i <= links.custom@.len(),
            rel_views(relationships@) == after_standard + custom_rels(
                from_issue@,
                links.custom@.subrange(0, i as int),
            ),
        decreases links.custom@.len() - i,
    {
        let (kind, targets) = &links.custom[i];
        let mut phrase = owned(" ");
        phrase.append(kind.as_str());
        phrase.append(" ");
        push_rels(relationships, from_issue, targets, kind.as_str(), "outward", phrase.as_str());
        let ghost next = links.custom@.subrange(0, i + 1);
        assert(next.drop_last() =~= links.custom@.subrange(0, i as int));
        assert(next.last() == links.custom@[i as int]);
        assert(rel_views(relationships@) =~= after_standard + custom_rels(from_issue@, next));
        i = i + 1;
    }
    assert(links.custom@.subrange(0, links.custom@.len() as int) =~= links.custom@);
    assert(rel_views(relationships@) =~= start + spec_issue_rels(from_issue@, *links, *params));
}

/// The depth of an issue in the graph: 0 for the root, else the number of
/// links on the path found to it from the root (the path lists the root
/// and the issue), else the greatest depth asked for when no path is found.
pub fn node_depth(is_root: bool, path_len: Option<usize>, max_depth: u32) -> (r: u32)
    requires
        path_len matches Some(n) ==> n >= 1,
    ensures
        r == if is_root {
            0
        } else {
            match path_len {
                Some(n) => (n - 1) as u32,
                None => max_depth,
            }
        },
{
    if is_root {
        0
    } else {
        match path_len {
            Some(n) => (n - 1) as u32,
            None => max_depth,
        }
    }
}

/// The node of an issue at a depth of the graph.
pub fn issue_node(info: &IssueInfo, depth: u32) -> (r: IssueNode)
    ensures
        r.key@ == info.key@,
        r.summary@ == info.summary@,
        r.issue_type@ == info.issue_type@,
        r.status@ == info.status@,
        opt_view(r.priority) == opt_view(info.priority),
        opt_view(r.assignee) == opt_view(info.assignee),
        r.project_key@ == info.project_key@,
        r.depth == depth,
{
    IssueNode {
        key: info.key.clone(),
        summary: info.summary.clone(),
        issue_type: info.issue_type.clone(),
        status: info.status.clone(),
        priority: crate::text::clone_opt(&info.priority),
        assignee: crate::text::clone_opt(&info.assignee),
        project_key: info.project_key.clone(),
        depth,
    }
}

// ---------------------------------------------------------------------------
// Counting

/// How many times `k` occurs.
pub open spec fn occurrences<K>(s: Seq<K>, k: K) -> nat
    decreases s.len(),
{
    if s.len() == 0 {
        0
    } else {
        occurrences(s.drop_last(), k) + if s.last() == k {
            1nat
        } else {
            0nat
        }
    }
}

/// A table that counts the items of `s`: each key once, each with its
/// number of occurrences, and every item a key.
pub open spec fn counts<K>(table: Seq<(K, nat)>, s: Seq<K>) -> bool {
    &&& forall|i: int, j: int| 0 <= i < j < table.len() ==> table[i].0 != table[j].0
    &&& forall|i: int| 0 <= i < table.len() ==> #[trigger] table[i].1 == occurrences(s, table[i].0)
    &&& forall|k: K| #[trigger] occurrences(s, k) > 0 ==> exists|i: int| 0 <= i < table.len() && table[i].0 == k
}

/// The depths of the nodes.
pub open spec fn depths(nodes: Seq<IssueNode>) -> Seq<u32> {
    nodes.map_values(|n: IssueNode| n.depth)
}

/// The types of the relationships.
pub open spec fn types_of(rels: Seq<IssueRelationship>) -> Seq<Seq<char>> {
    rels.map_values(|r: IssueRelationship| r.relationship_type@)
}

/// The plain view of a table of counts by depth.
pub open spec fn depth_table(t: Seq<(u32, usize)>) -> Seq<(u32, nat)> {
    t.map_values(|p: (u32, usize)| (p.0, p.1 as nat))
}

/// The plain view of a table of counts by type.
pub open spec fn type_table(t: Seq<(String, usize)>) -> Seq<(Seq<char>, nat)> {
    t.map_values(|p: (String, usize)| (p.0@, p.1 as nat))
}

proof fn lemma_count_step<K>(
    before: Seq<(K, nat)>,
    after: Seq<(K, nat)>,
    pre: Seq<K>,
    x: K,
    found: Option<int>,
)
    requires
        counts(before, pre),
        match found {
            Some(k) => 0 <= k < before.len() && before[k].0 == x && after == before.update(
                k,
                (x, before[k].1 + 1),
            ),
            None => (forall|j: int| 0 <= j < before.len() ==> before[j].0 != x) && after
                == before.push((x, 1nat)),
        },
    ensures
        counts(after, pre.push(x)),
{
    let next = pre.push(x);
    assert(next.drop_last() =~= pre);
    assert(next.last() == x);
    assert forall|a: int| 0 <= a < after.len() implies #[trigger] after[a].1 == occurrences(
        next,
        after[a].0,
    ) by {
        let y = after[a].0;
        assert(occurrences(next, y) == occurrences(pre, y) + if x == y {
            1nat
        } else {
            0nat
        });
        match found {
            Some(k) => {
                assert(before[a].1 == occurrences(pre, before[a].0));
                if a != k {
                    assert(before[a].0 != before[k].0);
                }
            },
            None => {
                if a < before.len() {
                    assert(before[a].1 == occurrences(pre, before[a].0));
                    assert(before[a].0 != x);
                } else {
                    if occurrences(pre, x) > 0 {
                        let i = choose|i: int| 0 <= i < before.len() && before[i].0 == x;
                        assert(before[i].0 != x);
                    }
                }
            },
        }
    }
    assert forall|y: K| #[trigger] occurrences(next, y) > 0 implies exists|a: int|
        0 <= a < after.len() && after[a].0 == y by {
        if y == x {
            match found {
                Some(k) => assert(after[k].0 == y),
                None => assert(after[after.len() - 1].0 == y),
            }
        } else {
            assert(occurrences(pre, y) > 0);
            let a = choose|a: int| 0 <= a < before.len() && before[a].0 == y;
            assert(after[a].0 == y);
        }
    }
    assert forall|a: int, b: int| 0 <= a < b < after.len() implies after[a].0 != after[b].0 by {
        if b < before.len() {
            assert(before[a].0 == after[a].0 && before[b].0 == after[b].0);
        }
    }
}

proof fn lemma_count_bound<K>(t: Seq<(K, nat)>, s: Seq<K>, i: int)
    requires
        counts(t, s),
        0 <= i < t.len(),
    ensures
        t[i].1 <= s.len(),
{
    lemma_occurrences_bound(s, t[i].0);
}

proof fn lemma_occurrences_bound<K>(s: Seq<K>, k: K)
    ensures
        occurrences(s, k) <= s.len(),
    decreases s.len(),
{
    if s.len() > 0 {
        lemma_occurrences_bound(s.drop_last(), k);
    }
}

fn find_depth(table: &Vec<(u32, usize)>, d: u32) -> (k: usize)
    ensures
        k <= table@.len(),
        k < table@.len() ==> table@[k as int].0 == d,
        k == table@.len() ==> forall|j: int| 0 <= j < table@.len() ==> table@[j].0 != d,
{
    let mut k: usize = 0;
    while k < table.len()
        invariant
            k <= table@.len(),
            forall|j: int| 0 <= j < k ==> table@[j].0 != d,
        decreases table@.len() - k,
    {
        if table[k].0 == d {
            return k;
        }
        k = k + 1;
    }
    k
}

fn find_type(table: &Vec<(String, usize)>, t: &str) -> (k: usize)
    ensures
        k <= table@.len(),
        k < table@.len() ==> table@[k as int].0@ == t@,
        k == table@.len() ==> forall|j: int| 0 <= j < table@.len() ==> table@[j].0@ != t@,
{
    let mut k: usize = 0;
    while k < table.len()
        invariant
            k <= table@.len(),
            forall|j: int| 0 <= j < k ==> table@[j].0@ != t@,
        decreases table@.len() - k,
    {
        if str_eq(table[k].0.as_str(), t) {
            return k;
        }
        k = k + 1;
    }
    k
}

/// The counts of nodes by depth, in the order the depths first occur.
pub fn count_by_depth(nodes: &Vec<IssueNode>) -> (r: Vec<(u32, usize)>)
    ensures
        counts(depth_table(r@), depths(nodes@)),
{
    let ghost ds = depths(nodes@);
    let mut table: Vec<(u32, usize)> = Vec::new();
    let mut i: usize = 0;
    while i < nodes.len()
        invariant
            i <= nodes@.len(),
            ds == depths(nodes@),
            counts(depth_table(table@), ds.subrange(0, i as int)),
        decreases nodes@.len() - i,
    {
        let d = nodes[i].depth;
        let ghost pre = ds.subrange(0, i as int);
        assert(ds.subrange(0, i + 1) =~= pre.push(d));
        let ghost before = depth_table(table@);
        let k = find_depth(&table, d);
        if k < table.len() {
            let (key, c) = table[k];
            proof {
                lemma_count_bound(before, pre, k as int);
            }
            table.set(k, (key, c + 1));
            proof {
                assert(depth_table(table@) =~= before.update(k as int, (d, before[k as int].1 + 1)));
                lemma_count_step(before, depth_table(table@), pre, d, Some(k as int));
            }
        } else {
            table.push((d, 1));
            proof {
                assert(depth_table(table@) =~= before.push((d, 1nat)));
                lemma_count_step(before, depth_table(table@), pre, d, None);
            }
        }
        i = i + 1;
    }
    assert(ds.subrange(0, nodes@.len() as int) =~= ds);
    table
}

/// The counts of relationships by type, in the order the types first
/// occur.
pub fn count_by_type(relationships: &Vec<IssueRelationship>) -> (r: Vec<(String, usize)>)
    ensures
        counts(type_table(r@), types_of(relationships@)),
{
    let ghost ts = types_of(relationships@);
    let mut table: Vec<(String, usize)> = Vec::new();
    let mut i: usize = 0;
    while i < relationships.len()
        invariant
            i <= relationships@.len(),
            ts == types_of(relationships@),
            counts(type_table(table@), ts.subrange(0, i as int)),
        decreases relationships@.len() - i,
    {
        let t = &relationships[i].relationship_type;
        let ghost pre = ts.subrange(0, i as int);
        assert(ts.subrange(0, i + 1) =~= pre.push(t@));
        let ghost before = type_table(table@);
        let k = find_type(&table, t.as_str());
        if k < table.len() {
            let c = table[k].1;
            let key = table[k].0.clone();
            proof {
                lemma_count_bound(before, pre, k as int);
            }
            table.set(k, (key, c + 1));
            proof {
                assert(type_table(table@) =~= before.update(k as int, (t@, before[k as int].1 + 1)));
                lemma_count_step(before, type_table(table@), pre, t@, Some(k as int));
            }
        } else {
            table.push((t.clone(), 1));
            proof {
                assert(type_table(table@) =~= before.push((t@, 1nat)));
                lemma_count_step(before, type_table(table@), pre, t@, None);
            }
        }
        i = i + 1;
    }
    assert(ts.subrange(0, relationships@.len() as int) =~= ts);
    table
}

/// The summary of a graph: its issues and relationships counted, the
/// issues by depth and the relationships by type, and the issues that
/// could not be read.
pub fn relationship_summary(
    nodes: &Vec<IssueNode>,
    relationships: &Vec<IssueRelationship>,
    inaccessible_issues: Vec<String>,
) -> (r: RelationshipSummary)
    ensures
        r.total_issues == nodes@.len(),
        r.total_relationships == relationships@.len(),
        counts(depth_table(r.issues_by_depth@), depths(nodes@)),
        counts(type_table(r.relationships_by_type@), types_of(relationships@)),
        r.inaccessible_issues@ == inaccessible_issues@,
{
    RelationshipSummary {
        total_issues: nodes.len(),
        total_relationships: relationships.len(),
        issues_by_depth: count_by_depth(nodes),
        relationships_by_type: count_by_type(relationships),
        inaccessible_issues,
    }
}

/// Blocking links are reported the right way round, first of an issue's
/// relationships when they are asked for: each issue it blocks as a
/// "blocks" relationship, outward, "<from> blocks <to>"; after them each
/// issue it is blocked by as a "blocked_by" relationship, inward,
/// "<from> is blocked by <to>".
pub proof fn law_blocking_direction(from: Seq<char>, l: IssueLinks, p: IssueRelationshipsParams)
    requires
        p.include_blocks,
    ensures
        ({
            let b = views(l.blocks@);
            let d = views(l.blocked_by@);
            let r = spec_issue_rels(from, l, p);
            &&& r.len() >= b.len() + d.len()
            &&& forall|j: int|
                0 <= j < b.len() ==> #[trigger] r[j] == (
                    from,
                    b[j],
                    "blocks"@,
                    "outward"@,
                    Some(from + " blocks "@ + b[j]),
                )
            &&& forall|j: int|
                0 <= j < d.len() ==> #[trigger] r[b.len() + j] == (
                    from,
                    d[j],
                    "blocked_by"@,
                    "inward"@,
                    Some(from + " is blocked by "@ + d[j]),
                )
        }),
{
    let b = views(l.blocks@);
    let d = views(l.blocked_by@);
    let r = spec_issue_rels(from, l, p);
    let bp = blocks_part(from, l, p);
    let rb = rels_to(from, b, "blocks"@, "outward"@, " blocks "@);
    let rd = rels_to(from, d, "blocked_by"@, "inward"@, " is blocked by "@);
    assert(bp == rb + rd);
    let rest = part_if(
        p.include_relates,
        from,
        views(l.relates_to@),
        "relates_to"@,
        "outward"@,
        " relates to "@,
    ) + part_if(
        p.include_duplicates,
        from,
        views(l.duplicates@),
        "duplicates"@,
        "outward"@,
        " duplicates "@,
    ) + subtasks_part(from, l, p) + part_if(
        p.include_epic_links,
        from,
        opt_targets(l.epic),
        "epic"@,
        "inward"@,
        " is in epic "@,
    ) + custom_rels(from, l.custom@);
    assert(r =~= bp + rest);
    assert forall|j: int| 0 <= j < b.len() implies #[trigger] r[j] == (
        from,
        b[j],
        "blocks"@,
        "outward"@,
        Some(from + " blocks "@ + b[j]),
    ) by {
        assert(r[j] == bp[j]);
        assert(bp[j] == rb[j]);
    }
    assert forall|j: int| 0 <= j < d.len() implies #[trigger] r[b.len() + j] == (
        from,
        d[j],
        "blocked_by"@,
        "inward"@,
        Some(from + " is blocked by "@ + d[j]),
    ) by {
        assert(r[b.len() + j] == bp[b.len() + j]);
        assert(bp[b.len() + j] == rd[j]);
    }
}

} // verus!
