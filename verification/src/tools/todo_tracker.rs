//! Todos kept as markdown checkboxes in issue descriptions, with tracking
//! of the time worked on each.
//!
//! A todo is a line of the description that, trimmed, starts with `- [`
//! or `* [` and has text after the first `]`. Work sessions are kept per
//! issue and todo; the time between starting and ending a session is
//! what gets logged.

use crate::clock::{format_long_date_time, format_rfc3339, long_date_time_text, rfc3339_text};
use crate::error::{JiraMcpError, JiraMcpResult};
use crate::jira_client::WorklogInfo;
use crate::text::{
    char_views, chars_of, clone_opt, opt_view, contains_seq, decimal_seq, decimal_string, find_char, hex_seq,
    hex_string, index_of_char, is_blank, is_blank_seq, join, join_seq, lines_of, lines_seq,
    lowercase, parse_unsigned, parse_unsigned_seq, push_char, replace_seq, starts_with_seq,
    str_contains, str_eq, str_replace, str_starts_with, string_from_chars, string_from_range, to_lowercase, trim,
    trim_bounds, trim_seq, views, plain_line, plain_lines, tidy_lines, lemma_tidy_lines_plain,
    lemma_lines_of_join, lemma_replace_same_length, between_brackets, bracketed, is_white_space,
    lemma_replace_bracketed, lemma_trim_shape, lemma_index_of_char_same, occurs_at, lemma_trim_at,
    lemma_index_of_char_at,
};
use std::hash::{Hash, Hasher};
use vstd::prelude::*;

verus! {

/// Todo status for filtering
#[derive(Debug, Clone, Copy, PartialEq, Eq, Structural)]
pub enum TodoStatus {
    /// Open/incomplete todos
    Open,
    /// Completed/checked todos
    Completed,
    /// Work in progress (has active work session)
    Wip,
}

/// A todo item extracted from or to be added to an issue description
#[derive(Debug, Clone)]
pub struct TodoItem {
    /// The todo text content
    pub text: String,
    /// Whether the todo is completed (checked)
    pub completed: bool,
    /// Current status (open, completed, or wip)
    pub status: TodoStatus,
    /// Line number in the description (0-based)
    pub line_number: usize,
    /// Unique ID for tracking (generated from content hash)
    pub id: String,
}

/// The plain view of a todo item.
pub struct TodoView {
    pub text: Seq<char>,
    pub completed: bool,
    pub status: TodoStatus,
    pub line_number: int,
    pub id: Seq<char>,
}

impl View for TodoItem {
    type V = TodoView;

    open spec fn view(&self) -> TodoView {
        TodoView {
            text: self.text@,
            completed: self.completed,
            status: self.status,
            line_number: self.line_number as int,
            id: self.id@,
        }
    }
}

impl TodoItem {
    /// A copy of the todo.
    pub fn duplicate(&self) -> (r: Self)
        ensures
            r@ == self@,
    {
        TodoItem {
            text: self.text.clone(),
            completed: self.completed,
            status: self.status,
            line_number: self.line_number,
            id: self.id.clone(),
        }
    }
}

pub open spec fn todo_views(v: Seq<TodoItem>) -> Seq<TodoView> {
    v.map_values(|t: TodoItem| t@)
}

fn owned(s: &str) -> (r: String)
    ensures
        r@ == s@,
{
    s.to_owned()
}

// ---------------------------------------------------------------------------
// Recognising todo lines

/// The text of a checkbox line (already trimmed), when it is one: the
/// line starts with `- [` or `* [`, and the trimmed text after its first
/// `]` is not empty.
pub open spec fn spec_checkbox_text(line: Seq<char>) -> Option<Seq<char>> {
    if starts_with_seq(line, "- ["@) || starts_with_seq(line, "* ["@) {
        let k = index_of_char(line, ']');
        if k >= 0 && k + 1 < line.len() {
            let text = trim_seq(line.subrange(k + 1, line.len() as int));
            if text.len() > 0 {
                Some(text)
            } else {
                None
            }
        } else {
            None
        }
    } else {
        None
    }
}

/// Parse a single checkbox line
pub fn parse_checkbox_line(line: &str) -> (r: Option<String>)
    ensures
        match spec_checkbox_text(line@) {
            Some(t) => r matches Some(x) && x@ == t,
            None => r is None,
        },
{
    if str_starts_with(line, "- [") || str_starts_with(line, "* [") {
        let cs = chars_of(line);
        if let Some(k) = find_char(cs.as_slice(), ']') {
            if k < cs.len() - 1 {
                let mut rest: Vec<char> = Vec::new();
                let mut i: usize = k + 1;
                while i < cs.len()
                    invariant
                        k + 1 <= i <= cs@.len(),
                        rest@ == cs@.subrange(k + 1, i as int),
                    decreases cs@.len() - i,
                {
                    rest.push(cs[i]);
                    i = i + 1;
                    assert(rest@ =~= cs@.subrange(k + 1, i as int));
                }
                let (a, b) = trim_bounds(rest.as_slice());
                if a < b {
                    let text = string_from_range(rest.as_slice(), a, b);
                    return Some(text);
                }
            }
        }
    }
    None
}

/// A completed todo's trimmed line holds `[x]` or `[X]`.
pub open spec fn spec_is_checked(trimmed: Seq<char>) -> bool {
    contains_seq(trimmed, "[x]"@) || contains_seq(trimmed, "[X]"@)
}

/// The hash of a todo's text and line number, as `DefaultHasher` computes
/// it from the text and then the line number.
pub uninterp spec fn todo_hash(text: Seq<char>, line: usize) -> u64;

/// `DefaultHasher::new()` fed with `text` and then `line_num`, finished.
/// Claimed: the result is the name `todo_hash(text@, line_num)`, a
/// function of the two values alone (the hasher's keys are fixed).
#[verifier::external_body]
fn hash_text_and_line(text: &str, line_num: usize) -> (r: u64)
    ensures
        r == todo_hash(text@, line_num),
{
    let mut hasher = std::collections::hash_map::DefaultHasher::new();
    text.hash(&mut hasher);
    line_num.hash(&mut hasher);
    hasher.finish()
}

/// The ID of a todo: `todo-` and the hash of its text and line in
/// lower-case hexadecimal.
pub open spec fn spec_todo_id(text: Seq<char>, line: usize) -> Seq<char> {
    "todo-"@ + hex_seq(todo_hash(text, line) as nat)
}

/// Generate a unique ID for a todo
pub fn generate_todo_id(text: &str, line_num: usize) -> (r: String)
    ensures
        r@ == spec_todo_id(text@, line_num),
{
    let h = hash_text_and_line(text, line_num);
    let mut out = owned("todo-");
    let hx = hex_string(h);
    out.append(hx.as_str());
    out
}

/// The key of a work session: the issue key, a colon and the todo ID.
pub open spec fn session_key(issue_key: Seq<char>, todo_id: Seq<char>) -> Seq<char> {
    issue_key + ":"@ + todo_id
}

/// `after` is `before` with a session for the todo of the issue,
/// started at `now`, added at the end.
pub open spec fn spec_started(
    before: Seq<WorkSession>,
    after: Seq<WorkSession>,
    issue_key: Seq<char>,
    todo_id: Seq<char>,
    todo_text: Seq<char>,
    now: i64,
) -> bool {
    &&& after.len() == before.len() + 1
    &&& after.drop_last() == before
    &&& after.last().issue_key@ == issue_key
    &&& after.last().todo_id@ == todo_id
    &&& after.last().todo_text@ == todo_text
    &&& after.last().started_at == now
}

/// `after` is `before` without `s`, the session with this key.
pub open spec fn spec_ended(
    before: Seq<WorkSession>,
    after: Seq<WorkSession>,
    key: Seq<char>,
    s: WorkSession,
) -> bool {
    &&& key_of(s) == key
    &&& exists|i: int| 0 <= i < before.len() && #[trigger] before[i] == s && after == before.remove(i)
}

/// `after` is `before` with `s`, the session with this key, started
/// again at `now` in its place.
pub open spec fn spec_restarted(
    before: Seq<WorkSession>,
    after: Seq<WorkSession>,
    key: Seq<char>,
    s: WorkSession,
    now: i64,
) -> bool {
    &&& key_of(s) == key
    &&& exists|i: int|
        0 <= i < before.len() && #[trigger] before[i] == s && after.len() == before.len() && (
        forall|j: int| 0 <= j < before.len() && j != i ==> after[j] == before[j]) && key_of(after[i])
            == key && after[i].todo_text@ == s.todo_text@ && after[i].started_at == now
}

/// Work tracking entry
#[derive(Debug, Clone)]
pub struct WorkSession {
    pub issue_key: String,
    pub todo_id: String,
    pub todo_text: String,
    /// Nanoseconds since the Unix epoch when work started.
    pub started_at: i64,
}

/// The active work sessions, at most one per issue and todo.
#[derive(Debug)]
pub struct WorkSessions {
    sessions: Vec<WorkSession>,
}

pub open spec fn key_of(s: WorkSession) -> Seq<char> {
    session_key(s.issue_key@, s.todo_id@)
}

impl WorkSessions {
    /// The sessions, in the order they were started.
    pub closed spec fn list(&self) -> Seq<WorkSession> {
        self.sessions@
    }

    /// No two sessions have the same key.
    pub closed spec fn wf(&self) -> bool {
        forall|i: int, j: int|
            0 <= i < j < self.sessions@.len() ==> key_of(self.sessions@[i]) != key_of(
                self.sessions@[j],
            )
    }

    /// Two sessions at different positions have different keys.
    pub proof fn lemma_keys_distinct(&self, i: int, j: int)
        requires
            self.wf(),
            0 <= i < self.list().len(),
            0 <= j < self.list().len(),
            i != j,
        ensures
            key_of(self.list()[i]) != key_of(self.list()[j]),
    {
    }

    /// Whether a session with this key is active.
    pub open spec fn has_key(&self, key: Seq<char>) -> bool {
        exists|i: int| 0 <= i < self.list().len() && key_of(#[trigger] self.list()[i]) == key
    }

    /// No session is active.
    pub fn new() -> (r: Self)
        ensures
            r.wf(),
            r.list() == Seq::<WorkSession>::empty(),
    {
        WorkSessions { sessions: Vec::new() }
    }

    /// The active sessions.
    pub fn sessions(&self) -> (r: &Vec<WorkSession>)
        ensures
            r@ == self.list(),
    {
        &self.sessions
    }

    fn find(&self, issue_key: &str, todo_id: &str) -> (r: Option<usize>)
        ensures
            r matches Some(i) ==> i < self.list().len() && key_of(self.list()[i as int])
                == session_key(issue_key@, todo_id@),
            r is None ==> !self.has_key(session_key(issue_key@, todo_id@)),
    {
        let key = session_key_string(issue_key, todo_id);
        let mut i: usize = 0;
        while i < self.sessions.len()
            invariant
                i <= self.sessions@.len(),
                key@ == session_key(issue_key@, todo_id@),
                forall|j: int| 0 <= j < i ==> key_of(#[trigger] self.sessions@[j]) != key@,
            decreases self.sessions@.len() - i,
        {
            let k = session_key_string(
                self.sessions[i].issue_key.as_str(),
                self.sessions[i].todo_id.as_str(),
            );
            if str_eq(k.as_str(), key.as_str()) {
                return Some(i);
            }
            i = i + 1;
        }
        None
    }

    /// Whether a session is active for this issue and todo.
    pub fn is_active(&self, issue_key: &str, todo_id: &str) -> (r: bool)
        ensures
            r == self.has_key(session_key(issue_key@, todo_id@)),
    {
        self.find(issue_key, todo_id).is_some()
    }

    /// Start a session for the todo of the issue at time `now`; refused
    /// when one is already active for them.
    pub fn start(&mut self, issue_key: &str, todo: &TodoItem, now: i64) -> (r: JiraMcpResult<()>)
        requires
            old(self).wf(),
        ensures
            final(self).wf(),
            old(self).has_key(session_key(issue_key@, todo.id@)) ==> (r matches Err(
                JiraMcpError::InvalidParameter { parameter, message },
            ) && parameter@ == "todo_id_or_index"@ && message@
                == "Work session already active for this todo. Complete the existing session first."@
                && final(self).list() == old(self).list()),
            !old(self).has_key(session_key(issue_key@, todo.id@)) ==> r is Ok && spec_started(
                old(self).list(),
                final(self).list(),
                issue_key@,
                todo.id@,
                todo.text@,
                now,
            ),
    {
        if self.find(issue_key, todo.id.as_str()).is_some() {
            return Err(
                JiraMcpError::invalid_param(
                    "todo_id_or_index",
                    "Work session already active for this todo. Complete the existing session first.",
                ),
            );
        }
        let session = WorkSession {
            issue_key: owned(issue_key),
            todo_id: todo.id.clone(),
            todo_text: todo.text.clone(),
            started_at: now,
        };
        let ghost old_list = self.sessions@;
        self.sessions.push(session);
        proof {
            let s = self.sessions@;
            assert(s.drop_last() =~= old_list);
            assert forall|i: int, j: int| 0 <= i < j < s.len() implies key_of(s[i]) != key_of(
                s[j],
            ) by {
                if j == s.len() - 1 {
                    assert(old_list[i] == s[i]);
                    if key_of(s[i]) == key_of(s[j]) {
                        assert(old(self).list()[i] == s[i]);
                        assert(key_of(old(self).list()[i]) == session_key(issue_key@, todo.id@));
                        assert(old(self).has_key(session_key(issue_key@, todo.id@)));
                    }
                } else {
                    assert(old_list[i] == s[i] && old_list[j] == s[j]);
                }
            }
        }
        Ok(())
    }

    /// End the session of the todo of the issue and hand it back; refused
    /// with `missing_message` when none is active.
    pub fn take(&mut self, issue_key: &str, todo_id: &str, missing_message: &str) -> (r:
        JiraMcpResult<WorkSession>)
        requires
            old(self).wf(),
        ensures
            final(self).wf(),
            !old(self).has_key(session_key(issue_key@, todo_id@)) ==> (r matches Err(
                JiraMcpError::InvalidParameter { parameter, message },
            ) && parameter@ == "todo_id_or_index"@ && message@ == missing_message@ && final(self).list() == old(self).list()),
            old(self).has_key(session_key(issue_key@, todo_id@)) ==> (r matches Ok(s)
                && spec_ended(old(self).list(), final(self).list(), session_key(issue_key@, todo_id@), s)
                && !final(self).has_key(session_key(issue_key@, todo_id@))),
    {
        match self.find(issue_key, todo_id) {
            None => Err(JiraMcpError::invalid_param("todo_id_or_index", missing_message)),
            Some(i) => {
                let ghost old_list = self.sessions@;
                let s = self.sessions.remove(i);
                proof {
                    let t = self.sessions@;
                    assert(t =~= old_list.remove(i as int));
                    assert forall|a: int, b: int| 0 <= a < b < t.len() implies key_of(t[a])
                        != key_of(t[b]) by {
                        let a2 = if a < i { a } else { a + 1 };
                        let b2 = if b < i { b } else { b + 1 };
                        assert(t[a] == old_list[a2] && t[b] == old_list[b2]);
                    }
                    if self.has_key(session_key(issue_key@, todo_id@)) {
                        let j = choose|j: int|
                            0 <= j < t.len() && key_of(#[trigger] t[j]) == session_key(
                                issue_key@,
                                todo_id@,
                            );
                        let j2 = if j < i { j } else { j + 1 };
                        assert(t[j] == old_list[j2]);
                        assert(key_of(old_list[i as int]) == session_key(issue_key@, todo_id@));
                    }
                }
                Ok(s)
            },
        }
    }
}

impl WorkSessions {
    /// Start the session of the todo of the issue again at time `now`,
    /// keeping its place; refused with `missing_message` when none is
    /// active. Hands back the session as it was.
    pub fn restart(&mut self, issue_key: &str, todo_id: &str, now: i64, missing_message: &str) -> (r:
        JiraMcpResult<WorkSession>)
        requires
            old(self).wf(),
        ensures
            final(self).wf(),
            !old(self).has_key(session_key(issue_key@, todo_id@)) ==> (r matches Err(
                JiraMcpError::InvalidParameter { parameter, message },
            ) && parameter@ == "todo_id_or_index"@ && message@ == missing_message@
                && final(self).list() == old(self).list()),
            old(self).has_key(session_key(issue_key@, todo_id@)) ==> (r matches Ok(s)
                && spec_restarted(old(self).list(), final(self).list(), session_key(issue_key@, todo_id@), s, now)),
    {
        match self.find(issue_key, todo_id) {
            None => Err(JiraMcpError::invalid_param("todo_id_or_index", missing_message)),
            Some(i) => {
                let ghost old_list = self.sessions@;
                let s = self.sessions.remove(i);
                let again = WorkSession {
                    issue_key: s.issue_key.clone(),
                    todo_id: s.todo_id.clone(),
                    todo_text: s.todo_text.clone(),
                    started_at: now,
                };
                self.sessions.insert(i, again);
                proof {
                    let t = self.sessions@;
                    assert(t =~= old_list.update(i as int, t[i as int]));
                    assert forall|a: int, b: int| 0 <= a < b < t.len() implies key_of(t[a])
                        != key_of(t[b]) by {
                        assert(key_of(t[a]) == key_of(old_list[a]));
                        assert(key_of(t[b]) == key_of(old_list[b]));
                    }
                }
                Ok(s)
            },
        }
    }
}

/// The key of a work session, built.
pub fn session_key_string(issue_key: &str, todo_id: &str) -> (r: String)
    ensures
        r@ == session_key(issue_key@, todo_id@),
{
    let mut s = owned(issue_key);
    s.append(":");
    s.append(todo_id);
    s
}


// ---------------------------------------------------------------------------
// Reading todos from a description

/// The todo that line `i` of a description holds, if it holds one.
pub open spec fn todo_from_line(
    line: Seq<char>,
    i: int,
    issue_key: Seq<char>,
    sessions: WorkSessions,
) -> Option<TodoView> {
    let t = trim_seq(line);
    match spec_checkbox_text(t) {
        Some(text) => {
            let completed = spec_is_checked(t);
            let id = spec_todo_id(text, i as usize);
            let status = if sessions.has_key(session_key(issue_key, id)) {
                TodoStatus::Wip
            } else if completed {
                TodoStatus::Completed
            } else {
                TodoStatus::Open
            };
            Some(TodoView { text, completed, status, line_number: i, id })
        },
        None => None,
    }
}

/// The todos of the lines, in order.
pub open spec fn todos_of(lines: Seq<Seq<char>>, issue_key: Seq<char>, sessions: WorkSessions) -> Seq<
    TodoView,
>
    decreases lines.len(),
{
    if lines.len() == 0 {
        Seq::empty()
    } else {
        let rest = todos_of(lines.drop_last(), issue_key, sessions);
        match todo_from_line(lines.last(), lines.len() - 1, issue_key, sessions) {
            Some(t) => rest.push(t),
            None => rest,
        }
    }
}

/// Parse markdown checkboxes from description with status detection
pub fn parse_todos_with_status(description: &str, issue_key: &str, sessions: &WorkSessions) -> (r:
    Vec<TodoItem>)
    requires
        sessions.wf(),
    ensures
        todo_views(r@) == todos_of(lines_seq(description@), issue_key@, *sessions),
{
    let cs = chars_of(description);
    let lines = lines_of(cs.as_slice());
    let ghost ls = lines_seq(description@);
    let mut todos: Vec<TodoItem> = Vec::new();
    let mut i: usize = 0;
    while i < lines.len()
        invariant
            i <= lines@.len(),
            lines@.len() == ls.len(),
            ls == lines_seq(description@),
            sessions.wf(),
            forall|k: int| 0 <= k < lines@.len() ==> #[trigger] lines@[k]@ == ls[k],
            todo_views(todos@) == todos_of(ls.subrange(0, i as int), issue_key@, *sessions),
        decreases lines@.len() - i,
    {
        let line = string_from_chars(lines[i].as_slice());
        let trimmed = trim(line.as_str());
        let ghost pre = ls.subrange(0, i as int);
        let ghost next = ls.subrange(0, i + 1);
        assert(next.drop_last() =~= pre);
        assert(next.last() == lines@[i as int]@);
        if let Some(todo_text) = parse_checkbox_line(trimmed.as_str()) {
            let completed = str_contains(trimmed.as_str(), "[x]") || str_contains(
                trimmed.as_str(),
                "[X]",
            );
            let id = generate_todo_id(todo_text.as_str(), i);
            let status = if sessions.is_active(issue_key, id.as_str()) {
                TodoStatus::Wip
            } else if completed {
                TodoStatus::Completed
            } else {
                TodoStatus::Open
            };
            let item = TodoItem { text: todo_text, completed, status, line_number: i, id };
            let ghost before = todo_views(todos@);
            todos.push(item);
            assert(todo_views(todos@) =~= before.push(item@));
        }
        i = i + 1;
    }
    assert(ls.subrange(0, ls.len() as int) =~= ls);
    todos
}

// ---------------------------------------------------------------------------
// Editing descriptions

/// The first position whose element satisfies `p`, or -1.
pub open spec fn first_where(ls: Seq<Seq<char>>, p: spec_fn(Seq<char>) -> bool) -> int
    decreases ls.len(),
{
    if ls.len() == 0 {
        -1
    } else if p(ls[0]) {
        0
    } else {
        let k = first_where(ls.drop_first(), p);
        if k < 0 {
            -1
        } else {
            k + 1
        }
    }
}

/// The last position whose element satisfies `p`, or -1.
pub open spec fn last_where(ls: Seq<Seq<char>>, p: spec_fn(Seq<char>) -> bool) -> int
    decreases ls.len(),
{
    if ls.len() == 0 {
        -1
    } else if p(ls.last()) {
        ls.len() - 1
    } else {
        last_where(ls.drop_last(), p)
    }
}

proof fn lemma_first_where_at(ls: Seq<Seq<char>>, p: spec_fn(Seq<char>) -> bool, k: int)
    requires
        0 <= k < ls.len(),
        p(ls[k]),
        forall|j: int| 0 <= j < k ==> !p(ls[j]),
    ensures
        first_where(ls, p) == k,
    decreases ls.len(),
{
    if k > 0 {
        assert forall|j: int| 0 <= j < k - 1 implies !p(ls.drop_first()[j]) by {
            assert(ls.drop_first()[j] == ls[j + 1]);
        }
        lemma_first_where_at(ls.drop_first(), p, k - 1);
    }
}

proof fn lemma_first_where_none(ls: Seq<Seq<char>>, p: spec_fn(Seq<char>) -> bool)
    requires
        forall|j: int| 0 <= j < ls.len() ==> !p(ls[j]),
    ensures
        first_where(ls, p) == -1,
    decreases ls.len(),
{
    if ls.len() > 0 {
        assert forall|j: int| 0 <= j < ls.len() - 1 implies !p(ls.drop_first()[j]) by {
            assert(ls.drop_first()[j] == ls[j + 1]);
        }
        lemma_first_where_none(ls.drop_first(), p);
    }
}

proof fn lemma_last_where_at(ls: Seq<Seq<char>>, p: spec_fn(Seq<char>) -> bool, k: int)
    requires
        0 <= k < ls.len(),
        p(ls[k]),
        forall|j: int| k < j < ls.len() ==> !p(ls[j]),
    ensures
        last_where(ls, p) == k,
    decreases ls.len(),
{
    if k < ls.len() - 1 {
        lemma_last_where_at(ls.drop_last(), p, k);
    }
}

proof fn lemma_first_where_bounds(ls: Seq<Seq<char>>, p: spec_fn(Seq<char>) -> bool)
    ensures
        -1 <= first_where(ls, p) < ls.len(),
        first_where(ls, p) >= 0 ==> p(ls[first_where(ls, p)]),
    decreases ls.len(),
{
    if ls.len() > 0 && !p(ls[0]) {
        lemma_first_where_bounds(ls.drop_first(), p);
        let k = first_where(ls.drop_first(), p);
        if k >= 0 {
            assert(ls.drop_first()[k] == ls[k + 1]);
        }
    }
}

proof fn lemma_last_where_from(ls: Seq<Seq<char>>, p: spec_fn(Seq<char>) -> bool, k: int)
    requires
        0 <= k < ls.len(),
        p(ls[k]),
    ensures
        k <= last_where(ls, p) < ls.len(),
    decreases ls.len(),
{
    if !p(ls.last()) {
        assert(k < ls.len() - 1);
        assert(ls.drop_last()[k] == ls[k]);
        lemma_last_where_from(ls.drop_last(), p, k);
    }
}

proof fn lemma_skip_blank_bounds(ls: Seq<Seq<char>>, i: int)
    requires
        0 <= i <= ls.len(),
    ensures
        i <= skip_blank_lines(ls, i) <= ls.len(),
    decreases ls.len() - i,
{
    if i < ls.len() && is_blank_seq(ls[i]) {
        lemma_skip_blank_bounds(ls, i + 1);
    }
}

/// A line is a todo line when, trimmed, it is a checkbox with text.
pub open spec fn is_todo_line(l: Seq<char>) -> bool {
    spec_checkbox_text(trim_seq(l)) is Some
}

/// A line heads a todos section when, trimmed and lower-cased, it starts
/// with `## todo` or `# todo`, or is `todos:` or `**todos**`.
pub open spec fn is_todo_header(l: Seq<char>) -> bool {
    let t = lowercase(trim_seq(l));
    starts_with_seq(t, "## todo"@) || starts_with_seq(t, "# todo"@) || t == "todos:"@ || t
        == "**todos**"@
}

/// The first position at or after `i` whose line is not blank.
pub open spec fn skip_blank_lines(ls: Seq<Seq<char>>, i: int) -> int
    decreases ls.len() - i,
{
    if 0 <= i < ls.len() && is_blank_seq(ls[i]) {
        skip_blank_lines(ls, i + 1)
    } else {
        i
    }
}

/// The lines of a description after a todo is added: next to the
/// existing todos (before the first or after the last), else below a
/// todos header (after the blank lines that follow it), else in a new
/// "## Todos" section at the end.
pub open spec fn spec_add_todo_lines(ls: Seq<Seq<char>>, todo_text: Seq<char>, prepend: bool) -> Seq<
    Seq<char>,
> {
    let new_line = "- [ ] "@ + todo_text;
    let f = first_where(ls, |l: Seq<char>| is_todo_line(l));
    let last = last_where(ls, |l: Seq<char>| is_todo_line(l));
    if f >= 0 {
        ls.insert(if prepend { f } else { last + 1 }, new_line)
    } else {
        let h = first_where(ls, |l: Seq<char>| is_todo_header(l));
        if h >= 0 {
            ls.insert(skip_blank_lines(ls, h + 1), new_line)
        } else {
            let base = if ls.len() > 0 && !is_blank_seq(ls.last()) {
                ls.push(Seq::empty())
            } else {
                ls
            };
            base + seq!["## Todos"@, Seq::empty(), new_line]
        }
    }
}

/// The description after a todo is added.
pub open spec fn spec_add_todo(description: Seq<char>, todo_text: Seq<char>, prepend: bool) -> Seq<
    char,
> {
    join_seq(spec_add_todo_lines(lines_seq(description), todo_text, prepend), "\n"@)
}

/// The description's lines as strings.
fn description_lines(description: &str) -> (r: Vec<String>)
    ensures
        views(r@) == lines_seq(description@),
{
    let cs = chars_of(description);
    let lines = lines_of(cs.as_slice());
    let mut out: Vec<String> = Vec::new();
    let mut i: usize = 0;
    while i < lines.len()
        invariant
            i <= lines@.len(),
            lines@.len() == lines_seq(description@).len(),
            forall|k: int| 0 <= k < lines@.len() ==> #[trigger] lines@[k]@ == lines_seq(
                description@,
            )[k],
            views(out@) == lines_seq(description@).subrange(0, i as int),
        decreases lines@.len() - i,
    {
        let s = string_from_chars(lines[i].as_slice());
        let ghost before = views(out@);
        out.push(s);
        assert(views(out@) =~= before.push(s@));
        i = i + 1;
        assert(views(out@) =~= lines_seq(description@).subrange(0, i as int));
    }
    assert(lines_seq(description@).subrange(0, i as int) =~= lines_seq(description@));
    out
}

fn line_is_todo(l: &String) -> (r: bool)
    ensures
        r == is_todo_line(l@),
{
    let t = trim(l.as_str());
    parse_checkbox_line(t.as_str()).is_some()
}

fn line_is_header(l: &String) -> (r: bool)
    ensures
        r == is_todo_header(l@),
{
    let t = trim(l.as_str());
    let lower = to_lowercase(t.as_str());
    let x = lower.as_str();
    str_starts_with(x, "## todo") || str_starts_with(x, "# todo") || str_eq(x, "todos:") || str_eq(
        x,
        "**todos**",
    )
}

/// Add a todo to a description (preserves all existing content)
pub fn add_todo_to_description(description: &str, todo_text: &str, prepend: bool) -> (r: String)
    ensures
        r@ == spec_add_todo(description@, todo_text@, prepend),
{
    let ghost is_todo = |l: Seq<char>| is_todo_line(l);
    let ghost is_header = |l: Seq<char>| is_todo_header(l);
    let mut new_todo_line = owned("- [ ] ");
    new_todo_line.append(todo_text);
    let mut lines = description_lines(description);
    let ghost ls = views(lines@);
    let n = lines.len();
    let mut first: Option<usize> = None;
    let mut last: usize = 0;
    let mut i: usize = 0;
    while i < n
        invariant
            n == lines@.len(),
            ls == views(lines@),
            i <= n,
            is_todo == (|l: Seq<char>| is_todo_line(l)),
            first is None ==> forall|j: int| 0 <= j < i ==> !is_todo(ls[j]),
            first matches Some(f) ==> f < i && is_todo(ls[f as int]) && (forall|j: int|
                0 <= j < f ==> !is_todo(ls[j])) && last < i && f <= last && is_todo(
                ls[last as int],
            ) && (forall|j: int| last < j < i ==> !is_todo(ls[j])),
        decreases n - i,
    {
        assert(ls[i as int] == lines@[i as int]@);
        if line_is_todo(&lines[i]) {
            if first.is_none() {
                first = Some(i);
            }
            last = i;
        }
        i = i + 1;
    }
    if let Some(f) = first {
        proof {
            lemma_first_where_at(ls, is_todo, f as int);
            lemma_last_where_at(ls, is_todo, last as int);
        }
        let pos = if prepend { f } else { last + 1 };
        lines.insert(pos, new_todo_line);
        assert(views(lines@) =~= ls.insert(pos as int, ("- [ ] "@ + todo_text@)));
    } else {
        proof {
            lemma_first_where_none(ls, is_todo);
        }
        let mut h: Option<usize> = None;
        let mut k: usize = 0;
        while k < n && h.is_none()
            invariant
                n == lines@.len(),
                ls == views(lines@),
                k <= n,
                is_header == (|l: Seq<char>| is_todo_header(l)),
                h is None ==> forall|j: int| 0 <= j < k ==> !is_header(ls[j]),
                h matches Some(x) ==> x < n && is_header(ls[x as int]) && forall|j: int|
                    0 <= j < x ==> !is_header(ls[j]),
            decreases n - k,
        {
            assert(ls[k as int] == lines@[k as int]@);
            if line_is_header(&lines[k]) {
                h = Some(k);
            }
            k = k + 1;
        }
        if let Some(hx) = h {
            proof {
                lemma_first_where_at(ls, is_header, hx as int);
            }
            let mut pos = hx + 1;
            while pos < n && is_blank(lines[pos].as_str())
                invariant
                    n == lines@.len(),
                    ls == views(lines@),
                    hx + 1 <= pos <= n,
                    skip_blank_lines(ls, hx + 1) == skip_blank_lines(ls, pos as int),
                decreases n - pos,
            {
                assert(ls[pos as int] == lines@[pos as int]@);
                pos = pos + 1;
            }
            if pos < n {
                assert(ls[pos as int] == lines@[pos as int]@);
            }
            lines.insert(pos, new_todo_line);
            assert(views(lines@) =~= ls.insert(pos as int, ("- [ ] "@ + todo_text@)));
        } else {
            proof {
                lemma_first_where_none(ls, is_header);
            }
            if n > 0 && !is_blank(lines[n - 1].as_str()) {
                lines.push(String::new());
            }
            let ghost base = views(lines@);
            assert(base =~= (if ls.len() > 0 && !is_blank_seq(ls.last()) {
                ls.push(Seq::empty())
            } else {
                ls
            }));
            lines.push(owned("## Todos"));
            lines.push(String::new());
            lines.push(new_todo_line);
            assert(views(lines@) =~= base + seq!["## Todos"@, Seq::empty(), ("- [ ] "@ + todo_text@)]);
        }
    }
    join(&lines, "\n")
}

/// The line with its checkbox ticked (completed) or cleared.
pub open spec fn spec_toggle_line(line: Seq<char>, completed: bool) -> Seq<char> {
    if completed {
        replace_seq(line, "[ ]"@, "[x]"@)
    } else {
        replace_seq(replace_seq(line, "[x]"@, "[ ]"@), "[X]"@, "[ ]"@)
    }
}

/// The description with the checkbox of line `line_number` updated; a
/// line number past the end changes nothing but the line endings.
pub open spec fn spec_update_todo_status(description: Seq<char>, line_number: int, completed: bool) -> Seq<
    char,
> {
    let ls = lines_seq(description);
    let ls2 = if line_number < ls.len() {
        ls.update(line_number, spec_toggle_line(ls[line_number], completed))
    } else {
        ls
    };
    join_seq(ls2, "\n"@)
}

/// Update todo status in description (preserves all existing content)
pub fn update_todo_status(description: &str, line_number: usize, completed: bool) -> (r: String)
    ensures
        r@ == spec_update_todo_status(description@, line_number as int, completed),
{
    proof {
        reveal_strlit("[ ]");
        reveal_strlit("[x]");
        reveal_strlit("[X]");
    }
    let mut lines = description_lines(description);
    let ghost ls = views(lines@);
    if line_number < lines.len() {
        let new_line = if completed {
            str_replace(lines[line_number].as_str(), "[ ]", "[x]")
        } else {
            let a = str_replace(lines[line_number].as_str(), "[x]", "[ ]");
            str_replace(a.as_str(), "[X]", "[ ]")
        };
        assert(ls[line_number as int] == lines@[line_number as int]@);
        lines.set(line_number, new_line);
        assert(views(lines@) =~= ls.update(
            line_number as int,
            spec_toggle_line(ls[line_number as int], completed),
        ));
    }
    join(&lines, "\n")
}

// ---------------------------------------------------------------------------
// Finding a todo and formatting durations

/// The first position of a todo with this ID, or -1.
pub open spec fn id_position(todos: Seq<TodoView>, id: Seq<char>) -> int
    decreases todos.len(),
{
    if todos.len() == 0 {
        -1
    } else if todos[0].id == id {
        0
    } else {
        let k = id_position(todos.drop_first(), id);
        if k < 0 {
            -1
        } else {
            k + 1
        }
    }
}

proof fn lemma_id_position_at(todos: Seq<TodoView>, id: Seq<char>, k: int)
    requires
        0 <= k < todos.len(),
        todos[k].id == id,
        forall|j: int| 0 <= j < k ==> todos[j].id != id,
    ensures
        id_position(todos, id) == k,
    decreases todos.len(),
{
    if k > 0 {
        lemma_id_position_at(todos.drop_first(), id, k - 1);
    }
}

proof fn lemma_id_position_none(todos: Seq<TodoView>, id: Seq<char>)
    requires
        forall|j: int| 0 <= j < todos.len() ==> todos[j].id != id,
    ensures
        id_position(todos, id) == -1,
    decreases todos.len(),
{
    if todos.len() > 0 {
        lemma_id_position_none(todos.drop_first(), id);
    }
}

/// The position a todo reference designates: the first todo with that
/// ID, else a 1-based index within the list.
pub open spec fn spec_todo_index(todos: Seq<TodoView>, id_or_index: Seq<char>) -> Option<int> {
    let k = id_position(todos, id_or_index);
    if k >= 0 {
        Some(k)
    } else {
        match parse_unsigned_seq(id_or_index, usize::MAX as nat) {
            Some(n) => if n > 0 && n <= todos.len() {
                Some(n - 1)
            } else {
                None
            },
            None => None,
        }
    }
}

/// The message for a reference that designates no todo.
pub open spec fn bad_index_message(id_or_index: Seq<char>, count: nat) -> Seq<char> {
    "Invalid todo ID or index: "@ + id_or_index + ". Use a todo ID or 1-based index (1-"@
        + decimal_seq(count) + ")"@
}

/// Resolve a todo ID or 1-based index to an array index
pub fn resolve_todo_index(todos: &[TodoItem], id_or_index: &str) -> (r: JiraMcpResult<usize>)
    ensures
        match spec_todo_index(todo_views(todos@), id_or_index@) {
            Some(k) => r == Ok::<usize, JiraMcpError>(k as usize),
            None => r matches Err(JiraMcpError::InvalidParameter { parameter, message })
                && parameter@ == "todo_id_or_index"@ && message@ == bad_index_message(
                id_or_index@,
                todos@.len(),
            ),
        },
{
    let ghost tv = todo_views(todos@);
    let mut i: usize = 0;
    while i < todos.len()
        invariant
            i <= todos@.len(),
            tv == todo_views(todos@),
            forall|j: int| 0 <= j < i ==> tv[j].id != id_or_index@,
        decreases todos@.len() - i,
    {
        assert(tv[i as int] == todos@[i as int]@);
        if str_eq(todos[i].id.as_str(), id_or_index) {
            proof {
                lemma_id_position_at(tv, id_or_index@, i as int);
            }
            return Ok(i);
        }
        i = i + 1;
    }
    proof {
        lemma_id_position_none(tv, id_or_index@);
    }
    let cs = chars_of(id_or_index);
    if let Some(idx) = parse_unsigned(cs.as_slice(), usize::MAX as u64) {
        if idx > 0 && idx <= todos.len() as u64 {
            return Ok((idx - 1) as usize);
        }
    }
    let mut m = owned("Invalid todo ID or index: ");
    m.append(id_or_index);
    m.append(". Use a todo ID or 1-based index (1-");
    let count = decimal_string(todos.len() as u64);
    m.append(count.as_str());
    m.append(")");
    Err(JiraMcpError::InvalidParameter { parameter: owned("todo_id_or_index"), message: m })
}

/// A duration as "{h}h {m}m" when it reaches an hour, "{m}m" when it
/// reaches a minute, "{s}s" otherwise.
pub open spec fn spec_format_duration(seconds: nat) -> Seq<char> {
    let hours = seconds / 3600;
    let minutes = (seconds % 3600) / 60;
    let secs = seconds % 60;
    if hours > 0 {
        decimal_seq(hours) + "h "@ + decimal_seq(minutes) + "m"@
    } else if minutes > 0 {
        decimal_seq(minutes) + "m"@
    } else {
        decimal_seq(secs) + "s"@
    }
}

/// Format duration in seconds to human-readable format
pub fn format_duration(seconds: u64) -> (r: String)
    ensures
        r@ == spec_format_duration(seconds as nat),
{
    let hours = seconds / 3600;
    let minutes = (seconds % 3600) / 60;
    let secs = seconds % 60;
    if hours > 0 {
        let mut s = decimal_string(hours);
        s.append("h ");
        let m = decimal_string(minutes);
        s.append(m.as_str());
        s.append("m");
        s
    } else if minutes > 0 {
        let mut s = decimal_string(minutes);
        s.append("m");
        s
    } else {
        let mut s = decimal_string(secs);
        s.append("s");
        s
    }
}


// ---------------------------------------------------------------------------
// Time worked

/// Nanoseconds in a day.
pub const NANOS_PER_DAY: i64 = 86_400_000_000_000;

/// The UTC day (days since the Unix epoch, rounded down) of a time in
/// nanoseconds since the epoch.
pub open spec fn utc_day(t: i64) -> int {
    t as int / NANOS_PER_DAY as int
}

/// Whole seconds from `start` to `now`, zero when `now` is not later.
pub open spec fn elapsed_whole_seconds(start: i64, now: i64) -> nat {
    if now > start {
        ((now - start) / 1_000_000_000) as nat
    } else {
        0
    }
}

/// The UTC day of a time given in nanoseconds since the epoch.
pub fn day_of(t: i64) -> (r: i128)
    ensures
        r == utc_day(t),
{
    let d: i128 = NANOS_PER_DAY as i128;
    let k: i128 = 200000;
    let shifted: i128 = t as i128 + d * k;
    let q: i128 = shifted / d;
    proof {
        let ti = t as int;
        let di = NANOS_PER_DAY as int;
        vstd::arithmetic::div_mod::lemma_fundamental_div_mod(ti, di);
        let tq = ti / di;
        let tb = ti % di;
        assert(ti == di * tq + tb);
        assert(0 <= tb < di);
        assert(shifted == di * (tq + 200000) + tb) by (nonlinear_arith)
            requires
                ti == di * tq + tb,
                shifted == ti + di * 200000,
        ;
        vstd::arithmetic::div_mod::lemma_div_multiples_vanish_fancy(tq + 200000, tb, di);
    }
    q - k
}

/// Whole seconds from `start` to `now`, zero when `now` is not later.
pub fn elapsed_seconds_between(start: i64, now: i64) -> (r: u64)
    ensures
        r == elapsed_whole_seconds(start, now),
{
    if now > start {
        let diff: i128 = now as i128 - start as i128;
        let secs: i128 = diff / 1_000_000_000;
        assert(secs <= u64::MAX) by (nonlinear_arith)
            requires
                diff <= 18446744073709551615,
                diff >= 0,
                secs == diff / 1_000_000_000,
        ;
        secs as u64
    } else {
        0
    }
}

/// Seconds in a day.
pub const SECONDS_PER_DAY: u64 = 86400;

/// What completing a work session logs.
#[derive(Debug, Clone, Copy, PartialEq, Eq, Structural)]
pub enum WorkTime {
    /// The seconds to log.
    Logged(u64),
    /// The session spans days and no explicit time was given.
    NeedsExplicitTime { auto_seconds: u64, crosses_day_boundary: bool },
}

/// The explicit time given, seconds taking precedence over minutes over
/// hours (the hours already converted to seconds).
pub open spec fn explicit_time(
    seconds: Option<u64>,
    minutes: Option<u64>,
    hours_as_seconds: Option<u64>,
) -> Option<nat> {
    match seconds {
        Some(s) => Some(s as nat),
        None => match minutes {
            Some(m) => Some((m * 60) as nat),
            None => match hours_as_seconds {
                Some(h) => Some(h as nat),
                None => None,
            },
        },
    }
}

/// The time a finished session logs: the explicit time if given, else the
/// time elapsed, except that a session that crosses a UTC day boundary or
/// lasts more than a day needs an explicit time.
pub open spec fn spec_work_time(
    started_at: i64,
    now: i64,
    seconds: Option<u64>,
    minutes: Option<u64>,
    hours_as_seconds: Option<u64>,
) -> WorkTime {
    let auto = elapsed_whole_seconds(started_at, now);
    let crosses = utc_day(started_at) != utc_day(now);
    let multi = crosses || auto > SECONDS_PER_DAY;
    match explicit_time(seconds, minutes, hours_as_seconds) {
        Some(t) => WorkTime::Logged(t as u64),
        None => if multi {
            WorkTime::NeedsExplicitTime { auto_seconds: auto as u64, crosses_day_boundary: crosses }
        } else {
            WorkTime::Logged(auto as u64)
        },
    }
}

/// Decide what completing a session started at `started_at` logs at
/// `now` (both in nanoseconds since the epoch).
pub fn decide_work_time(
    started_at: i64,
    now: i64,
    seconds: Option<u64>,
    minutes: Option<u64>,
    hours_as_seconds: Option<u64>,
) -> (r: WorkTime)
    requires
        seconds is None && minutes is Some ==> minutes->0 * 60 <= u64::MAX,
    ensures
        r == spec_work_time(started_at, now, seconds, minutes, hours_as_seconds),
{
    let auto = elapsed_seconds_between(started_at, now);
    let crosses = day_of(started_at) != day_of(now);
    let multi = crosses || auto > SECONDS_PER_DAY;
    let explicit: Option<u64> = match seconds {
        Some(s) => Some(s),
        None => match minutes {
            Some(m) => Some(m * 60),
            None => hours_as_seconds,
        },
    };
    match explicit {
        Some(t) => WorkTime::Logged(t),
        None => if multi {
            WorkTime::NeedsExplicitTime { auto_seconds: auto, crosses_day_boundary: crosses }
        } else {
            WorkTime::Logged(auto)
        },
    }
}

/// The message asking for an explicit time for a session that spans
/// days; `started` and `now` are the two times as text.
pub open spec fn spec_multi_day_message(
    crosses_day_boundary: bool,
    started: Seq<char>,
    now: Seq<char>,
    auto_seconds: nat,
    id_or_index: Seq<char>,
) -> Seq<char> {
    let day_info = if crosses_day_boundary {
        "Started "@ + started + " and ending "@ + now
    } else {
        "Started "@ + started
    };
    "Session spans multiple days. "@ + day_info + "\nAuto-calculated time: "@
        + spec_format_duration(auto_seconds)
        + "\n\nPlease provide explicit time worked:\n- Use 'time_spent_hours' (e.g., 8.5 for 8.5 hours)\n- Use 'time_spent_minutes' (e.g., 480 for 8 hours)\n- Use 'time_spent_seconds' for precise control\n\nOr better yet, use 'pause_todo_work' to log partial progress.\n\nExample: {\"todo_id_or_index\": \""@
        + id_or_index + "\", \"time_spent_hours\": 8}"@
}

/// The error for a session that spans days and has no explicit time.
pub fn multi_day_error(
    crosses_day_boundary: bool,
    started: &str,
    now: &str,
    auto_seconds: u64,
    id_or_index: &str,
) -> (r: JiraMcpError)
    ensures
        r matches JiraMcpError::InvalidParameter { parameter, message } && parameter@
            == "time_spent_hours"@ && message@ == spec_multi_day_message(
            crosses_day_boundary,
            started@,
            now@,
            auto_seconds as nat,
            id_or_index@,
        ),
{
    let mut m = owned("Session spans multiple days. ");
    m.append("Started ");
    m.append(started);
    if crosses_day_boundary {
        m.append(" and ending ");
        m.append(now);
    }
    m.append("\nAuto-calculated time: ");
    let d = format_duration(auto_seconds);
    m.append(d.as_str());
    m.append(
        "\n\nPlease provide explicit time worked:\n- Use 'time_spent_hours' (e.g., 8.5 for 8.5 hours)\n- Use 'time_spent_minutes' (e.g., 480 for 8 hours)\n- Use 'time_spent_seconds' for precise control\n\nOr better yet, use 'pause_todo_work' to log partial progress.\n\nExample: {\"todo_id_or_index\": \"",
    );
    m.append(id_or_index);
    m.append("\", \"time_spent_hours\": 8}");
    JiraMcpError::InvalidParameter { parameter: owned("time_spent_hours"), message: m }
}

// ---------------------------------------------------------------------------
// Listing

/// The todos whose status is one of `filters`, in order.
pub open spec fn spec_filter_todos(todos: Seq<TodoView>, filters: Seq<TodoStatus>) -> Seq<TodoView> {
    todos.filter(|t: TodoView| filters.contains(t.status))
}

/// Keep the todos whose status is one of `filters`.
pub fn filter_by_status(todos: Vec<TodoItem>, filters: &[TodoStatus]) -> (r: Vec<TodoItem>)
    ensures
        todo_views(r@) == spec_filter_todos(todo_views(todos@), filters@),
{
    let ghost tv = todo_views(todos@);
    let ghost pred = |t: TodoView| filters@.contains(t.status);
    let mut out: Vec<TodoItem> = Vec::new();
    let mut rest = todos;
    let ghost orig = rest@;
    let n = rest.len();
    let mut i: usize = 0;
    while i < n
        invariant
            n == orig.len(),
            tv == todo_views(orig),
            i <= n,
            pred == (|t: TodoView| filters@.contains(t.status)),
            rest@ == orig.subrange(i as int, n as int),
            todo_views(out@) == todo_views(orig).subrange(0, i as int).filter(pred),
        decreases n - i,
    {
        let item = rest.remove(0);
        assert(item == orig[i as int]);
        let mut keep = false;
        let mut j: usize = 0;
        while j < filters.len()
            invariant
                j <= filters@.len(),
                keep == exists|k: int| 0 <= k < j && filters@[k] == item.status,
            decreases filters@.len() - j,
        {
            if filters[j] == item.status {
                keep = true;
            }
            j = j + 1;
        }
        assert(keep == filters@.contains(item.status));
        let ghost next = todo_views(orig).subrange(0, i + 1);
        assert(next.drop_last() =~= todo_views(orig).subrange(0, i as int));
        assert(next.last() == item@);
        reveal_with_fuel(Seq::<TodoView>::filter, 1);
        if keep {
            let ghost before = todo_views(out@);
            out.push(item);
            assert(todo_views(out@) =~= before.push(item@));
        }
        assert(rest@ =~= orig.subrange(i + 1, n as int));
        i = i + 1;
    }
    assert(todo_views(orig).subrange(0, n as int) =~= todo_views(orig));
    out
}

// ---------------------------------------------------------------------------
// Parameters and results of the todo tools

/// Parameters for setting the base issue
#[derive(Debug, Clone)]
pub struct SetTodoBaseParams {
    /// Issue key to use as base for todo operations
    pub issue_key: String,
}

/// Result of setting the base issue
#[derive(Debug, Clone)]
pub struct SetTodoBaseResult {
    /// The base issue key that was set
    pub base_issue_key: String,
    /// Confirmation message
    pub message: String,
}

/// Parameters for listing todos
#[derive(Debug, Clone)]
pub struct ListTodosParams {
    /// Issue key (optional when a base issue is set)
    pub issue_key: Option<String>,
    /// Only the todos with one of these statuses
    pub status_filter: Option<Vec<TodoStatus>>,
}

/// Result of listing todos
#[derive(Debug, Clone)]
pub struct ListTodosResult {
    /// The todos found
    pub todos: Vec<TodoItem>,
    /// How many todos were found
    pub total_count: usize,
    /// The issue they were read from
    pub issue_key: String,
}

/// Parameters for adding a todo
#[derive(Debug, Clone)]
pub struct AddTodoParams {
    /// Issue key (optional when a base issue is set)
    pub issue_key: Option<String>,
    /// The todo text
    pub todo_text: String,
    /// Add at the beginning of the todo list instead of the end
    pub prepend: bool,
}

/// Result of adding a todo
#[derive(Debug, Clone)]
pub struct AddTodoResult {
    /// The todo that was added
    pub todo: TodoItem,
    /// Confirmation message
    pub message: String,
    /// The description after the change
    pub updated_description: String,
}

/// Parameters for checking or unchecking a todo
#[derive(Debug, Clone)]
pub struct UpdateTodoParams {
    /// Issue key (optional when a base issue is set)
    pub issue_key: Option<String>,
    /// Todo ID or 1-based index
    pub todo_id_or_index: String,
    /// Mark completed (checked) or open (unchecked)
    pub completed: bool,
}

/// Result of updating a todo
#[derive(Debug, Clone)]
pub struct UpdateTodoResult {
    /// The todo after the change
    pub todo: TodoItem,
    /// Confirmation message
    pub message: String,
}

/// Parameters for starting work on a todo
#[derive(Debug, Clone)]
pub struct StartTodoWorkParams {
    /// Issue key (optional when a base issue is set)
    pub issue_key: Option<String>,
    /// Todo ID or 1-based index
    pub todo_id_or_index: String,
}

/// Result of starting work on a todo
#[derive(Debug, Clone)]
pub struct StartTodoWorkResult {
    /// The todo being worked on
    pub todo: TodoItem,
    /// When work started (RFC 3339)
    pub started_at: String,
    /// Confirmation message
    pub message: String,
}

/// Parameters for pausing work on a todo
#[derive(Debug, Clone)]
pub struct PauseTodoWorkParams {
    /// Issue key (optional when a base issue is set)
    pub issue_key: Option<String>,
    /// Todo ID or 1-based index
    pub todo_id_or_index: String,
    /// Comment for the worklog entry
    pub worklog_comment: Option<String>,
}

/// Parameters for logging the time worked so far on a todo while work
/// goes on
#[derive(Debug, Clone)]
pub struct CheckpointTodoWorkParams {
    /// Issue key (optional when a base issue is set)
    pub issue_key: Option<String>,
    /// Todo ID or 1-based index
    pub todo_id_or_index: String,
    /// Comment for the worklog entry
    pub worklog_comment: Option<String>,
}

/// Parameters for canceling work on a todo
#[derive(Debug, Clone)]
pub struct CancelTodoWorkParams {
    /// Issue key (optional when a base issue is set)
    pub issue_key: Option<String>,
    /// Todo ID or 1-based index
    pub todo_id_or_index: String,
}

/// Result of canceling work on a todo
#[derive(Debug, Clone)]
pub struct CancelTodoWorkResult {
    /// The todo whose session was canceled
    pub todo: TodoItem,
    /// The time that was not logged, in seconds
    pub discarded_time_seconds: u64,
    /// Confirmation message
    pub message: String,
}

/// An active work session as reported to the user
#[derive(Debug, Clone)]
pub struct ActiveWorkSession {
    /// Issue key
    pub issue_key: String,
    /// Todo ID
    pub todo_id: String,
    /// Todo text
    pub todo_text: String,
    /// When work started (RFC 3339)
    pub started_at: String,
    /// Time elapsed so far, in seconds
    pub duration_seconds: u64,
    /// Time elapsed so far, formatted
    pub duration_formatted: String,
}

/// Result of listing the active work sessions
#[derive(Debug, Clone)]
pub struct GetActiveWorkSessionsResult {
    /// The active sessions
    pub sessions: Vec<ActiveWorkSession>,
    /// How many there are
    pub total_count: usize,
}

/// The worklog entry that ending a session asks for, with what the tool
/// answers once it has been written.
#[derive(Debug, Clone)]
pub struct WorklogPlan {
    /// The issue to log time on
    pub issue_key: String,
    /// The todo the time was spent on, as the tool reports it
    pub todo: TodoItem,
    /// Seconds to log
    pub time_spent_seconds: u64,
    /// Seconds to log, formatted
    pub time_spent_formatted: String,
    /// Comment of the worklog entry
    pub comment: String,
    /// When the work started (nanoseconds since the epoch)
    pub started_at: i64,
    /// The description to write back afterwards, when the todo gets checked
    pub completed_description: Option<String>,
    /// Confirmation message
    pub message: String,
}

/// Result from pausing work
#[derive(Debug, Clone)]
pub struct PauseTodoWorkResult {
    /// The todo that was worked on
    pub todo: TodoItem,
    /// Time spent in seconds
    pub time_spent_seconds: u64,
    /// Time spent in human-readable format
    pub time_spent_formatted: String,
    /// The created worklog
    pub worklog: WorklogInfo,
    /// Success message
    pub message: String,
}

/// Result from completing work
#[derive(Debug, Clone)]
pub struct CompleteTodoWorkResult {
    /// The todo that was worked on
    pub todo: TodoItem,
    /// Time spent in seconds
    pub time_spent_seconds: u64,
    /// Time spent in human-readable format
    pub time_spent_formatted: String,
    /// The created worklog
    pub worklog: WorklogInfo,
    /// Success message
    pub message: String,
}

/// Result from a checkpoint of work
#[derive(Debug, Clone)]
pub struct CheckpointTodoWorkResult {
    /// The todo that is worked on
    pub todo: TodoItem,
    /// Time logged in seconds
    pub time_spent_seconds: u64,
    /// Time logged in human-readable format
    pub time_spent_formatted: String,
    /// The created worklog
    pub worklog: WorklogInfo,
    /// Success message
    pub message: String,
}

/// The answer of a checkpoint once its time is logged: the plan's todo,
/// time and message, and the worklog entry JIRA recorded.
pub fn checkpoint_result(plan: WorklogPlan, worklog: WorklogInfo) -> (r: CheckpointTodoWorkResult)
    ensures
        r.todo@ == plan.todo@,
        r.time_spent_seconds == plan.time_spent_seconds,
        r.time_spent_formatted@ == plan.time_spent_formatted@,
        r.worklog == worklog,
        r.message@ == plan.message@,
{
    CheckpointTodoWorkResult {
        todo: plan.todo,
        time_spent_seconds: plan.time_spent_seconds,
        time_spent_formatted: plan.time_spent_formatted,
        worklog,
        message: plan.message,
    }
}

/// The answer of a paused session once its time is logged: the plan's
/// todo, time and message, and the worklog entry JIRA recorded.
pub fn paused_result(plan: WorklogPlan, worklog: WorklogInfo) -> (r: PauseTodoWorkResult)
    ensures
        r.todo@ == plan.todo@,
        r.time_spent_seconds == plan.time_spent_seconds,
        r.time_spent_formatted@ == plan.time_spent_formatted@,
        r.worklog == worklog,
        r.message@ == plan.message@,
{
    PauseTodoWorkResult {
        todo: plan.todo,
        time_spent_seconds: plan.time_spent_seconds,
        time_spent_formatted: plan.time_spent_formatted,
        worklog,
        message: plan.message,
    }
}

/// The answer of a completed session once its time is logged: the plan's
/// todo, time and message, and the worklog entry JIRA recorded.
pub fn completed_result(plan: WorklogPlan, worklog: WorklogInfo) -> (r: CompleteTodoWorkResult)
    ensures
        r.todo@ == plan.todo@,
        r.time_spent_seconds == plan.time_spent_seconds,
        r.time_spent_formatted@ == plan.time_spent_formatted@,
        r.worklog == worklog,
        r.message@ == plan.message@,
{
    CompleteTodoWorkResult {
        todo: plan.todo,
        time_spent_seconds: plan.time_spent_seconds,
        time_spent_formatted: plan.time_spent_formatted,
        worklog,
        message: plan.message,
    }
}

// ---------------------------------------------------------------------------
// The tracker

/// The todos of a description, read for an issue with these sessions.
pub open spec fn description_todos(
    description: Seq<char>,
    issue_key: Seq<char>,
    sessions: WorkSessions,
) -> Seq<TodoView> {
    todos_of(lines_seq(description), issue_key, sessions)
}

/// The state of the todo tools: the active work sessions and the base
/// issue used when a command names none.
#[derive(Debug)]
pub struct TodoTracker {
    sessions: WorkSessions,
    base_issue: Option<String>,
}

impl TodoTracker {
    /// The sessions are well formed.
    pub closed spec fn wf(&self) -> bool {
        self.sessions.wf()
    }

    /// The active work sessions.
    pub closed spec fn active(&self) -> WorkSessions {
        self.sessions
    }

    /// The base issue, if one was set.
    pub closed spec fn base(&self) -> Option<Seq<char>> {
        opt_view(self.base_issue)
    }

    /// A tracker with no base issue and no session.
    pub fn new() -> (r: Self)
        ensures
            r.wf(),
            r.base() is None,
            r.active().list() == Seq::<WorkSession>::empty(),
    {
        TodoTracker { sessions: WorkSessions::new(), base_issue: None }
    }

    /// The active work sessions.
    pub fn sessions(&self) -> (r: &WorkSessions)
        ensures
            *r == self.active(),
    {
        &self.sessions
    }

    /// Set the base issue for todo operations (the issue is known to exist).
    pub fn set_todo_base(&mut self, params: SetTodoBaseParams) -> (r: SetTodoBaseResult)
        requires
            old(self).wf(),
        ensures
            final(self).wf(),
            final(self).base() == Some(params.issue_key@),
            final(self).active() == old(self).active(),
            r.base_issue_key@ == params.issue_key@,
            r.message@ == "Base issue set to "@ + params.issue_key@
                + ". You can now omit issue_key in todo commands."@,
    {
        let mut message = owned("Base issue set to ");
        message.append(params.issue_key.as_str());
        message.append(". You can now omit issue_key in todo commands.");
        self.base_issue = Some(params.issue_key.clone());
        SetTodoBaseResult { base_issue_key: params.issue_key, message }
    }

    /// The issue a command works on: the one it names, else the base issue.
    pub fn get_issue_key(&self, provided: Option<String>) -> (r: JiraMcpResult<String>)
        ensures
            match provided {
                Some(k) => r matches Ok(x) && x@ == k@,
                None => match self.base() {
                    Some(b) => r matches Ok(x) && x@ == b,
                    None => r matches Err(JiraMcpError::InvalidParameter { parameter, message })
                        && parameter@ == "issue_key"@ && message@
                        == "No issue_key provided and no base issue set. Use set_todo_base first or provide issue_key."@,
                },
            },
    {
        match provided {
            Some(k) => Ok(k),
            None => match clone_opt(&self.base_issue) {
                Some(b) => Ok(b),
                None => Err(
                    JiraMcpError::invalid_param(
                        "issue_key",
                        "No issue_key provided and no base issue set. Use set_todo_base first or provide issue_key.",
                    ),
                ),
            },
        }
    }

    /// List the todos of an issue's description, keeping only those whose
    /// status is in the filter when one is given.
    pub fn list_todos(
        &self,
        issue_key: String,
        description: &str,
        status_filter: &Option<Vec<TodoStatus>>,
    ) -> (r: ListTodosResult)
        requires
            self.wf(),
        ensures
            r.issue_key@ == issue_key@,
            todo_views(r.todos@) == match status_filter {
                Some(f) => spec_filter_todos(
                    description_todos(description@, issue_key@, self.active()),
                    f@,
                ),
                None => description_todos(description@, issue_key@, self.active()),
            },
            r.total_count == r.todos@.len(),
    {
        let all = parse_todos_with_status(description, issue_key.as_str(), &self.sessions);
        let todos = match status_filter {
            Some(f) => filter_by_status(all, f.as_slice()),
            None => all,
        };
        ListTodosResult { total_count: todos.len(), todos, issue_key }
    }

    /// The todo of the description that a reference designates, with its
    /// position among the todos.
    pub fn find_todo(&self, issue_key: &str, description: &str, id_or_index: &str) -> (r:
        JiraMcpResult<(usize, TodoItem)>)
        requires
            self.wf(),
        ensures
            ({
                let all = description_todos(description@, issue_key@, self.active());
                match spec_todo_index(all, id_or_index@) {
                    Some(k) => r matches Ok((i, t)) && i == k && 0 <= k < all.len() && t@
                        == all[k],
                    None => r matches Err(JiraMcpError::InvalidParameter { parameter, message })
                        && parameter@ == "todo_id_or_index"@ && message@ == bad_index_message(
                        id_or_index@,
                        all.len(),
                    ),
                }
            }),
    {
        let todos = parse_todos_with_status(description, issue_key, &self.sessions);
        let ghost all = todo_views(todos@);
        let k = resolve_todo_index(todos.as_slice(), id_or_index)?;
        proof {
            lemma_todo_index_in_range(all, id_or_index@);
        }
        assert(todos@[k as int]@ == all[k as int]);
        let t = todos[k].duplicate();
        Ok((k, t))
    }
}

impl TodoTracker {
    /// The todo that was added to the description: the first todo when it
    /// was prepended, else the last.
    pub fn added_todo(&self, issue_key: &str, new_description: String, prepend: bool) -> (r:
        JiraMcpResult<AddTodoResult>)
        requires
            self.wf(),
        ensures
            ({
                let all = description_todos(new_description@, issue_key@, self.active());
                &&& all.len() == 0 ==> (r matches Err(JiraMcpError::Internal { message })
                    && message@ == "Failed to find newly added todo"@)
                &&& all.len() > 0 ==> (r matches Ok(res) && res.todo@ == (if prepend {
                    all[0]
                } else {
                    all.last()
                }) && res.message@ == "Todo added to issue "@ + issue_key@
                    && res.updated_description@ == new_description@)
            }),
    {
        let todos = parse_todos_with_status(new_description.as_str(), issue_key, &self.sessions);
        let n = todos.len();
        if n == 0 {
            return Err(JiraMcpError::internal("Failed to find newly added todo"));
        }
        let k: usize = if prepend {
            0
        } else {
            n - 1
        };
        assert(todos@[k as int]@ == todo_views(todos@)[k as int]);
        let todo = todos[k].duplicate();
        let mut message = owned("Todo added to issue ");
        message.append(issue_key);
        Ok(AddTodoResult { todo, message, updated_description: new_description })
    }

    /// The todo at `index` once its checkbox was set to `completed`.
    pub fn updated_todo(
        &self,
        issue_key: &str,
        new_description: &str,
        index: usize,
        completed: bool,
    ) -> (r: JiraMcpResult<UpdateTodoResult>)
        requires
            self.wf(),
        ensures
            ({
                let all = description_todos(new_description@, issue_key@, self.active());
                &&& index >= all.len() ==> (r matches Err(JiraMcpError::Internal { message })
                    && message@ == "Failed to find updated todo"@)
                &&& index < all.len() ==> (r matches Ok(res) && res.todo@ == all[index as int]
                    && res.message@ == "Todo "@ + (if completed {
                    "completed"@
                } else {
                    "reopened"@
                }) + " in issue "@ + issue_key@)
            }),
    {
        let todos = parse_todos_with_status(new_description, issue_key, &self.sessions);
        if index >= todos.len() {
            return Err(JiraMcpError::internal("Failed to find updated todo"));
        }
        assert(todos@[index as int]@ == todo_views(todos@)[index as int]);
        let todo = todos[index].duplicate();
        let mut message = owned("Todo ");
        if completed {
            message.append("completed");
        } else {
            message.append("reopened");
        }
        message.append(" in issue ");
        message.append(issue_key);
        Ok(UpdateTodoResult { todo, message })
    }

    /// Start tracking work time on a todo at time `now`.
    pub fn start_todo_work(
        &mut self,
        issue_key: &str,
        description: &str,
        params: &StartTodoWorkParams,
        now: i64,
    ) -> (r: JiraMcpResult<StartTodoWorkResult>)
        requires
            old(self).wf(),
        ensures
            final(self).wf(),
            final(self).base() == old(self).base(),
            ({
                let all = description_todos(description@, issue_key@, old(self).active());
                match spec_todo_index(all, params.todo_id_or_index@) {
                    None => r matches Err(JiraMcpError::InvalidParameter { parameter, message })
                        && parameter@ == "todo_id_or_index"@ && message@ == bad_index_message(
                        params.todo_id_or_index@,
                        all.len(),
                    ) && final(self).active().list() == old(self).active().list(),
                    Some(k) => if old(self).active().has_key(session_key(issue_key@, all[k].id)) {
                        r matches Err(JiraMcpError::InvalidParameter { parameter, message })
                            && parameter@ == "todo_id_or_index"@ && message@
                            == "Work session already active for this todo. Complete the existing session first."@
                            && final(self).active().list() == old(self).active().list()
                    } else {
                        r matches Ok(res) && res.todo@ == all[k] && res.started_at@ == rfc3339_text(
                            now,
                        ) && res.message@ == "Started tracking work on todo in issue "@
                            + issue_key@ && spec_started(
                            old(self).active().list(),
                            final(self).active().list(),
                            issue_key@,
                            all[k].id,
                            all[k].text,
                            now,
                        )
                    },
                }
            }),
    {
        let (_k, todo) = self.find_todo(issue_key, description, params.todo_id_or_index.as_str())?;
        self.sessions.start(issue_key, &todo, now)?;
        let started_at = format_rfc3339(now);
        let mut message = owned("Started tracking work on todo in issue ");
        message.append(issue_key);
        Ok(StartTodoWorkResult { todo, started_at, message })
    }

    /// Find the designated todo and end its work session.
    fn end_session(
        &mut self,
        issue_key: &str,
        description: &str,
        id_or_index: &str,
        missing_message: &str,
    ) -> (r: JiraMcpResult<(TodoItem, WorkSession)>)
        requires
            old(self).wf(),
        ensures
            final(self).wf(),
            final(self).base() == old(self).base(),
            ({
                let all = description_todos(description@, issue_key@, old(self).active());
                match spec_todo_index(all, id_or_index@) {
                    None => r matches Err(JiraMcpError::InvalidParameter { parameter, message })
                        && parameter@ == "todo_id_or_index"@ && message@ == bad_index_message(
                        id_or_index@,
                        all.len(),
                    ) && final(self).active().list() == old(self).active().list(),
                    Some(k) => if old(self).active().has_key(session_key(issue_key@, all[k].id)) {
                        r matches Ok((t, s)) && t@ == all[k] && spec_ended(
                            old(self).active().list(),
                            final(self).active().list(),
                            session_key(issue_key@, all[k].id),
                            s,
                        )
                    } else {
                        r matches Err(JiraMcpError::InvalidParameter { parameter, message })
                            && parameter@ == "todo_id_or_index"@ && message@ == missing_message@
                            && final(self).active().list() == old(self).active().list()
                    },
                }
            }),
    {
        let (_k, todo) = self.find_todo(issue_key, description, id_or_index)?;
        let s = self.sessions.take(issue_key, todo.id.as_str(), missing_message)?;
        Ok((todo, s))
    }

    /// Cancel work on a todo without logging the time, at time `now`.
    pub fn cancel_todo_work(
        &mut self,
        issue_key: &str,
        description: &str,
        params: &CancelTodoWorkParams,
        now: i64,
    ) -> (r: JiraMcpResult<CancelTodoWorkResult>)
        requires
            old(self).wf(),
        ensures
            final(self).wf(),
            final(self).base() == old(self).base(),
            ({
                let all = description_todos(description@, issue_key@, old(self).active());
                match spec_todo_index(all, params.todo_id_or_index@) {
                    None => r matches Err(JiraMcpError::InvalidParameter { parameter, message })
                        && parameter@ == "todo_id_or_index"@ && message@ == bad_index_message(
                        params.todo_id_or_index@,
                        all.len(),
                    ) && final(self).active().list() == old(self).active().list(),
                    Some(k) => if old(self).active().has_key(session_key(issue_key@, all[k].id)) {
                        r matches Ok(res) && res.todo@ == all[k] && exists|s: WorkSession|
                            spec_ended(
                                old(self).active().list(),
                                final(self).active().list(),
                                session_key(issue_key@, all[k].id),
                                s,
                            ) && res.discarded_time_seconds == elapsed_whole_seconds(
                                s.started_at,
                                now,
                            ) && res.message@ == "Work session canceled. "@
                                + spec_format_duration(res.discarded_time_seconds as nat)
                                + " of work was discarded (not logged)."@
                    } else {
                        r matches Err(JiraMcpError::InvalidParameter { parameter, message })
                            && parameter@ == "todo_id_or_index"@ && message@
                            == "No active work session for this todo."@
                            && final(self).active().list() == old(self).active().list()
                    },
                }
            }),
    {
        let (todo, s) = self.end_session(
            issue_key,
            description,
            params.todo_id_or_index.as_str(),
            "No active work session for this todo.",
        )?;
        let secs = elapsed_seconds_between(s.started_at, now);
        let mut message = owned("Work session canceled. ");
        let d = format_duration(secs);
        message.append(d.as_str());
        message.append(" of work was discarded (not logged).");
        Ok(CancelTodoWorkResult { todo, discarded_time_seconds: secs, message })
    }
}

/// What the tool reports of an active session at time `now`.
pub open spec fn reports_session(a: ActiveWorkSession, s: WorkSession, now: i64) -> bool {
    &&& a.issue_key@ == s.issue_key@
    &&& a.todo_id@ == s.todo_id@
    &&& a.todo_text@ == s.todo_text@
    &&& a.started_at@ == rfc3339_text(s.started_at)
    &&& a.duration_seconds == elapsed_whole_seconds(s.started_at, now)
    &&& a.duration_formatted@ == spec_format_duration(a.duration_seconds as nat)
}

/// The worklog comment: the one given, else `default_prefix` and the
/// todo text.
pub open spec fn worklog_comment_text(
    given: Option<String>,
    default_prefix: Seq<char>,
    todo_text: Seq<char>,
) -> Seq<char> {
    match given {
        Some(c) => c@,
        None => default_prefix + todo_text,
    }
}

/// A paused session logs the time elapsed since it started.
pub open spec fn spec_pause_plan(
    plan: WorklogPlan,
    issue_key: Seq<char>,
    todo: TodoView,
    s: WorkSession,
    comment: Option<String>,
    now: i64,
) -> bool {
    let secs = elapsed_whole_seconds(s.started_at, now);
    &&& plan.issue_key@ == issue_key
    &&& plan.todo@ == todo
    &&& plan.time_spent_seconds == secs
    &&& plan.time_spent_formatted@ == spec_format_duration(secs)
    &&& plan.comment@ == worklog_comment_text(comment, "Partial work on todo: "@, todo.text)
    &&& plan.started_at == s.started_at
    &&& plan.completed_description is None
    &&& plan.message@ == "Logged "@ + spec_format_duration(secs) + " to issue "@ + issue_key
        + ". Session paused, you can start work again later."@
}

/// A checkpoint logs the time elapsed since the session started (or was
/// last checkpointed); the session goes on from `now`.
pub open spec fn spec_checkpoint_plan(
    plan: WorklogPlan,
    issue_key: Seq<char>,
    todo: TodoView,
    s: WorkSession,
    comment: Option<String>,
    now: i64,
) -> bool {
    let secs = elapsed_whole_seconds(s.started_at, now);
    &&& plan.issue_key@ == issue_key
    &&& plan.todo@ == todo
    &&& plan.time_spent_seconds == secs
    &&& plan.time_spent_formatted@ == spec_format_duration(secs)
    &&& plan.comment@ == worklog_comment_text(comment, "Checkpoint on todo: "@, todo.text)
    &&& plan.started_at == s.started_at
    &&& plan.completed_description is None
    &&& plan.message@ == "Logged "@ + spec_format_duration(secs) + " to issue "@ + issue_key
        + ". Work session continues, timed from now."@
}

/// A completed session logs `secs`; its todo gets checked when asked and
/// not checked yet.
pub open spec fn spec_complete_plan(
    plan: WorklogPlan,
    issue_key: Seq<char>,
    description: Seq<char>,
    todo: TodoView,
    s: WorkSession,
    comment: Option<String>,
    mark_completed: bool,
    secs: u64,
) -> bool {
    let check = mark_completed && !todo.completed;
    &&& plan.issue_key@ == issue_key
    &&& plan.todo@ == (if check {
        TodoView { completed: true, status: TodoStatus::Completed, ..todo }
    } else {
        todo
    })
    &&& plan.time_spent_seconds == secs
    &&& plan.time_spent_formatted@ == spec_format_duration(secs as nat)
    &&& plan.comment@ == worklog_comment_text(comment, "Work on todo: "@, todo.text)
    &&& plan.started_at == s.started_at
    &&& (if check {
        plan.completed_description matches Some(d) && d@ == spec_update_todo_status(
            description,
            todo.line_number,
            true,
        )
    } else {
        plan.completed_description is None
    })
    &&& plan.message@ == "Logged "@ + spec_format_duration(secs as nat) + " to issue "@ + issue_key
}

fn comment_or(given: Option<String>, default_prefix: &str, todo_text: &str) -> (r: String)
    ensures
        r@ == worklog_comment_text(given, default_prefix@, todo_text@),
{
    match given {
        Some(c) => c,
        None => {
            let mut c = owned(default_prefix);
            c.append(todo_text);
            c
        },
    }
}

impl TodoTracker {
    /// End work on a todo at time `now`, planning a worklog entry for the
    /// time elapsed.
    pub fn pause_todo_work(
        &mut self,
        issue_key: &str,
        description: &str,
        params: PauseTodoWorkParams,
        now: i64,
    ) -> (r: JiraMcpResult<WorklogPlan>)
        requires
            old(self).wf(),
        ensures
            final(self).wf(),
            final(self).base() == old(self).base(),
            ({
                let all = description_todos(description@, issue_key@, old(self).active());
                match spec_todo_index(all, params.todo_id_or_index@) {
                    None => r matches Err(JiraMcpError::InvalidParameter { parameter, message })
                        && parameter@ == "todo_id_or_index"@ && message@ == bad_index_message(
                        params.todo_id_or_index@,
                        all.len(),
                    ) && final(self).active().list() == old(self).active().list(),
                    Some(k) => if old(self).active().has_key(session_key(issue_key@, all[k].id)) {
                        r matches Ok(plan) && exists|s: WorkSession|
                            spec_ended(
                                old(self).active().list(),
                                final(self).active().list(),
                                session_key(issue_key@, all[k].id),
                                s,
                            ) && spec_pause_plan(
                                plan,
                                issue_key@,
                                all[k],
                                s,
                                params.worklog_comment,
                                now,
                            )
                    } else {
                        r matches Err(JiraMcpError::InvalidParameter { parameter, message })
                            && parameter@ == "todo_id_or_index"@ && message@
                            == "No active work session for this todo. Start work first."@
                            && final(self).active().list() == old(self).active().list()
                    },
                }
            }),
    {
        let (todo, s) = self.end_session(
            issue_key,
            description,
            params.todo_id_or_index.as_str(),
            "No active work session for this todo. Start work first.",
        )?;
        let ghost given = params.worklog_comment;
        let secs = elapsed_seconds_between(s.started_at, now);
        let formatted = format_duration(secs);
        let comment = comment_or(params.worklog_comment, "Partial work on todo: ", todo.text.as_str());
        let mut message = owned("Logged ");
        message.append(formatted.as_str());
        message.append(" to issue ");
        message.append(issue_key);
        message.append(". Session paused, you can start work again later.");
        let ghost tv = todo@;
        let plan = WorklogPlan {
            issue_key: owned(issue_key),
            todo,
            time_spent_seconds: secs,
            time_spent_formatted: formatted,
            comment,
            started_at: s.started_at,
            completed_description: None,
            message,
        };
        assert(spec_pause_plan(plan, issue_key@, tv, s, given, now));
        Ok(plan)
    }

    /// Log the time worked on a todo so far, at time `now`: plan the
    /// worklog entry for the time since the session started (or was last
    /// checkpointed), and time the session from `now` on.
    pub fn checkpoint_todo_work(
        &mut self,
        issue_key: &str,
        description: &str,
        params: CheckpointTodoWorkParams,
        now: i64,
    ) -> (r: JiraMcpResult<WorklogPlan>)
        requires
            old(self).wf(),
        ensures
            final(self).wf(),
            final(self).base() == old(self).base(),
            ({
                let all = description_todos(description@, issue_key@, old(self).active());
                match spec_todo_index(all, params.todo_id_or_index@) {
                    None => r matches Err(JiraMcpError::InvalidParameter { parameter, message })
                        && parameter@ == "todo_id_or_index"@ && message@ == bad_index_message(
                        params.todo_id_or_index@,
                        all.len(),
                    ) && final(self).active().list() == old(self).active().list(),
                    Some(k) => if old(self).active().has_key(session_key(issue_key@, all[k].id)) {
                        r matches Ok(plan) && exists|s: WorkSession|
                            spec_restarted(
                                old(self).active().list(),
                                final(self).active().list(),
                                session_key(issue_key@, all[k].id),
                                s,
                                now,
                            ) && spec_checkpoint_plan(
                                plan,
                                issue_key@,
                                all[k],
                                s,
                                params.worklog_comment,
                                now,
                            )
                    } else {
                        r matches Err(JiraMcpError::InvalidParameter { parameter, message })
                            && parameter@ == "todo_id_or_index"@ && message@
                            == "No active work session for this todo. Start work first."@
                            && final(self).active().list() == old(self).active().list()
                    },
                }
            }),
    {
        let (_k, todo) = self.find_todo(issue_key, description, params.todo_id_or_index.as_str())?;
        let s = self.sessions.restart(
            issue_key,
            todo.id.as_str(),
            now,
            "No active work session for this todo. Start work first.",
        )?;
        let ghost given = params.worklog_comment;
        let secs = elapsed_seconds_between(s.started_at, now);
        let formatted = format_duration(secs);
        let comment = comment_or(params.worklog_comment, "Checkpoint on todo: ", todo.text.as_str());
        let mut message = owned("Logged ");
        message.append(formatted.as_str());
        message.append(" to issue ");
        message.append(issue_key);
        message.append(". Work session continues, timed from now.");
        let ghost tv = todo@;
        let plan = WorklogPlan {
            issue_key: owned(issue_key),
            todo,
            time_spent_seconds: secs,
            time_spent_formatted: formatted,
            comment,
            started_at: s.started_at,
            completed_description: None,
            message,
        };
        assert(spec_checkpoint_plan(plan, issue_key@, tv, s, given, now));
        Ok(plan)
    }

    /// End work on a todo at time `now` and plan the worklog entry: the
    /// explicit time when one is given (seconds before minutes before
    /// hours, the hours already in seconds), else the time elapsed; a
    /// session that spans days needs an explicit time. The todo gets
    /// checked when `mark_completed` asks for it.
    pub fn complete_todo_work(
        &mut self,
        issue_key: &str,
        description: &str,
        todo_id_or_index: &str,
        worklog_comment: Option<String>,
        mark_completed: bool,
        time_spent_seconds: Option<u64>,
        time_spent_minutes: Option<u64>,
        hours_as_seconds: Option<u64>,
        now: i64,
    ) -> (r: JiraMcpResult<WorklogPlan>)
        requires
            old(self).wf(),
            time_spent_seconds is None && time_spent_minutes is Some ==> time_spent_minutes->0 * 60
                <= u64::MAX,
        ensures
            final(self).wf(),
            final(self).base() == old(self).base(),
            ({
                let all = description_todos(description@, issue_key@, old(self).active());
                match spec_todo_index(all, todo_id_or_index@) {
                    None => r matches Err(JiraMcpError::InvalidParameter { parameter, message })
                        && parameter@ == "todo_id_or_index"@ && message@ == bad_index_message(
                        todo_id_or_index@,
                        all.len(),
                    ) && final(self).active().list() == old(self).active().list(),
                    Some(k) => if old(self).active().has_key(session_key(issue_key@, all[k].id)) {
                        exists|i: int|
                            0 <= i < old(self).active().list().len() && key_of(
                                #[trigger] old(self).active().list()[i],
                            ) == session_key(issue_key@, all[k].id) && ({
                                let s = old(self).active().list()[i];
                                match spec_work_time(
                                    s.started_at,
                                    now,
                                    time_spent_seconds,
                                    time_spent_minutes,
                                    hours_as_seconds,
                                ) {
                                    WorkTime::Logged(secs) => spec_ended(
                                        old(self).active().list(),
                                        final(self).active().list(),
                                        session_key(issue_key@, all[k].id),
                                        s,
                                    ) && (r matches Ok(plan) && spec_complete_plan(
                                        plan,
                                        issue_key@,
                                        description@,
                                        all[k],
                                        s,
                                        worklog_comment,
                                        mark_completed,
                                        secs,
                                    )),
                                    WorkTime::NeedsExplicitTime {
                                        auto_seconds,
                                        crosses_day_boundary,
                                    } => r matches Err(
                                        JiraMcpError::InvalidParameter { parameter, message },
                                    ) && parameter@ == "time_spent_hours"@ && message@
                                        == spec_multi_day_message(
                                        crosses_day_boundary,
                                        long_date_time_text(s.started_at),
                                        long_date_time_text(now),
                                        auto_seconds as nat,
                                        todo_id_or_index@,
                                    ) && final(self).active().list() == old(
                                        self,
                                    ).active().list(),
                                }
                            })
                    } else {
                        r matches Err(JiraMcpError::InvalidParameter { parameter, message })
                            && parameter@ == "todo_id_or_index"@ && message@
                            == "No active work session for this todo. Start work first."@
                            && final(self).active().list() == old(self).active().list()
                    },
                }
            }),
    {
        let (_k, todo) = self.find_todo(issue_key, description, todo_id_or_index)?;
        let ghost key = session_key(issue_key@, todo.id@);
        let ghost before = self.sessions.list();
        let i = match self.sessions.find(issue_key, todo.id.as_str()) {
            Some(i) => i,
            None => {
                return Err(
                    JiraMcpError::invalid_param(
                        "todo_id_or_index",
                        "No active work session for this todo. Start work first.",
                    ),
                );
            },
        };
        let started_at = self.sessions.sessions[i].started_at;
        // A session over more than a day is kept: the call is to be made
        // again with the time spent.
        let secs = match decide_work_time(
            started_at,
            now,
            time_spent_seconds,
            time_spent_minutes,
            hours_as_seconds,
        ) {
            WorkTime::Logged(secs) => secs,
            WorkTime::NeedsExplicitTime { auto_seconds, crosses_day_boundary } => {
                let started = format_long_date_time(started_at);
                let current = format_long_date_time(now);
                return Err(
                    multi_day_error(
                        crosses_day_boundary,
                        started.as_str(),
                        current.as_str(),
                        auto_seconds,
                        todo_id_or_index,
                    ),
                );
            },
        };
        assert(key_of(before[i as int]) == key);
        assert(self.sessions.has_key(key));
        let s = match self.sessions.take(
            issue_key,
            todo.id.as_str(),
            "No active work session for this todo. Start work first.",
        ) {
            Ok(s) => s,
            Err(e) => {
                return Err(e);
            },
        };
        proof {
            let j = choose|j: int| 0 <= j < before.len() && #[trigger] before[j] == s
                && self.sessions.list() == before.remove(j);
            if j != i {
                old(self).sessions.lemma_keys_distinct(i as int, j);
            }
        }
        let comment = comment_or(worklog_comment, "Work on todo: ", todo.text.as_str());
        let mut todo = todo;
        let completed_description = if mark_completed && !todo.completed {
            let d = update_todo_status(description, todo.line_number, true);
            todo.completed = true;
            todo.status = TodoStatus::Completed;
            Some(d)
        } else {
            None
        };
        let formatted = format_duration(secs);
        let mut message = owned("Logged ");
        message.append(formatted.as_str());
        message.append(" to issue ");
        message.append(issue_key);
        Ok(
            WorklogPlan {
                issue_key: owned(issue_key),
                todo,
                time_spent_seconds: secs,
                time_spent_formatted: formatted,
                comment,
                started_at: s.started_at,
                completed_description,
                message,
            },
        )
    }

    /// The active work sessions as of time `now`, in the order they were
    /// started.
    pub fn get_active_work_sessions(&self, now: i64) -> (r: GetActiveWorkSessionsResult)
        ensures
            r.total_count == r.sessions@.len(),
            r.sessions@.len() == self.active().list().len(),
            forall|i: int|
                0 <= i < r.sessions@.len() ==> reports_session(
                    #[trigger] r.sessions@[i],
                    self.active().list()[i],
                    now,
                ),
    {
        let list = self.sessions.sessions();
        let mut out: Vec<ActiveWorkSession> = Vec::new();
        let mut i: usize = 0;
        while i < list.len()
            invariant
                i <= list@.len(),
                list@ == self.active().list(),
                out@.len() == i,
                forall|j: int|
                    0 <= j < i ==> reports_session(#[trigger] out@[j], list@[j], now),
            decreases list@.len() - i,
        {
            let s = &list[i];
            let secs = elapsed_seconds_between(s.started_at, now);
            let a = ActiveWorkSession {
                issue_key: s.issue_key.clone(),
                todo_id: s.todo_id.clone(),
                todo_text: s.todo_text.clone(),
                started_at: format_rfc3339(s.started_at),
                duration_seconds: secs,
                duration_formatted: format_duration(secs),
            };
            out.push(a);
            i = i + 1;
        }
        GetActiveWorkSessionsResult { total_count: out.len(), sessions: out }
    }
}

/// Starting work on a todo and then ending that session leaves the active
/// sessions as they were, and the session ended is the one started.
pub proof fn law_end_undoes_start(
    s0: WorkSessions,
    s1: WorkSessions,
    s2: WorkSessions,
    issue_key: Seq<char>,
    todo_id: Seq<char>,
    todo_text: Seq<char>,
    now: i64,
    ended: WorkSession,
)
    requires
        s1.wf(),
        spec_started(s0.list(), s1.list(), issue_key, todo_id, todo_text, now),
        spec_ended(s1.list(), s2.list(), session_key(issue_key, todo_id), ended),
    ensures
        s2.list() == s0.list(),
        ended == s1.list().last(),
        ended.started_at == now,
{
    let l1 = s1.list();
    let n = l1.len() - 1;
    let i = choose|i: int| 0 <= i < l1.len() && #[trigger] l1[i] == ended && s2.list() == l1.remove(i);
    assert(key_of(l1[n]) == session_key(issue_key, todo_id));
    if i != n {
        s1.lemma_keys_distinct(i, n);
    }
    assert(l1.remove(n) =~= l1.drop_last());
}

/// A checkbox line set to done or open keeps its length, and stays a line
/// that splits and joins back as it is.
proof fn lemma_toggle_plain(line: Seq<char>, completed: bool)
    requires
        plain_line(line),
    ensures
        spec_toggle_line(line, completed).len() == line.len(),
        plain_line(spec_toggle_line(line, completed)),
{
    reveal_strlit("[ ]");
    reveal_strlit("[x]");
    reveal_strlit("[X]");
    let blank = "[ ]"@;
    let x = "[x]"@;
    let xx = "[X]"@;
    assert(blank[2] == ']' && x[2] == ']');
    if completed {
        lemma_replace_same_length(line, blank, x, '\n');
        lemma_replace_same_length(line, blank, x, '\r');
    } else {
        let mid = replace_seq(line, x, blank);
        lemma_replace_same_length(line, x, blank, '\n');
        lemma_replace_same_length(line, x, blank, '\r');
        lemma_replace_same_length(mid, xx, blank, '\n');
        lemma_replace_same_length(mid, xx, blank, '\r');
    }
}

/// Setting a todo's checkbox changes one line only: read back, the
/// description has the lines it had, line `line_number` set to done or
/// open, every other line as it was (all of them as they were when there
/// is no such line). This holds of descriptions whose lines split and join
/// back as they are: no line ends with a carriage return and the last
/// line is not empty.
pub proof fn law_update_changes_one_line(description: Seq<char>, line_number: int, completed: bool)
    requires
        tidy_lines(lines_seq(description)),
        0 <= line_number,
    ensures
        lines_seq(spec_update_todo_status(description, line_number, completed)) == if line_number
            < lines_seq(description).len() {
            lines_seq(description).update(
                line_number,
                spec_toggle_line(lines_seq(description)[line_number], completed),
            )
        } else {
            lines_seq(description)
        },
{
    let ls = lines_seq(description);
    lemma_tidy_lines_plain(description);
    if line_number < ls.len() {
        assert(plain_line(ls[line_number]));
        lemma_toggle_plain(ls[line_number], completed);
        let ls2 = ls.update(line_number, spec_toggle_line(ls[line_number], completed));
        assert forall|i: int| 0 <= i < ls2.len() implies plain_line(#[trigger] ls2[i]) by {
            if i != line_number {
                assert(ls2[i] == ls[i]);
                assert(plain_line(ls[i]));
            }
        }
        assert(ls2.last().len() > 0) by {
            if line_number == ls.len() - 1 {
                assert(ls2.last() == spec_toggle_line(ls[line_number], completed));
            } else {
                assert(ls2.last() == ls.last());
            }
        }
        lemma_lines_of_join(ls2);
    } else {
        lemma_lines_of_join(ls);
    }
}

/// What setting a checkbox does to character `i` of a line: to tick it, a
/// blank between brackets becomes `x`; to clear it, an `x` or `X` between
/// brackets becomes a blank. Every other character stays.
pub open spec fn toggled_char(l: Seq<char>, i: int, completed: bool) -> char {
    if completed {
        if between_brackets(l, i) && l[i] == ' ' {
            'x'
        } else {
            l[i]
        }
    } else {
        if between_brackets(l, i) && (l[i] == 'x' || l[i] == 'X') {
            ' '
        } else {
            l[i]
        }
    }
}

/// Setting a checkbox changes a line character by character.
proof fn lemma_toggle_pointwise(l: Seq<char>, completed: bool)
    ensures
        spec_toggle_line(l, completed).len() == l.len(),
        forall|i: int|
            0 <= i < l.len() ==> #[trigger] spec_toggle_line(l, completed)[i] == toggled_char(
                l,
                i,
                completed,
            ),
{
    reveal_strlit("[ ]");
    reveal_strlit("[x]");
    reveal_strlit("[X]");
    assert("[ ]"@ =~= bracketed(' '));
    assert("[x]"@ =~= bracketed('x'));
    assert("[X]"@ =~= bracketed('X'));
    if completed {
        lemma_replace_bracketed(l, ' ', 'x');
    } else {
        lemma_replace_bracketed(l, 'x', ' ');
        let m = replace_seq(l, bracketed('x'), bracketed(' '));
        lemma_replace_bracketed(m, 'X', ' ');
        assert forall|i: int| 0 <= i < l.len() implies #[trigger] spec_toggle_line(
            l,
            completed,
        )[i] == toggled_char(l, i, completed) by {
            assert(m[i] == (if between_brackets(l, i) && l[i] == 'x' {
                ' '
            } else {
                l[i]
            }));
            if i >= 1 {
                assert(m[i - 1] == (if between_brackets(l, i - 1) && l[i - 1] == 'x' {
                    ' '
                } else {
                    l[i - 1]
                }));
            }
            if i + 1 < l.len() {
                assert(m[i + 1] == (if between_brackets(l, i + 1) && l[i + 1] == 'x' {
                    ' '
                } else {
                    l[i + 1]
                }));
            }
            assert(between_brackets(m, i) == between_brackets(l, i));
        }
    }
}

/// Setting a checkbox leaves the ends of a line as they were, so the
/// trimmed line changes as the line does.
proof fn lemma_trim_toggled(l: Seq<char>, completed: bool)
    ensures
        trim_seq(spec_toggle_line(l, completed)).len() == trim_seq(l).len(),
        forall|k: int|
            0 <= k < trim_seq(l).len() ==> #[trigger] trim_seq(spec_toggle_line(l, completed))[k]
                == toggled_char(trim_seq(l), k, completed),
{
    let t = spec_toggle_line(l, completed);
    lemma_toggle_pointwise(l, completed);
    let (a, b) = lemma_trim_shape(l);
    let (a2, b2) = lemma_trim_shape(t);
    assert(!is_white_space('[') && !is_white_space(']'));
    assert forall|i: int| 0 <= i < l.len() && (i <= a || i >= b - 1) implies #[trigger] t[i]
        == l[i] by {
        if between_brackets(l, i) {
            if i <= a {
                assert(is_white_space(l[i - 1]));
            } else {
                assert(is_white_space(l[i + 1]));
            }
        }
    }
    if a < b {
        assert(t[a] == l[a] && t[b - 1] == l[b - 1]);
        if a2 < a {
            assert(t[a2] == l[a2]);
        }
        if a2 > a {
            assert(is_white_space(t[a]));
        }
        if b2 > b {
            assert(t[b2 - 1] == l[b2 - 1]);
        }
        if b2 < b {
            assert(is_white_space(t[b - 1]));
        }
        assert(a2 == a && b2 == b);
        let tl = trim_seq(l);
        assert forall|k: int| 0 <= k < tl.len() implies #[trigger] trim_seq(t)[k] == toggled_char(
            tl,
            k,
            completed,
        ) by {
            assert(trim_seq(t)[k] == t[a + k]);
            assert(tl[k] == l[a + k]);
            if k >= 1 {
                assert(tl[k - 1] == l[a + k - 1]);
            }
            if k + 1 < tl.len() {
                assert(tl[k + 1] == l[a + k + 1]);
            }
        }
    } else {
        assert(t =~= l);
    }
}

/// A line whose characters are those of a todo line `t` with its checkbox
/// set holds a todo too, done exactly when it was set to done (a tick
/// needs a blank or a tick there already).
proof fn lemma_toggled_todo(t: Seq<char>, u: Seq<char>, completed: bool)
    requires
        spec_checkbox_text(t) is Some,
        u.len() == t.len(),
        forall|k: int| 0 <= k < t.len() ==> #[trigger] u[k] == toggled_char(t, k, completed),
        completed ==> (contains_seq(t, "[ ]"@) || spec_is_checked(t)),
    ensures
        spec_checkbox_text(u) is Some,
        spec_is_checked(u) == completed,
{
    reveal_strlit("- [");
    reveal_strlit("* [");
    reveal_strlit("[ ]");
    reveal_strlit("[x]");
    reveal_strlit("[X]");
    assert(!is_white_space(']'));
    // The start of the line stays.
    assert(t.subrange(0, 3)[0] == t[0] && t.subrange(0, 3)[1] == t[1] && t.subrange(0, 3)[2] == t[2]);
    assert(u[0] == t[0] && u[1] == t[1] && u[2] == t[2]);
    assert(u.subrange(0, 3) =~= t.subrange(0, 3));
    // The first closing bracket stays where it was.
    assert forall|i: int| 0 <= i < t.len() implies (t[i] == ']') == (#[trigger] u[i] == ']') by {}
    lemma_index_of_char_same(t, u, ']');
    let k = index_of_char(t, ']');
    // Some character after it is still not white space.
    let ts = t.subrange(k + 1, t.len() as int);
    let us = u.subrange(k + 1, u.len() as int);
    let (a, b) = lemma_trim_shape(ts);
    assert(ts[a] == t[k + 1 + a]);
    let p = k + 1 + a;
    let q = if u[p] == t[p] {
        a
    } else {
        a + 1
    };
    assert(us[q] == u[k + 1 + q]);
    if u[p] != t[p] {
        assert(u[p + 1] == t[p + 1]);
    }
    assert(!is_white_space(us[q]));
    let (a3, b3) = lemma_trim_shape(us);
    if a3 == b3 {
        assert(is_white_space(us[q]));
    }
    // The tick.
    if completed {
        if contains_seq(t, "[ ]"@) {
            let j = choose|j: int| occurs_at(t, "[ ]"@, j);
            assert(t.subrange(j, j + 3)[0] == t[j] && t.subrange(j, j + 3)[1] == t[j + 1]
                && t.subrange(j, j + 3)[2] == t[j + 2]);
            assert(u[j] == t[j] && u[j + 2] == t[j + 2]);
            assert(u.subrange(j, j + 3) =~= "[x]"@);
            assert(occurs_at(u, "[x]"@, j));
        } else if contains_seq(t, "[x]"@) {
            let j = choose|j: int| occurs_at(t, "[x]"@, j);
            assert(t.subrange(j, j + 3)[0] == t[j] && t.subrange(j, j + 3)[1] == t[j + 1]
                && t.subrange(j, j + 3)[2] == t[j + 2]);
            assert(u[j] == t[j] && u[j + 1] == t[j + 1] && u[j + 2] == t[j + 2]);
            assert(u.subrange(j, j + 3) =~= "[x]"@);
            assert(occurs_at(u, "[x]"@, j));
        } else {
            let j = choose|j: int| occurs_at(t, "[X]"@, j);
            assert(t.subrange(j, j + 3)[0] == t[j] && t.subrange(j, j + 3)[1] == t[j + 1]
                && t.subrange(j, j + 3)[2] == t[j + 2]);
            assert(u[j] == t[j] && u[j + 1] == t[j + 1] && u[j + 2] == t[j + 2]);
            assert(u.subrange(j, j + 3) =~= "[X]"@);
            assert(occurs_at(u, "[X]"@, j));
        }
    } else {
        assert forall|j: int| !occurs_at(u, "[x]"@, j) && !occurs_at(u, "[X]"@, j) by {
            if occurs_at(u, "[x]"@, j) || occurs_at(u, "[X]"@, j) {
                assert(u.subrange(j, j + 3)[0] == u[j] && u.subrange(j, j + 3)[1] == u[j + 1]
                    && u.subrange(j, j + 3)[2] == u[j + 2]);
                assert(t[j] == '[' && t[j + 2] == ']');
                assert(between_brackets(t, j + 1));
            }
        }
    }
}

/// Setting a todo's checkbox reads back: after the update, the todo's
/// line still holds a todo, and it is done exactly when it was set to
/// done. This holds of descriptions whose lines split and join back as
/// they are and, when the todo is set to done, of a checkbox that holds a
/// blank (`[ ]`) or is ticked already.
pub proof fn law_update_reads_back(
    description: Seq<char>,
    line_number: int,
    completed: bool,
    issue_key: Seq<char>,
    sessions: WorkSessions,
)
    requires
        tidy_lines(lines_seq(description)),
        0 <= line_number < lines_seq(description).len(),
        todo_from_line(lines_seq(description)[line_number], line_number, issue_key, sessions) is Some,
        completed ==> (contains_seq(trim_seq(lines_seq(description)[line_number]), "[ ]"@)
            || spec_is_checked(trim_seq(lines_seq(description)[line_number]))),
    ensures
        todo_from_line(
            lines_seq(spec_update_todo_status(description, line_number, completed))[line_number],
            line_number,
            issue_key,
            sessions,
        ) matches Some(t) && t.completed == completed,
{
    law_update_changes_one_line(description, line_number, completed);
    let l = lines_seq(description)[line_number];
    lemma_trim_toggled(l, completed);
    lemma_toggled_todo(trim_seq(l), trim_seq(spec_toggle_line(l, completed)), completed);
}

/// Adding a todo keeps what the description says: read back, the
/// description has its old lines, in order, with a block of new lines put
/// in at one place, the last of which is the new todo's line. This holds
/// of descriptions whose lines split and join back as they are, and of a
/// todo text with no line break and no trailing carriage return.
pub proof fn law_add_todo_keeps_lines(description: Seq<char>, todo_text: Seq<char>, prepend: bool)
    requires
        tidy_lines(lines_seq(description)),
        plain_line(todo_text),
    ensures
        ({
            let ls = lines_seq(description);
            exists|k: int, added: Seq<Seq<char>>|
                #![trigger ls.subrange(0, k), added.last()]
                0 <= k <= ls.len() && added.len() > 0 && added.last() == "- [ ] "@ + todo_text
                    && lines_seq(spec_add_todo(description, todo_text, prepend)) == ls.subrange(0, k)
                    + added + ls.subrange(k, ls.len() as int)
        }),
        lines_seq(spec_add_todo(description, todo_text, prepend)) == spec_add_todo_lines(
            lines_seq(description),
            todo_text,
            prepend,
        ),
{
    reveal_strlit("- [ ] ");
    reveal_strlit("## Todos");
    let ls = lines_seq(description);
    lemma_tidy_lines_plain(description);
    let new_line = "- [ ] "@ + todo_text;
    assert(plain_line(new_line)) by {
        assert forall|j: int| 0 <= j < new_line.len() implies new_line[j] != '\n' by {
            if j >= 6 {
                assert(new_line[j] == todo_text[j - 6]);
            }
        }
        if todo_text.len() > 0 {
            assert(new_line.last() == todo_text.last());
        }
    }
    let is_todo = |l: Seq<char>| is_todo_line(l);
    let is_header = |l: Seq<char>| is_todo_header(l);
    let f = first_where(ls, is_todo);
    let h = first_where(ls, is_header);
    lemma_first_where_bounds(ls, is_todo);
    lemma_first_where_bounds(ls, is_header);
    let out = spec_add_todo_lines(ls, todo_text, prepend);
    let pos: int;
    let added: Seq<Seq<char>>;
    if f >= 0 || h >= 0 {
        if f >= 0 {
            lemma_last_where_from(ls, is_todo, f);
            pos = if prepend { f } else { last_where(ls, is_todo) + 1 };
        } else {
            lemma_skip_blank_bounds(ls, h + 1);
            pos = skip_blank_lines(ls, h + 1);
        }
        added = seq![new_line];
        assert(out == ls.insert(pos, new_line));
        assert(out =~= ls.subrange(0, pos) + added + ls.subrange(pos, ls.len() as int));
        assert forall|i: int| 0 <= i < out.len() implies plain_line(#[trigger] out[i]) by {
            if i < pos {
                assert(out[i] == ls[i]);
                assert(plain_line(ls[i]));
            } else if i > pos {
                assert(out[i] == ls[i - 1]);
                assert(plain_line(ls[i - 1]));
            }
        }
        if pos < ls.len() {
            assert(out.last() == ls.last());
        }
    } else {
        let blank: Seq<char> = Seq::empty();
        let base = if ls.len() > 0 && !is_blank_seq(ls.last()) {
            ls.push(blank)
        } else {
            ls
        };
        pos = ls.len() as int;
        added = if ls.len() > 0 && !is_blank_seq(ls.last()) {
            seq![blank, "## Todos"@, blank, new_line]
        } else {
            seq!["## Todos"@, blank, new_line]
        };
        assert(out == base + seq!["## Todos"@, blank, new_line]);
        assert(out =~= ls.subrange(0, pos) + added + ls.subrange(pos, ls.len() as int));
        assert(plain_line("## Todos"@));
        assert(plain_line(blank));
        assert forall|i: int| 0 <= i < out.len() implies plain_line(#[trigger] out[i]) by {
            if i < ls.len() {
                assert(out[i] == ls[i]);
                assert(plain_line(ls[i]));
            } else {
                assert(out[i] == added[i - ls.len()]);
            }
        }
    }
    assert(plain_lines(out));
    lemma_lines_of_join(out);
    assert(lines_seq(spec_add_todo(description, todo_text, prepend)) == out);
    assert(added.last() == new_line);
    assert(0 <= pos <= ls.len());
    assert(lines_seq(spec_add_todo(description, todo_text, prepend)) == ls.subrange(0, pos) + added
        + ls.subrange(pos, ls.len() as int));
}

proof fn lemma_first_where_before(ls: Seq<Seq<char>>, p: spec_fn(Seq<char>) -> bool)
    ensures
        forall|j: int|
            0 <= j < ls.len() && (first_where(ls, p) < 0 || j < first_where(ls, p)) ==> !p(
                #[trigger] ls[j],
            ),
    decreases ls.len(),
{
    if ls.len() > 0 && !p(ls[0]) {
        let rest = ls.drop_first();
        lemma_first_where_before(rest, p);
        assert forall|j: int|
            0 <= j < ls.len() && (first_where(ls, p) < 0 || j < first_where(ls, p)) implies !p(
            #[trigger] ls[j],
        ) by {
            if j > 0 {
                assert(ls[j] == rest[j - 1]);
            }
        }
    }
}

proof fn lemma_last_where_after(ls: Seq<Seq<char>>, p: spec_fn(Seq<char>) -> bool)
    ensures
        forall|j: int| 0 <= j < ls.len() && j > last_where(ls, p) ==> !p(#[trigger] ls[j]),
    decreases ls.len(),
{
    if ls.len() > 0 && !p(ls.last()) {
        let rest = ls.drop_last();
        lemma_last_where_after(rest, p);
        assert forall|j: int| 0 <= j < ls.len() && j > last_where(ls, p) implies !p(
            #[trigger] ls[j],
        ) by {
            if j < ls.len() - 1 {
                assert(ls[j] == rest[j]);
            }
        }
    }
}

/// Lines none of which is a todo line hold no todo.
proof fn lemma_todos_none(ls: Seq<Seq<char>>, issue_key: Seq<char>, sessions: WorkSessions)
    requires
        forall|j: int| 0 <= j < ls.len() ==> !is_todo_line(#[trigger] ls[j]),
    ensures
        todos_of(ls, issue_key, sessions).len() == 0,
    decreases ls.len(),
{
    if ls.len() > 0 {
        let rest = ls.drop_last();
        assert forall|j: int| 0 <= j < rest.len() implies !is_todo_line(#[trigger] rest[j]) by {
            assert(rest[j] == ls[j]);
        }
        lemma_todos_none(rest, issue_key, sessions);
        assert(!is_todo_line(ls[ls.len() - 1]));
    }
}

/// The first todo is that of the first todo line.
proof fn lemma_todos_first(ls: Seq<Seq<char>>, k: int, issue_key: Seq<char>, sessions: WorkSessions)
    requires
        0 <= k < ls.len(),
        is_todo_line(ls[k]),
        forall|j: int| 0 <= j < k ==> !is_todo_line(#[trigger] ls[j]),
    ensures
        todos_of(ls, issue_key, sessions).len() > 0,
        todo_from_line(ls[k], k, issue_key, sessions) == Some(todos_of(ls, issue_key, sessions)[0]),
    decreases ls.len(),
{
    let rest = ls.drop_last();
    if k == ls.len() - 1 {
        assert forall|j: int| 0 <= j < rest.len() implies !is_todo_line(#[trigger] rest[j]) by {
            assert(rest[j] == ls[j]);
        }
        lemma_todos_none(rest, issue_key, sessions);
    } else {
        assert forall|j: int| 0 <= j < k implies !is_todo_line(#[trigger] rest[j]) by {
            assert(rest[j] == ls[j]);
        }
        assert(rest[k] == ls[k]);
        lemma_todos_first(rest, k, issue_key, sessions);
    }
}

/// The last todo is that of the last todo line.
proof fn lemma_todos_last(ls: Seq<Seq<char>>, k: int, issue_key: Seq<char>, sessions: WorkSessions)
    requires
        0 <= k < ls.len(),
        is_todo_line(ls[k]),
        forall|j: int| k < j < ls.len() ==> !is_todo_line(#[trigger] ls[j]),
    ensures
        todos_of(ls, issue_key, sessions).len() > 0,
        todo_from_line(ls[k], k, issue_key, sessions) == Some(
            todos_of(ls, issue_key, sessions).last(),
        ),
    decreases ls.len(),
{
    if k < ls.len() - 1 {
        let rest = ls.drop_last();
        assert forall|j: int| k < j < rest.len() implies !is_todo_line(#[trigger] rest[j]) by {
            assert(rest[j] == ls[j]);
        }
        assert(rest[k] == ls[k]);
        assert(!is_todo_line(ls[ls.len() - 1]));
        lemma_todos_last(rest, k, issue_key, sessions);
    }
}

/// The line a todo is added as holds an open todo whose text is the
/// trimmed todo text, when that text is not blank and holds no tick.
proof fn lemma_new_todo_line(todo_text: Seq<char>, i: int, issue_key: Seq<char>, sessions: WorkSessions)
    requires
        trim_seq(todo_text).len() > 0,
        !contains_seq(todo_text, "[x]"@),
        !contains_seq(todo_text, "[X]"@),
    ensures
        is_todo_line("- [ ] "@ + todo_text),
        todo_from_line("- [ ] "@ + todo_text, i, issue_key, sessions) matches Some(t) && t.text
            == trim_seq(todo_text) && !t.completed,
{
    reveal_strlit("- [ ] ");
    reveal_strlit("- [");
    reveal_strlit("[x]");
    reveal_strlit("[X]");
    let nl = "- [ ] "@ + todo_text;
    let (a, e) = lemma_trim_shape(todo_text);
    assert(nl[0] == '-' && nl[1] == ' ' && nl[2] == '[' && nl[3] == ' ' && nl[4] == ']' && nl[5]
        == ' ');
    assert forall|j: int| 0 <= j < todo_text.len() implies #[trigger] nl[j + 6] == todo_text[j] by {}
    // The trimmed line.
    assert forall|j: int| 6 + e <= j < nl.len() implies is_white_space(#[trigger] nl[j]) by {
        assert(nl[j] == todo_text[j - 6]);
    }
    assert(nl[6 + e - 1] == todo_text[e - 1]);
    lemma_trim_at(nl, 0, 6 + e);
    let tn = nl.subrange(0, 6 + e);
    assert(tn.subrange(0, 3) =~= "- ["@);
    lemma_index_of_char_at(tn, ']', 4);
    // The text after the bracket.
    let rest = tn.subrange(5, 6 + e);
    assert forall|j: int| 0 <= j < 1 + a implies is_white_space(#[trigger] rest[j]) by {
        if j > 0 {
            assert(rest[j] == todo_text[j - 1]);
        }
    }
    assert(rest[1 + a] == todo_text[a]);
    assert(rest[e] == todo_text[e - 1]);
    lemma_trim_at(rest, 1 + a, 1 + e);
    assert(rest.subrange(1 + a, 1 + e) =~= todo_text.subrange(a, e));
    // No tick.
    assert forall|j: int| !occurs_at(tn, "[x]"@, j) && !occurs_at(tn, "[X]"@, j) by {
        if occurs_at(tn, "[x]"@, j) || occurs_at(tn, "[X]"@, j) {
            assert(tn.subrange(j, j + 3)[0] == tn[j] && tn.subrange(j, j + 3)[1] == tn[j + 1]);
            if j >= 6 {
                assert(todo_text.subrange(j - 6, j - 3) =~= tn.subrange(j, j + 3));
                assert(occurs_at(todo_text, "[x]"@, j - 6) || occurs_at(todo_text, "[X]"@, j - 6));
            }
        }
    }
}

/// Adding a todo reads back: the description's todos then include one,
/// the first when it was put before the others and the last otherwise,
/// that is open and has the trimmed todo text. This holds of descriptions
/// whose lines split and join back as they are, and of a todo text on one
/// line that is not blank and holds no tick (`[x]` or `[X]`).
pub proof fn law_added_todo_reads_back(
    description: Seq<char>,
    todo_text: Seq<char>,
    prepend: bool,
    issue_key: Seq<char>,
    sessions: WorkSessions,
)
    requires
        tidy_lines(lines_seq(description)),
        plain_line(todo_text),
        trim_seq(todo_text).len() > 0,
        !contains_seq(todo_text, "[x]"@),
        !contains_seq(todo_text, "[X]"@),
    ensures
        ({
            let all = description_todos(
                spec_add_todo(description, todo_text, prepend),
                issue_key,
                sessions,
            );
            let t = if prepend {
                all[0]
            } else {
                all.last()
            };
            all.len() > 0 && t.text == trim_seq(todo_text) && !t.completed
        }),
{
    reveal_strlit("- [ ] ");
    reveal_strlit("- [");
    reveal_strlit("* [");
    reveal_strlit("## Todos");
    law_add_todo_keeps_lines(description, todo_text, prepend);
    let ls = lines_seq(description);
    let out = spec_add_todo_lines(ls, todo_text, prepend);
    let new_line = "- [ ] "@ + todo_text;
    let is_todo = |l: Seq<char>| is_todo_line(l);
    let is_header = |l: Seq<char>| is_todo_header(l);
    let f = first_where(ls, is_todo);
    lemma_first_where_bounds(ls, is_todo);
    lemma_first_where_before(ls, is_todo);
    let pos: int;
    if f >= 0 {
        let last = last_where(ls, is_todo);
        lemma_last_where_from(ls, is_todo, f);
        lemma_last_where_after(ls, is_todo);
        pos = if prepend {
            f
        } else {
            last + 1
        };
        assert(out == ls.insert(pos, new_line));
        lemma_new_todo_line(todo_text, pos, issue_key, sessions);
        assert(out[pos] == new_line);
        if prepend {
            assert forall|j: int| 0 <= j < pos implies !is_todo_line(#[trigger] out[j]) by {
                assert(out[j] == ls[j]);
                assert(!is_todo(ls[j]));
            }
            lemma_todos_first(out, pos, issue_key, sessions);
        } else {
            assert forall|j: int| pos < j < out.len() implies !is_todo_line(#[trigger] out[j]) by {
                assert(out[j] == ls[j - 1]);
                assert(!is_todo(ls[j - 1]));
            }
            lemma_todos_last(out, pos, issue_key, sessions);
        }
    } else {
        let h = first_where(ls, is_header);
        lemma_first_where_bounds(ls, is_header);
        if h >= 0 {
            lemma_skip_blank_bounds(ls, h + 1);
            pos = skip_blank_lines(ls, h + 1);
            assert(out == ls.insert(pos, new_line));
            assert(out[pos] == new_line);
            assert forall|j: int| 0 <= j < out.len() && j != pos implies !is_todo_line(
                #[trigger] out[j],
            ) by {
                if j < pos {
                    assert(out[j] == ls[j]);
                    assert(!is_todo(ls[j]));
                } else {
                    assert(out[j] == ls[j - 1]);
                    assert(!is_todo(ls[j - 1]));
                }
            }
        } else {
            let blank: Seq<char> = Seq::empty();
            let header = "## Todos"@;
            let base = if ls.len() > 0 && !is_blank_seq(ls.last()) {
                ls.push(blank)
            } else {
                ls
            };
            assert(out == base + seq![header, blank, new_line]);
            pos = out.len() - 1;
            assert(out[pos] == new_line);
            assert(trim_seq(blank) =~= blank);
            assert(!is_todo_line(blank));
            assert(header[0] == '#' && header[7] == 's');
            lemma_trim_at(header, 0, 8);
            assert(header.subrange(0, 8) =~= header);
            assert(!is_todo_line(header));
            assert forall|j: int| 0 <= j < pos implies !is_todo_line(#[trigger] out[j]) by {
                if j < ls.len() {
                    assert(out[j] == ls[j]);
                    assert(!is_todo(ls[j]));
                } else if j < base.len() {
                    assert(out[j] == blank);
                } else if j == base.len() {
                    assert(out[j] == header);
                } else {
                    assert(out[j] == blank);
                }
            }
        }
        lemma_new_todo_line(todo_text, pos, issue_key, sessions);
        lemma_todos_first(out, pos, issue_key, sessions);
        lemma_todos_last(out, pos, issue_key, sessions);
    }
}

/// A designated position is one of the todos.
proof fn lemma_todo_index_in_range(todos: Seq<TodoView>, id_or_index: Seq<char>)
    ensures
        spec_todo_index(todos, id_or_index) matches Some(k) ==> 0 <= k < todos.len(),
{
    let k = id_position(todos, id_or_index);
    if k >= 0 {
        lemma_id_position_bound(todos, id_or_index);
    }
}

proof fn lemma_id_position_bound(todos: Seq<TodoView>, id: Seq<char>)
    ensures
        id_position(todos, id) < todos.len(),
    decreases todos.len(),
{
    if todos.len() > 0 && todos[0].id != id {
        lemma_id_position_bound(todos.drop_first(), id);
    }
}

} // verus!
