//! Metadata cache with a time-to-live for each entry.
//!
//! An entry is stored with the time it was written and is given back only
//! while it is not older than the cache's time-to-live. Times are
//! nanoseconds on the cache's monotonic clock; every operation that
//! depends on the time has a variant that takes the current time as an
//! argument.

use crate::clock::{elapsed_nanos, MonotonicClock, NANOS_PER_SECOND};
use crate::error::JiraMcpResult;
use crate::text::{chars_of, clone_opt, lowercase, opt_view, str_eq, to_lowercase};
use vstd::prelude::*;

verus! {

/// Board information
#[derive(Debug, Clone)]
pub struct BoardInfo {
    pub id: String,
    pub name: String,
    pub type_: String,
    pub project_key: Option<String>,
}

impl View for BoardInfo {
    type V = (Seq<char>, Seq<char>, Seq<char>, Option<Seq<char>>);

    open spec fn view(&self) -> Self::V {
        (self.id@, self.name@, self.type_@, opt_view(self.project_key))
    }
}

/// Project information
#[derive(Debug, Clone)]
pub struct ProjectInfo {
    pub key: String,
    pub name: String,
    pub project_type: String,
    pub lead: Option<String>,
}

impl View for ProjectInfo {
    type V = (Seq<char>, Seq<char>, Seq<char>, Option<Seq<char>>);

    open spec fn view(&self) -> Self::V {
        (self.key@, self.name@, self.project_type@, opt_view(self.lead))
    }
}

/// Issue type information
#[derive(Debug, Clone)]
pub struct IssueTypeInfo {
    pub id: String,
    pub name: String,
    pub description: Option<String>,
    pub subtask: bool,
}

impl View for IssueTypeInfo {
    type V = (Seq<char>, Seq<char>, Option<Seq<char>>, bool);

    open spec fn view(&self) -> Self::V {
        (self.id@, self.name@, opt_view(self.description), self.subtask)
    }
}

/// User mapping information
#[derive(Debug, Clone)]
pub struct UserMapping {
    pub account_id: String,
    pub display_name: String,
    pub email_address: Option<String>,
    pub username: Option<String>,
}

impl View for UserMapping {
    type V = (Seq<char>, Seq<char>, Option<Seq<char>>, Option<Seq<char>>);

    open spec fn view(&self) -> Self::V {
        (self.account_id@, self.display_name@, opt_view(self.email_address), opt_view(self.username))
    }
}

impl BoardInfo {
    /// A copy of the board information.
    pub fn duplicate(&self) -> (r: Self)
        ensures
            r@ == self@,
    {
        BoardInfo {
            id: self.id.clone(),
            name: self.name.clone(),
            type_: self.type_.clone(),
            project_key: clone_opt(&self.project_key),
        }
    }
}

impl ProjectInfo {
    /// A copy of the project information.
    pub fn duplicate(&self) -> (r: Self)
        ensures
            r@ == self@,
    {
        ProjectInfo {
            key: self.key.clone(),
            name: self.name.clone(),
            project_type: self.project_type.clone(),
            lead: clone_opt(&self.lead),
        }
    }
}

impl IssueTypeInfo {
    /// A copy of the issue type information.
    pub fn duplicate(&self) -> (r: Self)
        ensures
            r@ == self@,
    {
        IssueTypeInfo {
            id: self.id.clone(),
            name: self.name.clone(),
            description: clone_opt(&self.description),
            subtask: self.subtask,
        }
    }
}

impl UserMapping {
    /// A copy of the user mapping.
    pub fn duplicate(&self) -> (r: Self)
        ensures
            r@ == self@,
    {
        UserMapping {
            account_id: self.account_id.clone(),
            display_name: self.display_name.clone(),
            email_address: clone_opt(&self.email_address),
            username: clone_opt(&self.username),
        }
    }
}

/// The views of a list of issue types.
pub open spec fn issue_types_view(v: Seq<IssueTypeInfo>) -> Seq<<IssueTypeInfo as View>::V> {
    v.map_values(|t: IssueTypeInfo| t@)
}

/// Lists of issue types with equal views have the same names.
pub proof fn lemma_issue_types_view_names(a: Seq<IssueTypeInfo>, b: Seq<IssueTypeInfo>)
    requires
        issue_types_view(a) == issue_types_view(b),
    ensures
        a.len() == b.len(),
        forall|i: int| 0 <= i < a.len() ==> #[trigger] a[i].name@ == b[i].name@,
        forall|i: int| 0 <= i < a.len() ==> #[trigger] a[i]@ == b[i]@,
{
    assert(issue_types_view(a).len() == a.len());
    assert(issue_types_view(b).len() == b.len());
    assert forall|i: int| 0 <= i < a.len() implies #[trigger] a[i]@ == b[i]@ by {
        assert(issue_types_view(a)[i] == a[i]@);
        assert(issue_types_view(b)[i] == b[i]@);
    }
    assert forall|i: int| 0 <= i < a.len() implies #[trigger] a[i].name@ == b[i].name@ by {
        assert(issue_types_view(a)[i] == a[i]@);
        assert(issue_types_view(b)[i] == b[i]@);
    }
}

/// A copy of a list of issue types.
pub fn duplicate_issue_types(v: &Vec<IssueTypeInfo>) -> (r: Vec<IssueTypeInfo>)
    ensures
        issue_types_view(r@) == issue_types_view(v@),
{
    let mut out: Vec<IssueTypeInfo> = Vec::new();
    let mut i: usize = 0;
    while i < v.len()
        invariant
            i <= v@.len(),
            issue_types_view(out@) == issue_types_view(v@.subrange(0, i as int)),
        decreases v@.len() - i,
    {
        let ghost before = out@;
        let d = v[i].duplicate();
        out.push(d);
        assert(v@.subrange(0, i + 1) =~= v@.subrange(0, i as int).push(v@[i as int]));
        assert(issue_types_view(out@) =~= issue_types_view(before).push(d@));
        assert(issue_types_view(v@.subrange(0, i + 1)) =~= issue_types_view(
            v@.subrange(0, i as int),
        ).push(v@[i as int]@));
        i = i + 1;
    }
    assert(v@.subrange(0, v@.len() as int) =~= v@);
    out
}

/// Cache entry with the time it was written
#[derive(Debug, Clone)]
pub struct CacheEntry<T> {
    pub value: T,
    /// The reading of the monotonic clock at the time of writing.
    pub created_at: u64,
}

/// An entry written at `created` is expired at `now` under a time-to-live
/// of `ttl_seconds` when more time than that has passed.
pub open spec fn is_expired_spec(created: u64, ttl_seconds: u64, now: u64) -> bool {
    elapsed_nanos(created, now) > ttl_seconds as nat * NANOS_PER_SECOND as nat
}

impl<T> CacheEntry<T> {
    /// A new entry written now, by `clock`.
    pub fn new(value: T, clock: &MonotonicClock) -> (r: Self)
        ensures
            r.value == value,
    {
        CacheEntry { value, created_at: clock.now_nanos() }
    }

    /// A new entry written at time `now`.
    pub fn new_at(value: T, now: u64) -> (r: Self)
        ensures
            r.value == value,
            r.created_at == now,
    {
        CacheEntry { value, created_at: now }
    }

    /// Whether the entry is older than the time-to-live at time `now`.
    pub fn is_expired_at(&self, ttl_seconds: u64, now: u64) -> (r: bool)
        ensures
            r == is_expired_spec(self.created_at, ttl_seconds, now),
    {
        let elapsed: u128 = if now >= self.created_at {
            (now - self.created_at) as u128
        } else {
            0
        };
        let ttl: u128 = ttl_seconds as u128;
        let unit: u128 = NANOS_PER_SECOND as u128;
        assert(ttl * unit <= u64::MAX as int * u64::MAX as int) by (nonlinear_arith)
            requires
                ttl <= u64::MAX,
                unit <= u64::MAX,
        ;
        elapsed > ttl * unit
    }

    /// Whether the entry is older than the time-to-live now, by `clock`.
    pub fn is_expired(&self, ttl_seconds: u64, clock: &MonotonicClock) -> (r: bool)
        ensures
            exists|now: u64| r == is_expired_spec(self.created_at, ttl_seconds, now),
    {
        let now = clock.now_nanos();
        self.is_expired_at(ttl_seconds, now)
    }
}

/// The map that a list of keyed entries denotes; a later entry for a key
/// hides an earlier one.
pub open spec fn entries_view<V>(s: Seq<(String, CacheEntry<V>)>) -> Map<Seq<char>, CacheEntry<V>>
    decreases s.len(),
{
    if s.len() == 0 {
        Map::empty()
    } else {
        entries_view(s.drop_last()).insert(s.last().0@, s.last().1)
    }
}

/// No two entries have the same key.
pub open spec fn distinct_keys<V>(s: Seq<(String, CacheEntry<V>)>) -> bool {
    forall|i: int, j: int| 0 <= i < j < s.len() ==> s[i].0@ != s[j].0@
}

/// With distinct keys, the map holds exactly the keys of the entries, each
/// with its entry, and has as many keys as there are entries.
pub proof fn lemma_entries_view<V>(s: Seq<(String, CacheEntry<V>)>)
    requires
        distinct_keys(s),
    ensures
        forall|k: Seq<char>| #[trigger]
            entries_view(s).contains_key(k) <==> exists|i: int| 0 <= i < s.len() && s[i].0@ == k,
        forall|i: int| 0 <= i < s.len() ==> #[trigger] entries_view(s)[s[i].0@] == s[i].1,
        entries_view(s).dom().finite(),
        entries_view(s).dom().len() == s.len(),
    decreases s.len(),
{
    if s.len() > 0 {
        let t = s.drop_last();
        assert(distinct_keys(t));
        lemma_entries_view(t);
        let m = entries_view(t);
        let k = s.last().0@;
        assert(!m.contains_key(k)) by {
            if m.contains_key(k) {
                let i = choose|i: int| 0 <= i < t.len() && t[i].0@ == k;
                assert(s[i].0@ == s[s.len() - 1].0@);
            }
        }
        assert forall|k2: Seq<char>| #[trigger]
            entries_view(s).contains_key(k2) <==> exists|i: int| 0 <= i < s.len() && s[i].0@ == k2 by {
            if entries_view(s).contains_key(k2) && k2 != k {
                let i = choose|i: int| 0 <= i < t.len() && t[i].0@ == k2;
                assert(s[i].0@ == k2);
            }
            if exists|i: int| 0 <= i < s.len() && s[i].0@ == k2 {
                let i = choose|i: int| 0 <= i < s.len() && s[i].0@ == k2;
                if i < s.len() - 1 {
                    assert(t[i].0@ == k2);
                }
            }
        }
        assert forall|i: int| 0 <= i < s.len() implies #[trigger] entries_view(s)[s[i].0@]
            == s[i].1 by {
            if i < s.len() - 1 {
                assert(t[i] == s[i]);
                assert(s[i].0@ != k);
            }
        }
        assert(entries_view(s).dom() =~= m.dom().insert(k));
    } else {
        assert(entries_view(s).dom() =~= Set::<Seq<char>>::empty());
    }
}

/// Two entry lists with distinct keys denote the same map when they hold
/// the same keys with the same entries.
pub proof fn lemma_entries_view_ext<V>(
    s: Seq<(String, CacheEntry<V>)>,
    m: Map<Seq<char>, CacheEntry<V>>,
)
    requires
        distinct_keys(s),
        forall|k: Seq<char>| #[trigger]
            m.contains_key(k) <==> exists|i: int| 0 <= i < s.len() && s[i].0@ == k,
        forall|i: int| 0 <= i < s.len() ==> #[trigger] m[s[i].0@] == s[i].1,
    ensures
        entries_view(s) == m,
{
    lemma_entries_view(s);
    assert forall|k: Seq<char>| #[trigger] m.contains_key(k) implies entries_view(s)[k]
        == m[k] by {
        let i = choose|i: int| 0 <= i < s.len() && s[i].0@ == k;
        assert(entries_view(s)[s[i].0@] == s[i].1);
    }
    assert(entries_view(s) =~= m);
}

/// A map from string keys to entries stamped with the time of writing.
#[derive(Debug)]
pub struct TtlMap<V> {
    entries: Vec<(String, CacheEntry<V>)>,
}

impl<V> View for TtlMap<V> {
    type V = Map<Seq<char>, CacheEntry<V>>;

    closed spec fn view(&self) -> Map<Seq<char>, CacheEntry<V>> {
        entries_view(self.entries@)
    }
}

impl<V> TtlMap<V> {
    /// The map's internal invariant: no key is stored twice.
    pub closed spec fn wf(&self) -> bool {
        distinct_keys(self.entries@)
    }

    /// The number of keys stored.
    pub closed spec fn count(&self) -> nat {
        self.entries@.len()
    }

    /// An empty map.
    pub fn new() -> (r: Self)
        ensures
            r.wf(),
            r@ == Map::<Seq<char>, CacheEntry<V>>::empty(),
            r.count() == 0,
    {
        let r = TtlMap { entries: Vec::new() };
        assert(r@ =~= Map::<Seq<char>, CacheEntry<V>>::empty());
        r
    }

    /// The number of keys stored.
    pub fn len(&self) -> (r: usize)
        requires
            self.wf(),
        ensures
            r == self.count(),
            r == self@.dom().len(),
    {
        proof {
            lemma_entries_view(self.entries@);
        }
        self.entries.len()
    }

    fn find(&self, key: &str) -> (r: Option<usize>)
        requires
            self.wf(),
        ensures
            r matches Some(i) ==> i < self.entries@.len() && self.entries@[i as int].0@ == key@,
            r is None ==> !self@.contains_key(key@),
            r is None <==> !self@.contains_key(key@),
    {
        proof {
            lemma_entries_view(self.entries@);
        }
        let mut i: usize = 0;
        while i < self.entries.len()
            invariant
                i <= self.entries@.len(),
                distinct_keys(self.entries@),
                forall|j: int| 0 <= j < i ==> self.entries@[j].0@ != key@,
            decreases self.entries@.len() - i,
        {
            if str_eq(self.entries[i].0.as_str(), key) {
                proof {
                    lemma_entries_view(self.entries@);
                }
                assert(entries_view(self.entries@).contains_key(key@));
                return Some(i);
            }
            i = i + 1;
        }
        None
    }

    /// The entry stored under `key`, whatever its age.
    pub fn get_entry(&self, key: &str) -> (r: Option<&CacheEntry<V>>)
        requires
            self.wf(),
        ensures
            match r {
                Some(e) => self@.contains_key(key@) && *e == self@[key@],
                None => !self@.contains_key(key@),
            },
    {
        proof {
            lemma_entries_view(self.entries@);
        }
        match self.find(key) {
            Some(i) => Some(&self.entries[i].1),
            None => None,
        }
    }

    /// The value stored under `key` if it is not expired at time `now`.
    pub fn get_at(&self, key: &str, ttl_seconds: u64, now: u64) -> (r: Option<&V>)
        requires
            self.wf(),
        ensures
            match r {
                Some(v) => self@.contains_key(key@) && !is_expired_spec(
                    self@[key@].created_at,
                    ttl_seconds,
                    now,
                ) && *v == self@[key@].value,
                None => !self@.contains_key(key@) || is_expired_spec(
                    self@[key@].created_at,
                    ttl_seconds,
                    now,
                ),
            },
    {
        match self.get_entry(key) {
            Some(e) => {
                if e.is_expired_at(ttl_seconds, now) {
                    None
                } else {
                    Some(&e.value)
                }
            },
            None => None,
        }
    }

    /// Store `value` under `key`, written at time `now`.
    pub fn insert_at(&mut self, key: String, value: V, now: u64)
        requires
            old(self).wf(),
        ensures
            final(self).wf(),
            final(self)@ == old(self)@.insert(key@, CacheEntry { value, created_at: now }),
    {
        let ghost old_entries = self.entries@;
        let ghost k = key@;
        let e = CacheEntry { value, created_at: now };
        let ghost ge = e;
        proof {
            lemma_entries_view(old_entries);
        }
        match self.find(key.as_str()) {
            Some(i) => {
                self.entries.set(i, (key, e));
                proof {
                    let s = self.entries@;
                    assert(s == old_entries.update(i as int, s[i as int]));
                    assert(distinct_keys(s)) by {
                        assert forall|a: int, b: int| 0 <= a < b < s.len() implies s[a].0@
                            != s[b].0@ by {
                            if a == i {
                                assert(old_entries[a].0@ == k);
                            } else if b == i {
                                assert(old_entries[b].0@ == k);
                            }
                        }
                    }
                    let m = entries_view(old_entries).insert(k, ge);
                    assert(old_entries[i as int].0@ == k);
                    assert forall|k2: Seq<char>| #[trigger] m.contains_key(k2) <==> exists|j: int|
                        0 <= j < s.len() && s[j].0@ == k2 by {
                        if k2 == k {
                            assert(s[i as int].0@ == k);
                        } else {
                            if entries_view(old_entries).contains_key(k2) {
                                let j = choose|j: int|
                                    0 <= j < old_entries.len() && old_entries[j].0@ == k2;
                                assert(s[j] == old_entries[j]);
                            }
                            if exists|j: int| 0 <= j < s.len() && s[j].0@ == k2 {
                                let j = choose|j: int| 0 <= j < s.len() && s[j].0@ == k2;
                                assert(s[j] == old_entries[j]);
                            }
                        }
                    }
                    assert forall|j: int| 0 <= j < s.len() implies #[trigger] m[s[j].0@]
                        == s[j].1 by {
                        if j != i {
                            assert(s[j] == old_entries[j]);
                            assert(entries_view(old_entries)[old_entries[j].0@]
                                == old_entries[j].1);
                        }
                    }
                    lemma_entries_view_ext(s, m);
                }
            },
            None => {
                self.entries.push((key, e));
                proof {
                    let s = self.entries@;
                    assert(s.drop_last() =~= old_entries);
                    assert(distinct_keys(s)) by {
                        assert forall|a: int, b: int| 0 <= a < b < s.len() implies s[a].0@
                            != s[b].0@ by {
                            if b == s.len() - 1 {
                                assert(entries_view(old_entries).contains_key(s[a].0@)) by {
                                    assert(old_entries[a].0@ == s[a].0@);
                                }
                            } else {
                                assert(old_entries[a] == s[a] && old_entries[b] == s[b]);
                            }
                        }
                    }
                }
            },
        }
    }

    /// Remove every entry.
    pub fn clear(&mut self)
        ensures
            final(self).wf(),
            final(self)@ == Map::<Seq<char>, CacheEntry<V>>::empty(),
            final(self).count() == 0,
    {
        self.entries = Vec::new();
        assert(self@ =~= Map::<Seq<char>, CacheEntry<V>>::empty());
    }

    /// Remove the entries that are expired at time `now`; returns how many
    /// were removed.
    pub fn remove_expired_at(&mut self, ttl_seconds: u64, now: u64) -> (removed: usize)
        requires
            old(self).wf(),
        ensures
            final(self).wf(),
            forall|k: Seq<char>| #[trigger]
                final(self)@.contains_key(k) <==> old(self)@.contains_key(k) && !is_expired_spec(
                    old(self)@[k].created_at,
                    ttl_seconds,
                    now,
                ),
            forall|k: Seq<char>| #[trigger]
                final(self)@.contains_key(k) ==> final(self)@[k] == old(self)@[k],
            removed + final(self).count() == old(self).count(),
    {
        let ghost old_view = self@;
        let ghost old_count = self.entries@.len();
        proof {
            lemma_entries_view(self.entries@);
        }
        let n0 = self.entries.len();
        let mut i: usize = 0;
        let mut removed: usize = 0;
        while i < self.entries.len()
            invariant
                distinct_keys(self.entries@),
                i <= self.entries@.len(),
                old_count <= usize::MAX,
                removed + self.entries@.len() == old_count,
                old_view == entries_view(old(self).entries@),
                forall|k: Seq<char>| #[trigger]
                    entries_view(self.entries@).contains_key(k) ==> old_view.contains_key(k)
                        && entries_view(self.entries@)[k] == old_view[k],
                forall|k: Seq<char>| #[trigger]
                    old_view.contains_key(k) && !is_expired_spec(
                        old_view[k].created_at,
                        ttl_seconds,
                        now,
                    ) ==> entries_view(self.entries@).contains_key(k),
                forall|j: int|
                    0 <= j < i ==> !is_expired_spec(
                        #[trigger] self.entries@[j].1.created_at,
                        ttl_seconds,
                        now,
                    ),
            decreases self.entries@.len() - i,
        {
            proof {
                lemma_entries_view(self.entries@);
            }
            if self.entries[i].1.is_expired_at(ttl_seconds, now) {
                let ghost s = self.entries@;
                let ghost gone = s[i as int].0@;
                let _ = self.entries.remove(i);
                removed = removed + 1;
                proof {
                    let t = self.entries@;
                    assert(t =~= s.remove(i as int));
                    assert(distinct_keys(t)) by {
                        assert forall|a: int, b: int| 0 <= a < b < t.len() implies t[a].0@
                            != t[b].0@ by {
                            let a2 = if a < i { a } else { a + 1 };
                            let b2 = if b < i { b } else { b + 1 };
                            assert(t[a] == s[a2] && t[b] == s[b2]);
                        }
                    }
                    lemma_entries_view(t);
                    assert forall|k: Seq<char>| #[trigger] entries_view(t).contains_key(k) implies
                        old_view.contains_key(k) && entries_view(t)[k] == old_view[k] by {
                        let j = choose|j: int| 0 <= j < t.len() && t[j].0@ == k;
                        let j2 = if j < i { j } else { j + 1 };
                        assert(t[j] == s[j2]);
                        assert(entries_view(t)[t[j].0@] == t[j].1);
                        assert(entries_view(s)[s[j2].0@] == s[j2].1);
                        assert(entries_view(s).contains_key(k));
                    }
                    assert forall|k: Seq<char>| #[trigger] old_view.contains_key(k)
                        && !is_expired_spec(
                        old_view[k].created_at,
                        ttl_seconds,
                        now,
                    ) implies entries_view(t).contains_key(k) by {
                        assert(entries_view(s).contains_key(k));
                        let j = choose|j: int| 0 <= j < s.len() && s[j].0@ == k;
                        assert(entries_view(s)[s[j].0@] == s[j].1);
                        if j == i {
                            assert(old_view[k] == s[i as int].1);
                        } else {
                            let j3 = if j < i { j } else { j - 1 };
                            assert(t[j3] == s[j]);
                        }
                    }
                    assert forall|j: int| 0 <= j < i implies !is_expired_spec(
                        #[trigger] t[j].1.created_at,
                        ttl_seconds,
                        now,
                    ) by {
                        assert(t[j] == s[j]);
                    }
                }
            } else {
                i = i + 1;
            }
        }
        proof {
            lemma_entries_view(self.entries@);
            assert forall|k: Seq<char>| #[trigger] self@.contains_key(k) implies !is_expired_spec(
                old_view[k].created_at,
                ttl_seconds,
                now,
            ) by {
                let j = choose|j: int| 0 <= j < self.entries@.len() && self.entries@[j].0@ == k;
                assert(self@[self.entries@[j].0@] == self.entries@[j].1);
            }
        }
        removed
    }
}


/// Metadata cache with TTL management
#[derive(Debug)]
pub struct MetadataCache {
    /// Board name to ID mappings
    board_mappings: TtlMap<String>,
    /// Board metadata
    board_info: TtlMap<BoardInfo>,
    /// Project key to info mappings
    project_info: TtlMap<ProjectInfo>,
    /// Issue types per project
    project_issue_types: TtlMap<Vec<IssueTypeInfo>>,
    /// User account ID mappings
    user_mappings: TtlMap<UserMapping>,
    /// Current user cache
    current_user: Option<CacheEntry<UserMapping>>,
    /// The clock the entries are written and read by
    clock: MonotonicClock,
    /// Time-to-live of the entries, in seconds
    ttl_seconds: u64,
}

/// Cache statistics
#[derive(Debug, Clone)]
pub struct CacheStats {
    pub board_mappings_count: usize,
    pub board_info_count: usize,
    pub project_info_count: usize,
    pub project_issue_types_count: usize,
    pub user_mappings_count: usize,
    pub has_current_user: bool,
    pub ttl_seconds: u64,
}

/// An entry is fresh at `now` when it is not expired.
pub open spec fn fresh<T>(e: CacheEntry<T>, ttl_seconds: u64, now: u64) -> bool {
    !is_expired_spec(e.created_at, ttl_seconds, now)
}

/// What a read of `key` at time `now` finds: the entry stored under it,
/// while it is still fresh.
pub open spec fn fresh_entry<T>(m: Map<Seq<char>, CacheEntry<T>>, key: Seq<char>, ttl_seconds: u64, now: u64) -> Option<CacheEntry<T>> {
    if m.contains_key(key) && fresh(m[key], ttl_seconds, now) {
        Some(m[key])
    } else {
        None
    }
}

/// What a read of the current user at time `now` finds: the cached one,
/// while it is still fresh.
pub open spec fn fresh_current(c: Option<CacheEntry<UserMapping>>, ttl_seconds: u64, now: u64) -> Option<CacheEntry<UserMapping>> {
    match c {
        Some(e) => if fresh(e, ttl_seconds, now) {
            Some(e)
        } else {
            None
        },
        None => None,
    }
}

/// The number of entries cached, the current user included.
pub open spec fn entry_count(c: MetadataCache) -> nat {
    c.board_ids_count() + c.board_infos_count() + c.project_infos_count() + c.issue_types_count()
        + c.user_maps_count() + if c.current() is Some {
        1nat
    } else {
        0nat
    }
}

/// What a cleanup at time `now` does: it removes exactly the entries, and
/// the current user, that are expired at `now`, keeps the others as they
/// were, and reports how many it removed (at most `u64::MAX`).
pub open spec fn spec_cleaned(before: MetadataCache, after: MetadataCache, now: u64, removed: u64) -> bool {
    &&& after.ttl() == before.ttl()
    &&& match before.current() {
        Some(e) => if fresh(e, before.ttl(), now) {
            after.current() == before.current()
        } else {
            after.current() is None
        },
        None => after.current() is None,
    }
    &&& forall|k: Seq<char>| #[trigger] after.board_ids().contains_key(k) <==> before.board_ids().contains_key(k)
        && fresh(before.board_ids()[k], before.ttl(), now)
    &&& forall|k: Seq<char>| #[trigger] after.board_ids().contains_key(k) ==> after.board_ids()[k] == before.board_ids()[k]
    &&& forall|k: Seq<char>| #[trigger] after.board_infos().contains_key(k) <==> before.board_infos().contains_key(k)
        && fresh(before.board_infos()[k], before.ttl(), now)
    &&& forall|k: Seq<char>| #[trigger] after.board_infos().contains_key(k) ==> after.board_infos()[k] == before.board_infos()[k]
    &&& forall|k: Seq<char>| #[trigger] after.project_infos().contains_key(k) <==> before.project_infos().contains_key(k)
        && fresh(before.project_infos()[k], before.ttl(), now)
    &&& forall|k: Seq<char>| #[trigger] after.project_infos().contains_key(k) ==> after.project_infos()[k] == before.project_infos()[k]
    &&& forall|k: Seq<char>| #[trigger] after.issue_types().contains_key(k) <==> before.issue_types().contains_key(k)
        && fresh(before.issue_types()[k], before.ttl(), now)
    &&& forall|k: Seq<char>| #[trigger] after.issue_types().contains_key(k) ==> after.issue_types()[k] == before.issue_types()[k]
    &&& forall|k: Seq<char>| #[trigger] after.user_maps().contains_key(k) <==> before.user_maps().contains_key(k)
        && fresh(before.user_maps()[k], before.ttl(), now)
    &&& forall|k: Seq<char>| #[trigger] after.user_maps().contains_key(k) ==> after.user_maps()[k] == before.user_maps()[k]
    &&& entry_count(after) <= entry_count(before)
    &&& removed == if entry_count(before) - entry_count(after) > u64::MAX {
        u64::MAX as int
    } else {
        entry_count(before) - entry_count(after)
    }
}

impl MetadataCache {
    /// The cache's internal invariant.
    pub closed spec fn wf(&self) -> bool {
        &&& self.board_mappings.wf()
        &&& self.board_info.wf()
        &&& self.project_info.wf()
        &&& self.project_issue_types.wf()
        &&& self.user_mappings.wf()
    }

    /// The time-to-live of the entries, in seconds.
    pub closed spec fn ttl(&self) -> u64 {
        self.ttl_seconds
    }

    /// The cached current user, if any, whatever its age.
    pub closed spec fn current(&self) -> Option<CacheEntry<UserMapping>> {
        self.current_user
    }

    /// The cached entries of `board_mappings`, whatever their age.
    pub closed spec fn board_ids(&self) -> Map<Seq<char>, CacheEntry<String>> {
        self.board_mappings@
    }

    /// The number of cached entries of `board_mappings`.
    pub closed spec fn board_ids_count(&self) -> nat {
        self.board_mappings.count()
    }

    /// The cached entries of `board_info`, whatever their age.
    pub closed spec fn board_infos(&self) -> Map<Seq<char>, CacheEntry<BoardInfo>> {
        self.board_info@
    }

    /// The number of cached entries of `board_info`.
    pub closed spec fn board_infos_count(&self) -> nat {
        self.board_info.count()
    }

    /// The cached entries of `project_info`, whatever their age.
    pub closed spec fn project_infos(&self) -> Map<Seq<char>, CacheEntry<ProjectInfo>> {
        self.project_info@
    }

    /// The number of cached entries of `project_info`.
    pub closed spec fn project_infos_count(&self) -> nat {
        self.project_info.count()
    }

    /// The cached entries of `project_issue_types`, whatever their age.
    pub closed spec fn issue_types(&self) -> Map<Seq<char>, CacheEntry<Vec<IssueTypeInfo>>> {
        self.project_issue_types@
    }

    /// The number of cached entries of `project_issue_types`.
    pub closed spec fn issue_types_count(&self) -> nat {
        self.project_issue_types.count()
    }

    /// The cached entries of `user_mappings`, whatever their age.
    pub closed spec fn user_maps(&self) -> Map<Seq<char>, CacheEntry<UserMapping>> {
        self.user_mappings@
    }

    /// The number of cached entries of `user_mappings`.
    pub closed spec fn user_maps_count(&self) -> nat {
        self.user_mappings.count()
    }

    /// A cache with nothing in it and the given time-to-live.
    pub fn new(ttl_seconds: u64) -> (r: Self)
        ensures
            r.wf(),
            r.ttl() == ttl_seconds,
            r.current() is None,
            r.board_ids() == Map::<Seq<char>, CacheEntry<String>>::empty(),
            r.board_ids_count() == 0,
            r.board_infos() == Map::<Seq<char>, CacheEntry<BoardInfo>>::empty(),
            r.board_infos_count() == 0,
            r.project_infos() == Map::<Seq<char>, CacheEntry<ProjectInfo>>::empty(),
            r.project_infos_count() == 0,
            r.issue_types() == Map::<Seq<char>, CacheEntry<Vec<IssueTypeInfo>>>::empty(),
            r.issue_types_count() == 0,
            r.user_maps() == Map::<Seq<char>, CacheEntry<UserMapping>>::empty(),
            r.user_maps_count() == 0,
    {
        MetadataCache {
            board_mappings: TtlMap::new(),
            board_info: TtlMap::new(),
            project_info: TtlMap::new(),
            project_issue_types: TtlMap::new(),
            user_mappings: TtlMap::new(),
            current_user: None,
            ttl_seconds,
            clock: MonotonicClock::start(),
        }
    }

    /// The reading of the cache's clock now.
    pub fn now(&self) -> u64 {
        self.clock.now_nanos()
    }

    /// The time-to-live of the entries, in seconds.
    pub fn ttl_seconds(&self) -> (r: u64)
        ensures
            r == self.ttl(),
    {
        self.ttl_seconds
    }

    /// The value cached under `board_name` if it is fresh at time `now`.
    pub fn get_board_id_at(&self, board_name: &str, now: u64) -> (r: Option<String>)
        requires
            self.wf(),
        ensures
            match r {
                Some(v) => self.board_ids().contains_key(board_name@) && fresh(self.board_ids()[board_name@], self.ttl(), now)
                    && v@ == self.board_ids()[board_name@].value@,
                None => !self.board_ids().contains_key(board_name@) || !fresh(self.board_ids()[board_name@], self.ttl(), now),
            },
    {
        match self.board_mappings.get_entry(board_name) {
            Some(e) => {
                if e.is_expired_at(self.ttl_seconds, now) {
                    None
                } else {
                    Some(e.value.clone())
                }
            },
            None => None,
        }
    }

    /// The value cached under `board_name` if it is fresh now.
    pub fn get_board_id(&self, board_name: &str) -> (r: Option<String>)
        requires
            self.wf(),
        ensures
            match r {
                Some(v) => self.board_ids().contains_key(board_name@) && v@ == self.board_ids()[board_name@].value@,
                None => true,
            },
            !self.board_ids().contains_key(board_name@) ==> r is None,
            exists|now: u64| #![trigger fresh_entry(self.board_ids(), board_name@, self.ttl(), now)]
                match fresh_entry(self.board_ids(), board_name@, self.ttl(), now) {
                    Some(e) => r matches Some(v) && v@ == e.value@,
                    None => r is None,
                },
    {
        let now = self.clock.now_nanos();
        let r = self.get_board_id_at(board_name, now);
        assert(match fresh_entry(self.board_ids(), board_name@, self.ttl(), now) {
            Some(e) => r matches Some(v) && v@ == e.value@,
            None => r is None,
        });
        r
    }

    /// Cache `board_id` under `board_name`, written at time `now`.
    pub fn set_board_id_at(&mut self, board_name: String, board_id: String, now: u64) -> (r: JiraMcpResult<()>)
        requires
            old(self).wf(),
        ensures
            r is Ok,
            final(self).board_ids() == old(self).board_ids().insert(board_name@, CacheEntry { value: board_id, created_at: now }),
            final(self).board_infos() == old(self).board_infos(),
            final(self).project_infos() == old(self).project_infos(),
            final(self).issue_types() == old(self).issue_types(),
            final(self).user_maps() == old(self).user_maps(),
            final(self).current() == old(self).current(),
            final(self).ttl() == old(self).ttl(),
            final(self).wf(),
    {
        self.board_mappings.insert_at(board_name, board_id, now);
        Ok(())
    }

    /// Cache `board_id` under `board_name`, written now.
    pub fn set_board_id(&mut self, board_name: String, board_id: String) -> (r: JiraMcpResult<()>)
        requires
            old(self).wf(),
        ensures
            r is Ok,
            exists|t: u64| final(self).board_ids() == old(self).board_ids().insert(board_name@, CacheEntry { value: board_id, created_at: t }),
            final(self).board_infos() == old(self).board_infos(),
            final(self).project_infos() == old(self).project_infos(),
            final(self).issue_types() == old(self).issue_types(),
            final(self).user_maps() == old(self).user_maps(),
            final(self).current() == old(self).current(),
            final(self).ttl() == old(self).ttl(),
            final(self).wf(),
    {
        let now = self.clock.now_nanos();
        self.set_board_id_at(board_name, board_id, now)
    }

    /// The value cached under `board_id` if it is fresh at time `now`.
    pub fn get_board_info_at(&self, board_id: &str, now: u64) -> (r: Option<BoardInfo>)
        requires
            self.wf(),
        ensures
            match r {
                Some(v) => self.board_infos().contains_key(board_id@) && fresh(self.board_infos()[board_id@], self.ttl(), now)
                    && v@ == self.board_infos()[board_id@].value@,
                None => !self.board_infos().contains_key(board_id@) || !fresh(self.board_infos()[board_id@], self.ttl(), now),
            },
    {
        match self.board_info.get_entry(board_id) {
            Some(e) => {
                if e.is_expired_at(self.ttl_seconds, now) {
                    None
                } else {
                    Some(e.value.duplicate())
                }
            },
            None => None,
        }
    }

    /// The value cached under `board_id` if it is fresh now.
    pub fn get_board_info(&self, board_id: &str) -> (r: Option<BoardInfo>)
        requires
            self.wf(),
        ensures
            match r {
                Some(v) => self.board_infos().contains_key(board_id@) && v@ == self.board_infos()[board_id@].value@,
                None => true,
            },
            !self.board_infos().contains_key(board_id@) ==> r is None,
            exists|now: u64| #![trigger fresh_entry(self.board_infos(), board_id@, self.ttl(), now)]
                match fresh_entry(self.board_infos(), board_id@, self.ttl(), now) {
                    Some(e) => r matches Some(v) && v@ == e.value@,
                    None => r is None,
                },
    {
        let now = self.clock.now_nanos();
        let r = self.get_board_info_at(board_id, now);
        assert(match fresh_entry(self.board_infos(), board_id@, self.ttl(), now) {
            Some(e) => r matches Some(v) && v@ == e.value@,
            None => r is None,
        });
        r
    }

    /// Cache `info` under `board_id`, written at time `now`.
    pub fn set_board_info_at(&mut self, board_id: String, info: BoardInfo, now: u64) -> (r: JiraMcpResult<()>)
        requires
            old(self).wf(),
        ensures
            r is Ok,
            final(self).board_infos() == old(self).board_infos().insert(board_id@, CacheEntry { value: info, created_at: now }),
            final(self).board_ids() == old(self).board_ids(),
            final(self).project_infos() == old(self).project_infos(),
            final(self).issue_types() == old(self).issue_types(),
            final(self).user_maps() == old(self).user_maps(),
            final(self).current() == old(self).current(),
            final(self).ttl() == old(self).ttl(),
            final(self).wf(),
    {
        self.board_info.insert_at(board_id, info, now);
        Ok(())
    }

    /// Cache `info` under `board_id`, written now.
    pub fn set_board_info(&mut self, board_id: String, info: BoardInfo) -> (r: JiraMcpResult<()>)
        requires
            old(self).wf(),
        ensures
            r is Ok,
            exists|t: u64| final(self).board_infos() == old(self).board_infos().insert(board_id@, CacheEntry { value: info, created_at: t }),
            final(self).board_ids() == old(self).board_ids(),
            final(self).project_infos() == old(self).project_infos(),
            final(self).issue_types() == old(self).issue_types(),
            final(self).user_maps() == old(self).user_maps(),
            final(self).current() == old(self).current(),
            final(self).ttl() == old(self).ttl(),
            final(self).wf(),
    {
        let now = self.clock.now_nanos();
        self.set_board_info_at(board_id, info, now)
    }

    /// The value cached under `project_key` if it is fresh at time `now`.
    pub fn get_project_info_at(&self, project_key: &str, now: u64) -> (r: Option<ProjectInfo>)
        requires
            self.wf(),
        ensures
            match r {
                Some(v) => self.project_infos().contains_key(project_key@) && fresh(self.project_infos()[project_key@], self.ttl(), now)
                    && v@ == self.project_infos()[project_key@].value@,
                None => !self.project_infos().contains_key(project_key@) || !fresh(self.project_infos()[project_key@], self.ttl(), now),
            },
    {
        match self.project_info.get_entry(project_key) {
            Some(e) => {
                if e.is_expired_at(self.ttl_seconds, now) {
                    None
                } else {
                    Some(e.value.duplicate())
                }
            },
            None => None,
        }
    }

    /// The value cached under `project_key` if it is fresh now.
    pub fn get_project_info(&self, project_key: &str) -> (r: Option<ProjectInfo>)
        requires
            self.wf(),
        ensures
            match r {
                Some(v) => self.project_infos().contains_key(project_key@) && v@ == self.project_infos()[project_key@].value@,
                None => true,
            },
            !self.project_infos().contains_key(project_key@) ==> r is None,
            exists|now: u64| #![trigger fresh_entry(self.project_infos(), project_key@, self.ttl(), now)]
                match fresh_entry(self.project_infos(), project_key@, self.ttl(), now) {
                    Some(e) => r matches Some(v) && v@ == e.value@,
                    None => r is None,
                },
    {
        let now = self.clock.now_nanos();
        let r = self.get_project_info_at(project_key, now);
        assert(match fresh_entry(self.project_infos(), project_key@, self.ttl(), now) {
            Some(e) => r matches Some(v) && v@ == e.value@,
            None => r is None,
        });
        r
    }

    /// Cache `info` under `project_key`, written at time `now`.
    pub fn set_project_info_at(&mut self, project_key: String, info: ProjectInfo, now: u64) -> (r: JiraMcpResult<()>)
        requires
            old(self).wf(),
        ensures
            r is Ok,
            final(self).project_infos() == old(self).project_infos().insert(project_key@, CacheEntry { value: info, created_at: now }),
            final(self).board_ids() == old(self).board_ids(),
            final(self).board_infos() == old(self).board_infos(),
            final(self).issue_types() == old(self).issue_types(),
            final(self).user_maps() == old(self).user_maps(),
            final(self).current() == old(self).current(),
            final(self).ttl() == old(self).ttl(),
            final(self).wf(),
    {
        self.project_info.insert_at(project_key, info, now);
        Ok(())
    }

    /// Cache `info` under `project_key`, written now.
    pub fn set_project_info(&mut self, project_key: String, info: ProjectInfo) -> (r: JiraMcpResult<()>)
        requires
            old(self).wf(),
        ensures
            r is Ok,
            exists|t: u64| final(self).project_infos() == old(self).project_infos().insert(project_key@, CacheEntry { value: info, created_at: t }),
            final(self).board_ids() == old(self).board_ids(),
            final(self).board_infos() == old(self).board_infos(),
            final(self).issue_types() == old(self).issue_types(),
            final(self).user_maps() == old(self).user_maps(),
            final(self).current() == old(self).current(),
            final(self).ttl() == old(self).ttl(),
            final(self).wf(),
    {
        let now = self.clock.now_nanos();
        self.set_project_info_at(project_key, info, now)
    }

    /// The value cached under `project_key` if it is fresh at time `now`.
    pub fn get_project_issue_types_at(&self, project_key: &str, now: u64) -> (r: Option<Vec<IssueTypeInfo>>)
        requires
            self.wf(),
        ensures
            match r {
                Some(v) => self.issue_types().contains_key(project_key@) && fresh(self.issue_types()[project_key@], self.ttl(), now)
                    && issue_types_view(v@) == issue_types_view(self.issue_types()[project_key@].value@),
                None => !self.issue_types().contains_key(project_key@) || !fresh(self.issue_types()[project_key@], self.ttl(), now),
            },
    {
        match self.project_issue_types.get_entry(project_key) {
            Some(e) => {
                if e.is_expired_at(self.ttl_seconds, now) {
                    None
                } else {
                    Some(duplicate_issue_types(&e.value))
                }
            },
            None => None,
        }
    }

    /// The value cached under `project_key` if it is fresh now.
    pub fn get_project_issue_types(&self, project_key: &str) -> (r: Option<Vec<IssueTypeInfo>>)
        requires
            self.wf(),
        ensures
            match r {
                Some(v) => self.issue_types().contains_key(project_key@) && issue_types_view(v@) == issue_types_view(self.issue_types()[project_key@].value@),
                None => true,
            },
            !self.issue_types().contains_key(project_key@) ==> r is None,
            exists|now: u64| #![trigger fresh_entry(self.issue_types(), project_key@, self.ttl(), now)]
                match fresh_entry(self.issue_types(), project_key@, self.ttl(), now) {
                    Some(e) => r matches Some(v) && issue_types_view(v@) == issue_types_view(e.value@),
                    None => r is None,
                },
    {
        let now = self.clock.now_nanos();
        let r = self.get_project_issue_types_at(project_key, now);
        assert(match fresh_entry(self.issue_types(), project_key@, self.ttl(), now) {
            Some(e) => r matches Some(v) && issue_types_view(v@) == issue_types_view(e.value@),
            None => r is None,
        });
        r
    }

    /// Cache `issue_types` under `project_key`, written at time `now`.
    pub fn set_project_issue_types_at(&mut self, project_key: String, issue_types: Vec<IssueTypeInfo>, now: u64) -> (r: JiraMcpResult<()>)
        requires
            old(self).wf(),
        ensures
            r is Ok,
            final(self).issue_types() == old(self).issue_types().insert(project_key@, CacheEntry { value: issue_types, created_at: now }),
            final(self).board_ids() == old(self).board_ids(),
            final(self).board_infos() == old(self).board_infos(),
            final(self).project_infos() == old(self).project_infos(),
            final(self).user_maps() == old(self).user_maps(),
            final(self).current() == old(self).current(),
            final(self).ttl() == old(self).ttl(),
            final(self).wf(),
    {
        self.project_issue_types.insert_at(project_key, issue_types, now);
        Ok(())
    }

    /// Cache `issue_types` under `project_key`, written now.
    pub fn set_project_issue_types(&mut self, project_key: String, issue_types: Vec<IssueTypeInfo>) -> (r: JiraMcpResult<()>)
        requires
            old(self).wf(),
        ensures
            r is Ok,
            exists|t: u64| final(self).issue_types() == old(self).issue_types().insert(project_key@, CacheEntry { value: issue_types, created_at: t }),
            final(self).board_ids() == old(self).board_ids(),
            final(self).board_infos() == old(self).board_infos(),
            final(self).project_infos() == old(self).project_infos(),
            final(self).user_maps() == old(self).user_maps(),
            final(self).current() == old(self).current(),
            final(self).ttl() == old(self).ttl(),
            final(self).wf(),
    {
        let now = self.clock.now_nanos();
        self.set_project_issue_types_at(project_key, issue_types, now)
    }

    /// The value cached under `identifier` if it is fresh at time `now`.
    pub fn get_user_mapping_at(&self, identifier: &str, now: u64) -> (r: Option<UserMapping>)
        requires
            self.wf(),
        ensures
            match r {
                Some(v) => self.user_maps().contains_key(identifier@) && fresh(self.user_maps()[identifier@], self.ttl(), now)
                    && v@ == self.user_maps()[identifier@].value@,
                None => !self.user_maps().contains_key(identifier@) || !fresh(self.user_maps()[identifier@], self.ttl(), now),
            },
    {
        match self.user_mappings.get_entry(identifier) {
            Some(e) => {
                if e.is_expired_at(self.ttl_seconds, now) {
                    None
                } else {
                    Some(e.value.duplicate())
                }
            },
            None => None,
        }
    }

    /// The value cached under `identifier` if it is fresh now.
    pub fn get_user_mapping(&self, identifier: &str) -> (r: Option<UserMapping>)
        requires
            self.wf(),
        ensures
            match r {
                Some(v) => self.user_maps().contains_key(identifier@) && v@ == self.user_maps()[identifier@].value@,
                None => true,
            },
            !self.user_maps().contains_key(identifier@) ==> r is None,
            exists|now: u64| #![trigger fresh_entry(self.user_maps(), identifier@, self.ttl(), now)]
                match fresh_entry(self.user_maps(), identifier@, self.ttl(), now) {
                    Some(e) => r matches Some(v) && v@ == e.value@,
                    None => r is None,
                },
    {
        let now = self.clock.now_nanos();
        let r = self.get_user_mapping_at(identifier, now);
        assert(match fresh_entry(self.user_maps(), identifier@, self.ttl(), now) {
            Some(e) => r matches Some(v) && v@ == e.value@,
            None => r is None,
        });
        r
    }

    /// Cache `mapping` under `identifier`, written at time `now`.
    pub fn set_user_mapping_at(&mut self, identifier: String, mapping: UserMapping, now: u64) -> (r: JiraMcpResult<()>)
        requires
            old(self).wf(),
        ensures
            r is Ok,
            final(self).user_maps() == old(self).user_maps().insert(identifier@, CacheEntry { value: mapping, created_at: now }),
            final(self).board_ids() == old(self).board_ids(),
            final(self).board_infos() == old(self).board_infos(),
            final(self).project_infos() == old(self).project_infos(),
            final(self).issue_types() == old(self).issue_types(),
            final(self).current() == old(self).current(),
            final(self).ttl() == old(self).ttl(),
            final(self).wf(),
    {
        self.user_mappings.insert_at(identifier, mapping, now);
        Ok(())
    }

    /// Cache `mapping` under `identifier`, written now.
    pub fn set_user_mapping(&mut self, identifier: String, mapping: UserMapping) -> (r: JiraMcpResult<()>)
        requires
            old(self).wf(),
        ensures
            r is Ok,
            exists|t: u64| final(self).user_maps() == old(self).user_maps().insert(identifier@, CacheEntry { value: mapping, created_at: t }),
            final(self).board_ids() == old(self).board_ids(),
            final(self).board_infos() == old(self).board_infos(),
            final(self).project_infos() == old(self).project_infos(),
            final(self).issue_types() == old(self).issue_types(),
            final(self).current() == old(self).current(),
            final(self).ttl() == old(self).ttl(),
            final(self).wf(),
    {
        let now = self.clock.now_nanos();
        self.set_user_mapping_at(identifier, mapping, now)
    }

    /// The current user if it is cached and fresh at time `now`.
    pub fn get_current_user_at(&self, now: u64) -> (r: Option<UserMapping>)
        ensures
            match r {
                Some(v) => self.current() matches Some(e) && fresh(e, self.ttl(), now) && v@ == e.value@,
                None => self.current() matches Some(e) ==> !fresh(e, self.ttl(), now),
            },
    {
        match &self.current_user {
            Some(e) => {
                if e.is_expired_at(self.ttl_seconds, now) {
                    None
                } else {
                    Some(e.value.duplicate())
                }
            },
            None => None,
        }
    }

    /// The current user if it is cached and fresh now.
    pub fn get_current_user(&self) -> (r: Option<UserMapping>)
        ensures
            match r {
                Some(v) => self.current() matches Some(e) && v@ == e.value@,
                None => true,
            },
            self.current() is None ==> r is None,
            exists|now: u64| #![trigger fresh_current(self.current(), self.ttl(), now)]
                match fresh_current(self.current(), self.ttl(), now) {
                    Some(e) => r matches Some(v) && v@ == e.value@,
                    None => r is None,
                },
    {
        let now = self.clock.now_nanos();
        let r = self.get_current_user_at(now);
        assert(match fresh_current(self.current(), self.ttl(), now) {
            Some(e) => r matches Some(v) && v@ == e.value@,
            None => r is None,
        });
        r
    }

    /// Cache the current user, written at time `now`.
    pub fn set_current_user_at(&mut self, user: UserMapping, now: u64) -> (r: JiraMcpResult<()>)
        requires
            old(self).wf(),
        ensures
            r is Ok,
            final(self).current() == Some(CacheEntry { value: user, created_at: now }),
            final(self).board_ids() == old(self).board_ids(),
            final(self).board_infos() == old(self).board_infos(),
            final(self).project_infos() == old(self).project_infos(),
            final(self).issue_types() == old(self).issue_types(),
            final(self).user_maps() == old(self).user_maps(),
            final(self).ttl() == old(self).ttl(),
            final(self).wf(),
    {
        self.current_user = Some(CacheEntry { value: user, created_at: now });
        Ok(())
    }

    /// Cache the current user, written now.
    pub fn set_current_user(&mut self, user: UserMapping) -> (r: JiraMcpResult<()>)
        requires
            old(self).wf(),
        ensures
            r is Ok,
            exists|t: u64| final(self).current() == Some(CacheEntry { value: user, created_at: t }),
            final(self).board_ids() == old(self).board_ids(),
            final(self).board_infos() == old(self).board_infos(),
            final(self).project_infos() == old(self).project_infos(),
            final(self).issue_types() == old(self).issue_types(),
            final(self).user_maps() == old(self).user_maps(),
            final(self).ttl() == old(self).ttl(),
            final(self).wf(),
    {
        let now = self.clock.now_nanos();
        self.set_current_user_at(user, now)
    }

    /// What resolving `user_ref` at time `now` gives: for "me" or
    /// "current_user" (in any case) the account ID of the fresh current
    /// user, otherwise that of the fresh user mapping cached under it.
    pub open spec fn resolves_to(&self, user_ref: Seq<char>, now: u64, r: Option<String>) -> bool {
        let l = lowercase(user_ref);
        if l == "me"@ || l == "current_user"@ {
            match r {
                Some(a) => self.current() matches Some(e) && fresh(e, self.ttl(), now)
                    && a@ == e.value.account_id@,
                None => self.current() matches Some(e) ==> !fresh(e, self.ttl(), now),
            }
        } else {
            match r {
                Some(a) => self.user_maps().contains_key(user_ref) && fresh(
                    self.user_maps()[user_ref],
                    self.ttl(),
                    now,
                ) && a@ == self.user_maps()[user_ref].value.account_id@,
                None => !self.user_maps().contains_key(user_ref) || !fresh(
                    self.user_maps()[user_ref],
                    self.ttl(),
                    now,
                ),
            }
        }
    }

    /// Resolve "me" or "current_user" (in any case) to the account ID of
    /// the current user, and any other reference to the account ID of the
    /// user mapping cached under it; only fresh entries at time `now` count.
    pub fn resolve_user_reference_at(&self, user_ref: &str, now: u64) -> (r: Option<String>)
        requires
            self.wf(),
        ensures
            self.resolves_to(user_ref@, now, r),
    {
        let lower = to_lowercase(user_ref);
        if str_eq(lower.as_str(), "me") || str_eq(lower.as_str(), "current_user") {
            match self.get_current_user_at(now) {
                Some(u) => Some(u.account_id),
                None => None,
            }
        } else {
            match self.get_user_mapping_at(user_ref, now) {
                Some(u) => Some(u.account_id),
                None => None,
            }
        }
    }

    /// `resolve_user_reference_at` at the current time.
    pub fn resolve_user_reference(&self, user_ref: &str) -> (r: Option<String>)
        requires
            self.wf(),
        ensures
            exists|now: u64| #[trigger] self.resolves_to(user_ref@, now, r),
    {
        let now = self.clock.now_nanos();
        self.resolve_user_reference_at(user_ref, now)
    }

    /// Get cache statistics
    pub fn get_stats(&self) -> (r: CacheStats)
        requires
            self.wf(),
        ensures
            r.board_mappings_count == self.board_ids_count(),
            r.board_info_count == self.board_infos_count(),
            r.project_info_count == self.project_infos_count(),
            r.project_issue_types_count == self.issue_types_count(),
            r.user_mappings_count == self.user_maps_count(),
            r.has_current_user == self.current() is Some,
            r.ttl_seconds == self.ttl(),
            r.board_mappings_count == self.board_ids().dom().len(),
            r.board_info_count == self.board_infos().dom().len(),
            r.project_info_count == self.project_infos().dom().len(),
            r.project_issue_types_count == self.issue_types().dom().len(),
            r.user_mappings_count == self.user_maps().dom().len(),
    {
        CacheStats {
            board_mappings_count: self.board_mappings.len(),
            board_info_count: self.board_info.len(),
            project_info_count: self.project_info.len(),
            project_issue_types_count: self.project_issue_types.len(),
            user_mappings_count: self.user_mappings.len(),
            has_current_user: self.current_user.is_some(),
            ttl_seconds: self.ttl_seconds,
        }
    }

    /// Clear all cache entries
    pub fn clear_all(&mut self) -> (r: JiraMcpResult<()>)
        ensures
            r is Ok,
            final(self).wf(),
            final(self).ttl() == old(self).ttl(),
            final(self).current() is None,
            final(self).board_ids() == Map::<Seq<char>, CacheEntry<String>>::empty(),
            final(self).board_ids_count() == 0,
            final(self).board_infos() == Map::<Seq<char>, CacheEntry<BoardInfo>>::empty(),
            final(self).board_infos_count() == 0,
            final(self).project_infos() == Map::<Seq<char>, CacheEntry<ProjectInfo>>::empty(),
            final(self).project_infos_count() == 0,
            final(self).issue_types() == Map::<Seq<char>, CacheEntry<Vec<IssueTypeInfo>>>::empty(),
            final(self).issue_types_count() == 0,
            final(self).user_maps() == Map::<Seq<char>, CacheEntry<UserMapping>>::empty(),
            final(self).user_maps_count() == 0,
    {
        self.board_mappings.clear();
        self.board_info.clear();
        self.project_info.clear();
        self.project_issue_types.clear();
        self.user_mappings.clear();
        self.current_user = None;
        Ok(())
    }

    /// Clean up the entries that are expired at time `now`; returns how
    /// many were removed.
    pub fn cleanup_expired_at(&mut self, now: u64) -> (removed: u64)
        requires
            old(self).wf(),
        ensures
            final(self).wf(),
            spec_cleaned(*old(self), *final(self), now, removed),
    {
        let ttl = self.ttl_seconds;
        let a = self.board_mappings.remove_expired_at(ttl, now) as u64;
        let b = self.board_info.remove_expired_at(ttl, now) as u64;
        let c = self.project_info.remove_expired_at(ttl, now) as u64;
        let d = self.project_issue_types.remove_expired_at(ttl, now) as u64;
        let e = self.user_mappings.remove_expired_at(ttl, now) as u64;
        let mut removed: u64 = a;
        removed = removed.saturating_add(b);
        removed = removed.saturating_add(c);
        removed = removed.saturating_add(d);
        removed = removed.saturating_add(e);
        let expired_user = match &self.current_user {
            Some(entry) => entry.is_expired_at(ttl, now),
            None => false,
        };
        if expired_user {
            self.current_user = None;
            removed = removed.saturating_add(1);
        }
        removed
    }

    /// Clean up the entries that are expired now; returns how many were
    /// removed.
    pub fn cleanup_expired(&mut self) -> (removed: u64)
        requires
            old(self).wf(),
        ensures
            final(self).wf(),
            final(self).ttl() == old(self).ttl(),
            exists|now: u64| spec_cleaned(*old(self), *final(self), now, removed),
    {
        let now = self.clock.now_nanos();
        self.cleanup_expired_at(now)
    }
}

/// What a write gives back: right after `value` is written under `key` at
/// time `written`, the map holds it under that key, and it stays fresh
/// until the time-to-live has passed.
pub proof fn law_read_after_write<V>(
    m: Map<Seq<char>, CacheEntry<V>>,
    key: Seq<char>,
    value: V,
    written: u64,
    ttl_seconds: u64,
    now: u64,
)
    requires
        written <= now,
        now - written <= ttl_seconds as int * NANOS_PER_SECOND as int,
    ensures
        ({
            let m2 = m.insert(key, CacheEntry { value, created_at: written });
            &&& m2.contains_key(key)
            &&& m2[key].value == value
            &&& fresh(m2[key], ttl_seconds, now)
        }),
{
}

/// A write under one key leaves every other key as it was.
pub proof fn law_write_is_local<V>(
    m: Map<Seq<char>, CacheEntry<V>>,
    key: Seq<char>,
    other: Seq<char>,
    e: CacheEntry<V>,
)
    requires
        key != other,
    ensures
        m.insert(key, e).contains_key(other) == m.contains_key(other),
        m.contains_key(other) ==> m.insert(key, e)[other] == m[other],
{
}

/// An entry that has outlived the time-to-live is never given back.
pub proof fn law_expired_not_read<V>(e: CacheEntry<V>, ttl_seconds: u64, now: u64)
    requires
        now >= e.created_at,
        now - e.created_at > ttl_seconds as int * NANOS_PER_SECOND as int,
    ensures
        !fresh(e, ttl_seconds, now),
{
}

} // verus!
