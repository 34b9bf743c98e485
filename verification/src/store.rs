//! The relational semantics of the record store, verified in memory.
//!
//! `RecordTable` is the table of `(workspace path, session-file path)` rows
//! that the registry persists: both columns are unique, inserts fail on a
//! collision instead of replacing, and lookups by workspace return at most
//! one row.  The sqlite-backed operations promise exactly this behaviour
//! at their boundary; here the behaviour itself is stated and proved.

use vstd::prelude::*;
use vstd::seq_lib::*;

use crate::errors::StorageError;
use crate::record::{SessionData, SpecRecord};
use crate::strutil::{contains_str, spec_contains_str, str_eq};

verus! {

/// The sequence of record images held by a row vector.
pub open spec fn rows_view(rows: Seq<SessionData>) -> Seq<SpecRecord> {
    rows.map_values(|r: SessionData| r@)
}

/// Key uniqueness: at most one record per workspace path.
pub open spec fn unique_paths(s: Seq<SpecRecord>) -> bool {
    forall|i: int, j: int| 0 <= i < j < s.len() ==> s[i].path != s[j].path
}

/// File uniqueness: at most one record per session-file path.
pub open spec fn unique_datas(s: Seq<SpecRecord>) -> bool {
    forall|i: int, j: int| 0 <= i < j < s.len() ==> s[i].data != s[j].data
}

/// A well-formed record list: both uniqueness invariants hold.
pub open spec fn wf_records(s: Seq<SpecRecord>) -> bool {
    unique_paths(s) && unique_datas(s)
}

/// Some record is registered for workspace `w`.
pub open spec fn contains_path(s: Seq<SpecRecord>, w: Seq<char>) -> bool {
    exists|i: int| 0 <= i < s.len() && s[i].path == w
}

/// Some record points at the session file `d`.
pub open spec fn contains_data(s: Seq<SpecRecord>, d: Seq<char>) -> bool {
    exists|i: int| 0 <= i < s.len() && s[i].data == d
}

/// The session-file path registered for workspace `w` (meaningful only
/// when `contains_path(s, w)`; unique when `unique_paths(s)`).
pub open spec fn data_for(s: Seq<SpecRecord>, w: Seq<char>) -> Seq<char> {
    s[choose|i: int| 0 <= i < s.len() && s[i].path == w].data
}

/// State after one get-or-create step with workspace `w`, where `fresh`
/// is the session-file path that would be used for a new record: a hit
/// leaves the table unchanged, a collision of `fresh` with a registered
/// file path changes nothing, and otherwise the new record is appended.
pub open spec fn goc_state(s: Seq<SpecRecord>, w: Seq<char>, fresh: Seq<char>) -> Seq<SpecRecord> {
    if contains_path(s, w) {
        s
    } else if contains_data(s, fresh) {
        s
    } else {
        s.push(SpecRecord { path: w, data: fresh })
    }
}

/// Result of the same get-or-create step: the registered path on a hit,
/// `fresh` on a successful insert, and a constraint violation when
/// `fresh` collides with a registered file path.
pub open spec fn goc_result(s: Seq<SpecRecord>, w: Seq<char>, fresh: Seq<char>) -> Result<
    Seq<char>,
    StorageError,
> {
    if contains_path(s, w) {
        Ok(data_for(s, w))
    } else if contains_data(s, fresh) {
        Err(StorageError::ConstraintViolation)
    } else {
        Ok(fresh)
    }
}

/// Keeps the records whose workspace path is outside the given key set.
pub open spec fn outside_keys(keys: Seq<Seq<char>>) -> spec_fn(SpecRecord) -> bool {
    |r: SpecRecord| !spec_contains_str(keys, r.path)
}

/// Table contents after a bulk delete of the workspaces in `keys`.
pub open spec fn delete_state(s: Seq<SpecRecord>, keys: Seq<Seq<char>>) -> Seq<SpecRecord> {
    s.filter(outside_keys(keys))
}

/// The in-memory record table.
pub struct RecordTable {
    rows: Vec<SessionData>,
}

impl View for RecordTable {
    type V = Seq<SpecRecord>;

    closed spec fn view(&self) -> Seq<SpecRecord> {
        rows_view(self.rows@)
    }
}

impl RecordTable {
    /// Both uniqueness invariants, as a predicate on the table.
    pub open spec fn wf(self) -> bool {
        wf_records(self@)
    }

    /// An empty table, as `init_schema` leaves a fresh database.
    pub fn new() -> (r: Self)
        ensures
            r@ == Seq::<SpecRecord>::empty(),
            r.wf(),
    {
        let rows: Vec<SessionData> = Vec::new();
        proof {
            assert(rows_view(rows@) =~= Seq::<SpecRecord>::empty());
        }
        RecordTable { rows }
    }

    /// Index of the record registered for `w`, if any.
    fn find_index(&self, w: &str) -> (r: Option<usize>)
        ensures
            match r {
                Some(i) => i < self@.len() && self@[i as int].path == w@,
                None => !contains_path(self@, w@),
            },
    {
        let mut i: usize = 0;
        while i < self.rows.len()
            invariant
                i <= self.rows@.len(),
                self@ == rows_view(self.rows@),
                forall|j: int| 0 <= j < i ==> self@[j].path != w@,
            decreases self.rows@.len() - i,
        {
            if str_eq(self.rows[i].path.as_str(), w) {
                return Some(i);
            }
            i += 1;
        }
        None
    }

    /// Whether some record points at the session file `d`.
    fn contains_file(&self, d: &str) -> (r: bool)
        ensures
            r == contains_data(self@, d@),
    {
        let mut i: usize = 0;
        while i < self.rows.len()
            invariant
                i <= self.rows@.len(),
                self@ == rows_view(self.rows@),
                forall|j: int| 0 <= j < i ==> self@[j].data != d@,
            decreases self.rows@.len() - i,
        {
            if str_eq(self.rows[i].data.as_str(), d) {
                proof {
                    assert(self@[i as int].data == d@);
                    assert(contains_data(self@, d@));
                }
                return true;
            }
            i += 1;
        }
        false
    }

    /// The record registered for workspace `w`, or `None` when no row
    /// matches; a missing row is an expected outcome, not an error.
    pub fn find_by_workspace(&self, w: &str) -> (r: Option<SessionData>)
        requires
            self.wf(),
        ensures
            match r {
                Some(rec) => {
                    &&& contains_path(self@, w@)
                    &&& rec@.path == w@
                    &&& rec@.data == data_for(self@, w@)
                },
                None => !contains_path(self@, w@),
            },
    {
        match self.find_index(w) {
            Some(i) => {
                let rec = self.rows[i].clone();
                proof {
                    let j = choose|j: int| 0 <= j < self@.len() && self@[j].path == w@;
                    assert(j == i);
                }
                Some(rec)
            },
            None => None,
        }
    }

    /// Appends a new record; fails with `ConstraintViolation`, leaving the
    /// table unchanged, iff either unique column is already taken.
    pub fn insert(&mut self, rec: SessionData) -> (r: Result<(), StorageError>)
        requires
            old(self).wf(),
        ensures
            final(self).wf(),
            if contains_path(old(self)@, rec@.path) || contains_data(old(self)@, rec@.data) {
                &&& final(self)@ == old(self)@
                &&& r == Err::<(), StorageError>(StorageError::ConstraintViolation)
            } else {
                &&& final(self)@ == old(self)@.push(rec@)
                &&& r == Ok::<(), StorageError>(())
            },
    {
        if self.find_index(rec.path.as_str()).is_some() {
            return Err(StorageError::ConstraintViolation);
        }
        if self.contains_file(rec.data.as_str()) {
            return Err(StorageError::ConstraintViolation);
        }
        let ghost old_rows = self.rows@;
        self.rows.push(rec);
        proof {
            assert(rows_view(self.rows@) =~= rows_view(old_rows).push(self.rows@.last()@));
        }
        Ok(())
    }

    /// Full snapshot of the table.
    pub fn list_all(&self) -> (r: Vec<SessionData>)
        ensures
            rows_view(r@) == self@,
    {
        let mut out: Vec<SessionData> = Vec::new();
        let mut i: usize = 0;
        while i < self.rows.len()
            invariant
                i <= self.rows@.len(),
                rows_view(out@) == rows_view(self.rows@).take(i as int),
            decreases self.rows@.len() - i,
        {
            let ghost prev = out@;
            out.push(self.rows[i].clone());
            proof {
                assert(rows_view(out@) =~= rows_view(prev).push(self.rows@[i as int]@));
                assert(rows_view(self.rows@).take(i + 1) =~= rows_view(self.rows@).take(
                    i as int,
                ).push(self.rows@[i as int]@));
            }
            i += 1;
        }
        proof {
            assert(rows_view(self.rows@).take(self.rows@.len() as int) =~= rows_view(self.rows@));
        }
        out
    }

    /// Bulk delete of every record whose workspace path occurs in `keys`;
    /// used only by reconciliation.  A no-op on an empty key set.
    pub fn delete_where_workspace_in(&mut self, keys: &Vec<String>)
        requires
            old(self).wf(),
        ensures
            final(self).wf(),
            final(self)@ == delete_state(old(self)@, keys@.map_values(|s: String| s@)),
    {
        let ghost keyviews = keys@.map_values(|s: String| s@);
        let ghost v = self@;
        let mut kept: Vec<SessionData> = Vec::new();
        let mut i: usize = 0;
        proof {
            assert(v.take(0).filter(outside_keys(keyviews)) =~= rows_view(kept@));
        }
        while i < self.rows.len()
            invariant
                i <= self.rows@.len(),
                v == rows_view(self.rows@),
                wf_records(v),
                keyviews == keys@.map_values(|s: String| s@),
                rows_view(kept@) == v.take(i as int).filter(outside_keys(keyviews)),
            decreases self.rows@.len() - i,
        {
            proof {
                broadcast use Seq::lemma_filter_push;

                assert(v.take(i + 1) =~= v.take(i as int).push(v[i as int]));
                assert(v.take(i + 1).filter(outside_keys(keyviews)) == if outside_keys(keyviews)(
                    v[i as int],
                ) {
                    v.take(i as int).filter(outside_keys(keyviews)).push(v[i as int])
                } else {
                    v.take(i as int).filter(outside_keys(keyviews))
                });
            }
            if !contains_str(keys, self.rows[i].path.as_str()) {
                let ghost prev = kept@;
                kept.push(self.rows[i].clone());
                proof {
                    assert(outside_keys(keyviews)(v[i as int]));
                    assert(rows_view(kept@) =~= rows_view(prev).push(v[i as int]));
                }
            } else {
                proof {
                    assert(!outside_keys(keyviews)(v[i as int]));
                }
            }
            i += 1;
        }
        proof {
            assert(v.take(v.len() as int) =~= v);
            let pred = outside_keys(keyviews);
            broadcast use Seq::lemma_filter_pred, Seq::lemma_filter_len;

            assert forall|a: int, b: int|
                0 <= a < b < v.filter(pred).len() implies v.filter(pred)[a].path != v.filter(
                pred,
            )[b].path && v.filter(pred)[a].data != v.filter(pred)[b].data by {
                lemma_filter_still_unique(v, pred, a, b);
            }
        }
        self.rows = kept;
    }

    /// Get-or-create: on a hit the registered path is returned and nothing
    /// changes; on a miss a record `(w, fresh)` is inserted and `fresh` is
    /// returned, unless `fresh` collides with a registered file path, which
    /// fails with `ConstraintViolation` and changes nothing.
    pub fn get_or_create(&mut self, w: &str, fresh: String) -> (r: Result<String, StorageError>)
        requires
            old(self).wf(),
        ensures
            final(self).wf(),
            final(self)@ == goc_state(old(self)@, w@, fresh@),
            match r {
                Ok(d) => goc_result(old(self)@, w@, fresh@) == Ok::<Seq<char>, StorageError>(d@),
                Err(e) => goc_result(old(self)@, w@, fresh@) == Err::<Seq<char>, StorageError>(e),
            },
    {
        match self.find_by_workspace(w) {
            Some(rec) => Ok(rec.data),
            None => {
                let rec = SessionData { path: String::from_str(w), data: fresh.clone() };
                match self.insert(rec) {
                    Ok(()) => Ok(fresh),
                    Err(e) => Err(e),
                }
            },
        }
    }
}

/// Records selected by a filter keep the uniqueness of both columns.
proof fn lemma_filter_still_unique(
    v: Seq<SpecRecord>,
    pred: spec_fn(SpecRecord) -> bool,
    a: int,
    b: int,
)
    requires
        wf_records(v),
        0 <= a < b < v.filter(pred).len(),
    ensures
        v.filter(pred)[a].path != v.filter(pred)[b].path,
        v.filter(pred)[a].data != v.filter(pred)[b].data,
    decreases v.len(),
{
    reveal(Seq::filter);
    broadcast use Seq::lemma_filter_len;

    if v.len() > 0 {
        let sub = v.drop_last().filter(pred);
        if pred(v.last()) {
            if b < sub.len() {
                lemma_filter_still_unique(v.drop_last(), pred, a, b);
            } else {
                // b is the appended last element; a comes from the prefix.
                lemma_filter_index_member(v.drop_last(), pred, a);
                let i = choose|i: int|
                    0 <= i < v.drop_last().len() && v.drop_last()[i] == sub[a];
                assert(v[i] == sub[a]);
                assert(v.filter(pred)[b] == v.last());
            }
        } else {
            lemma_filter_still_unique(v.drop_last(), pred, a, b);
        }
    }
}

/// Every element of a filtered sequence occurs in the sequence it
/// was filtered from.
proof fn lemma_filter_index_member(v: Seq<SpecRecord>, pred: spec_fn(SpecRecord) -> bool, a: int)
    requires
        0 <= a < v.filter(pred).len(),
    ensures
        exists|i: int| 0 <= i < v.len() && v[i] == v.filter(pred)[a],
    decreases v.len(),
{
    reveal(Seq::filter);
    broadcast use Seq::lemma_filter_len;

    if v.len() > 0 {
        let sub = v.drop_last().filter(pred);
        if pred(v.last()) && a == sub.len() {
            assert(v[v.len() - 1] == v.filter(pred)[a]);
        } else {
            lemma_filter_index_member(v.drop_last(), pred, a);
            let i = choose|i: int| 0 <= i < v.drop_last().len() && v.drop_last()[i] == v.filter(pred)[a];
            assert(v[i] == v.filter(pred)[a]);
        }
    }
}


/// One recorded get-or-create invocation: the workspace asked for and the
/// fresh session-file path that would be used on a miss.
pub ghost struct GocCall {
    pub w: Seq<char>,
    pub fresh: Seq<char>,
}

/// The table left by running a sequence of get-or-create calls in order.
pub open spec fn run_goc(s: Seq<SpecRecord>, calls: Seq<GocCall>) -> Seq<SpecRecord>
    decreases calls.len(),
{
    if calls.len() == 0 {
        s
    } else {
        run_goc(goc_state(s, calls[0].w, calls[0].fresh), calls.drop_first())
    }
}

/// The workspace-path column of a record list.
pub open spec fn paths_of(s: Seq<SpecRecord>) -> Seq<Seq<char>> {
    s.map_values(|r: SpecRecord| r.path)
}

/// The fresh session-file paths of a call sequence.
pub open spec fn freshes_of(calls: Seq<GocCall>) -> Seq<Seq<char>> {
    calls.map_values(|c: GocCall| c.fresh)
}

/// The set of distinct workspaces a call sequence asks for.
pub open spec fn workspaces_of(calls: Seq<GocCall>) -> Set<Seq<char>> {
    calls.map_values(|c: GocCall| c.w).to_set()
}

/// How many records are registered for workspace `w`.
pub open spec fn count_path(s: Seq<SpecRecord>, w: Seq<char>) -> nat
    decreases s.len(),
{
    if s.len() == 0 {
        0
    } else {
        count_path(s.drop_last(), w) + (if s.last().path == w {
            1nat
        } else {
            0nat
        })
    }
}

/// A workspace without a record is counted zero times.
proof fn lemma_count_path_zero(s: Seq<SpecRecord>, w: Seq<char>)
    requires
        !contains_path(s, w),
    ensures
        count_path(s, w) == 0,
    decreases s.len(),
{
    if s.len() > 0 {
        assert(forall|i: int| 0 <= i < s.len() - 1 ==> s.drop_last()[i] == s[i]);
        lemma_count_path_zero(s.drop_last(), w);
    }
}

/// Law: get-or-create is idempotent.  For a workspace `w` with no record,
/// the first call registers `(w, f1)` and returns `f1`; an immediately
/// following call for the same workspace returns the same session-file
/// path, whatever fresh name `f2` it would have used, and leaves the
/// table unchanged; exactly one record for `w` exists afterwards.
pub proof fn lemma_get_or_create_idempotent(
    s: Seq<SpecRecord>,
    w: Seq<char>,
    f1: Seq<char>,
    f2: Seq<char>,
)
    requires
        wf_records(s),
        !contains_path(s, w),
        !contains_data(s, f1),
    ensures
        goc_result(s, w, f1) == Ok::<Seq<char>, StorageError>(f1),
        goc_result(goc_state(s, w, f1), w, f2) == Ok::<Seq<char>, StorageError>(f1),
        goc_state(goc_state(s, w, f1), w, f2) == goc_state(s, w, f1),
        count_path(goc_state(s, w, f1), w) == 1,
{
    let rec = SpecRecord { path: w, data: f1 };
    let s1 = s.push(rec);
    assert(goc_state(s, w, f1) == s1);
    assert(s1[s.len() as int].path == w);
    assert(contains_path(s1, w));
    let j = choose|j: int| 0 <= j < s1.len() && s1[j].path == w;
    if j < s.len() {
        assert(s[j].path == w);
        assert(contains_path(s, w));
    }
    assert(data_for(s1, w) == f1);
    lemma_count_path_zero(s, w);
    assert(s1.drop_last() =~= s);
    assert(count_path(s1, w) == 1);
}

/// All fresh names a call sequence may use are pairwise distinct.
pub open spec fn distinct_freshes(calls: Seq<GocCall>) -> bool {
    freshes_of(calls).no_duplicates()
}

/// Induction step behind the key-uniqueness law: running calls whose
/// fresh names are distinct and unused keeps the table well formed, and
/// the workspace column afterwards is the old column plus the workspaces
/// asked for.
proof fn lemma_run_goc_general(s: Seq<SpecRecord>, calls: Seq<GocCall>)
    requires
        wf_records(s),
        distinct_freshes(calls),
        forall|i: int| 0 <= i < calls.len() ==> !contains_data(s, #[trigger] calls[i].fresh),
    ensures
        wf_records(run_goc(s, calls)),
        paths_of(run_goc(s, calls)).to_set() == paths_of(s).to_set() + workspaces_of(calls),
    decreases calls.len(),
{
    if calls.len() == 0 {
        assert(paths_of(s).to_set() + workspaces_of(calls) =~= paths_of(s).to_set());
    } else {
        let c = calls[0];
        let rest = calls.drop_first();
        let s1 = goc_state(s, c.w, c.fresh);
        assert(!contains_data(s, c.fresh));
        assert(forall|i: int|
            0 <= i < rest.len() ==> #[trigger] rest[i] == calls[i + 1]);
        assert(forall|i: int|
            0 <= i < rest.len() ==> freshes_of(rest)[i] == freshes_of(calls)[i + 1]);
        assert(distinct_freshes(rest));
        if contains_path(s, c.w) {
            assert(s1 == s);
            lemma_run_goc_general(s, rest);
            assert(calls.map_values(|cc: GocCall| cc.w)[0] == c.w);
            assert(paths_of(s).to_set() + workspaces_of(calls) =~= paths_of(s).to_set()
                + workspaces_of(rest)) by {
                lemma_workspaces_cons(calls);
                let j = choose|j: int| 0 <= j < s.len() && s[j].path == c.w;
                assert(paths_of(s)[j] == c.w);
                assert(paths_of(s).to_set().contains(c.w));
            }
        } else {
            let rec = SpecRecord { path: c.w, data: c.fresh };
            assert(s1 == s.push(rec));
            assert(wf_records(s1)) by {
                assert(forall|i: int| 0 <= i < s.len() ==> #[trigger] s1[i] == s[i]);
                assert(forall|i: int|
                    0 <= i < s.len() ==> (#[trigger] s[i].path) != c.w) by {
                    assert(!contains_path(s, c.w));
                }
            }
            assert(forall|i: int|
                0 <= i < rest.len() ==> !contains_data(s1, #[trigger] rest[i].fresh)) by {
                assert forall|i: int|
                    0 <= i < rest.len() implies !contains_data(s1, #[trigger] rest[i].fresh) by {
                    assert(rest[i].fresh == freshes_of(calls)[i + 1]);
                    assert(freshes_of(calls)[0] == c.fresh);
                    assert(rest[i].fresh != c.fresh);
                    if contains_data(s1, rest[i].fresh) {
                        let k = choose|k: int|
                            0 <= k < s1.len() && s1[k].data == rest[i].fresh;
                        if k < s.len() {
                            assert(s[k].data == rest[i].fresh);
                            assert(contains_data(s, calls[i + 1].fresh));
                        }
                    }
                }
            }
            lemma_run_goc_general(s1, rest);
            assert(paths_of(s1).to_set() =~= paths_of(s).to_set().insert(c.w)) by {
                assert(paths_of(s1).len() == s.len() + 1);
                assert(paths_of(s1)[s.len() as int] == c.w);
                assert(forall|i: int|
                    0 <= i < s.len() ==> #[trigger] paths_of(s1)[i] == paths_of(s)[i]);
                assert forall|p: Seq<char>|
                    paths_of(s1).to_set().contains(p) implies paths_of(s).to_set().insert(
                    c.w,
                ).contains(p) by {
                    let k = choose|k: int|
                        0 <= k < paths_of(s1).len() && paths_of(s1)[k] == p;
                    if k < s.len() {
                        assert(paths_of(s).to_set().contains(p));
                    }
                }
                assert forall|p: Seq<char>|
                    paths_of(s).to_set().insert(c.w).contains(p) implies paths_of(
                    s1,
                ).to_set().contains(p) by {
                    if p == c.w {
                        assert(paths_of(s1).contains(p)) by {
                            assert(paths_of(s1)[s.len() as int] == p);
                        }
                    } else {
                        let k = choose|k: int|
                            0 <= k < paths_of(s).len() && paths_of(s)[k] == p;
                        assert(paths_of(s1)[k] == p);
                    }
                }
            }
            assert(paths_of(s).to_set().insert(c.w) + workspaces_of(rest) =~= paths_of(
                s,
            ).to_set() + workspaces_of(calls)) by {
                lemma_workspaces_cons(calls);
            }
        }
    }
}

/// The workspaces of a non-empty call sequence are the head's workspace
/// plus the workspaces of the tail.
proof fn lemma_workspaces_cons(calls: Seq<GocCall>)
    requires
        calls.len() > 0,
    ensures
        workspaces_of(calls) == workspaces_of(calls.drop_first()).insert(calls[0].w),
{
    let ws = calls.map_values(|c: GocCall| c.w);
    let wsr = calls.drop_first().map_values(|c: GocCall| c.w);
    assert(forall|i: int| 0 <= i < wsr.len() ==> #[trigger] wsr[i] == ws[i + 1]);
    assert forall|p: Seq<char>| ws.to_set().contains(p) implies wsr.to_set().insert(
        calls[0].w,
    ).contains(p) by {
        let k = choose|k: int| 0 <= k < ws.len() && ws[k] == p;
        if k > 0 {
            assert(wsr[k - 1] == p);
        }
    }
    assert forall|p: Seq<char>| wsr.to_set().insert(calls[0].w).contains(p) implies ws.to_set().contains(
        p,
    ) by {
        if p == calls[0].w {
            assert(ws[0] == p);
        } else {
            let k = choose|k: int| 0 <= k < wsr.len() && wsr[k] == p;
            assert(ws[k + 1] == p);
        }
    }
    assert(ws.to_set() =~= wsr.to_set().insert(calls[0].w));
}

/// Law: key uniqueness.  Starting from an empty table, any sequence of
/// get-or-create calls whose fresh session-file names are pairwise
/// distinct leaves exactly one record per distinct workspace asked for,
/// and both the workspace paths and the session-file paths of the
/// resulting records are pairwise distinct.
pub proof fn lemma_get_or_create_unique_keys(calls: Seq<GocCall>)
    requires
        distinct_freshes(calls),
    ensures
        wf_records(run_goc(Seq::empty(), calls)),
        paths_of(run_goc(Seq::empty(), calls)).to_set() == workspaces_of(calls),
        run_goc(Seq::empty(), calls).len() == workspaces_of(calls).len(),
{
    let e = Seq::<SpecRecord>::empty();
    lemma_run_goc_general(e, calls);
    let t = run_goc(e, calls);
    assert(paths_of(e).to_set() =~= Set::<Seq<char>>::empty());
    assert(paths_of(t).to_set() =~= workspaces_of(calls));
    assert(paths_of(t).no_duplicates()) by {
        assert(forall|i: int| 0 <= i < t.len() ==> #[trigger] paths_of(t)[i] == t[i].path);
    }
    paths_of(t).unique_seq_to_set();
}

} // verus!
