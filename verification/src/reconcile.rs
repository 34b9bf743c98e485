//! Two-sided mark-and-sweep between the record store and the session-file
//! directory.
//!
//! Either side can drift on its own: a session file can be deleted without
//! the record store hearing of it, and the record store can lose or regain
//! rows while files stay behind.  Reconciliation therefore sweeps in both
//! directions: records whose file is gone are deleted from the store, and
//! files no live record points at are deleted from disk.
//!
//! The filesystem facts enter as plain values: `present[i]` says whether
//! the file of the `i`-th record exists, and `listed` holds the
//! session-artifact files found in the plugin directory.

use vstd::prelude::*;
use vstd::seq_lib::*;

use crate::record::{SessionData, SpecRecord};
use crate::store::{
    contains_data, contains_path, delete_state, outside_keys, rows_view, unique_paths, wf_records,
};
use crate::strutil::str_eq;

verus! {

/// The records whose session file still exists, in table order.
pub open spec fn live_of(recs: Seq<SpecRecord>, present: Seq<bool>) -> Seq<SpecRecord>
    decreases recs.len(),
{
    if recs.len() == 0 {
        Seq::empty()
    } else if present[recs.len() - 1] {
        live_of(recs.drop_last(), present.drop_last()).push(recs.last())
    } else {
        live_of(recs.drop_last(), present.drop_last())
    }
}

/// The workspace paths of the records whose session file is gone.
pub open spec fn stale_paths_of(recs: Seq<SpecRecord>, present: Seq<bool>) -> Seq<Seq<char>>
    decreases recs.len(),
{
    if recs.len() == 0 {
        Seq::empty()
    } else if present[recs.len() - 1] {
        stale_paths_of(recs.drop_last(), present.drop_last())
    } else {
        stale_paths_of(recs.drop_last(), present.drop_last()).push(recs.last().path)
    }
}

/// Selects the files that no live record points at.
pub open spec fn unreferenced(live: Seq<SpecRecord>) -> spec_fn(Seq<char>) -> bool {
    |f: Seq<char>| !contains_data(live, f)
}

/// The listed files that reconciliation deletes from disk.
pub open spec fn orphans_spec(files: Seq<Seq<char>>, live: Seq<SpecRecord>) -> Seq<Seq<char>> {
    files.filter(unreferenced(live))
}

/// Splits the records into the workspace paths of the stale ones and the
/// live records, by the supplied existence flags.
pub fn partition_stale(records: &Vec<SessionData>, present: &Vec<bool>) -> (r: (
    Vec<String>,
    Vec<SessionData>,
))
    requires
        present@.len() == records@.len(),
    ensures
        r.0@.map_values(|s: String| s@) == stale_paths_of(rows_view(records@), present@),
        rows_view(r.1@) == live_of(rows_view(records@), present@),
{
    let ghost v = rows_view(records@);
    let mut stale: Vec<String> = Vec::new();
    let mut live: Vec<SessionData> = Vec::new();
    let mut i: usize = 0;
    proof {
        assert(stale@.map_values(|s: String| s@) =~= stale_paths_of(v.take(0), present@.take(0)));
        assert(rows_view(live@) =~= live_of(v.take(0), present@.take(0)));
    }
    while i < records.len()
        invariant
            i <= records@.len(),
            present@.len() == records@.len(),
            v == rows_view(records@),
            stale@.map_values(|s: String| s@) == stale_paths_of(v.take(i as int), present@.take(i as int)),
            rows_view(live@) == live_of(v.take(i as int), present@.take(i as int)),
        decreases records@.len() - i,
    {
        proof {
            assert(v.take(i + 1).drop_last() =~= v.take(i as int));
            assert(present@.take(i + 1).drop_last() =~= present@.take(i as int));
        }
        if present[i] {
            let ghost prev = live@;
            live.push(records[i].clone());
            proof {
                assert(rows_view(live@) =~= rows_view(prev).push(v[i as int]));
            }
        } else {
            let ghost prev = stale@;
            stale.push(records[i].path.clone());
            proof {
                assert(stale@.map_values(|s: String| s@) =~= prev.map_values(
                    |s: String| s@,
                ).push(v[i as int].path));
            }
        }
        i += 1;
    }
    proof {
        assert(v.take(v.len() as int) =~= v);
        assert(present@.take(present@.len() as int) =~= present@);
    }
    (stale, live)
}

/// Whether some live record points at the file `f`.
fn references(live: &Vec<SessionData>, f: &str) -> (r: bool)
    ensures
        r == contains_data(rows_view(live@), f@),
{
    let ghost v = rows_view(live@);
    let mut i: usize = 0;
    while i < live.len()
        invariant
            i <= live@.len(),
            v == rows_view(live@),
            forall|j: int| 0 <= j < i ==> v[j].data != f@,
        decreases live@.len() - i,
    {
        if str_eq(live[i].data.as_str(), f) {
            proof {
                assert(v[i as int].data == f@);
                assert(contains_data(v, f@));
            }
            return true;
        }
        i += 1;
    }
    false
}

/// The listed files that no live record points at, in listing order.
/// These, and only these, are deleted from disk; each deletion is
/// attempted independently by the caller and a failure never aborts the
/// sweep of the remaining files.
pub fn orphan_files(listed: &Vec<String>, live: &Vec<SessionData>) -> (r: Vec<String>)
    ensures
        r@.map_values(|s: String| s@) == orphans_spec(
            listed@.map_values(|s: String| s@),
            rows_view(live@),
        ),
{
    let ghost files = listed@.map_values(|s: String| s@);
    let ghost lv = rows_view(live@);
    let mut out: Vec<String> = Vec::new();
    let mut i: usize = 0;
    proof {
        assert(out@.map_values(|s: String| s@) =~= files.take(0).filter(unreferenced(lv)));
    }
    while i < listed.len()
        invariant
            i <= listed@.len(),
            files == listed@.map_values(|s: String| s@),
            lv == rows_view(live@),
            out@.map_values(|s: String| s@) == files.take(i as int).filter(unreferenced(lv)),
        decreases listed@.len() - i,
    {
        proof {
            broadcast use Seq::lemma_filter_push;

            assert(files.take(i + 1) =~= files.take(i as int).push(files[i as int]));
            assert(files.take(i + 1).filter(unreferenced(lv)) == if unreferenced(lv)(
                files[i as int],
            ) {
                files.take(i as int).filter(unreferenced(lv)).push(files[i as int])
            } else {
                files.take(i as int).filter(unreferenced(lv))
            });
        }
        if !references(live, listed[i].as_str()) {
            let ghost prev = out@;
            out.push(listed[i].clone());
            proof {
                assert(unreferenced(lv)(files[i as int]));
                assert(out@.map_values(|s: String| s@) =~= prev.map_values(
                    |s: String| s@,
                ).push(files[i as int]));
            }
        } else {
            proof {
                assert(!unreferenced(lv)(files[i as int]));
            }
        }
        i += 1;
    }
    proof {
        assert(files.take(files.len() as int) =~= files);
    }
    out
}

/// Two predicates that agree on every element filter a sequence alike.
proof fn lemma_filter_agree<A>(s: Seq<A>, p1: spec_fn(A) -> bool, p2: spec_fn(A) -> bool)
    requires
        forall|i: int| 0 <= i < s.len() ==> p1(#[trigger] s[i]) == p2(s[i]),
    ensures
        s.filter(p1) == s.filter(p2),
    decreases s.len(),
{
    reveal(Seq::filter);
    if s.len() > 0 {
        assert(forall|i: int| 0 <= i < s.len() - 1 ==> #[trigger] s.drop_last()[i] == s[i]);
        lemma_filter_agree(s.drop_last(), p1, p2);
    }
}

/// Every stale path is the path of a record whose flag is false.
proof fn lemma_stale_paths_member(recs: Seq<SpecRecord>, present: Seq<bool>, q: Seq<char>)
    requires
        present.len() == recs.len(),
        stale_paths_of(recs, present).contains(q),
    ensures
        exists|i: int| 0 <= i < recs.len() && recs[i].path == q && !present[i],
    decreases recs.len(),
{
    if recs.len() > 0 {
        let sub = stale_paths_of(recs.drop_last(), present.drop_last());
        if !present[recs.len() - 1] && q == recs.last().path {
            assert(recs[recs.len() - 1].path == q && !present[recs.len() - 1]);
        } else {
            if present[recs.len() - 1] {
                lemma_stale_paths_member(recs.drop_last(), present.drop_last(), q);
            } else {
                assert(sub.push(recs.last().path).contains(q));
                let k = choose|k: int| 0 <= k < sub.len() + 1 && sub.push(recs.last().path)[k] == q;
                assert(sub[k] == q);
                assert(sub.contains(q));
                lemma_stale_paths_member(recs.drop_last(), present.drop_last(), q);
            }
            let i = choose|i: int|
                0 <= i < recs.drop_last().len() && recs.drop_last()[i].path == q
                    && !present.drop_last()[i];
            assert(recs[i].path == q && !present[i]);
        }
    }
}

/// Every live record is a record whose flag is true.
proof fn lemma_live_member(recs: Seq<SpecRecord>, present: Seq<bool>, x: SpecRecord)
    requires
        present.len() == recs.len(),
        live_of(recs, present).contains(x),
    ensures
        exists|i: int| 0 <= i < recs.len() && recs[i] == x && present[i],
    decreases recs.len(),
{
    if recs.len() > 0 {
        let sub = live_of(recs.drop_last(), present.drop_last());
        if present[recs.len() - 1] && x == recs.last() {
            assert(recs[recs.len() - 1] == x && present[recs.len() - 1]);
        } else {
            if present[recs.len() - 1] {
                assert(sub.push(recs.last()).contains(x));
                let k = choose|k: int| 0 <= k < sub.len() + 1 && sub.push(recs.last())[k] == x;
                assert(sub[k] == x);
                assert(sub.contains(x));
            }
            lemma_live_member(recs.drop_last(), present.drop_last(), x);
            let i = choose|i: int|
                0 <= i < recs.drop_last().len() && recs.drop_last()[i] == x
                    && present.drop_last()[i];
            assert(recs[i] == x && present[i]);
        }
    }
}

/// Law: reconciliation sweeps orphaned records.  Deleting the stale
/// workspace paths from a well-formed table leaves exactly the live
/// records; in particular a record whose session file is gone is no
/// longer listed afterwards.
pub proof fn lemma_clean_sweeps_stale_records(recs: Seq<SpecRecord>, present: Seq<bool>)
    requires
        wf_records(recs),
        present.len() == recs.len(),
    ensures
        delete_state(recs, stale_paths_of(recs, present)) == live_of(recs, present),
        forall|i: int|
            0 <= i < recs.len() && !present[i] ==> !contains_path(
                live_of(recs, present),
                #[trigger] recs[i].path,
            ),
    decreases recs.len(),
{
    reveal(Seq::filter);
    let k = stale_paths_of(recs, present);
    let live = live_of(recs, present);
    if recs.len() == 0 {
        assert(delete_state(recs, k) =~= live);
    } else {
        let sub = recs.drop_last();
        let subp = present.drop_last();
        let ksub = stale_paths_of(sub, subp);
        assert(wf_records(sub) && unique_paths(recs)) by {
            assert(forall|i: int| 0 <= i < sub.len() ==> #[trigger] sub[i] == recs[i]);
        }
        lemma_clean_sweeps_stale_records(sub, subp);
        // The last record's path is in the key set iff its flag is false.
        assert forall|q: Seq<char>| ksub.contains(q) implies q != recs.last().path by {
            lemma_stale_paths_member(sub, subp, q);
            let i = choose|i: int| 0 <= i < sub.len() && sub[i].path == q && !subp[i];
            assert(recs[i].path == q);
        }
        // Key membership agrees between the full and the prefix key set
        // on every prefix record.
        assert forall|i: int| 0 <= i < sub.len() implies outside_keys(k)(#[trigger] sub[i])
            == outside_keys(ksub)(sub[i]) by {
            if !present[recs.len() - 1] {
                assert(k =~= ksub.push(recs.last().path));
                assert(forall|j: int| 0 <= j < ksub.len() ==> #[trigger] k[j] == ksub[j]);
                if sub[i].path == recs.last().path {
                    assert(recs[i].path == recs[recs.len() - 1].path);
                    assert(false);
                }
                if crate::strutil::spec_contains_str(k, sub[i].path) {
                    let j = choose|j: int| 0 <= j < k.len() && k[j] == sub[i].path;
                    assert(j < ksub.len()) by {
                        if j == ksub.len() {
                            assert(k[j] == recs.last().path);
                        }
                    }
                    assert(ksub[j] == sub[i].path);
                    assert(crate::strutil::spec_contains_str(ksub, sub[i].path));
                }
                if crate::strutil::spec_contains_str(ksub, sub[i].path) {
                    let j = choose|j: int| 0 <= j < ksub.len() && ksub[j] == sub[i].path;
                    assert(k[j] == sub[i].path);
                    assert(crate::strutil::spec_contains_str(k, sub[i].path));
                }
            } else {
                assert(k =~= ksub);
            }
        }
        lemma_filter_agree(sub, outside_keys(k), outside_keys(ksub));
        assert(recs.filter(outside_keys(k)) == if outside_keys(k)(recs.last()) {
            sub.filter(outside_keys(k)).push(recs.last())
        } else {
            sub.filter(outside_keys(k))
        });
        if present[recs.len() - 1] {
            // The surviving record's path is not among the stale keys.
            assert(k =~= ksub);
            assert(outside_keys(k)(recs.last())) by {
                if k.contains(recs.last().path) {
                    lemma_stale_paths_member(recs, present, recs.last().path);
                    let i = choose|i: int|
                        0 <= i < recs.len() && recs[i].path == recs.last().path && !present[i];
                    assert(i < recs.len() - 1);
                    assert(false);
                }
            }
        } else {
            assert(k[k.len() - 1] == recs.last().path);
            assert(k.contains(recs.last().path));
            assert(!outside_keys(k)(recs.last()));
        }
        // A record with a false flag is not among the live ones.
        assert forall|i: int| 0 <= i < recs.len() && !present[i] implies !contains_path(
            live,
            #[trigger] recs[i].path,
        ) by {
            if contains_path(live, recs[i].path) {
                let j = choose|j: int| 0 <= j < live.len() && live[j].path == recs[i].path;
                lemma_live_member(recs, present, live[j]);
                let m = choose|m: int| 0 <= m < recs.len() && recs[m] == live[j] && present[m];
                assert(recs[m].path == recs[i].path);
                assert(m == i);
                assert(false);
            }
        }
    }
}

/// Law: reconciliation sweeps orphaned files, and only those.  A listed
/// file is deleted iff no live record points at it: files referenced by
/// live records are left untouched.
pub proof fn lemma_clean_sweeps_orphan_files(
    files: Seq<Seq<char>>,
    live: Seq<SpecRecord>,
    f: Seq<char>,
)
    requires
        files.contains(f),
    ensures
        orphans_spec(files, live).contains(f) <==> !contains_data(live, f),
{
    broadcast use Seq::lemma_filter_pred, Seq::lemma_filter_len, Seq::lemma_filter_contains;

    let i = choose|i: int| 0 <= i < files.len() && files[i] == f;
    if !contains_data(live, f) {
        assert(unreferenced(live)(files[i]));
        assert(orphans_spec(files, live).contains(files[i]));
    }
    if orphans_spec(files, live).contains(f) {
        let j = choose|j: int|
            0 <= j < orphans_spec(files, live).len() && orphans_spec(files, live)[j] == f;
        assert(unreferenced(live)(orphans_spec(files, live)[j]));
    }
}

/// Law: reconciliation is a no-op on a consistent state.  When every
/// record's file exists and every listed file is pointed at by a record,
/// the record set is unchanged and no file is deleted.
pub proof fn lemma_clean_noop(recs: Seq<SpecRecord>, present: Seq<bool>, files: Seq<Seq<char>>)
    requires
        wf_records(recs),
        present.len() == recs.len(),
        forall|i: int| 0 <= i < present.len() ==> present[i],
        forall|j: int| 0 <= j < files.len() ==> contains_data(recs, #[trigger] files[j]),
    ensures
        stale_paths_of(recs, present) == Seq::<Seq<char>>::empty(),
        live_of(recs, present) == recs,
        delete_state(recs, stale_paths_of(recs, present)) == recs,
        orphans_spec(files, live_of(recs, present)) == Seq::<Seq<char>>::empty(),
{
    lemma_all_present_identity(recs, present);
    lemma_clean_sweeps_stale_records(recs, present);
    assert(orphans_spec(files, recs) =~= Seq::<Seq<char>>::empty()) by {
        files.lemma_all_neg_filter_empty(unreferenced(recs));
    }
}

/// With every flag set, nothing is stale and everything is live.
proof fn lemma_all_present_identity(recs: Seq<SpecRecord>, present: Seq<bool>)
    requires
        present.len() == recs.len(),
        forall|i: int| 0 <= i < present.len() ==> present[i],
    ensures
        stale_paths_of(recs, present) == Seq::<Seq<char>>::empty(),
        live_of(recs, present) == recs,
    decreases recs.len(),
{
    if recs.len() == 0 {
        assert(live_of(recs, present) =~= recs);
    } else {
        assert(forall|i: int|
            0 <= i < present.len() - 1 ==> #[trigger] present.drop_last()[i] == present[i]);
        lemma_all_present_identity(recs.drop_last(), present.drop_last());
        assert(live_of(recs, present) =~= recs);
    }
}

} // verus!
