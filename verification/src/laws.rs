//! The laws of the store, stated and proved over the document model: what
//! insertion, deletion, replacement, import and export guarantee across
//! calls, for every document that keeps the identity discipline.

use vstd::prelude::*;
use crate::models::{DbView, MetaView, RecordView};
use crate::store::{
    export_spec, find_record, import_merge_spec, import_replace_spec, insert_spec,
    inserted_record, lemma_record_idx_absent, lemma_record_idx_at, merge_all, merge_step,
    name_taken,
};

verus! {

/// Insert-then-get: looking the freshly assigned identity up in the
/// document a well-formed insert produced yields exactly the stored
/// record, its identity and stamp populated.
pub proof fn lemma_insert_then_get(db: DbView, rec: RecordView, now: i64)
    requires
        db.wf(),
        db.meta.max_id < u64::MAX,
    ensures
        ({
            let stored = inserted_record(db, rec, now);
            &&& stored.id == db.meta.max_id + 1
            &&& stored.updated_at == now
            &&& find_record(insert_spec(db, rec, now).data, stored.id) == Some(stored)
        }),
{
    let stored = inserted_record(db, rec, now);
    let data = insert_spec(db, rec, now).data;
    assert(data[db.data.len() as int] == stored);
    assert forall|k: int| 0 <= k < db.data.len() implies data[k].id != stored.id by {
        assert(data[k] == db.data[k]);
        assert(db.data[k].id <= db.meta.max_id);
    }
    lemma_record_idx_at(data, stored.id, db.data.len() as int);
}

/// Identity freshness: a well-formed insert assigns an identity strictly
/// above every identity present, advances the high-water mark by one, and
/// preserves well-formedness — so identities of successive inserts are
/// strictly increasing and never reused, whatever is deleted in between.
pub proof fn lemma_insert_fresh_id(db: DbView, rec: RecordView, now: i64)
    requires
        db.wf(),
        db.meta.max_id < u64::MAX,
        db.data.len() < usize::MAX,
    ensures
        inserted_record(db, rec, now).id == db.meta.max_id + 1,
        forall|k: int|
            0 <= k < db.data.len() ==> #[trigger] db.data[k].id < inserted_record(
                db,
                rec,
                now,
            ).id,
        insert_spec(db, rec, now).meta.max_id == db.meta.max_id + 1,
        insert_spec(db, rec, now).wf(),
{
    let stored = inserted_record(db, rec, now);
    let after = insert_spec(db, rec, now);
    assert forall|i: int, j: int| 0 <= i < j < after.data.len() implies after.data[i].id
        != after.data[j].id by {
        if j < db.data.len() {
            assert(after.data[i] == db.data[i] && after.data[j] == db.data[j]);
        } else {
            assert(after.data[j] == stored);
            assert(after.data[i] == db.data[i]);
            assert(db.data[i].id <= db.meta.max_id);
        }
    }
    assert forall|i: int| 0 <= i < after.data.len() implies #[trigger] after.data[i].id
        <= after.meta.max_id by {
        if i < db.data.len() {
            assert(after.data[i] == db.data[i]);
            assert(db.data[i].id <= db.meta.max_id);
        } else {
            assert(after.data[i] == stored);
        }
    }
}

/// Identity monotonicity across calls: deletion and replacement leave the
/// high-water mark where it is and insertion advances it, so however a
/// document moved from one insert to the next — records deleted in between
/// included — the later insert mints the strictly larger identity, and no
/// identity is ever reused.
pub proof fn lemma_identity_monotonic(
    db1: DbView,
    db2: DbView,
    rec1: RecordView,
    rec2: RecordView,
    now1: i64,
    now2: i64,
)
    requires
        db1.meta.max_id < u64::MAX,
        db2.meta.max_id < u64::MAX,
        db2.meta.max_id >= insert_spec(db1, rec1, now1).meta.max_id,
    ensures
        inserted_record(db2, rec2, now2).id > inserted_record(db1, rec1, now1).id,
{
}

/// Deletion never moves the high-water mark, keeps every other record in
/// order, and preserves well-formedness: the deleted identity is gone, the
/// rest stand untouched.
pub proof fn lemma_delete_preserves_wf(db: DbView, id: u64, now: i64)
    requires
        db.wf(),
    ensures
        ({
            let data = db.data.filter(|rec: RecordView| rec.id != id);
            let after = DbView {
                meta: MetaView {
                    record_count: data.len() as usize,
                    last_updated: now,
                    ..db.meta
                },
                data: data,
                ..db
            };
            &&& after.wf()
            &&& after.meta.max_id == db.meta.max_id
        }),
{
    lemma_filter_keeps_ids(db.data, id, db.meta.max_id);
}

/// Filtering a table of bounded, pairwise distinct identities keeps them
/// bounded and pairwise distinct, and every kept record was present.
proof fn lemma_filter_keeps_ids(data: Seq<RecordView>, id: u64, bound: u64)
    requires
        forall|i: int| 0 <= i < data.len() ==> #[trigger] data[i].id <= bound,
        forall|i: int, j: int| 0 <= i < j < data.len() ==> data[i].id != data[j].id,
    ensures
        ({
            let kept = data.filter(|rec: RecordView| rec.id != id);
            &&& forall|i: int| 0 <= i < kept.len() ==> #[trigger] kept[i].id <= bound
            &&& forall|i: int, j: int| 0 <= i < j < kept.len() ==> kept[i].id != kept[j].id
            &&& forall|r: RecordView| kept.contains(r) ==> data.contains(r)
        }),
    decreases data.len(),
{
    reveal(Seq::filter);
    let pred = |rec: RecordView| rec.id != id;
    let kept = data.filter(pred);
    if data.len() > 0 {
        let prefix = data.drop_last();
        let last = data.last();
        assert forall|i: int| 0 <= i < prefix.len() implies #[trigger] prefix[i].id <= bound by {
            assert(prefix[i] == data[i]);
        }
        assert forall|i: int, j: int| 0 <= i < j < prefix.len() implies prefix[i].id
            != prefix[j].id by {
            assert(prefix[i] == data[i] && prefix[j] == data[j]);
        }
        lemma_filter_keeps_ids(prefix, id, bound);
        let kept_prefix = prefix.filter(pred);
        assert forall|r: RecordView| kept_prefix.contains(r) implies data.contains(r) by {
            let w = choose|w: int| 0 <= w < prefix.len() && prefix[w] == r;
            assert(data[w] == r);
        }
        if pred(last) {
            assert(kept == kept_prefix.push(last));
            assert forall|i: int, j: int| 0 <= i < j < kept.len() implies kept[i].id
                != kept[j].id by {
                if j < kept_prefix.len() {
                    assert(kept[i] == kept_prefix[i] && kept[j] == kept_prefix[j]);
                } else {
                    assert(kept[j] == last);
                    assert(kept[i] == kept_prefix[i]);
                    assert(kept_prefix.contains(kept_prefix[i]));
                    assert(prefix.contains(kept_prefix[i]));
                    let w = choose|w: int| 0 <= w < prefix.len() && prefix[w] == kept_prefix[i];
                    assert(data[w].id != data[data.len() - 1].id);
                }
            }
        }
    }
}

/// Delete-then-get: after the records carrying an identity are removed, a
/// lookup of that identity yields nothing.
pub proof fn lemma_delete_then_get(db: DbView, id: u64)
    ensures
        find_record(db.data.filter(|rec: RecordView| rec.id != id), id) is None,
{
    let kept = db.data.filter(|rec: RecordView| rec.id != id);
    assert forall|k: int| 0 <= k < kept.len() implies kept[k].id != id by {
        db.data.lemma_filter_pred(|rec: RecordView| rec.id != id, k);
    }
    lemma_record_idx_absent(kept, id);
}

/// Replacement in place: swapping the record at a position for one
/// carrying the same identity touches no other position and preserves
/// well-formedness and the high-water mark.
pub proof fn lemma_update_preserves_wf(db: DbView, i: int, rec: RecordView, now: i64)
    requires
        db.wf(),
        0 <= i < db.data.len(),
        rec.id == db.data[i].id,
    ensures
        ({
            let after = DbView {
                meta: MetaView { last_updated: now, last_updated_id: rec.id, ..db.meta },
                data: db.data.update(i, rec),
                ..db
            };
            &&& after.wf()
            &&& after.meta.max_id == db.meta.max_id
            &&& after.data.len() == db.data.len()
            &&& forall|k: int| 0 <= k < db.data.len() && k != i ==> after.data[k] == db.data[k]
        }),
{
    let after_data = db.data.update(i, rec);
    assert forall|k: int| 0 <= k < after_data.len() implies #[trigger] after_data[k].id
        <= db.meta.max_id by {
        if k != i {
            assert(after_data[k] == db.data[k]);
        }
        assert(db.data[k].id <= db.meta.max_id);
    }
    assert forall|a: int, b: int| 0 <= a < b < after_data.len() implies after_data[a].id
        != after_data[b].id by {
        assert(after_data[a].id == db.data[a].id && after_data[b].id == db.data[b].id);
    }
}

/// A merging import skips a record whose name is already taken, ignoring
/// case: the document does not move and the record is not counted.
pub proof fn lemma_merge_skips_taken_name(db: DbView, rec: RecordView, now: i64)
    requires
        name_taken(db.data, rec.name),
    ensures
        merge_step(db, rec, now) == (db, false),
{
}

/// A merging import takes a record whose name is free: it is appended
/// under the next identity, which no present record carries.
pub proof fn lemma_merge_takes_free_name(db: DbView, rec: RecordView, now: i64)
    requires
        db.ids_ok(),
        db.meta.max_id < u64::MAX,
        !name_taken(db.data, rec.name),
    ensures
        merge_step(db, rec, now).1,
        merge_step(db, rec, now).0.data.len() == db.data.len() + 1,
        merge_step(db, rec, now).0.data.last().id == db.meta.max_id + 1,
        forall|k: int|
            0 <= k < db.data.len() ==> #[trigger] db.data[k].id != merge_step(
                db,
                rec,
                now,
            ).0.data.last().id,
{
    assert forall|k: int|
        0 <= k < db.data.len() implies #[trigger] db.data[k].id != merge_step(
        db,
        rec,
        now,
    ).0.data.last().id by {
        assert(db.data[k].id <= db.meta.max_id);
    }
}

/// A merging import, whole: it only appends — the records already present
/// stand untouched, in order — every appended record carries an identity
/// above the old high-water mark (so distinct from every existing one),
/// the count taken is the number appended, and the identity discipline is
/// preserved.
pub proof fn lemma_merge_all_properties(db: DbView, recs: Seq<RecordView>, now: i64)
    requires
        db.ids_ok(),
        db.meta.max_id + recs.len() <= u64::MAX,
    ensures
        ({
            let merged = merge_all(db, recs, now);
            &&& merged.0.ids_ok()
            &&& db.meta.max_id <= merged.0.meta.max_id <= db.meta.max_id + recs.len()
            &&& 0 <= merged.1 <= recs.len()
            &&& merged.0.data.len() == db.data.len() + merged.1
            &&& merged.0.data.take(db.data.len() as int) == db.data
            &&& forall|k: int|
                db.data.len() <= k < merged.0.data.len() ==> #[trigger] merged.0.data[k].id
                    > db.meta.max_id
            &&& merged.0.profiles == db.profiles
            &&& merged.0.meta == (MetaView { max_id: merged.0.meta.max_id, ..db.meta })
        }),
    decreases recs.len(),
{
    let merged = merge_all(db, recs, now);
    if recs.len() == 0 {
        assert(merged.0.data.take(db.data.len() as int) =~= db.data);
    } else {
        lemma_merge_all_properties(db, recs.drop_last(), now);
        let prev = merge_all(db, recs.drop_last(), now);
        let step = merge_step(prev.0, recs.last(), now);
        if name_taken(prev.0.data, recs.last().name) {
            assert(merged.0 == prev.0);
        } else {
            let new_id = (prev.0.meta.max_id + 1) as u64;
            assert(prev.0.meta.max_id < u64::MAX);
            let stored = RecordView { id: new_id, updated_at: now, ..recs.last() };
            assert(merged.0.data == prev.0.data.push(stored));
            assert forall|i: int| 0 <= i < merged.0.data.len() implies #[trigger] merged.0.data[i].id
                <= merged.0.meta.max_id by {
                if i < prev.0.data.len() {
                    assert(merged.0.data[i] == prev.0.data[i]);
                    assert(prev.0.data[i].id <= prev.0.meta.max_id);
                } else {
                    assert(merged.0.data[i] == stored);
                }
            }
            assert forall|i: int, j: int|
                0 <= i < j < merged.0.data.len() implies merged.0.data[i].id
                    != merged.0.data[j].id by {
                if j < prev.0.data.len() {
                    assert(merged.0.data[i] == prev.0.data[i] && merged.0.data[j]
                        == prev.0.data[j]);
                } else {
                    assert(merged.0.data[j] == stored);
                    assert(merged.0.data[i] == prev.0.data[i]);
                    assert(prev.0.data[i].id <= prev.0.meta.max_id);
                }
            }
            assert(merged.0.data.take(db.data.len() as int) =~= prev.0.data.take(
                db.data.len() as int,
            ));
            assert forall|k: int|
                db.data.len() <= k < merged.0.data.len() implies #[trigger] merged.0.data[k].id
                    > db.meta.max_id by {
                if k < prev.0.data.len() {
                    assert(merged.0.data[k] == prev.0.data[k]);
                } else {
                    assert(merged.0.data[k] == stored);
                    assert(prev.0.meta.max_id >= db.meta.max_id);
                }
            }
        }
    }
}

/// A merging import preserves well-formedness: the identity discipline
/// survives the fold, and the closing bookkeeping restores the count.
pub proof fn lemma_import_merge_preserves_wf(db: DbView, recs: Seq<RecordView>, now: i64)
    requires
        db.wf(),
        db.meta.max_id + recs.len() <= u64::MAX,
        db.data.len() + recs.len() <= usize::MAX,
    ensures
        import_merge_spec(db, recs, now).0.wf(),
        import_merge_spec(db, recs, now).0.meta.max_id >= db.meta.max_id,
{
    lemma_merge_all_properties(db, recs, now);
}

/// Round trip: a wholesale import of what export yielded reproduces the
/// document — the same records in the same order under the same
/// bookkeeping, counts included.  (Export and import exchange the document
/// as text; the rendering is the application's, stated nowhere here.)
pub proof fn lemma_export_import_round_trip(db: DbView)
    ensures
        import_replace_spec(db, export_spec(db)) == db,
        import_replace_spec(db, export_spec(db)).meta.record_count == db.meta.record_count,
        import_replace_spec(db, export_spec(db)).data.len() == db.data.len(),
{
}

} // verus!
