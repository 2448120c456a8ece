//! The record store and profile registry: one in-memory document, mutated by
//! load-modify-save style operations whose effect on the document's view is
//! stated exactly.
//!
//! The surrounding application reads the document file into a [`Database`]
//! and writes it back after each operation; everything between — identity
//! assignment, lookup, search, replacement, deletion, merge-aware import —
//! happens here and is verified.

use vstd::prelude::*;
use crate::models::{
    clone_profiles, clone_records, profiles_view, records_view, BrowserMode, BrowserProfile,
    CollectionRecord, Database, DbView, MetaView, ProfileView, RecordView, StoreError,
};
use crate::text::{
    contains_seq, contains_str, eq_ignore_case, eq_ignore_case_spec, lower_of, to_lowercase,
};

verus! {

/// The store: owns the document while an operation runs on it.
#[derive(Debug)]
pub struct JsonStore {
    db: Database,
}

/// The position of the first record with the given identity, or -1.
pub open spec fn record_idx(data: Seq<RecordView>, id: u64) -> int
    decreases data.len(),
{
    if data.len() == 0 {
        -1
    } else if data[0].id == id {
        0
    } else {
        let rest = record_idx(data.drop_first(), id);
        if rest < 0 {
            -1
        } else {
            rest + 1
        }
    }
}

/// The first record with the given identity, if any.
pub open spec fn find_record(data: Seq<RecordView>, id: u64) -> Option<RecordView> {
    if record_idx(data, id) >= 0 {
        Some(data[record_idx(data, id)])
    } else {
        None
    }
}

/// `record_idx` finds the first match: a non-negative result is in bounds,
/// carries the identity, and nothing before it does; a negative result means
/// no record carries it.
pub proof fn lemma_record_idx(data: Seq<RecordView>, id: u64)
    ensures
        record_idx(data, id) >= 0 ==> {
            &&& 0 <= record_idx(data, id) < data.len()
            &&& data[record_idx(data, id)].id == id
            &&& forall|k: int| 0 <= k < record_idx(data, id) ==> data[k].id != id
        },
        record_idx(data, id) < 0 ==> forall|k: int| 0 <= k < data.len() ==> data[k].id != id,
    decreases data.len(),
{
    if data.len() > 0 && data[0].id != id {
        lemma_record_idx(data.drop_first(), id);
        let rest = record_idx(data.drop_first(), id);
        if rest >= 0 {
            assert forall|k: int| 0 <= k < rest + 1 implies data[k].id != id by {
                if k > 0 {
                    assert(data.drop_first()[k - 1] == data[k]);
                }
            }
        } else {
            assert forall|k: int| 0 <= k < data.len() implies data[k].id != id by {
                if k > 0 {
                    assert(data.drop_first()[k - 1] == data[k]);
                }
            }
        }
    }
}

/// A forward scan pins `record_idx`: if nothing before `j` matches and `j`
/// does, the first match is at `j`.
pub proof fn lemma_record_idx_at(data: Seq<RecordView>, id: u64, j: int)
    requires
        0 <= j < data.len(),
        data[j].id == id,
        forall|k: int| 0 <= k < j ==> data[k].id != id,
    ensures
        record_idx(data, id) == j,
    decreases data.len(),
{
    if j > 0 {
        assert forall|k: int| 0 <= k < j - 1 implies data.drop_first()[k].id != id by {
            assert(data.drop_first()[k] == data[k + 1]);
        }
        assert(data.drop_first()[j - 1] == data[j]);
        lemma_record_idx_at(data.drop_first(), id, j - 1);
    }
}

/// A fruitless forward scan pins `record_idx` to -1.
pub proof fn lemma_record_idx_absent(data: Seq<RecordView>, id: u64)
    requires
        forall|k: int| 0 <= k < data.len() ==> data[k].id != id,
    ensures
        record_idx(data, id) == -1,
    decreases data.len(),
{
    if data.len() > 0 {
        assert forall|k: int| 0 <= k < data.drop_first().len() implies data.drop_first()[k].id
            != id by {
            assert(data.drop_first()[k] == data[k + 1]);
        }
        lemma_record_idx_absent(data.drop_first(), id);
    }
}

/// What `insert` stores: the record with the next identity and a fresh
/// `updated_at` stamp.
pub open spec fn inserted_record(db: DbView, rec: RecordView, now: i64) -> RecordView {
    RecordView { id: (db.meta.max_id + 1) as u64, updated_at: now, ..rec }
}

/// The document after `insert`: the stored record appended, the high-water
/// mark advanced, and the bookkeeping restamped.
pub open spec fn insert_spec(db: DbView, rec: RecordView, now: i64) -> DbView {
    let stored = inserted_record(db, rec, now);
    DbView {
        meta: MetaView {
            max_id: stored.id,
            record_count: (db.data.len() + 1) as usize,
            last_updated: now,
            last_updated_id: stored.id,
            ..db.meta
        },
        data: db.data.push(stored),
        ..db
    }
}

/// The position of the first profile with the given identity, or -1.
pub open spec fn profile_idx(profiles: Seq<ProfileView>, id: Seq<char>) -> int
    decreases profiles.len(),
{
    if profiles.len() == 0 {
        -1
    } else if profiles[0].id == id {
        0
    } else {
        let rest = profile_idx(profiles.drop_first(), id);
        if rest < 0 {
            -1
        } else {
            rest + 1
        }
    }
}

/// The first profile with the given identity, if any.
pub open spec fn find_profile(profiles: Seq<ProfileView>, id: Seq<char>) -> Option<ProfileView> {
    if profile_idx(profiles, id) >= 0 {
        Some(profiles[profile_idx(profiles, id)])
    } else {
        None
    }
}

/// A forward scan pins `profile_idx`: if nothing before `j` matches and `j`
/// does, the first match is at `j`.
pub proof fn lemma_profile_idx_at(profiles: Seq<ProfileView>, id: Seq<char>, j: int)
    requires
        0 <= j < profiles.len(),
        profiles[j].id == id,
        forall|k: int| 0 <= k < j ==> profiles[k].id != id,
    ensures
        profile_idx(profiles, id) == j,
    decreases profiles.len(),
{
    if j > 0 {
        assert forall|k: int| 0 <= k < j - 1 implies profiles.drop_first()[k].id != id by {
            assert(profiles.drop_first()[k] == profiles[k + 1]);
        }
        assert(profiles.drop_first()[j - 1] == profiles[j]);
        lemma_profile_idx_at(profiles.drop_first(), id, j - 1);
    }
}

/// A fruitless forward scan pins `profile_idx` to -1.
pub proof fn lemma_profile_idx_absent(profiles: Seq<ProfileView>, id: Seq<char>)
    requires
        forall|k: int| 0 <= k < profiles.len() ==> profiles[k].id != id,
    ensures
        profile_idx(profiles, id) == -1,
    decreases profiles.len(),
{
    if profiles.len() > 0 {
        assert forall|k: int|
            0 <= k < profiles.drop_first().len() implies profiles.drop_first()[k].id != id by {
            assert(profiles.drop_first()[k] == profiles[k + 1]);
        }
        lemma_profile_idx_absent(profiles.drop_first(), id);
    }
}

/// What a backup serializes: the whole document, as it stands.
pub open spec fn export_spec(db: DbView) -> DbView {
    db
}

/// The document after a wholesale import: the imported document, its
/// identities and bookkeeping trusted as they stand.
pub open spec fn import_replace_spec(current: DbView, imported: DbView) -> DbView {
    imported
}

/// Whether some record already carries the name, ignoring case.
pub open spec fn name_taken(data: Seq<RecordView>, name: Seq<char>) -> bool {
    exists|i: int| 0 <= i < data.len() && eq_ignore_case_spec(data[i].name, name)
}

/// One step of a merging import: a record whose name is already taken is
/// skipped; any other is appended under a fresh identity and stamp.
pub open spec fn merge_step(db: DbView, rec: RecordView, now: i64) -> (DbView, bool) {
    if name_taken(db.data, rec.name) {
        (db, false)
    } else {
        let id = (db.meta.max_id + 1) as u64;
        (
            DbView {
                meta: MetaView { max_id: id, ..db.meta },
                data: db.data.push(RecordView { id: id, updated_at: now, ..rec }),
                ..db
            },
            true,
        )
    }
}

/// A merging import folded over the imported records in order, with the
/// count of records actually taken.
pub open spec fn merge_all(db: DbView, recs: Seq<RecordView>, now: i64) -> (DbView, int)
    decreases recs.len(),
{
    if recs.len() == 0 {
        (db, 0)
    } else {
        let prev = merge_all(db, recs.drop_last(), now);
        let step = merge_step(prev.0, recs.last(), now);
        (step.0, prev.1 + if step.1 {
            1int
        } else {
            0int
        })
    }
}

/// The document after a merging import: the fold above, with the
/// bookkeeping restamped once at the end.
pub open spec fn import_merge_spec(db: DbView, recs: Seq<RecordView>, now: i64) -> (DbView, int) {
    let merged = merge_all(db, recs, now);
    (
        DbView {
            meta: MetaView {
                record_count: merged.0.data.len() as usize,
                last_updated: now,
                last_updated_id: merged.0.meta.max_id,
                ..merged.0.meta
            },
            ..merged.0
        },
        merged.1,
    )
}

/// Whether some record in the table carries the name, ignoring case.
fn any_name_taken(data: &Vec<CollectionRecord>, name: &str) -> (r: bool)
    ensures
        r == name_taken(records_view(*data), name@),
{
    let ghost views = records_view(*data);
    let mut i: usize = 0;
    while i < data.len()
        invariant
            i <= data.len(),
            views == records_view(*data),
            forall|k: int| 0 <= k < i ==> !eq_ignore_case_spec(views[k].name, name@),
        decreases data.len() - i,
    {
        if eq_ignore_case(data[i].name.as_str(), name) {
            proof {
                assert(eq_ignore_case_spec(views[i as int].name, name@));
            }
            return true;
        }
        i += 1;
    }
    false
}

impl View for JsonStore {
    type V = DbView;

    closed spec fn view(&self) -> DbView {
        self.db@
    }
}

impl JsonStore {
    /// A store over the given document.
    pub fn new(db: Database) -> (s: Self)
        ensures
            s@ == db@,
    {
        JsonStore { db }
    }

    /// Gives the document up, for the caller to persist.
    pub fn into_database(self) -> (db: Database)
        ensures
            db@ == self@,
    {
        self.db
    }

    /// A copy of the whole document: what a backup serializes.
    pub fn export_document(&self) -> (db: Database)
        ensures
            db@ == export_spec(self@),
    {
        self.db.clone()
    }

    /// Appends the record under a freshly assigned identity, stamping it and
    /// the metadata with the given moment, and returns the stored record.
    pub fn insert(&mut self, record: CollectionRecord, now: i64) -> (r: CollectionRecord)
        requires
            old(self)@.meta.max_id < u64::MAX,
        ensures
            r@ == inserted_record(old(self)@, record@, now),
            final(self)@ == insert_spec(old(self)@, record@, now),
    {
        let mut record = record;
        let new_id = self.db.meta.max_id + 1;
        self.db.meta.max_id = new_id;
        record.id = new_id;
        record.updated_at = now;
        self.db.data.push(record.clone());
        self.db.meta.record_count = self.db.data.len();
        self.db.meta.last_updated = now;
        self.db.meta.last_updated_id = new_id;
        proof {
            assert(records_view(self.db.data) =~= old(self)@.data.push(record@));
            assert(self@ =~= insert_spec(old(self)@, record@, now));
        }
        record
    }

    /// Copies of all records, in stored order.
    pub fn get_all(&self) -> (r: Vec<CollectionRecord>)
        ensures
            records_view(r) == self@.data,
    {
        clone_records(&self.db.data)
    }

    /// A copy of the first record with the given identity, if any.
    pub fn get_by_id(&self, id: u64) -> (r: Option<CollectionRecord>)
        ensures
            match r {
                Some(rec) => find_record(self@.data, id) == Some(rec@),
                None => find_record(self@.data, id) is None,
            },
    {
        let ghost views = records_view(self.db.data);
        let mut i: usize = 0;
        while i < self.db.data.len()
            invariant
                i <= self.db.data.len(),
                views == records_view(self.db.data),
                forall|k: int| 0 <= k < i ==> views[k].id != id,
            decreases self.db.data.len() - i,
        {
            if self.db.data[i].id == id {
                proof {
                    lemma_record_idx_at(views, id, i as int);
                }
                return Some(self.db.data[i].clone());
            }
            i += 1;
        }
        proof {
            lemma_record_idx_absent(views, id);
        }
        None
    }

    /// Copies of the records whose name contains the query, ignoring case,
    /// in stored order.
    pub fn search_by_name(&self, query: &str) -> (r: Vec<CollectionRecord>)
        ensures
            records_view(r) == self@.data.filter(
                |rec: RecordView| contains_seq(lower_of(rec.name), lower_of(query@)),
            ),
    {
        let ghost views = records_view(self.db.data);
        let ghost pred = |rec: RecordView| contains_seq(lower_of(rec.name), lower_of(query@));
        let needle = to_lowercase(query);
        let mut out: Vec<CollectionRecord> = Vec::new();
        let mut i: usize = 0;
        while i < self.db.data.len()
            invariant
                i <= self.db.data.len(),
                views == records_view(self.db.data),
                pred == (|rec: RecordView| contains_seq(lower_of(rec.name), lower_of(query@))),
                needle@ == lower_of(query@),
                records_view(out) == views.take(i as int).filter(pred),
            decreases self.db.data.len() - i,
        {
            let hay = to_lowercase(self.db.data[i].name.as_str());
            let matched = contains_str(hay.as_str(), needle.as_str());
            proof {
                reveal(Seq::filter);
                assert(views.take(i + 1).drop_last() =~= views.take(i as int));
                assert(views.take(i + 1).last() == views[i as int]);
            }
            if matched {
                out.push(self.db.data[i].clone());
                proof {
                    assert(records_view(out) =~= views.take(i + 1).filter(pred));
                }
            } else {
                proof {
                    assert(records_view(out) =~= views.take(i + 1).filter(pred));
                }
            }
            i += 1;
        }
        proof {
            assert(views.take(self.db.data.len() as int) =~= views);
        }
        out
    }

    /// Replaces the first record carrying the caller's identity, forcing a
    /// fresh `updated_at` on the replacement and restamping the metadata;
    /// fails with `NotFound`, leaving the document unchanged, when no record
    /// carries it.
    pub fn update(&mut self, updated_record: CollectionRecord, now: i64) -> (r: Result<
        CollectionRecord,
        StoreError,
    >)
        ensures
            r is Ok <==> old(self)@.has_record_id(updated_record@.id),
            r matches Ok(ret) ==> {
                &&& ret@ == (RecordView { updated_at: now, ..updated_record@ })
                &&& final(self)@ == (DbView {
                    meta: MetaView {
                        last_updated: now,
                        last_updated_id: updated_record@.id,
                        ..old(self)@.meta
                    },
                    data: old(self)@.data.update(
                        record_idx(old(self)@.data, updated_record@.id),
                        ret@,
                    ),
                    ..old(self)@
                })
            },
            r is Err ==> r == Err::<CollectionRecord, StoreError>(StoreError::NotFound) && final(self)@
                == old(self)@,
    {
        let ghost views = records_view(self.db.data);
        let id = updated_record.id;
        let mut i: usize = 0;
        while i < self.db.data.len()
            invariant
                i <= self.db.data.len(),
                self@ == old(self)@,
                views == records_view(self.db.data),
                forall|k: int| 0 <= k < i ==> views[k].id != id,
                id == updated_record@.id,
            decreases self.db.data.len() - i,
        {
            if self.db.data[i].id == id {
                proof {
                    lemma_record_idx_at(views, id, i as int);
                    assert(old(self)@.data[i as int].id == id);
                }
                let mut replacement = updated_record.clone();
                replacement.updated_at = now;
                let ret = replacement.clone();
                self.db.data[i] = replacement;
                self.db.meta.last_updated = now;
                self.db.meta.last_updated_id = id;
                proof {
                    assert(records_view(self.db.data) =~= views.update(i as int, ret@));
                    assert(self@ =~= (DbView {
                        meta: MetaView {
                            last_updated: now,
                            last_updated_id: updated_record@.id,
                            ..old(self)@.meta
                        },
                        data: old(self)@.data.update(
                            record_idx(old(self)@.data, updated_record@.id),
                            ret@,
                        ),
                        ..old(self)@
                    }));
                }
                return Ok(ret);
            }
            i += 1;
        }
        Err(StoreError::NotFound)
    }

    /// Removes every record carrying the identity (at most one in a
    /// well-formed document).  Returns whether anything was removed; the
    /// count and stamp move only on an actual removal.
    pub fn delete_by_id(&mut self, id: u64, now: i64) -> (r: bool)
        ensures
            r == old(self)@.has_record_id(id),
            r ==> final(self)@ == (DbView {
                meta: MetaView {
                    record_count: old(self)@.data.filter(
                        |rec: RecordView| rec.id != id,
                    ).len() as usize,
                    last_updated: now,
                    ..old(self)@.meta
                },
                data: old(self)@.data.filter(|rec: RecordView| rec.id != id),
                ..old(self)@
            }),
            !r ==> final(self)@ == old(self)@,
    {
        let ghost views = records_view(self.db.data);
        let ghost keep = |rec: RecordView| rec.id != id;
        let mut out: Vec<CollectionRecord> = Vec::new();
        let mut found = false;
        let mut i: usize = 0;
        while i < self.db.data.len()
            invariant
                i <= self.db.data.len(),
                views == records_view(self.db.data),
                keep == (|rec: RecordView| rec.id != id),
                records_view(out) == views.take(i as int).filter(keep),
                found == exists|k: int| 0 <= k < i && views[k].id == id,
            decreases self.db.data.len() - i,
        {
            proof {
                reveal(Seq::filter);
                assert(views.take(i + 1).drop_last() =~= views.take(i as int));
                assert(views.take(i + 1).last() == views[i as int]);
            }
            if self.db.data[i].id == id {
                found = true;
                proof {
                    assert(records_view(out) =~= views.take(i + 1).filter(keep));
                }
            } else {
                out.push(self.db.data[i].clone());
                proof {
                    assert(records_view(out) =~= views.take(i + 1).filter(keep));
                }
            }
            i += 1;
        }
        proof {
            assert(views.take(self.db.data.len() as int) =~= views);
        }
        if found {
            self.db.data = out;
            self.db.meta.record_count = self.db.data.len();
            self.db.meta.last_updated = now;
            proof {
                assert(self@ =~= (DbView {
                    meta: MetaView {
                        record_count: old(self)@.data.filter(keep).len() as usize,
                        last_updated: now,
                        ..old(self)@.meta
                    },
                    data: old(self)@.data.filter(keep),
                    ..old(self)@
                }));
            }
        }
        found
    }

    /// Appends the profile, restamping the metadata; fails with
    /// `AlreadyExists`, leaving the document unchanged, when a profile
    /// already carries its identity.
    pub fn create_profile(&mut self, profile: BrowserProfile, now: i64) -> (r: Result<
        BrowserProfile,
        StoreError,
    >)
        ensures
            r is Ok <==> !old(self)@.has_profile_id(profile@.id),
            r matches Ok(ret) ==> ret@ == profile@ && final(self)@ == (DbView {
                meta: MetaView { last_updated: now, ..old(self)@.meta },
                profiles: old(self)@.profiles.push(profile@),
                ..old(self)@
            }),
            r is Err ==> r == Err::<BrowserProfile, StoreError>(StoreError::AlreadyExists)
                && final(self)@ == old(self)@,
    {
        let ghost views = profiles_view(self.db.profiles);
        let mut i: usize = 0;
        while i < self.db.profiles.len()
            invariant
                i <= self.db.profiles.len(),
                self@ == old(self)@,
                views == profiles_view(self.db.profiles),
                forall|k: int| 0 <= k < i ==> views[k].id != profile@.id,
            decreases self.db.profiles.len() - i,
        {
            if self.db.profiles[i].id == profile.id {
                proof {
                    assert(old(self)@.profiles[i as int].id == profile@.id);
                }
                return Err(StoreError::AlreadyExists);
            }
            i += 1;
        }
        let ret = profile.clone();
        self.db.profiles.push(profile);
        self.db.meta.last_updated = now;
        proof {
            assert(profiles_view(self.db.profiles) =~= old(self)@.profiles.push(ret@));
            assert(self@ =~= (DbView {
                meta: MetaView { last_updated: now, ..old(self)@.meta },
                profiles: old(self)@.profiles.push(ret@),
                ..old(self)@
            }));
        }
        Ok(ret)
    }

    /// A copy of the first profile with the given identity, if any.
    pub fn get_profile(&self, id: &str) -> (r: Option<BrowserProfile>)
        ensures
            match r {
                Some(p) => find_profile(self@.profiles, id@) == Some(p@),
                None => find_profile(self@.profiles, id@) is None,
            },
    {
        let ghost views = profiles_view(self.db.profiles);
        let needle = id.to_owned();
        let mut i: usize = 0;
        while i < self.db.profiles.len()
            invariant
                i <= self.db.profiles.len(),
                views == profiles_view(self.db.profiles),
                needle@ == id@,
                forall|k: int| 0 <= k < i ==> views[k].id != id@,
            decreases self.db.profiles.len() - i,
        {
            if self.db.profiles[i].id == needle {
                proof {
                    lemma_profile_idx_at(views, id@, i as int);
                }
                return Some(self.db.profiles[i].clone());
            }
            i += 1;
        }
        proof {
            lemma_profile_idx_absent(views, id@);
        }
        None
    }

    /// Copies of all profiles, in stored order.
    pub fn get_all_profiles(&self) -> (r: Vec<BrowserProfile>)
        ensures
            profiles_view(r) == self@.profiles,
    {
        clone_profiles(&self.db.profiles)
    }

    /// Replaces the first profile carrying the given identity with the
    /// caller's profile, forcing a fresh `updated_at` on the replacement and
    /// restamping the metadata; fails with `NotFound`, leaving the document
    /// unchanged, when no profile carries it.
    pub fn update_profile(&mut self, id: &str, updated_profile: BrowserProfile, now: i64) -> (r:
        Result<BrowserProfile, StoreError>)
        ensures
            r is Ok <==> old(self)@.has_profile_id(id@),
            r matches Ok(ret) ==> {
                &&& ret@ == (ProfileView { updated_at: now, ..updated_profile@ })
                &&& final(self)@ == (DbView {
                    meta: MetaView { last_updated: now, ..old(self)@.meta },
                    profiles: old(self)@.profiles.update(
                        profile_idx(old(self)@.profiles, id@),
                        ret@,
                    ),
                    ..old(self)@
                })
            },
            r is Err ==> r == Err::<BrowserProfile, StoreError>(StoreError::NotFound)
                && final(self)@ == old(self)@,
    {
        let ghost views = profiles_view(self.db.profiles);
        let needle = id.to_owned();
        let mut i: usize = 0;
        while i < self.db.profiles.len()
            invariant
                i <= self.db.profiles.len(),
                self@ == old(self)@,
                views == profiles_view(self.db.profiles),
                needle@ == id@,
                forall|k: int| 0 <= k < i ==> views[k].id != id@,
            decreases self.db.profiles.len() - i,
        {
            if self.db.profiles[i].id == needle {
                proof {
                    lemma_profile_idx_at(views, id@, i as int);
                    assert(old(self)@.profiles[i as int].id == id@);
                }
                let mut replacement = updated_profile.clone();
                replacement.updated_at = now;
                let ret = replacement.clone();
                self.db.profiles[i] = replacement;
                self.db.meta.last_updated = now;
                proof {
                    assert(profiles_view(self.db.profiles) =~= views.update(i as int, ret@));
                    assert(self@ =~= (DbView {
                        meta: MetaView { last_updated: now, ..old(self)@.meta },
                        profiles: old(self)@.profiles.update(
                            profile_idx(old(self)@.profiles, id@),
                            ret@,
                        ),
                        ..old(self)@
                    }));
                }
                return Ok(ret);
            }
            i += 1;
        }
        Err(StoreError::NotFound)
    }

    /// Removes every profile carrying the identity (at most one in a
    /// well-formed document).  Returns whether anything was removed; the
    /// stamp moves only on an actual removal.
    pub fn delete_profile(&mut self, id: &str, now: i64) -> (r: bool)
        ensures
            r == old(self)@.has_profile_id(id@),
            r ==> final(self)@ == (DbView {
                meta: MetaView { last_updated: now, ..old(self)@.meta },
                profiles: old(self)@.profiles.filter(|p: ProfileView| p.id != id@),
                ..old(self)@
            }),
            !r ==> final(self)@ == old(self)@,
    {
        let ghost views = profiles_view(self.db.profiles);
        let ghost keep = |p: ProfileView| p.id != id@;
        let needle = id.to_owned();
        let mut out: Vec<BrowserProfile> = Vec::new();
        let mut found = false;
        let mut i: usize = 0;
        while i < self.db.profiles.len()
            invariant
                i <= self.db.profiles.len(),
                self@ == old(self)@,
                views == profiles_view(self.db.profiles),
                keep == (|p: ProfileView| p.id != id@),
                needle@ == id@,
                profiles_view(out) == views.take(i as int).filter(keep),
                found == exists|k: int| 0 <= k < i && views[k].id == id@,
            decreases self.db.profiles.len() - i,
        {
            proof {
                reveal(Seq::filter);
                assert(views.take(i + 1).drop_last() =~= views.take(i as int));
                assert(views.take(i + 1).last() == views[i as int]);
            }
            if self.db.profiles[i].id == needle {
                found = true;
                proof {
                    assert(profiles_view(out) =~= views.take(i + 1).filter(keep));
                }
            } else {
                out.push(self.db.profiles[i].clone());
                proof {
                    assert(profiles_view(out) =~= views.take(i + 1).filter(keep));
                }
            }
            i += 1;
        }
        proof {
            assert(views.take(self.db.profiles.len() as int) =~= views);
        }
        if found {
            self.db.profiles = out;
            self.db.meta.last_updated = now;
            proof {
                assert(self@ =~= (DbView {
                    meta: MetaView { last_updated: now, ..old(self)@.meta },
                    profiles: old(self)@.profiles.filter(keep),
                    ..old(self)@
                }));
            }
        }
        found
    }

    /// The process-wide fallback mode, independent of any profile.
    pub fn get_default_browser_mode(&self) -> (r: BrowserMode)
        ensures
            r == self@.meta.default_browser_mode,
    {
        self.db.meta.default_browser_mode
    }

    /// Sets the process-wide fallback mode and restamps the metadata.
    pub fn set_default_browser_mode(&mut self, mode: BrowserMode, now: i64)
        ensures
            final(self)@ == (DbView {
                meta: MetaView {
                    default_browser_mode: mode,
                    last_updated: now,
                    ..old(self)@.meta
                },
                ..old(self)@
            }),
    {
        self.db.meta.default_browser_mode = mode;
        self.db.meta.last_updated = now;
        proof {
            assert(self@ =~= (DbView {
                meta: MetaView {
                    default_browser_mode: mode,
                    last_updated: now,
                    ..old(self)@.meta
                },
                ..old(self)@
            }));
        }
    }

    /// Replaces the document wholesale with the imported one, trusting its
    /// identities and bookkeeping as they stand, or merges: each imported
    /// record whose name no current record carries (ignoring case) is
    /// appended under a fresh identity; the rest are skipped.  Returns how
    /// many records were taken.
    pub fn import_document(&mut self, imported: Database, replace_existing: bool, now: i64) -> (r:
        usize)
        requires
            !replace_existing ==> old(self)@.meta.max_id + imported@.data.len() <= u64::MAX,
        ensures
            replace_existing ==> final(self)@ == import_replace_spec(old(self)@, imported@)
                && r == imported@.data.len(),
            !replace_existing ==> {
                &&& final(self)@ == import_merge_spec(old(self)@, imported@.data, now).0
                &&& r as int == import_merge_spec(old(self)@, imported@.data, now).1
            },
    {
        if replace_existing {
            let count = imported.data.len();
            self.db = imported;
            return count;
        }
        let ghost ivews = records_view(imported.data);
        let mut count: usize = 0;
        let mut i: usize = 0;
        while i < imported.data.len()
            invariant
                i <= imported.data.len(),
                ivews == records_view(imported.data),
                old(self)@.meta.max_id + ivews.len() <= u64::MAX,
                self@ == merge_all(old(self)@, ivews.take(i as int), now).0,
                count as int == merge_all(old(self)@, ivews.take(i as int), now).1,
                count <= i,
                self@.meta.max_id <= old(self)@.meta.max_id + i,
            decreases imported.data.len() - i,
        {
            proof {
                assert(ivews.take(i + 1).drop_last() =~= ivews.take(i as int));
                assert(ivews.take(i + 1).last() == ivews[i as int]);
            }
            let taken = any_name_taken(&self.db.data, imported.data[i].name.as_str());
            if !taken {
                let new_id = self.db.meta.max_id + 1;
                self.db.meta.max_id = new_id;
                let mut new_record = imported.data[i].clone();
                new_record.id = new_id;
                new_record.updated_at = now;
                self.db.data.push(new_record);
                count += 1;
                proof {
                    assert(records_view(self.db.data) =~= merge_all(
                        old(self)@,
                        ivews.take(i + 1),
                        now,
                    ).0.data);
                    assert(self@ =~= merge_all(old(self)@, ivews.take(i + 1), now).0);
                }
            }
            i += 1;
        }
        proof {
            assert(ivews.take(imported.data.len() as int) =~= ivews);
        }
        self.db.meta.record_count = self.db.data.len();
        self.db.meta.last_updated = now;
        self.db.meta.last_updated_id = self.db.meta.max_id;
        proof {
            assert(self@ =~= import_merge_spec(old(self)@, ivews, now).0);
        }
        count
    }
}

} // verus!
