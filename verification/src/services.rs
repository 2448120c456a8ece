//! The services over the store: collection CRUD, the profile registry with
//! its detection bookkeeping, the configuration resolver, and the restore
//! planner.
//!
//! The resolver walks a fixed precedence chain of named strategies —
//! explicit profile reference, inline override, stored default profile,
//! hardcoded fallback — each yielding a resolved configuration or passing;
//! the chain's exact result is pinned by [`resolve_spec`].

use vstd::prelude::*;
use vstd::string::StringExecFns;
use crate::launch::{
    plan_restore, Platform, ResolvedBrowserConfig, ResolvedView, RestorePlan,
};
use crate::models::{
    records_view, Browser, BrowserMode, BrowserProfile, BrowserView, CollectionConfig,
    CollectionData, CollectionDataView, CollectionRecord, DbView, MetaView, ProfileView,
    RecordView, SiteEntry, StoreError,
};
use crate::store::{
    find_profile, find_record, insert_spec, inserted_record, lemma_profile_idx_at,
    lemma_record_idx, profile_idx, record_idx, JsonStore,
};
use crate::text::{decimal_of, i64_to_string};

verus! {

/// The name a save falls back to when the request carries none:
/// `Collection ` followed by the decimal moment of the save.
pub open spec fn default_name_spec(now: i64) -> Seq<char> {
    "Collection "@ + decimal_of(now as int)
}

/// The fallback collection name for a save at the given moment.
pub fn default_collection_name(now: i64) -> (r: String)
    ensures
        r@ == default_name_spec(now),
{
    let r = String::from_str("Collection ").concat(i64_to_string(now).as_str());
    proof {
        assert(r@ =~= default_name_spec(now));
    }
    r
}

/// What a save stores before identity assignment: the payload under its
/// name (or the fallback name), not yet persisted.
pub open spec fn save_record_view(data: CollectionDataView, now: i64) -> RecordView {
    RecordView {
        id: 0,
        name: match data.name {
            Some(n) => n,
            None => default_name_spec(now),
        },
        sites: data.sites,
        config: data.config,
        created_at: data.created_at,
        updated_at: now,
    }
}

/// Collection CRUD over the store.
pub struct CollectionService {
    db: JsonStore,
}

impl View for CollectionService {
    type V = DbView;

    closed spec fn view(&self) -> DbView {
        self.db@
    }
}

impl CollectionService {
    /// A service over the given store.
    pub fn new(db: JsonStore) -> (s: Self)
        ensures
            s@ == db@,
    {
        CollectionService { db }
    }

    /// Gives the store up, for the caller to persist its document.
    pub fn into_store(self) -> (db: JsonStore)
        ensures
            db@ == self@,
    {
        self.db
    }

    /// Stores the payload as a new record under a fresh identity, naming it
    /// `Collection <moment>` when the payload carries no name.
    pub fn save_collection(&mut self, collection_data: CollectionData, now: i64) -> (r:
        CollectionRecord)
        requires
            old(self)@.meta.max_id < u64::MAX,
        ensures
            r@ == inserted_record(old(self)@, save_record_view(collection_data@, now), now),
            final(self)@ == insert_spec(
                old(self)@,
                save_record_view(collection_data@, now),
                now,
            ),
    {
        let name = match collection_data.name {
            Some(n) => n,
            None => default_collection_name(now),
        };
        let record = CollectionRecord {
            id: 0,
            name,
            sites: collection_data.sites,
            config: collection_data.config,
            created_at: collection_data.created_at,
            updated_at: now,
        };
        self.db.insert(record, now)
    }

    /// Copies of all records, in stored order.
    pub fn load_all_collections(&self) -> (r: Vec<CollectionRecord>)
        ensures
            records_view(r) == self@.data,
    {
        self.db.get_all()
    }

    /// A copy of the first record with the given identity, if any.
    pub fn get_collection(&self, id: u64) -> (r: Option<CollectionRecord>)
        ensures
            match r {
                Some(rec) => find_record(self@.data, id) == Some(rec@),
                None => find_record(self@.data, id) is None,
            },
    {
        self.db.get_by_id(id)
    }

    /// Copies of the records whose name contains the query, ignoring case.
    pub fn search_collections(&self, query: &str) -> (r: Vec<CollectionRecord>)
        ensures
            records_view(r) == self@.data.filter(
                |rec: RecordView| crate::text::contains_seq(
                    crate::text::lower_of(rec.name),
                    crate::text::lower_of(query@),
                ),
            ),
    {
        self.db.search_by_name(query)
    }

    /// Replaces the record with the given identity by the payload, keeping
    /// the record's creation moment and its name when the payload carries
    /// none; fails with `NotFound`, leaving the document unchanged, when no
    /// record carries the identity.
    pub fn update_collection(&mut self, id: u64, collection_data: CollectionData, now: i64) -> (r:
        Result<CollectionRecord, StoreError>)
        ensures
            r is Ok <==> old(self)@.has_record_id(id),
            r matches Ok(ret) ==> match find_record(old(self)@.data, id) {
                Some(existing) => {
                    &&& ret@ == (RecordView {
                        id: id,
                        name: match collection_data@.name {
                            Some(n) => n,
                            None => existing.name,
                        },
                        sites: collection_data@.sites,
                        config: collection_data@.config,
                        created_at: existing.created_at,
                        updated_at: now,
                    })
                    &&& final(self)@ == (DbView {
                        meta: MetaView {
                            last_updated: now,
                            last_updated_id: id,
                            ..old(self)@.meta
                        },
                        data: old(self)@.data.update(record_idx(old(self)@.data, id), ret@),
                        ..old(self)@
                    })
                },
                None => false,
            },
            r is Err ==> r == Err::<CollectionRecord, StoreError>(StoreError::NotFound)
                && final(self)@ == old(self)@,
    {
        proof {
            lemma_record_idx(old(self)@.data, id);
        }
        let existing = match self.db.get_by_id(id) {
            Some(existing) => existing,
            None => {
                return Err(StoreError::NotFound);
            },
        };
        let updated_record = CollectionRecord {
            id,
            name: match collection_data.name {
                Some(n) => n,
                None => existing.name,
            },
            sites: collection_data.sites,
            config: collection_data.config,
            created_at: existing.created_at,
            updated_at: now,
        };
        self.db.update(updated_record, now)
    }

    /// Removes the record with the given identity; `false` when none
    /// carries it.
    pub fn delete_collection(&mut self, id: u64, now: i64) -> (r: bool)
        ensures
            r == old(self)@.has_record_id(id),
            r ==> final(self)@ == (DbView {
                meta: MetaView {
                    record_count: old(self)@.data.filter(
                        |rec: RecordView| rec.id != id,
                    ).len() as usize,
                    last_updated: now,
                    ..old(self)@.meta
                },
                data: old(self)@.data.filter(|rec: RecordView| rec.id != id),
                ..old(self)@
            }),
            !r ==> final(self)@ == old(self)@,
    {
        self.db.delete_by_id(id, now)
    }
}

/// What resolving to a profile yields: its browser, mode, and path,
/// verbatim.
pub open spec fn profile_resolution(p: ProfileView) -> ResolvedView {
    ResolvedView { browser: p.browser, mode: p.mode, custom_path: p.custom_path }
}

/// The position of the first profile marked default, or -1.
pub open spec fn default_profile_idx(profiles: Seq<ProfileView>) -> int
    decreases profiles.len(),
{
    if profiles.len() == 0 {
        -1
    } else if profiles[0].is_default {
        0
    } else {
        let rest = default_profile_idx(profiles.drop_first());
        if rest < 0 {
            -1
        } else {
            rest + 1
        }
    }
}

/// A forward scan pins `default_profile_idx`: if nothing before `j` is
/// default and `j` is, the first default is at `j`.
pub proof fn lemma_default_profile_idx_at(profiles: Seq<ProfileView>, j: int)
    requires
        0 <= j < profiles.len(),
        profiles[j].is_default,
        forall|k: int| 0 <= k < j ==> !profiles[k].is_default,
    ensures
        default_profile_idx(profiles) == j,
    decreases profiles.len(),
{
    if j > 0 {
        assert forall|k: int|
            0 <= k < j - 1 implies !profiles.drop_first()[k].is_default by {
            assert(profiles.drop_first()[k] == profiles[k + 1]);
        }
        assert(profiles.drop_first()[j - 1] == profiles[j]);
        lemma_default_profile_idx_at(profiles.drop_first(), j - 1);
    }
}

/// A fruitless forward scan pins `default_profile_idx` to -1.
pub proof fn lemma_default_profile_idx_absent(profiles: Seq<ProfileView>)
    requires
        forall|k: int| 0 <= k < profiles.len() ==> !profiles[k].is_default,
    ensures
        default_profile_idx(profiles) == -1,
    decreases profiles.len(),
{
    if profiles.len() > 0 {
        assert forall|k: int|
            0 <= k < profiles.drop_first().len() implies !profiles.drop_first()[k].is_default by {
            assert(profiles.drop_first()[k] == profiles[k + 1]);
        }
        lemma_default_profile_idx_absent(profiles.drop_first());
    }
}

/// The later links of the precedence chain: inline override, then stored
/// default profile, then the hardcoded fallback of Chrome under the global
/// default mode.
pub open spec fn resolve_tail_spec(
    config: crate::models::ConfigView,
    profiles: Seq<ProfileView>,
    default_mode: BrowserMode,
) -> ResolvedView {
    match config.browser {
        Some(b) => ResolvedView {
            browser: b,
            mode: match config.mode {
                Some(m) => m,
                None => BrowserMode::Normal,
            },
            custom_path: config.custom_path,
        },
        None => if default_profile_idx(profiles) >= 0 {
            profile_resolution(profiles[default_profile_idx(profiles)])
        } else {
            ResolvedView {
                browser: BrowserView::Chrome,
                mode: default_mode,
                custom_path: None,
            }
        },
    }
}

/// The whole precedence chain, first match winning: a resolvable profile
/// reference beats an inline override beats the stored default profile
/// beats the hardcoded fallback.  A reference that resolves to no profile
/// falls through, it is not an error.
pub open spec fn resolve_spec(
    config: crate::models::ConfigView,
    profiles: Seq<ProfileView>,
    default_mode: BrowserMode,
) -> ResolvedView {
    match config.browser_profile_id {
        Some(pid) => match find_profile(profiles, pid) {
            Some(p) => profile_resolution(p),
            None => resolve_tail_spec(config, profiles, default_mode),
        },
        None => resolve_tail_spec(config, profiles, default_mode),
    }
}

/// The profile table after a detection sweep: each profile whose probed
/// flag differs from its stored one carries the new flag and a fresh
/// stamp; the rest stand as they were.
pub open spec fn apply_detection(profiles: Seq<ProfileView>, flags: Seq<bool>, now: i64) -> Seq<
    ProfileView,
> {
    Seq::new(
        profiles.len(),
        |i: int|
            if profiles[i].is_detected == flags[i] {
                profiles[i]
            } else {
                ProfileView { is_detected: flags[i], updated_at: now, ..profiles[i] }
            },
    )
}

/// The profile registry and the configuration resolver over the store.
pub struct ProfileService {
    db: JsonStore,
}

impl View for ProfileService {
    type V = DbView;

    closed spec fn view(&self) -> DbView {
        self.db@
    }
}

impl ProfileService {
    /// A service over the given store.
    pub fn new(db: JsonStore) -> (s: Self)
        ensures
            s@ == db@,
    {
        ProfileService { db }
    }

    /// Gives the store up, for the caller to persist its document.
    pub fn into_store(self) -> (db: JsonStore)
        ensures
            db@ == self@,
    {
        self.db
    }

    /// Relies on std::path::Path::exists: whether the path names anything
    /// on the filesystem here and now; nothing is promised of it.
    #[verifier::external_body]
    pub fn check_custom_path(path: &str) -> bool {
        std::path::Path::new(path).exists()
    }

    /// Appends the profile; `AlreadyExists` when its identity is taken.
    pub fn create_profile(&mut self, profile: BrowserProfile, now: i64) -> (r: Result<
        BrowserProfile,
        StoreError,
    >)
        ensures
            r is Ok <==> !old(self)@.has_profile_id(profile@.id),
            r matches Ok(ret) ==> ret@ == profile@ && final(self)@ == (DbView {
                meta: MetaView { last_updated: now, ..old(self)@.meta },
                profiles: old(self)@.profiles.push(profile@),
                ..old(self)@
            }),
            r is Err ==> r == Err::<BrowserProfile, StoreError>(StoreError::AlreadyExists)
                && final(self)@ == old(self)@,
    {
        self.db.create_profile(profile, now)
    }

    /// Copies of all profiles, in stored order.
    pub fn get_all_profiles(&self) -> (r: Vec<BrowserProfile>)
        ensures
            crate::models::profiles_view(r) == self@.profiles,
    {
        self.db.get_all_profiles()
    }

    /// A copy of the first profile with the given identity, if any.
    pub fn get_profile(&self, id: &str) -> (r: Option<BrowserProfile>)
        ensures
            match r {
                Some(p) => find_profile(self@.profiles, id@) == Some(p@),
                None => find_profile(self@.profiles, id@) is None,
            },
    {
        self.db.get_profile(id)
    }

    /// Replaces the profile with the given identity; `NotFound` when none
    /// carries it.
    pub fn update_profile(&mut self, id: &str, profile: BrowserProfile, now: i64) -> (r: Result<
        BrowserProfile,
        StoreError,
    >)
        ensures
            r is Ok <==> old(self)@.has_profile_id(id@),
            r matches Ok(ret) ==> {
                &&& ret@ == (ProfileView { updated_at: now, ..profile@ })
                &&& final(self)@ == (DbView {
                    meta: MetaView { last_updated: now, ..old(self)@.meta },
                    profiles: old(self)@.profiles.update(
                        profile_idx(old(self)@.profiles, id@),
                        ret@,
                    ),
                    ..old(self)@
                })
            },
            r is Err ==> r == Err::<BrowserProfile, StoreError>(StoreError::NotFound)
                && final(self)@ == old(self)@,
    {
        self.db.update_profile(id, profile, now)
    }

    /// Removes the profile with the given identity; `false` when none
    /// carries it.
    pub fn delete_profile(&mut self, id: &str, now: i64) -> (r: bool)
        ensures
            r == old(self)@.has_profile_id(id@),
            r ==> final(self)@ == (DbView {
                meta: MetaView { last_updated: now, ..old(self)@.meta },
                profiles: old(self)@.profiles.filter(|p: ProfileView| p.id != id@),
                ..old(self)@
            }),
            !r ==> final(self)@ == old(self)@,
    {
        self.db.delete_profile(id, now)
    }

    /// The process-wide fallback mode.
    pub fn get_default_browser_mode(&self) -> (r: BrowserMode)
        ensures
            r == self@.meta.default_browser_mode,
    {
        self.db.get_default_browser_mode()
    }

    /// Sets the process-wide fallback mode.
    pub fn set_default_browser_mode(&mut self, mode: BrowserMode, now: i64)
        ensures
            final(self)@ == (DbView {
                meta: MetaView {
                    default_browser_mode: mode,
                    last_updated: now,
                    ..old(self)@.meta
                },
                ..old(self)@
            }),
    {
        self.db.set_default_browser_mode(mode, now)
    }

    /// Re-stamps each profile whose probed detection flag changed and
    /// persists exactly those, one registry update per change; the rest
    /// stay untouched.  The probes themselves — filesystem and PATH checks,
    /// one strategy per browser family — run outside and hand in one flag
    /// per profile, in stored order.  Returns the full, current table.
    pub fn update_all_detection_status(&mut self, detected: &Vec<bool>, now: i64) -> (r: Vec<
        BrowserProfile,
    >)
        requires
            detected@.len() == old(self)@.profiles.len(),
            forall|i: int, j: int|
                0 <= i < j < old(self)@.profiles.len() ==> old(self)@.profiles[i].id != old(
                    self,
                )@.profiles[j].id,
        ensures
            final(self)@.profiles == apply_detection(old(self)@.profiles, detected@, now),
            final(self)@.data == old(self)@.data,
            final(self)@.meta == if exists|i: int|
                0 <= i < old(self)@.profiles.len() && old(self)@.profiles[i].is_detected
                    != detected@[i] {
                MetaView { last_updated: now, ..old(self)@.meta }
            } else {
                old(self)@.meta
            },
            crate::models::profiles_view(r) == apply_detection(
                old(self)@.profiles,
                detected@,
                now,
            ),
    {
        let ghost orig = old(self)@.profiles;
        let ghost flags = detected@;
        let ghost target = apply_detection(orig, flags, now);
        let mut profiles = self.db.get_all_profiles();
        let mut i: usize = 0;
        while i < profiles.len()
            invariant
                i <= profiles.len(),
                profiles.len() == orig.len(),
                flags.len() == orig.len(),
                flags == detected@,
                target == apply_detection(orig, flags, now),
                forall|a: int, b: int| 0 <= a < b < orig.len() ==> orig[a].id != orig[b].id,
                self@.profiles.len() == orig.len(),
                forall|k: int| 0 <= k < orig.len() ==> #[trigger] self@.profiles[k].id
                    == orig[k].id,
                forall|k: int| 0 <= k < i ==> #[trigger] self@.profiles[k] == target[k],
                forall|k: int| i <= k < orig.len() ==> #[trigger] self@.profiles[k] == orig[k],
                forall|k: int| 0 <= k < i ==> #[trigger] profiles@[k]@ == target[k],
                forall|k: int| i <= k < orig.len() ==> #[trigger] profiles@[k]@ == orig[k],
                self@.data == old(self)@.data,
                self@.meta == if exists|k: int|
                    0 <= k < i && orig[k].is_detected != flags[k] {
                    MetaView { last_updated: now, ..old(self)@.meta }
                } else {
                    old(self)@.meta
                },
            decreases profiles.len() - i,
        {
            let flag = detected[i];
            if profiles[i].is_detected != flag {
                let mut updated = profiles[i].clone();
                updated.is_detected = flag;
                updated.updated_at = now;
                let ghost before = self@.profiles;
                proof {
                    assert(orig[i as int].is_detected != flags[i as int]);
                    assert(target[i as int] == (ProfileView {
                        is_detected: flags[i as int],
                        updated_at: now,
                        ..orig[i as int]
                    }));
                    assert(updated@ == target[i as int]);
                    assert forall|k: int| 0 <= k < i implies before[k].id != updated@.id by {
                        assert(before[k].id == orig[k].id);
                    }
                    assert(before[i as int].id == updated@.id);
                    lemma_profile_idx_at(before, updated@.id, i as int);
                }
                let stored = self.db.update_profile(updated.id.clone().as_str(), updated, now);
                proof {
                    assert(stored is Ok);
                    assert(self@.profiles =~= before.update(i as int, target[i as int]));
                }
                let replacement = match stored {
                    Ok(p) => p,
                    Err(_) => {
                        proof {
                            assert(false);
                        }
                        unreached()
                    },
                };
                profiles[i] = replacement;
                proof {
                    assert(profiles@[i as int]@ == target[i as int]);
                }
            } else {
                proof {
                    assert(profiles@[i as int]@ == orig[i as int]);
                    assert(orig[i as int].is_detected == flags[i as int]);
                    assert(target[i as int] == orig[i as int]);
                }
            }
            i += 1;
        }
        proof {
            assert(self@.profiles =~= target);
            assert(crate::models::profiles_view(profiles) =~= target);
        }
        profiles
    }

    /// First link of the chain: the profile the configuration references,
    /// if the reference is set and resolves.
    fn try_profile_reference(&self, config: &CollectionConfig) -> (r: Option<
        ResolvedBrowserConfig,
    >)
        ensures
            match config@.browser_profile_id {
                Some(pid) => match find_profile(self@.profiles, pid) {
                    Some(p) => r matches Some(res) && res@ == profile_resolution(p),
                    None => r is None,
                },
                None => r is None,
            },
    {
        match &config.browser_profile_id {
            Some(pid) => match self.db.get_profile(pid.as_str()) {
                Some(p) => Some(
                    ResolvedBrowserConfig {
                        browser: p.browser,
                        mode: p.mode,
                        custom_path: p.custom_path,
                    },
                ),
                None => None,
            },
            None => None,
        }
    }

    /// Second link: the configuration's inline override, if its browser is
    /// set; an unset mode means `Normal`.
    fn try_inline_config(config: &CollectionConfig) -> (r: Option<ResolvedBrowserConfig>)
        ensures
            match config@.browser {
                Some(b) => r matches Some(res) && res@ == (ResolvedView {
                    browser: b,
                    mode: match config@.mode {
                        Some(m) => m,
                        None => BrowserMode::Normal,
                    },
                    custom_path: config@.custom_path,
                }),
                None => r is None,
            },
    {
        match &config.browser {
            Some(b) => Some(
                ResolvedBrowserConfig {
                    browser: b.clone(),
                    mode: match config.mode {
                        Some(m) => m,
                        None => BrowserMode::Normal,
                    },
                    custom_path: crate::models::clone_opt_string(&config.custom_path),
                },
            ),
            None => None,
        }
    }

    /// Third link: the first stored profile marked default, if any.
    fn try_default_profile(&self) -> (r: Option<ResolvedBrowserConfig>)
        ensures
            if default_profile_idx(self@.profiles) >= 0 {
                r matches Some(res) && res@ == profile_resolution(
                    self@.profiles[default_profile_idx(self@.profiles)],
                )
            } else {
                r is None
            },
    {
        let profiles = self.db.get_all_profiles();
        let ghost views = self@.profiles;
        let mut i: usize = 0;
        while i < profiles.len()
            invariant
                i <= profiles.len(),
                views == self@.profiles,
                crate::models::profiles_view(profiles) == views,
                forall|k: int| 0 <= k < i ==> !views[k].is_default,
            decreases profiles.len() - i,
        {
            if profiles[i].is_default {
                proof {
                    assert(views[i as int] == profiles@[i as int]@);
                    lemma_default_profile_idx_at(views, i as int);
                }
                let p = profiles[i].clone();
                let res = ResolvedBrowserConfig {
                    browser: p.browser,
                    mode: p.mode,
                    custom_path: p.custom_path,
                };
                proof {
                    assert(res@ =~= profile_resolution(views[i as int]));
                }
                return Some(res);
            }
            i += 1;
        }
        proof {
            lemma_default_profile_idx_absent(views);
        }
        None
    }

    /// Resolves a collection's stored configuration into a concrete
    /// browser, mode, and path by the precedence chain of [`resolve_spec`].
    pub fn resolve_browser_config(&self, config: &CollectionConfig) -> (r: ResolvedBrowserConfig)
        ensures
            r@ == resolve_spec(config@, self@.profiles, self@.meta.default_browser_mode),
    {
        if let Some(resolved) = self.try_profile_reference(config) {
            return resolved;
        }
        if let Some(resolved) = Self::try_inline_config(config) {
            return resolved;
        }
        if let Some(resolved) = self.try_default_profile() {
            return resolved;
        }
        ResolvedBrowserConfig {
            browser: Browser::Chrome,
            mode: self.db.get_default_browser_mode(),
            custom_path: None,
        }
    }
}

/// The restore planner: resolves once and lays out one launch per site.
pub struct BrowserService;

impl BrowserService {
    /// Plans a restore of the sites under the given stored configuration:
    /// the configuration is resolved once, and every site becomes one
    /// command, in stored order.  Spawning, pacing, and per-site failure
    /// isolation are the caller's loop, fed by the stepper of
    /// [`crate::launch`].
    pub fn restore_sites_with_config(
        profiles: &ProfileService,
        sites: &Vec<SiteEntry>,
        config: &CollectionConfig,
        platform: Platform,
    ) -> (r: RestorePlan)
        ensures
            r.delay_ms == crate::launch::LAUNCH_DELAY_MS,
            r.commands_view().len() == sites@.len(),
            forall|i: int|
                0 <= i < sites@.len() ==> r.commands_view()[i] == crate::launch::launch_command_spec(
                    platform,
                    resolve_spec(
                        config@,
                        profiles@.profiles,
                        profiles@.meta.default_browser_mode,
                    ),
                    sites@[i]@.url,
                ),
    {
        let resolved = profiles.resolve_browser_config(config);
        plan_restore(platform, &resolved, sites)
    }

    /// Plans a restore under the empty configuration: the stored default
    /// profile, or the global default mode, decides.
    pub fn restore_sites(profiles: &ProfileService, sites: &Vec<SiteEntry>, platform: Platform)
        -> (r: RestorePlan)
        ensures
            r.delay_ms == crate::launch::LAUNCH_DELAY_MS,
            r.commands_view().len() == sites@.len(),
            forall|i: int|
                0 <= i < sites@.len() ==> r.commands_view()[i] == crate::launch::launch_command_spec(
                    platform,
                    resolve_spec(
                        crate::models::ConfigView {
                            browser_profile_id: None,
                            browser: None,
                            mode: None,
                            custom_path: None,
                        },
                        profiles@.profiles,
                        profiles@.meta.default_browser_mode,
                    ),
                    sites@[i]@.url,
                ),
    {
        let default_config = CollectionConfig {
            browser_profile_id: None,
            browser: None,
            mode: None,
            custom_path: None,
        };
        Self::restore_sites_with_config(profiles, sites, &default_config, platform)
    }
}

} // verus!
