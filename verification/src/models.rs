//! The data model: sites, collections, browser profiles, and the document
//! that holds them, together with the mathematical views that the contracts
//! of the store and the resolver are stated over.

use vstd::prelude::*;
use vstd::string::StrSliceExecFns;
use vstd::string::StringExecFns;

verus! {

/// One saved tab: a title and the address to reopen.
#[derive(Debug)]
pub struct SiteEntry {
    pub title: String,
    pub url: String,
}

/// A browser family, or a custom executable identified by name or path.
#[derive(Debug)]
pub enum Browser {
    Chrome,
    Firefox,
    Safari,
    Edge,
    Custom(String),
}

/// How the browser window is opened.
#[derive(Debug, Clone, Copy, PartialEq, Eq, Structural)]
pub enum BrowserMode {
    Normal,
    Incognito,
    Private,
}

/// A collection's stored configuration: a profile reference, an inline
/// override, or nothing at all (every field may be absent).
#[derive(Debug)]
pub struct CollectionConfig {
    pub browser_profile_id: Option<String>,
    pub browser: Option<Browser>,
    pub mode: Option<BrowserMode>,
    pub custom_path: Option<String>,
}

/// Mathematical model of a [`SiteEntry`].
#[verifier::ext_equal]
pub ghost struct SiteEntryView {
    pub title: Seq<char>,
    pub url: Seq<char>,
}

/// Mathematical model of a [`Browser`].
#[verifier::ext_equal]
pub ghost enum BrowserView {
    Chrome,
    Firefox,
    Safari,
    Edge,
    Custom(Seq<char>),
}

/// Mathematical model of a [`CollectionConfig`].
#[verifier::ext_equal]
pub ghost struct ConfigView {
    pub browser_profile_id: Option<Seq<char>>,
    pub browser: Option<BrowserView>,
    pub mode: Option<BrowserMode>,
    pub custom_path: Option<Seq<char>>,
}

/// The view of an optional owned string.
pub open spec fn opt_string_view(o: Option<String>) -> Option<Seq<char>> {
    match o {
        Some(s) => Some(s@),
        None => None,
    }
}

impl View for SiteEntry {
    type V = SiteEntryView;

    open spec fn view(&self) -> SiteEntryView {
        SiteEntryView { title: self.title@, url: self.url@ }
    }
}

impl View for Browser {
    type V = BrowserView;

    open spec fn view(&self) -> BrowserView {
        match self {
            Browser::Chrome => BrowserView::Chrome,
            Browser::Firefox => BrowserView::Firefox,
            Browser::Safari => BrowserView::Safari,
            Browser::Edge => BrowserView::Edge,
            Browser::Custom(name) => BrowserView::Custom(name@),
        }
    }
}

/// The view of an optional browser.
pub open spec fn opt_browser_view(o: Option<Browser>) -> Option<BrowserView> {
    match o {
        Some(b) => Some(b@),
        None => None,
    }
}

impl View for CollectionConfig {
    type V = ConfigView;

    open spec fn view(&self) -> ConfigView {
        ConfigView {
            browser_profile_id: opt_string_view(self.browser_profile_id),
            browser: opt_browser_view(self.browser),
            mode: self.mode,
            custom_path: opt_string_view(self.custom_path),
        }
    }
}

impl Clone for SiteEntry {
    fn clone(&self) -> (r: Self)
        ensures
            r@ == self@,
    {
        SiteEntry { title: self.title.clone(), url: self.url.clone() }
    }
}

impl Clone for Browser {
    fn clone(&self) -> (r: Self)
        ensures
            r@ == self@,
    {
        match self {
            Browser::Chrome => Browser::Chrome,
            Browser::Firefox => Browser::Firefox,
            Browser::Safari => Browser::Safari,
            Browser::Edge => Browser::Edge,
            Browser::Custom(name) => Browser::Custom(name.clone()),
        }
    }
}

/// Clones an optional owned string, keeping its view.
pub fn clone_opt_string(o: &Option<String>) -> (r: Option<String>)
    ensures
        opt_string_view(r) == opt_string_view(*o),
{
    match o {
        Some(s) => Some(s.clone()),
        None => None,
    }
}

impl Clone for CollectionConfig {
    fn clone(&self) -> (r: Self)
        ensures
            r@ == self@,
    {
        CollectionConfig {
            browser_profile_id: clone_opt_string(&self.browser_profile_id),
            browser: match &self.browser {
                Some(b) => Some(b.clone()),
                None => None,
            },
            mode: self.mode,
            custom_path: clone_opt_string(&self.custom_path),
        }
    }
}

impl Default for CollectionConfig {
    /// The empty configuration: nothing set, so resolution falls through to
    /// the stored default profile or the global default mode.
    fn default() -> (r: Self)
        ensures
            r@.browser_profile_id is None,
            r@.browser is None,
            r@.mode is None,
            r@.custom_path is None,
    {
        CollectionConfig { browser_profile_id: None, browser: None, mode: None, custom_path: None }
    }
}

/// The document schema version written into fresh metadata.
pub const SCHEMA_VERSION: u32 = 2;

/// The longest profile name accepted, counted in characters.
pub const MAX_PROFILE_NAME_CHARS: usize = 64;

/// How a store or registry operation fails.  Launch failures are per-site
/// and swallowed by the restore orchestration; parse and I/O failures arise
/// where the surrounding application touches the document file.
#[derive(Debug, Clone, Copy, PartialEq, Eq, Structural)]
pub enum StoreError {
    NotFound,
    AlreadyExists,
    ParseError,
    IoError,
    LaunchError,
}

/// A reusable named browser configuration, independent of any collection.
#[derive(Debug)]
pub struct BrowserProfile {
    pub id: String,
    pub name: String,
    pub browser: Browser,
    pub mode: BrowserMode,
    pub custom_path: Option<String>,
    pub is_default: bool,
    pub is_detected: bool,
    pub created_at: i64,
    pub updated_at: i64,
}

/// A persisted collection: a named, ordered list of sites plus its partial
/// browser configuration.  `id == 0` means "not yet persisted".
#[derive(Debug)]
pub struct CollectionRecord {
    pub id: u64,
    pub name: String,
    pub sites: Vec<SiteEntry>,
    pub config: CollectionConfig,
    pub created_at: i64,
    pub updated_at: i64,
}

/// Bookkeeping for the whole document.  `max_id` is the high-water mark for
/// record identity; it never decreases, even across deletes.
#[derive(Debug)]
pub struct DatabaseMeta {
    pub version: u32,
    pub last_updated_id: u64,
    pub last_updated: i64,
    pub max_id: u64,
    pub record_count: usize,
    pub created_at: i64,
    pub default_browser_mode: BrowserMode,
}

/// The document root: metadata, the profile table, and the record table.
#[derive(Debug)]
pub struct Database {
    pub meta: DatabaseMeta,
    pub profiles: Vec<BrowserProfile>,
    pub data: Vec<CollectionRecord>,
}

/// What a save request carries into the store: the sites, an optional name,
/// and an optional configuration.
#[derive(Debug)]
pub struct SaveCollectionRequest {
    pub sites: Vec<SiteEntry>,
    pub name: Option<String>,
    pub config: Option<CollectionConfig>,
}

/// The payload of a save or update: sites, creation moment, optional name,
/// and configuration.
#[derive(Debug)]
pub struct CollectionData {
    pub sites: Vec<SiteEntry>,
    pub created_at: i64,
    pub name: Option<String>,
    pub config: CollectionConfig,
}

/// Mathematical model of a [`BrowserProfile`].
#[verifier::ext_equal]
pub ghost struct ProfileView {
    pub id: Seq<char>,
    pub name: Seq<char>,
    pub browser: BrowserView,
    pub mode: BrowserMode,
    pub custom_path: Option<Seq<char>>,
    pub is_default: bool,
    pub is_detected: bool,
    pub created_at: i64,
    pub updated_at: i64,
}

/// Mathematical model of a [`CollectionRecord`].
#[verifier::ext_equal]
pub ghost struct RecordView {
    pub id: u64,
    pub name: Seq<char>,
    pub sites: Seq<SiteEntryView>,
    pub config: ConfigView,
    pub created_at: i64,
    pub updated_at: i64,
}

/// Mathematical model of a [`DatabaseMeta`].
#[verifier::ext_equal]
pub ghost struct MetaView {
    pub version: u32,
    pub last_updated_id: u64,
    pub last_updated: i64,
    pub max_id: u64,
    pub record_count: usize,
    pub created_at: i64,
    pub default_browser_mode: BrowserMode,
}

/// Mathematical model of a [`Database`].
#[verifier::ext_equal]
pub ghost struct DbView {
    pub meta: MetaView,
    pub profiles: Seq<ProfileView>,
    pub data: Seq<RecordView>,
}

/// The view of a site list.
pub open spec fn sites_view(v: Vec<SiteEntry>) -> Seq<SiteEntryView> {
    v@.map_values(|s: SiteEntry| s@)
}

/// The view of a profile table.
pub open spec fn profiles_view(v: Vec<BrowserProfile>) -> Seq<ProfileView> {
    v@.map_values(|p: BrowserProfile| p@)
}

/// The view of a record table.
pub open spec fn records_view(v: Vec<CollectionRecord>) -> Seq<RecordView> {
    v@.map_values(|r: CollectionRecord| r@)
}

/// The view of an optional configuration.
pub open spec fn opt_config_view(o: Option<CollectionConfig>) -> Option<ConfigView> {
    match o {
        Some(c) => Some(c@),
        None => None,
    }
}

/// Mathematical model of a [`CollectionData`].
#[verifier::ext_equal]
pub ghost struct CollectionDataView {
    pub sites: Seq<SiteEntryView>,
    pub created_at: i64,
    pub name: Option<Seq<char>>,
    pub config: ConfigView,
}

impl View for CollectionData {
    type V = CollectionDataView;

    open spec fn view(&self) -> CollectionDataView {
        CollectionDataView {
            sites: sites_view(self.sites),
            created_at: self.created_at,
            name: opt_string_view(self.name),
            config: self.config@,
        }
    }
}

/// Mathematical model of a [`SaveCollectionRequest`].
#[verifier::ext_equal]
pub ghost struct SaveRequestView {
    pub sites: Seq<SiteEntryView>,
    pub name: Option<Seq<char>>,
    pub config: Option<ConfigView>,
}

impl View for SaveCollectionRequest {
    type V = SaveRequestView;

    open spec fn view(&self) -> SaveRequestView {
        SaveRequestView {
            sites: sites_view(self.sites),
            name: opt_string_view(self.name),
            config: opt_config_view(self.config),
        }
    }
}

/// The payload a save request carries once it enters the store: the request
/// stamped with the moment of arrival, its configuration defaulted when the
/// request left it out.
pub fn collection_data_from_request(request: SaveCollectionRequest, now: i64) -> (r:
    CollectionData)
    ensures
        r@.sites == request@.sites,
        r@.created_at == now,
        r@.name == request@.name,
        match request@.config {
            Some(c) => r@.config == c,
            None => r@.config == (ConfigView {
                browser_profile_id: None,
                browser: None,
                mode: None,
                custom_path: None,
            }),
        },
{
    CollectionData {
        sites: request.sites,
        created_at: now,
        name: request.name,
        config: match request.config {
            Some(c) => c,
            None => CollectionConfig {
                browser_profile_id: None,
                browser: None,
                mode: None,
                custom_path: None,
            },
        },
    }
}

impl View for BrowserProfile {
    type V = ProfileView;

    open spec fn view(&self) -> ProfileView {
        ProfileView {
            id: self.id@,
            name: self.name@,
            browser: self.browser@,
            mode: self.mode,
            custom_path: opt_string_view(self.custom_path),
            is_default: self.is_default,
            is_detected: self.is_detected,
            created_at: self.created_at,
            updated_at: self.updated_at,
        }
    }
}

impl View for CollectionRecord {
    type V = RecordView;

    open spec fn view(&self) -> RecordView {
        RecordView {
            id: self.id,
            name: self.name@,
            sites: sites_view(self.sites),
            config: self.config@,
            created_at: self.created_at,
            updated_at: self.updated_at,
        }
    }
}

impl View for DatabaseMeta {
    type V = MetaView;

    open spec fn view(&self) -> MetaView {
        MetaView {
            version: self.version,
            last_updated_id: self.last_updated_id,
            last_updated: self.last_updated,
            max_id: self.max_id,
            record_count: self.record_count,
            created_at: self.created_at,
            default_browser_mode: self.default_browser_mode,
        }
    }
}

impl View for Database {
    type V = DbView;

    open spec fn view(&self) -> DbView {
        DbView {
            meta: self.meta@,
            profiles: profiles_view(self.profiles),
            data: records_view(self.data),
        }
    }
}

impl DbView {
    /// Whether some record carries the given identity.
    pub open spec fn has_record_id(self, id: u64) -> bool {
        exists|i: int| 0 <= i < self.data.len() && self.data[i].id == id
    }

    /// Whether some profile carries the given identity.
    pub open spec fn has_profile_id(self, id: Seq<char>) -> bool {
        exists|i: int| 0 <= i < self.profiles.len() && self.profiles[i].id == id
    }

    /// The identity discipline of the document: every record identity lies
    /// at or below the high-water mark, and identities are unique in both
    /// tables.
    pub open spec fn ids_ok(self) -> bool {
        &&& forall|i: int| 0 <= i < self.data.len() ==> #[trigger] self.data[i].id <= self.meta.max_id
        &&& forall|i: int, j: int|
            0 <= i < j < self.data.len() ==> self.data[i].id != self.data[j].id
        &&& forall|i: int, j: int|
            0 <= i < j < self.profiles.len() ==> self.profiles[i].id != self.profiles[j].id
    }

    /// Well-formedness of the document: the identity discipline, and the
    /// recorded count matching the record table.  Fresh documents satisfy
    /// it, and every operation of the store preserves it; a wholesale import
    /// trusts its document and satisfies it only if that document does.
    pub open spec fn wf(self) -> bool {
        &&& self.ids_ok()
        &&& self.meta.record_count == self.data.len()
    }
}

impl Clone for BrowserProfile {
    fn clone(&self) -> (r: Self)
        ensures
            r@ == self@,
    {
        BrowserProfile {
            id: self.id.clone(),
            name: self.name.clone(),
            browser: self.browser.clone(),
            mode: self.mode,
            custom_path: clone_opt_string(&self.custom_path),
            is_default: self.is_default,
            is_detected: self.is_detected,
            created_at: self.created_at,
            updated_at: self.updated_at,
        }
    }
}

/// Clones a site list, keeping its view.
pub fn clone_sites(sites: &Vec<SiteEntry>) -> (r: Vec<SiteEntry>)
    ensures
        sites_view(r) == sites_view(*sites),
{
    let mut out: Vec<SiteEntry> = Vec::new();
    let mut i: usize = 0;
    while i < sites.len()
        invariant
            i <= sites.len(),
            out@.len() == i,
            forall|j: int| 0 <= j < i ==> #[trigger] out@[j]@ == sites@[j]@,
        decreases sites.len() - i,
    {
        out.push(sites[i].clone());
        i += 1;
    }
    proof {
        assert(sites_view(out) =~= sites_view(*sites));
    }
    out
}

impl Clone for CollectionRecord {
    fn clone(&self) -> (r: Self)
        ensures
            r@ == self@,
    {
        CollectionRecord {
            id: self.id,
            name: self.name.clone(),
            sites: clone_sites(&self.sites),
            config: self.config.clone(),
            created_at: self.created_at,
            updated_at: self.updated_at,
        }
    }
}

impl Clone for DatabaseMeta {
    fn clone(&self) -> (r: Self)
        ensures
            r@ == self@,
    {
        DatabaseMeta {
            version: self.version,
            last_updated_id: self.last_updated_id,
            last_updated: self.last_updated,
            max_id: self.max_id,
            record_count: self.record_count,
            created_at: self.created_at,
            default_browser_mode: self.default_browser_mode,
        }
    }
}

/// Clones a profile table, keeping its view.
pub fn clone_profiles(profiles: &Vec<BrowserProfile>) -> (r: Vec<BrowserProfile>)
    ensures
        profiles_view(r) == profiles_view(*profiles),
{
    let mut out: Vec<BrowserProfile> = Vec::new();
    let mut i: usize = 0;
    while i < profiles.len()
        invariant
            i <= profiles.len(),
            out@.len() == i,
            forall|j: int| 0 <= j < i ==> #[trigger] out@[j]@ == profiles@[j]@,
        decreases profiles.len() - i,
    {
        out.push(profiles[i].clone());
        i += 1;
    }
    proof {
        assert(profiles_view(out) =~= profiles_view(*profiles));
    }
    out
}

/// Clones a record table, keeping its view.
pub fn clone_records(records: &Vec<CollectionRecord>) -> (r: Vec<CollectionRecord>)
    ensures
        records_view(r) == records_view(*records),
{
    let mut out: Vec<CollectionRecord> = Vec::new();
    let mut i: usize = 0;
    while i < records.len()
        invariant
            i <= records.len(),
            out@.len() == i,
            forall|j: int| 0 <= j < i ==> #[trigger] out@[j]@ == records@[j]@,
        decreases records.len() - i,
    {
        out.push(records[i].clone());
        i += 1;
    }
    proof {
        assert(records_view(out) =~= records_view(*records));
    }
    out
}

impl Clone for Database {
    fn clone(&self) -> (r: Self)
        ensures
            r@ == self@,
    {
        Database {
            meta: self.meta.clone(),
            profiles: clone_profiles(&self.profiles),
            data: clone_records(&self.data),
        }
    }
}

impl DatabaseMeta {
    /// Fresh metadata for a new document created at the given moment.
    pub fn fresh(now: i64) -> (r: Self)
        ensures
            r@ == (MetaView {
                version: SCHEMA_VERSION,
                last_updated_id: 0,
                last_updated: now,
                max_id: 0,
                record_count: 0,
                created_at: now,
                default_browser_mode: BrowserMode::Incognito,
            }),
    {
        DatabaseMeta {
            version: SCHEMA_VERSION,
            last_updated_id: 0,
            last_updated: now,
            max_id: 0,
            record_count: 0,
            created_at: now,
            default_browser_mode: BrowserMode::Incognito,
        }
    }
}

impl Default for DatabaseMeta {
    /// Fresh metadata stamped with the current moment.
    fn default() -> (r: Self)
        ensures
            r@.version == SCHEMA_VERSION,
            r@.last_updated_id == 0,
            r@.max_id == 0,
            r@.record_count == 0,
            r@.last_updated == r@.created_at,
            r@.default_browser_mode == BrowserMode::Incognito,
    {
        let now = crate::clock::current_timestamp();
        DatabaseMeta::fresh(now)
    }
}

impl Database {
    /// An empty document created at the given moment.
    pub fn fresh(now: i64) -> (r: Self)
        ensures
            r@.meta == DatabaseMeta::fresh_view(now),
            r@.profiles == Seq::<ProfileView>::empty(),
            r@.data == Seq::<RecordView>::empty(),
            r@.wf(),
    {
        let db = Database {
            meta: DatabaseMeta::fresh(now),
            profiles: Vec::new(),
            data: Vec::new(),
        };
        proof {
            assert(records_view(db.data) =~= Seq::<RecordView>::empty());
            assert(profiles_view(db.profiles) =~= Seq::<ProfileView>::empty());
        }
        db
    }
}

impl DatabaseMeta {
    /// The view of fresh metadata created at the given moment.
    pub open spec fn fresh_view(now: i64) -> MetaView {
        MetaView {
            version: SCHEMA_VERSION,
            last_updated_id: 0,
            last_updated: now,
            max_id: 0,
            record_count: 0,
            created_at: now,
            default_browser_mode: BrowserMode::Incognito,
        }
    }
}

impl Default for Database {
    /// An empty document stamped with the current moment: what the store
    /// yields when the backing file is absent.
    fn default() -> (r: Self)
        ensures
            r@.meta.version == SCHEMA_VERSION,
            r@.meta.max_id == 0,
            r@.meta.record_count == 0,
            r@.meta.default_browser_mode == BrowserMode::Incognito,
            r@.profiles == Seq::<ProfileView>::empty(),
            r@.data == Seq::<RecordView>::empty(),
            r@.wf(),
    {
        let now = crate::clock::current_timestamp();
        Database::fresh(now)
    }
}

impl BrowserProfile {
    /// Accepts a profile name of 1 to [`MAX_PROFILE_NAME_CHARS`] characters.
    pub fn validate_name(name: &str) -> (r: Result<(), String>)
        ensures
            r is Ok <==> 1 <= name@.len() <= MAX_PROFILE_NAME_CHARS,
            r matches Err(e) ==> e@ == if name@.len() == 0 {
                "Profile name cannot be empty"@
            } else {
                "Profile name cannot exceed 64 characters"@
            },
    {
        let char_count = name.unicode_len();
        if char_count == 0 {
            return Err(String::from_str("Profile name cannot be empty"));
        }
        if char_count > MAX_PROFILE_NAME_CHARS {
            return Err(String::from_str("Profile name cannot exceed 64 characters"));
        }
        Ok(())
    }

    /// A fresh profile with a validated name, created at the given moment:
    /// no custom path, not default, not yet detected.
    pub fn new(id: String, name: String, browser: Browser, mode: BrowserMode, now: i64) -> (r:
        Result<Self, String>)
        ensures
            r is Ok <==> 1 <= name@.len() <= MAX_PROFILE_NAME_CHARS,
            r matches Ok(p) ==> p@ == (ProfileView {
                id: id@,
                name: name@,
                browser: browser@,
                mode: mode,
                custom_path: None,
                is_default: false,
                is_detected: false,
                created_at: now,
                updated_at: now,
            }),
    {
        match Self::validate_name(name.as_str()) {
            Ok(_) => Ok(BrowserProfile {
                id,
                name,
                browser,
                mode,
                custom_path: None,
                is_default: false,
                is_detected: false,
                created_at: now,
                updated_at: now,
            }),
            Err(e) => Err(e),
        }
    }
}

} // verus!
