//! Cloud sync badges: which sync client manages a path, the status it
//! reports, and a cache of the answers.
use vstd::prelude::*;
use crate::paths::{joined, under, same_path, path_join, path_starts_with, paths_equal};
use crate::text::owned;

verus! {

/// The sync state shown for a file.
#[derive(Clone, Copy, Debug, PartialEq, Eq, Structural)]
pub enum SyncStatus {
    Synced,
    Syncing,
    Offline,
    Error,
    Unknown,
}

/// The icon of a status.
pub open spec fn status_icon(s: SyncStatus) -> Seq<char> {
    match s {
        SyncStatus::Synced => "emblem-ok-symbolic"@,
        SyncStatus::Syncing => "emblem-synchronizing-symbolic"@,
        SyncStatus::Offline => "cloud-disabled-symbolic"@,
        SyncStatus::Error => "emblem-important-symbolic"@,
        SyncStatus::Unknown => ""@,
    }
}

/// The style class of a status.
pub open spec fn status_class(s: SyncStatus) -> Seq<char> {
    match s {
        SyncStatus::Synced => "sync-ok"@,
        SyncStatus::Syncing => "sync-progress"@,
        SyncStatus::Offline => "sync-offline"@,
        SyncStatus::Error => "sync-error"@,
        SyncStatus::Unknown => ""@,
    }
}

impl SyncStatus {
    /// The icon name of the badge (empty for an unknown status).
    pub fn icon_name(&self) -> (res: &'static str)
        ensures
            res@ == status_icon(*self),
    {
        match self {
            SyncStatus::Synced => "emblem-ok-symbolic",
            SyncStatus::Syncing => "emblem-synchronizing-symbolic",
            SyncStatus::Offline => "cloud-disabled-symbolic",
            SyncStatus::Error => "emblem-important-symbolic",
            SyncStatus::Unknown => "",
        }
    }

    /// The style class of the badge (empty for an unknown status).
    pub fn css_class(&self) -> (res: &'static str)
        ensures
            res@ == status_class(*self),
    {
        match self {
            SyncStatus::Synced => "sync-ok",
            SyncStatus::Syncing => "sync-progress",
            SyncStatus::Offline => "sync-offline",
            SyncStatus::Error => "sync-error",
            SyncStatus::Unknown => "",
        }
    }
}

/// The sync clients that are recognised.
#[derive(Clone, Copy, Debug, PartialEq, Eq, Structural)]
pub enum ProviderKind {
    Nextcloud,
    GoogleDrive,
    Dropbox,
}

/// What the file system says of a path: whether its metadata can be read,
/// and how many seconds ago it was modified when the modification time can
/// be read (0 when that time lies in the future).
#[derive(Clone, Copy, Debug, PartialEq, Eq, Structural)]
pub struct FileProbe {
    pub metadata_ok: bool,
    pub modified_age_secs: Option<u64>,
}

/// The status a client reports for a path it manages. Nextcloud: an error
/// when the metadata cannot be read, syncing when the file changed less than
/// 30 seconds ago, synced otherwise. The others: synced when the path
/// exists, offline otherwise.
pub open spec fn probed_status(kind: ProviderKind, probe: FileProbe) -> SyncStatus {
    match kind {
        ProviderKind::Nextcloud => {
            if !probe.metadata_ok {
                SyncStatus::Error
            } else if probe.modified_age_secs matches Some(age) && age < 30 {
                SyncStatus::Syncing
            } else {
                SyncStatus::Synced
            }
        },
        _ => if probe.metadata_ok { SyncStatus::Synced } else { SyncStatus::Offline },
    }
}

struct Provider {
    kind: ProviderKind,
    sync_dir: Option<String>,
}

/// Detects the sync folders of cloud clients and answers, with a cache,
/// the status of files in them.
pub struct CloudStatusProvider {
    providers: Vec<Provider>,
    cache: Vec<(String, SyncStatus)>,
}

/// The provider set and the cache as values.
pub struct CloudView {
    pub providers: Seq<(ProviderKind, Option<Seq<char>>)>,
    pub cache: Seq<(Seq<char>, SyncStatus)>,
}

pub open spec fn text_option(o: Option<String>) -> Option<Seq<char>> {
    match o {
        Some(s) => Some(s@),
        None => None,
    }
}

impl View for CloudStatusProvider {
    type V = CloudView;

    closed spec fn view(&self) -> CloudView {
        CloudView {
            providers: self.providers@.map_values(|p: Provider| (p.kind, text_option(p.sync_dir))),
            cache: self.cache@.map_values(|e: (String, SyncStatus)| (e.0@, e.1)),
        }
    }
}

/// Whether a client with sync folder `dir` manages `path`.
pub open spec fn manages(dir: Option<Seq<char>>, path: Seq<char>) -> bool {
    match dir {
        Some(d) => under(path, d),
        None => false,
    }
}

/// The first client that manages `path`.
pub open spec fn first_manager(ps: Seq<(ProviderKind, Option<Seq<char>>)>, path: Seq<char>) -> Option<int>
    decreases ps.len(),
{
    if ps.len() == 0 {
        None
    } else {
        match first_manager(ps.drop_last(), path) {
            Some(i) => Some(i),
            None => if manages(ps.last().1, path) { Some(ps.len() - 1) } else { None },
        }
    }
}

/// The cached status of the first cache entry for the same path.
pub open spec fn cached_status(cache: Seq<(Seq<char>, SyncStatus)>, path: Seq<char>) -> Option<SyncStatus>
    decreases cache.len(),
{
    if cache.len() == 0 {
        None
    } else {
        match cached_status(cache.drop_last(), path) {
            Some(s) => Some(s),
            None => if same_path(cache.last().0, path) { Some(cache.last().1) } else { None },
        }
    }
}

/// One status query: a cached answer is returned as it is; otherwise the
/// first client that manages the path reports from the probe and the
/// answer is cached; a path no client manages is unknown.
pub open spec fn status_step(v: CloudView, path: Seq<char>, probe: FileProbe) -> (SyncStatus, CloudView) {
    match cached_status(v.cache, path) {
        Some(s) => (s, v),
        None => match first_manager(v.providers, path) {
            Some(i) => {
                let s = probed_status(v.providers[i].0, probe);
                (s, CloudView { providers: v.providers, cache: v.cache.push((path, s)) })
            },
            None => (SyncStatus::Unknown, v),
        },
    }
}

/// The folders where the clients keep their files, under the home folder:
/// Nextcloud; Google Drive, google-drive and .insync; Dropbox.
pub open spec fn candidate_dirs_of(home: Seq<char>) -> Seq<Seq<char>> {
    seq![
        joined(home, "Nextcloud"@),
        joined(home, "Google Drive"@),
        joined(home, "google-drive"@),
        joined(home, ".insync"@),
        joined(home, "Dropbox"@),
    ]
}

/// The clients found when `present[i]` tells whether the i-th candidate
/// folder exists: Nextcloud, Google Drive with the first existing of its
/// three folders, Dropbox.
pub open spec fn providers_found(home: Seq<char>, present: Seq<bool>) -> Seq<(ProviderKind, Option<Seq<char>>)> {
    let c = candidate_dirs_of(home);
    seq![
        (ProviderKind::Nextcloud, if present[0] { Some(c[0]) } else { None }),
        (ProviderKind::GoogleDrive, if present[1] { Some(c[1]) } else if present[2] { Some(c[2]) } else if present[3] { Some(c[3]) } else { None }),
        (ProviderKind::Dropbox, if present[4] { Some(c[4]) } else { None }),
    ]
}

/// The candidate sync folders under `home`, in the order `new` reads them.
pub fn candidate_dirs(home: &str) -> (res: Vec<String>)
    ensures
        res@.map_values(|s: String| s@) == candidate_dirs_of(home@),
{
    let a = path_join(home, "Nextcloud");
    let b = path_join(home, "Google Drive");
    let c = path_join(home, "google-drive");
    let d = path_join(home, ".insync");
    let e = path_join(home, "Dropbox");
    let res = vec![a, b, c, d, e];
    assert(res@.map_values(|s: String| s@) =~= candidate_dirs_of(home@));
    res
}

fn pick(present: bool, dir: &Vec<String>, i: usize) -> (res: Option<String>)
    requires
        i < dir.len(),
    ensures
        text_option(res) == if present { Some(dir@[i as int]@) } else { None },
{
    if present { Some(dir[i].clone()) } else { None }
}

impl CloudStatusProvider {
    /// The clients whose sync folders exist under `home`; `present[i]` tells
    /// whether the i-th folder of `candidate_dirs(home)` exists. The cache
    /// starts empty.
    pub fn new(home: &str, present: &Vec<bool>) -> (res: Self)
        requires
            present.len() == 5,
        ensures
            res@.providers == providers_found(home@, present@),
            res@.cache.len() == 0,
    {
        let dirs = candidate_dirs(home);
        let ghost c = candidate_dirs_of(home@);
        assert(dirs@.map_values(|s: String| s@).len() == dirs@.len());
        assert(dirs@[0]@ == c[0] && dirs@[1]@ == c[1] && dirs@[2]@ == c[2] && dirs@[3]@ == c[3] && dirs@[4]@ == c[4]);
        let nextcloud = pick(present[0], &dirs, 0);
        let gdrive = if present[1] {
            pick(true, &dirs, 1)
        } else if present[2] {
            pick(true, &dirs, 2)
        } else {
            pick(present[3], &dirs, 3)
        };
        let dropbox = pick(present[4], &dirs, 4);
        let providers = vec![
            Provider { kind: ProviderKind::Nextcloud, sync_dir: nextcloud },
            Provider { kind: ProviderKind::GoogleDrive, sync_dir: gdrive },
            Provider { kind: ProviderKind::Dropbox, sync_dir: dropbox },
        ];
        let res = CloudStatusProvider { providers, cache: Vec::new() };
        assert(res@.providers =~= providers_found(home@, present@));
        res
    }

    /// The status of `path`: the cached one if the path was asked before;
    /// otherwise what the first client managing it reports from `probe`,
    /// which is then cached; `Unknown` when no client manages it.
    pub fn get_status(&mut self, path: &str, probe: &FileProbe) -> (res: SyncStatus)
        ensures
            (res, final(self)@) == status_step(old(self)@, path@, *probe),
    {
        let ghost v = self@;
        // cache first
        let mut i: usize = 0;
        while i < self.cache.len()
            invariant
                v == self@,
                v == old(self)@,
                i <= self.cache.len(),
                (cached_status(v.cache.take(i as int), path@) is None),
            decreases self.cache.len() - i,
        {
            proof {
                assert(v.cache.take(i + 1).drop_last() =~= v.cache.take(i as int));
                assert(v.cache[i as int] == (self.cache@[i as int].0@, self.cache@[i as int].1));
            }
            if paths_equal(self.cache[i].0.as_str(), path) {
                let s = self.cache[i].1;
                proof {
                    lemma_cached_prefix(v.cache, path@, i as int + 1);
                }
                return s;
            }
            i += 1;
        }
        assert(v.cache.take(i as int) =~= v.cache);
        let mut k: usize = 0;
        while k < self.providers.len()
            invariant
                v == self@,
                v == old(self)@,
                (cached_status(v.cache, path@) is None),
                k <= self.providers.len(),
                (first_manager(v.providers.take(k as int), path@) is None),
            decreases self.providers.len() - k,
        {
            proof {
                assert(v.providers.take(k + 1).drop_last() =~= v.providers.take(k as int));
                assert(v.providers[k as int] == (self.providers@[k as int].kind, text_option(self.providers@[k as int].sync_dir)));
            }
            let managed = match &self.providers[k].sync_dir {
                Some(d) => path_starts_with(path, d.as_str()),
                None => false,
            };
            if managed {
                let s = probe_status(self.providers[k].kind, probe);
                proof {
                    assert(manages(v.providers[k as int].1, path@));
                    assert(v.providers.take(k + 1).last() == v.providers[k as int]);
                    assert(first_manager(v.providers.take(k + 1), path@) == Some(k as int));
                    lemma_manager_prefix(v.providers, path@, k as int + 1);
                }
                let key = owned(path);
                self.cache.push((key, s));
                assert(self@.cache =~= v.cache.push((path@, s)));
                assert(self@.providers =~= v.providers);
                assert(self@ == (CloudView { providers: v.providers, cache: v.cache.push((path@, s)) }));
                assert(v.providers[k as int].0 == self.providers@[k as int].kind);
                assert(s == probed_status(v.providers[first_manager(v.providers, path@)->0].0, *probe));
                assert(status_step(v, path@, *probe) == (s, CloudView { providers: v.providers, cache: v.cache.push((path@, s)) }));
                return s;
            }
            k += 1;
        }
        assert(v.providers.take(k as int) =~= v.providers);
        SyncStatus::Unknown
    }

    /// Whether some client manages `dir`.
    pub fn has_cloud_files(&self, dir: &str) -> (res: bool)
        ensures
            res == (first_manager(self@.providers, dir@) is Some),
    {
        let ghost v = self@;
        let mut k: usize = 0;
        while k < self.providers.len()
            invariant
                v == self@,
                k <= self.providers.len(),
                (first_manager(v.providers.take(k as int), dir@) is None),
            decreases self.providers.len() - k,
        {
            proof {
                assert(v.providers.take(k + 1).drop_last() =~= v.providers.take(k as int));
                assert(v.providers[k as int] == (self.providers@[k as int].kind, text_option(self.providers@[k as int].sync_dir)));
            }
            let managed = match &self.providers[k].sync_dir {
                Some(d) => path_starts_with(dir, d.as_str()),
                None => false,
            };
            if managed {
                proof {
                    lemma_manager_prefix(v.providers, dir@, k as int + 1);
                }
                return true;
            }
            k += 1;
        }
        assert(v.providers.take(k as int) =~= v.providers);
        false
    }

    /// Forgets every cached status; the clients stay.
    pub fn clear_cache(&mut self)
        ensures
            final(self)@.providers == old(self)@.providers,
            final(self)@.cache.len() == 0,
    {
        self.cache.clear();
        assert(self@.cache =~= Seq::<(Seq<char>, SyncStatus)>::empty());
    }
}

/// The status a client of `kind` reports from `probe`.
pub fn probe_status(kind: ProviderKind, probe: &FileProbe) -> (res: SyncStatus)
    ensures
        res == probed_status(kind, *probe),
{
    match kind {
        ProviderKind::Nextcloud => {
            if !probe.metadata_ok {
                SyncStatus::Error
            } else {
                match probe.modified_age_secs {
                    Some(age) => if age < 30 { SyncStatus::Syncing } else { SyncStatus::Synced },
                    None => SyncStatus::Synced,
                }
            }
        },
        _ => if probe.metadata_ok { SyncStatus::Synced } else { SyncStatus::Offline },
    }
}

proof fn lemma_cached_prefix(cache: Seq<(Seq<char>, SyncStatus)>, path: Seq<char>, n: int)
    requires
        0 < n <= cache.len(),
        (cached_status(cache.take(n), path) is Some),
    ensures
        cached_status(cache, path) == cached_status(cache.take(n), path),
    decreases cache.len() - n,
{
    if n < cache.len() {
        assert(cache.take(n + 1).drop_last() =~= cache.take(n));
        lemma_cached_prefix(cache, path, n + 1);
    } else {
        assert(cache.take(n) =~= cache);
    }
}

proof fn lemma_manager_prefix(ps: Seq<(ProviderKind, Option<Seq<char>>)>, path: Seq<char>, n: int)
    requires
        0 < n <= ps.len(),
        (first_manager(ps.take(n), path) is Some),
    ensures
        first_manager(ps, path) == first_manager(ps.take(n), path),
    decreases ps.len() - n,
{
    if n < ps.len() {
        assert(ps.take(n + 1).drop_last() =~= ps.take(n));
        lemma_manager_prefix(ps, path, n + 1);
    } else {
        assert(ps.take(n) =~= ps);
    }
}

/// A status once answered is remembered: asking again for the same path
/// gives the same answer, whatever the file system says the second time.
pub proof fn lemma_status_remembered(v: CloudView, path: Seq<char>, first: FileProbe, second: FileProbe)
    requires
        same_path(path, path),
    ensures
        status_step(status_step(v, path, first).1, path, second).0 == status_step(v, path, first).0,
{
    let (s, v1) = status_step(v, path, first);
    if cached_status(v.cache, path) is None && first_manager(v.providers, path) is Some {
        assert(v1.cache.drop_last() =~= v.cache);
        assert(cached_status(v1.cache, path) == Some(s));
    }
}

/// The provider set and cache after answering `queries` in turn, each a
/// path with what the file system says of it.
pub open spec fn run_queries(v: CloudView, queries: Seq<(Seq<char>, FileProbe)>) -> CloudView
    decreases queries.len(),
{
    if queries.len() == 0 {
        v
    } else {
        status_step(run_queries(v, queries.drop_last()), queries.last().0, queries.last().1).1
    }
}

proof fn lemma_cache_entry_kept(v: CloudView, path: Seq<char>, queries: Seq<(Seq<char>, FileProbe)>)
    requires
        (cached_status(v.cache, path) is Some),
    ensures
        cached_status(run_queries(v, queries).cache, path) == cached_status(v.cache, path),
    decreases queries.len(),
{
    if queries.len() > 0 {
        lemma_cache_entry_kept(v, path, queries.drop_last());
        let w = run_queries(v, queries.drop_last());
        let q = queries.last();
        if cached_status(w.cache, q.0) is None && first_manager(w.providers, q.0) is Some {
            let s = probed_status(w.providers[first_manager(w.providers, q.0)->0].0, q.1);
            assert(w.cache.push((q.0, s)).drop_last() =~= w.cache);
        }
    }
}

/// A status once answered for a path that some client manages is
/// remembered across any later queries, on that path or on others: as long
/// as the cache is not cleared, asking for the path again gives the same
/// answer, whatever the file system says then.
pub proof fn lemma_status_remembered_across(
    v: CloudView,
    path: Seq<char>,
    first: FileProbe,
    queries: Seq<(Seq<char>, FileProbe)>,
    later: FileProbe,
)
    requires
        same_path(path, path),
        (cached_status(v.cache, path) is Some) || (first_manager(v.providers, path) is Some),
    ensures
        status_step(run_queries(status_step(v, path, first).1, queries), path, later).0
            == status_step(v, path, first).0,
{
    let (s, v1) = status_step(v, path, first);
    if cached_status(v.cache, path) is None {
        assert(v1.cache.drop_last() =~= v.cache);
    }
    assert(cached_status(v1.cache, path) == Some(s));
    lemma_cache_entry_kept(v1, path, queries);
}

proof fn lemma_unmanaged_stays_uncached(v: CloudView, path: Seq<char>, queries: Seq<(Seq<char>, FileProbe)>)
    requires
        (cached_status(v.cache, path) is None),
        forall|i: int| 0 <= i < queries.len() && #[trigger] same_path(queries[i].0, path)
            ==> (first_manager(v.providers, queries[i].0) is None),
    ensures
        run_queries(v, queries).providers == v.providers,
        (cached_status(run_queries(v, queries).cache, path) is None),
    decreases queries.len(),
{
    if queries.len() > 0 {
        let pre = queries.drop_last();
        assert forall|i: int| 0 <= i < pre.len() && #[trigger] same_path(pre[i].0, path)
            implies (first_manager(v.providers, pre[i].0) is None) by {
            assert(pre[i] == queries[i]);
        }
        lemma_unmanaged_stays_uncached(v, path, pre);
        let w = run_queries(v, pre);
        let q = queries.last();
        assert(q == queries[queries.len() - 1]);
        if cached_status(w.cache, q.0) is None && first_manager(w.providers, q.0) is Some {
            let s = probed_status(w.providers[first_manager(w.providers, q.0)->0].0, q.1);
            assert(w.cache.push((q.0, s)).drop_last() =~= w.cache);
        }
    }
}

/// A path that no client manages is answered `Unknown` again after any
/// later queries, as long as none of them is for a path the cache takes
/// for this one and some client manages.
pub proof fn lemma_unmanaged_stays_unknown(
    v: CloudView,
    path: Seq<char>,
    queries: Seq<(Seq<char>, FileProbe)>,
    later: FileProbe,
)
    requires
        (cached_status(v.cache, path) is None),
        (first_manager(v.providers, path) is None),
        forall|i: int| 0 <= i < queries.len() && #[trigger] same_path(queries[i].0, path)
            ==> (first_manager(v.providers, queries[i].0) is None),
    ensures
        status_step(run_queries(v, queries), path, later).0 == SyncStatus::Unknown,
{
    lemma_unmanaged_stays_uncached(v, path, queries);
}

/// A path that no client manages is unknown and leaves the cache as it was.
pub proof fn lemma_unmanaged_unknown(v: CloudView, path: Seq<char>, probe: FileProbe)
    requires
        (cached_status(v.cache, path) is None),
        (first_manager(v.providers, path) is None),
    ensures
        status_step(v, path, probe) == (SyncStatus::Unknown, v),
{
}

/// After the cache is cleared, a path is answered afresh from the probe.
pub proof fn lemma_cleared_cache_probes_again(v: CloudView, path: Seq<char>, probe: FileProbe)
    requires
        v.cache.len() == 0,
        (first_manager(v.providers, path) matches Some(i)),
    ensures
        status_step(v, path, probe).0 == probed_status(v.providers[first_manager(v.providers, path)->0].0, probe),
{
}

} // verus!

verus! {

/// What a client reports: for Nextcloud an error when the file's metadata
/// cannot be read, syncing while the file changed less than 30 seconds ago
/// and synced from 30 seconds on (or when the time is unknown); for the
/// other clients synced when the file can be read and offline when not.
/// No client reports unknown: that is left for paths no client manages.
pub proof fn lemma_client_reports(kind: ProviderKind, probe: FileProbe)
    ensures
        kind == ProviderKind::Nextcloud ==> {
            &&& !probe.metadata_ok ==> probed_status(kind, probe) == SyncStatus::Error
            &&& probe.metadata_ok && (probe.modified_age_secs matches Some(a) && a < 30)
                ==> probed_status(kind, probe) == SyncStatus::Syncing
            &&& probe.metadata_ok && (probe.modified_age_secs matches Some(a) && a >= 30)
                ==> probed_status(kind, probe) == SyncStatus::Synced
            &&& probe.metadata_ok && probe.modified_age_secs is None ==> probed_status(kind, probe) == SyncStatus::Synced
        },
        kind != ProviderKind::Nextcloud ==> probed_status(kind, probe) == if probe.metadata_ok {
            SyncStatus::Synced
        } else {
            SyncStatus::Offline
        },
        probed_status(kind, probe) != SyncStatus::Unknown,
{
}

} // verus!

verus! {

/// The badge of each status: a check mark for synced, the sync arrows while
/// syncing, a crossed-out cloud when offline, a warning on error, and no
/// badge for an unknown status; the style class names the same state.
pub proof fn lemma_badges()
    ensures
        status_icon(SyncStatus::Synced) == "emblem-ok-symbolic"@ && status_class(SyncStatus::Synced) == "sync-ok"@,
        status_icon(SyncStatus::Syncing) == "emblem-synchronizing-symbolic"@
            && status_class(SyncStatus::Syncing) == "sync-progress"@,
        status_icon(SyncStatus::Offline) == "cloud-disabled-symbolic"@
            && status_class(SyncStatus::Offline) == "sync-offline"@,
        status_icon(SyncStatus::Error) == "emblem-important-symbolic"@ && status_class(SyncStatus::Error) == "sync-error"@,
        status_icon(SyncStatus::Unknown).len() == 0 && status_class(SyncStatus::Unknown).len() == 0,
{
    reveal_strlit("");
}

/// Each client looks in its own folders under home: Nextcloud in
/// "Nextcloud", Google Drive in the first existing of "Google Drive",
/// "google-drive" and ".insync", Dropbox in "Dropbox"; a client whose
/// folders are all missing manages nothing.
pub proof fn lemma_client_folders(home: Seq<char>, present: Seq<bool>)
    requires
        present.len() == 5,
    ensures
        providers_found(home, present)[0] == (ProviderKind::Nextcloud,
            if present[0] { Some(joined(home, "Nextcloud"@)) } else { None }),
        providers_found(home, present)[2] == (ProviderKind::Dropbox,
            if present[4] { Some(joined(home, "Dropbox"@)) } else { None }),
        providers_found(home, present)[1].0 == ProviderKind::GoogleDrive,
        present[1] ==> providers_found(home, present)[1].1 == Some(joined(home, "Google Drive"@)),
        !present[1] && present[2] ==> providers_found(home, present)[1].1 == Some(joined(home, "google-drive"@)),
        !present[1] && !present[2] && present[3] ==> providers_found(home, present)[1].1 == Some(joined(home, ".insync"@)),
        !present[1] && !present[2] && !present[3] ==> providers_found(home, present)[1].1 is None,
{
}

} // verus!
