use oxide_explorer::cloud::{candidate_dirs, probe_status, CloudStatusProvider, FileProbe, ProviderKind, SyncStatus};

fn probe(ok: bool, age: Option<u64>) -> FileProbe {
    FileProbe { metadata_ok: ok, modified_age_secs: age }
}

#[test]
fn status_icons_and_classes() {
    assert_eq!(SyncStatus::Synced.icon_name(), "emblem-ok-symbolic");
    assert_eq!(SyncStatus::Syncing.css_class(), "sync-progress");
    assert_eq!(SyncStatus::Unknown.icon_name(), "");
    assert_eq!(SyncStatus::Error.css_class(), "sync-error");
}

#[test]
fn candidate_folders() {
    assert_eq!(
        candidate_dirs("/home/u"),
        vec!["/home/u/Nextcloud", "/home/u/Google Drive", "/home/u/google-drive", "/home/u/.insync", "/home/u/Dropbox"]
    );
}

#[test]
fn nextcloud_reports_recent_changes_as_syncing() {
    assert_eq!(probe_status(ProviderKind::Nextcloud, &probe(false, None)), SyncStatus::Error);
    assert_eq!(probe_status(ProviderKind::Nextcloud, &probe(true, Some(5))), SyncStatus::Syncing);
    assert_eq!(probe_status(ProviderKind::Nextcloud, &probe(true, Some(30))), SyncStatus::Synced);
    assert_eq!(probe_status(ProviderKind::Dropbox, &probe(false, None)), SyncStatus::Offline);
    assert_eq!(probe_status(ProviderKind::GoogleDrive, &probe(true, None)), SyncStatus::Synced);
}

#[test]
fn answers_are_cached_until_cleared() {
    let mut c = CloudStatusProvider::new("/home/u", &vec![true, false, false, true, false]);
    assert!(c.has_cloud_files("/home/u/Nextcloud/docs"));
    assert!(c.has_cloud_files("/home/u/.insync"));
    assert!(!c.has_cloud_files("/home/u/Dropbox"));
    assert!(!c.has_cloud_files("/home/u/Nextcloud2"));
    let f = "/home/u/Nextcloud/a.txt";
    assert_eq!(c.get_status(f, &probe(true, Some(3))), SyncStatus::Syncing);
    // the cached answer stands whatever the file system says now
    assert_eq!(c.get_status(f, &probe(false, None)), SyncStatus::Syncing);
    assert_eq!(c.get_status("/home/u/Nextcloud//a.txt", &probe(true, None)), SyncStatus::Syncing);
    c.clear_cache();
    assert_eq!(c.get_status(f, &probe(false, None)), SyncStatus::Error);
    assert_eq!(c.get_status("/home/u/.insync/x", &probe(false, None)), SyncStatus::Offline);
    assert_eq!(c.get_status("/tmp/x", &probe(true, None)), SyncStatus::Unknown);
}

#[test]
fn cached_answer_survives_other_queries() {
    let mut c = CloudStatusProvider::new("/home/u", &vec![true, false, false, true, false]);
    let f = "/home/u/Nextcloud/a.txt";
    assert_eq!(c.get_status(f, &probe(true, Some(3))), SyncStatus::Syncing);
    assert_eq!(c.get_status("/home/u/Nextcloud/b.txt", &probe(false, None)), SyncStatus::Error);
    assert_eq!(c.get_status("/home/u/.insync/x", &probe(true, None)), SyncStatus::Synced);
    assert_eq!(c.get_status("/tmp/y", &probe(true, None)), SyncStatus::Unknown);
    assert_eq!(c.get_status(f, &probe(false, None)), SyncStatus::Syncing);
    assert_eq!(c.get_status("/tmp/y", &probe(false, None)), SyncStatus::Unknown);
}
