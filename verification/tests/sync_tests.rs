use memdbstash::sdk::{RemoteSdk, SdkInfo};
use memdbstash::state::SyncState;
use memdbstash::reconcile::{compute_plan, SyncPlan};
use memdbstash::stash::{Config, MemDbStash};
use memdbstash::error::Error;

fn mk(filename: &str, name: &str, version: &str, etag: &str, size: u64) -> RemoteSdk {
    RemoteSdk::new(
        filename.to_string(),
        SdkInfo::new(name.to_string(), version.to_string()),
        etag.to_string(),
        size,
    )
}

fn stash_at(dir: &str) -> MemDbStash {
    let config = Config::new(Some(dir.to_string()));
    MemDbStash::new(&config).unwrap()
}

fn state_of(records: Vec<RemoteSdk>) -> SyncState {
    stash_at("/tmp/mirror").get_remote_state(&records)
}

fn plan_of(local: &SyncState, remote: &SyncState) -> SyncPlan {
    compute_plan(local, remote)
}

#[test]
fn local_filename_strips_one_trailing_z() {
    let sdk = mk("ios-10.2.memdbz", "ios", "10.2", "t1", 10);
    assert_eq!(sdk.filename(), "ios-10.2.memdbz");
    assert_eq!(sdk.local_filename(), "ios-10.2.memdb");
}

#[test]
fn local_filename_without_suffix_is_unchanged() {
    let sdk = mk("plain-name", "ios", "10.2", "t1", 10);
    assert_eq!(sdk.local_filename(), "plain-name");
}

#[test]
fn local_filename_strips_exactly_one_z() {
    let sdk = mk("zz", "ios", "10.2", "t1", 10);
    assert_eq!(sdk.local_filename(), "z");
    let sdk = mk("", "ios", "10.2", "t1", 10);
    assert_eq!(sdk.local_filename(), "");
}

#[test]
fn sdk_accessors_and_description() {
    let sdk = mk("a.memdbz", "ios", "10.2", "t1", 42);
    assert_eq!(sdk.info().name(), "ios");
    assert_eq!(sdk.info().version(), "10.2");
    assert_eq!(sdk.info().describe(), "ios 10.2");
    assert_eq!(sdk.size, 42);
    assert_eq!(sdk.etag, "t1");
}

#[test]
fn record_equality_is_structural() {
    let a = mk("a.memdbz", "ios", "10.2", "t1", 10);
    let b = mk("a.memdbz", "ios", "10.2", "t1", 10);
    let c = mk("a.memdbz", "ios", "10.2", "t2", 10);
    let d = mk("a.memdbz", "ios", "10.2", "t1", 12);
    assert!(a.same_record(&b));
    assert!(!a.same_record(&c));
    assert!(!a.same_record(&d));
}

#[test]
fn empty_state_tracks_nothing() {
    let s = SyncState::new();
    assert_eq!(s.len(), 0);
    assert!(s.get_sdk("a.memdb").is_none());
}

#[test]
fn state_insert_and_lookup() {
    let mut s = SyncState::new();
    s.insert(mk("a.memdbz", "ios", "10.2", "t1", 10));
    s.insert(mk("b.memdbz", "tvos", "10.1", "t2", 20));
    assert_eq!(s.len(), 2);
    let a = s.get_sdk("a.memdb").unwrap();
    assert_eq!(a.filename(), "a.memdbz");
    assert_eq!(a.size, 10);
    let b = s.get_sdk("b.memdb").unwrap();
    assert_eq!(b.etag, "t2");
    assert!(s.get_sdk("c.memdb").is_none());
    assert!(s.get_sdk("a.memdbz").is_none());
}

#[test]
fn remote_state_keyed_by_local_name_last_write_wins() {
    let stash = stash_at("/tmp/mirror");
    let listing = vec![
        mk("a.memdbz", "ios", "10.2", "t1", 10),
        mk("a.memdb", "ios", "10.3", "t2", 12),
    ];
    let state = stash.get_remote_state(&listing);
    assert_eq!(state.len(), 1);
    let got = state.get_sdk("a.memdb").unwrap();
    assert_eq!(got.etag, "t2");
    assert_eq!(got.size, 12);
}

#[test]
fn first_run_fetches_everything() {
    let local = SyncState::new();
    let remote = state_of(vec![mk("a.memdbz", "ios", "10.2", "t1", 10)]);
    let plan = plan_of(&local, &remote);
    assert_eq!(plan.fetches.len(), 1);
    assert_eq!(plan.fetches[0].local_filename(), "a.memdb");
    assert_eq!(plan.fetches[0].size, 10);
    assert_eq!(plan.fetches[0].etag, "t1");
    assert_eq!(plan.removes.len(), 0);
}

#[test]
fn changed_record_is_fetched_once_not_removed() {
    let local = state_of(vec![mk("a.memdbz", "ios", "10.2", "t1", 10)]);
    let remote = state_of(vec![mk("a.memdbz", "ios", "10.2", "t2", 12)]);
    let plan = plan_of(&local, &remote);
    assert_eq!(plan.fetches.len(), 1);
    assert_eq!(plan.fetches[0].local_filename(), "a.memdb");
    assert_eq!(plan.fetches[0].size, 12);
    assert_eq!(plan.fetches[0].etag, "t2");
    assert_eq!(plan.removes.len(), 0);
}

#[test]
fn vanished_record_is_removed_not_fetched() {
    let local = state_of(vec![
        mk("a.memdbz", "ios", "10.2", "t1", 10),
        mk("b.memdbz", "tvos", "10.1", "t2", 20),
    ]);
    let remote = state_of(vec![mk("a.memdbz", "ios", "10.2", "t1", 10)]);
    let plan = plan_of(&local, &remote);
    assert_eq!(plan.fetches.len(), 0);
    assert_eq!(plan.removes.len(), 1);
    assert_eq!(plan.removes[0].local_filename(), "b.memdb");
    assert!(remote.get_sdk("b.memdb").is_none());
}

#[test]
fn unchanged_record_is_left_alone() {
    let local = state_of(vec![
        mk("a.memdbz", "ios", "10.2", "t1", 10),
        mk("b.memdbz", "tvos", "10.1", "t2", 20),
        mk("c.memdbz", "watchos", "3.1", "t3", 30),
    ]);
    let remote = state_of(vec![
        mk("a.memdbz", "ios", "10.2", "t1", 10),
        mk("b.memdbz", "tvos", "10.1", "t9", 21),
        mk("d.memdbz", "macos", "12.0", "t4", 40),
    ]);
    let plan = plan_of(&local, &remote);
    assert_eq!(plan.fetches.len(), 2);
    let mut fetched: Vec<&str> = plan.fetches.iter().map(|s| s.local_filename()).collect();
    fetched.sort();
    assert_eq!(fetched, vec!["b.memdb", "d.memdb"]);
    assert_eq!(plan.removes.len(), 1);
    assert_eq!(plan.removes[0].local_filename(), "c.memdb");
}

#[test]
fn second_run_with_no_remote_change_does_nothing() {
    let records = vec![
        mk("a.memdbz", "ios", "10.2", "t1", 10),
        mk("b.memdbz", "tvos", "10.1", "t2", 20),
    ];
    let first_remote = state_of(records);
    // After a successful run the persisted state is exactly the remote
    // state; reconciling it against an unchanged remote is a no-op.
    let second_remote = state_of(vec![
        mk("a.memdbz", "ios", "10.2", "t1", 10),
        mk("b.memdbz", "tvos", "10.1", "t2", 20),
    ]);
    let plan = plan_of(&first_remote, &second_remote);
    assert_eq!(plan.fetches.len(), 0);
    assert_eq!(plan.removes.len(), 0);
}

#[test]
fn missing_symbol_dir_is_reported() {
    let config = Config::new(None);
    match MemDbStash::new(&config) {
        Ok(_) => panic!("a configuration without a symbol dir must be rejected"),
        Err(e) => {
            assert_eq!(e, Error::MissingSymbolDir);
            assert_eq!(e.describe(), "no symbol directory is configured");
        }
    }
}

#[test]
fn state_filenames_are_distinct() {
    let stash = stash_at("/tmp/mirror");
    assert_eq!(stash.get_sync_state_filename(), "/tmp/mirror/sync.state");
    assert_eq!(stash.get_temp_state_filename(), "/tmp/mirror/sync.tempstate");
    assert_ne!(stash.get_sync_state_filename(), stash.get_temp_state_filename());
}
