use batch_system::common::{calculate_disk_usage, get_lock_dir, DiskUsage, DiskUsageChecker};

#[test]
fn status_join_keeps_the_worse_state() {
    let all = [DiskUsage::Normal, DiskUsage::AlmostFull, DiskUsage::AlreadyFull];
    for a in all {
        for b in all {
            let joined = calculate_disk_usage(a, b);
            // already-full dominates, then almost-full; symmetric
            assert_eq!(
                joined == DiskUsage::AlreadyFull,
                a == DiskUsage::AlreadyFull || b == DiskUsage::AlreadyFull
            );
            assert_eq!(
                joined == DiskUsage::Normal,
                a == DiskUsage::Normal && b == DiskUsage::Normal
            );
            assert_eq!(joined, calculate_disk_usage(b, a));
        }
    }
}

#[test]
fn test_disk_usage_checker() {
    let kvdb_path = "/tmp/tikv-kvdb".to_owned();
    let raft_path = "/tmp/tikv-raft".to_owned();
    let raft_spill_path = "/tmp/tikv-raft/spill".to_owned();

    // Case 1: the kvdb and raft engine are not separated; the one mounted
    // filesystem reports 10000 total and 5000 free.
    let disk_usage_checker = DiskUsageChecker::new(
        kvdb_path.clone(),
        raft_path.clone(),
        Some(raft_spill_path.clone()),
        false,
        true,
        false,
        100,
        100,
        1000,
    );
    let (disk_status, kvdb_status, raft_status, _, _) =
        disk_usage_checker.inspect(4000, 1000, None, None, Some((10000, 5000)));
    assert_eq!(disk_status, DiskUsage::AlreadyFull);
    assert_eq!(kvdb_status, DiskUsage::AlreadyFull);
    assert_eq!(raft_status, DiskUsage::Normal);

    let disk_usage_checker = DiskUsageChecker::new(
        kvdb_path.clone(),
        raft_path.clone(),
        Some(raft_spill_path.clone()),
        false,
        true,
        false,
        100,
        100,
        4100,
    );
    let (disk_status, kvdb_status, raft_status, _, _) =
        disk_usage_checker.inspect(4000, 1000, None, None, Some((10000, 5000)));
    assert_eq!(raft_status, DiskUsage::Normal);
    assert_eq!(kvdb_status, DiskUsage::AlmostFull);
    assert_eq!(disk_status, DiskUsage::AlmostFull);
    let (disk_status, kvdb_status, raft_status, _, _) =
        disk_usage_checker.inspect(3999, 1000, None, None, Some((10000, 5000)));
    assert_eq!(raft_status, DiskUsage::Normal);
    assert_eq!(kvdb_status, DiskUsage::Normal);
    assert_eq!(disk_status, DiskUsage::Normal);

    // Case 2: the kvdb and raft engine are separated: the raft mount
    // reports (500, 200), the kvdb mount (5000, 2000).
    let disk_usage_checker = DiskUsageChecker::new(
        kvdb_path.clone(),
        raft_path.clone(),
        Some(raft_spill_path.clone()),
        true,
        true,
        false,
        100,
        100,
        6000,
    );
    let (disk_status, kvdb_status, raft_status, _, _) =
        disk_usage_checker.inspect(4000, 450, Some((500, 200)), None, Some((5000, 2000)));
    assert_eq!(raft_status, DiskUsage::AlreadyFull);
    assert_eq!(kvdb_status, DiskUsage::Normal);
    assert_eq!(disk_status, DiskUsage::AlreadyFull);
    let (disk_status, kvdb_status, raft_status, _, _) =
        disk_usage_checker.inspect(4000, 400, Some((500, 200)), None, Some((5000, 2000)));
    assert_eq!(raft_status, DiskUsage::AlmostFull);
    assert_eq!(kvdb_status, DiskUsage::Normal);
    assert_eq!(disk_status, DiskUsage::AlmostFull);
    let (disk_status, kvdb_status, raft_status, _, _) =
        disk_usage_checker.inspect(4000, 399, Some((500, 200)), None, Some((5000, 2000)));
    assert_eq!(raft_status, DiskUsage::Normal);
    assert_eq!(kvdb_status, DiskUsage::Normal);
    assert_eq!(disk_status, DiskUsage::Normal);

    // The same mounts, but the auxiliary raft directory shares the kvdb
    // mount, so the raft engine is exempt from the space check.
    let disk_usage_checker = DiskUsageChecker::new(
        kvdb_path.clone(),
        raft_path.clone(),
        Some(raft_spill_path.clone()),
        true,
        false,
        false,
        100,
        100,
        6000,
    );
    let (disk_status, kvdb_status, raft_status, _, _) =
        disk_usage_checker.inspect(4000, 450, Some((500, 200)), None, Some((5000, 2000)));
    assert_eq!(raft_status, DiskUsage::Normal);
    assert_eq!(kvdb_status, DiskUsage::Normal);
    assert_eq!(disk_status, DiskUsage::Normal);
    let (disk_status, kvdb_status, raft_status, _, _) =
        disk_usage_checker.inspect(4000, 500, Some((500, 200)), None, Some((5000, 2000)));
    assert_eq!(raft_status, DiskUsage::Normal);
    assert_eq!(kvdb_status, DiskUsage::Normal);
    assert_eq!(disk_status, DiskUsage::Normal);
    let (disk_status, kvdb_status, raft_status, _, _) =
        disk_usage_checker.inspect(4900, 500, Some((500, 200)), None, Some((5000, 2000)));
    assert_eq!(raft_status, DiskUsage::Normal);
    assert_eq!(kvdb_status, DiskUsage::AlmostFull);
    assert_eq!(disk_status, DiskUsage::AlmostFull);

    // Case 3: the raft engine and its auxiliary directory each stand on
    // their own mount: (500, 200) and (100, 20) are summed.
    let disk_usage_checker = DiskUsageChecker::new(
        kvdb_path.clone(),
        raft_path.clone(),
        Some(raft_spill_path.clone()),
        true,
        true,
        true,
        100,
        100,
        6000,
    );
    let (disk_status, kvdb_status, raft_status, _, _) = disk_usage_checker.inspect(
        4000,
        450,
        Some((500, 200)),
        Some((100, 20)),
        Some((5000, 2000)),
    );
    assert_eq!(raft_status, DiskUsage::Normal);
    assert_eq!(kvdb_status, DiskUsage::Normal);
    assert_eq!(disk_status, DiskUsage::Normal);
}

#[test]
fn failed_statistics_yield_all_normal() {
    let checker = DiskUsageChecker::new(
        "/data/kv".to_owned(),
        "/data/raft".to_owned(),
        None,
        true,
        true,
        false,
        100,
        100,
        0,
    );
    // the raft mount could not be inspected
    let r = checker.inspect(10, 10, None, None, Some((1000, 1000)));
    assert_eq!(r, (DiskUsage::Normal, DiskUsage::Normal, DiskUsage::Normal, 0, 0));
    // the kv mount could not be inspected
    let r = checker.inspect(10, 10, Some((1000, 1000)), None, None);
    assert_eq!(r, (DiskUsage::Normal, DiskUsage::Normal, DiskUsage::Normal, 0, 0));
}

#[test]
fn capacity_and_available_are_reported() {
    let checker = DiskUsageChecker::new(
        "/data/kv".to_owned(),
        "/data/raft".to_owned(),
        None,
        false,
        false,
        false,
        100,
        100,
        0,
    );
    // unlimited configured capacity: the disk's own size counts
    let (_, _, _, capacity, available) = checker.inspect(300, 0, None, None, Some((2000, 1500)));
    assert_eq!(capacity, 2000);
    assert_eq!(available, 1500);
    // used size limits the headroom below the free space
    let (_, _, _, capacity, available) = checker.inspect(1900, 0, None, None, Some((2000, 1500)));
    assert_eq!(capacity, 2000);
    assert_eq!(available, 100);
}

#[test]
fn lock_dir_names_carry_the_user_id() {
    assert_eq!(get_lock_dir(0), "0_TIKV_LOCK_FILES");
    assert_eq!(get_lock_dir(7), "7_TIKV_LOCK_FILES");
    assert_eq!(get_lock_dir(1000), "1000_TIKV_LOCK_FILES");
    assert_eq!(get_lock_dir(4294967295), "4294967295_TIKV_LOCK_FILES");
}
