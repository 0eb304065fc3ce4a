//! Server-side helpers around the core: the disk usage checker that a
//! store consults before accepting writes, the trait for trivially
//! stoppable components, and the per-user lock directory name.

use vstd::prelude::*;

verus! {

/// How full a disk is, from the store's point of view.
#[derive(Clone, Copy, Debug, PartialEq, Eq, Structural)]
pub enum DiskUsage {
    Normal,
    AlmostFull,
    AlreadyFull,
}

/// The worse of two disk states: an already-full component dominates, then
/// an almost-full one.
pub open spec fn disk_usage_max(a: DiskUsage, b: DiskUsage) -> DiskUsage {
    match (a, b) {
        (DiskUsage::AlreadyFull, _) => DiskUsage::AlreadyFull,
        (_, DiskUsage::AlreadyFull) => DiskUsage::AlreadyFull,
        (DiskUsage::AlmostFull, _) => DiskUsage::AlmostFull,
        (_, DiskUsage::AlmostFull) => DiskUsage::AlmostFull,
        (DiskUsage::Normal, DiskUsage::Normal) => DiskUsage::Normal,
    }
}

/// Joins the disk states of two components into the state of the whole
/// store, always keeping the worse one.
pub fn calculate_disk_usage(a: DiskUsage, b: DiskUsage) -> (r: DiskUsage)
    ensures
        r == disk_usage_max(a, b),
{
    match (a, b) {
        (DiskUsage::AlreadyFull, _) => DiskUsage::AlreadyFull,
        (_, DiskUsage::AlreadyFull) => DiskUsage::AlreadyFull,
        (DiskUsage::AlmostFull, _) => DiskUsage::AlmostFull,
        (_, DiskUsage::AlmostFull) => DiskUsage::AlmostFull,
        (DiskUsage::Normal, DiskUsage::Normal) => DiskUsage::Normal,
    }
}

/// A privileged signal is never masked by a normal one: the join is
/// already-full exactly when one input is, and normal only when both are —
/// in either order.
pub proof fn lemma_disk_usage_max_dominance(a: DiskUsage, b: DiskUsage)
    ensures
        (disk_usage_max(a, b) == DiskUsage::AlreadyFull) <==> (a == DiskUsage::AlreadyFull || b
            == DiskUsage::AlreadyFull),
        (disk_usage_max(a, b) == DiskUsage::Normal) <==> (a == DiskUsage::Normal && b
            == DiskUsage::Normal),
        disk_usage_max(a, b) == disk_usage_max(b, a),
{
}

/// The status of one component given the space still usable for it: at or
/// under the hard threshold it is already full, at or under the soft
/// threshold almost full.
pub open spec fn usage_of(available: int, almost_thd: int, already_thd: int) -> DiskUsage {
    if available <= already_thd {
        DiskUsage::AlreadyFull
    } else if available <= almost_thd {
        DiskUsage::AlmostFull
    } else {
        DiskUsage::Normal
    }
}

/// A checker to inspect the disk usage of the kv engine and the raft
/// engine.  The caller fetches the filesystem statistics and calls
/// `inspect` periodically with them.
#[derive(Clone)]
pub struct DiskUsageChecker {
    /// The path of the kv engine.
    pub kvdb_path: String,
    /// The path of the raft engine.
    pub raft_path: String,
    /// The path of the auxiliary directory of the raft engine, if specified.
    pub raft_auxiliary_path: Option<String>,
    /// Whether the main directory of the raft engine is on a mount point
    /// separate from the kv engine.
    pub separated_raft_mount_path: bool,
    /// Whether the auxiliary directory of the raft engine is separate from
    /// the kv engine.
    pub separated_raft_auxiliary_mount_path: bool,
    /// Whether the auxiliary directory of the raft engine is separate from
    /// both the main raft directory and the kv engine.
    pub separated_raft_auxiliary_and_kvdb_mount_path: bool,
    /// Space threshold under which the kv engine counts as almost full.
    pub kvdb_almost_full_thd: u64,
    /// Space threshold under which the raft engine counts as almost full.
    pub raft_almost_full_thd: u64,
    /// The configured capacity for the whole disk; 0 means unlimited.
    pub config_disk_capacity: u64,
}

impl DiskUsageChecker {
    /// The capacity and free space the raft engine may use, given the
    /// statistics of its main directory and, when it stands apart from both
    /// other directories, of its auxiliary directory (whose failed fetch
    /// counts as empty).  An auxiliary directory shared with the kv engine
    /// exempts the raft engine from the check altogether.
    pub open spec fn spec_raft_space(self, st: (u64, u64), aux_stats: Option<(u64, u64)>) -> (
        int,
        int,
    ) {
        if !self.separated_raft_auxiliary_mount_path {
            (u64::MAX as int, u64::MAX as int)
        } else if self.separated_raft_auxiliary_and_kvdb_mount_path {
            match aux_stats {
                Option::Some(a) => (st.0 + a.0, st.1 + a.1),
                Option::None => (st.0 as int, st.1 as int),
            }
        } else {
            (st.0 as int, st.1 as int)
        }
    }

    /// The full decision of [`DiskUsageChecker::inspect`]: the overall, kv
    /// and raft disk states, and the capacity and free space of the whole
    /// disk.  A failed statistics fetch for the raft path (where it is
    /// checked) or for the kv path yields all-normal with zero sizes.
    pub open spec fn spec_inspect(
        self,
        kvdb_used_size: u64,
        raft_used_size: u64,
        raft_stats: Option<(u64, u64)>,
        aux_stats: Option<(u64, u64)>,
        kvdb_stats: Option<(u64, u64)>,
    ) -> (DiskUsage, DiskUsage, DiskUsage, u64, u64) {
        let raft_checked = self.separated_raft_mount_path && self.raft_almost_full_thd > 0;
        if raft_checked && raft_stats is None {
            (DiskUsage::Normal, DiskUsage::Normal, DiskUsage::Normal, 0u64, 0u64)
        } else {
            let raft_status = if !raft_checked {
                DiskUsage::Normal
            } else {
                let space = self.spec_raft_space(raft_stats->Some_0, aux_stats);
                let avail = min_int(sat_sub(space.0, raft_used_size as int), space.1);
                usage_of(
                    avail,
                    self.raft_almost_full_thd as int,
                    self.raft_almost_full_thd as int / 2,
                )
            };
            match kvdb_stats {
                Option::None => (
                    DiskUsage::Normal,
                    DiskUsage::Normal,
                    DiskUsage::Normal,
                    0u64,
                    0u64,
                ),
                Option::Some(st) => {
                    let capacity = if self.config_disk_capacity == 0 || st.0
                        < self.config_disk_capacity {
                        st.0
                    } else {
                        self.config_disk_capacity
                    };
                    let available = min_int(
                        sat_sub(capacity as int, kvdb_used_size as int),
                        st.1 as int,
                    );
                    let kv_status = usage_of(
                        available,
                        self.kvdb_almost_full_thd as int,
                        self.kvdb_almost_full_thd as int / 2,
                    );
                    (
                        disk_usage_max(raft_status, kv_status),
                        kv_status,
                        raft_status,
                        capacity,
                        available as u64,
                    )
                },
            }
        }
    }

    pub fn new(
        kvdb_path: String,
        raft_path: String,
        raft_auxiliary_path: Option<String>,
        separated_raft_mount_path: bool,
        separated_raft_auxiliary_mount_path: bool,
        separated_raft_auxiliary_and_kvdb_mount_path: bool,
        kvdb_almost_full_thd: u64,
        raft_almost_full_thd: u64,
        config_disk_capacity: u64,
    ) -> (c: DiskUsageChecker)
        ensures
            c.kvdb_path == kvdb_path,
            c.raft_path == raft_path,
            c.raft_auxiliary_path == raft_auxiliary_path,
            c.separated_raft_mount_path == separated_raft_mount_path,
            c.separated_raft_auxiliary_mount_path == separated_raft_auxiliary_mount_path,
            c.separated_raft_auxiliary_and_kvdb_mount_path
                == separated_raft_auxiliary_and_kvdb_mount_path,
            c.kvdb_almost_full_thd == kvdb_almost_full_thd,
            c.raft_almost_full_thd == raft_almost_full_thd,
            c.config_disk_capacity == config_disk_capacity,
    {
        DiskUsageChecker {
            kvdb_path,
            raft_path,
            raft_auxiliary_path,
            separated_raft_mount_path,
            separated_raft_auxiliary_mount_path,
            separated_raft_auxiliary_and_kvdb_mount_path,
            kvdb_almost_full_thd,
            raft_almost_full_thd,
            config_disk_capacity,
        }
    }

    /// Inspects the disk usage of the kv engine and the raft engine.
    ///
    /// `kvdb_used_size` and `raft_used_size` are the sizes the engines
    /// occupy; `raft_stats`, `aux_stats` and `kvdb_stats` are the capacity
    /// and free space of the raft directory, the auxiliary raft directory
    /// and the kv directory, as the caller fetched them from the
    /// filesystem, `None` where the fetch failed.
    ///
    /// Returns the disk state of the whole store, of the kv engine and of
    /// the raft engine, and the capacity and free space of the whole disk.
    pub fn inspect(
        &self,
        kvdb_used_size: u64,
        raft_used_size: u64,
        raft_stats: Option<(u64, u64)>,
        aux_stats: Option<(u64, u64)>,
        kvdb_stats: Option<(u64, u64)>,
    ) -> (r: (DiskUsage, DiskUsage, DiskUsage, u64, u64))
        requires
            (self.separated_raft_mount_path && self.raft_almost_full_thd > 0
                && self.separated_raft_auxiliary_mount_path
                && self.separated_raft_auxiliary_and_kvdb_mount_path) ==> {
                &&& self.raft_auxiliary_path is Some
                &&& (raft_stats matches Some(st) ==> (match aux_stats {
                    Option::Some(a) => st.0 + a.0 <= u64::MAX && st.1 + a.1 <= u64::MAX,
                    Option::None => true,
                }))
            },
        ensures
            r == self.spec_inspect(
                kvdb_used_size,
                raft_used_size,
                raft_stats,
                aux_stats,
                kvdb_stats,
            ),
    {
        let raft_checked = self.separated_raft_mount_path && self.raft_almost_full_thd > 0;
        let raft_status: DiskUsage;
        if !raft_checked {
            raft_status = DiskUsage::Normal;
        } else {
            match raft_stats {
                None => {
                    return (DiskUsage::Normal, DiskUsage::Normal, DiskUsage::Normal, 0, 0);
                },
                Some(st) => {
                    let raft_cap: u64;
                    let raft_avail: u64;
                    if !self.separated_raft_auxiliary_mount_path {
                        raft_cap = u64::MAX;
                        raft_avail = u64::MAX;
                    } else if self.separated_raft_auxiliary_and_kvdb_mount_path {
                        match aux_stats {
                            Some(a) => {
                                raft_cap = st.0 + a.0;
                                raft_avail = st.1 + a.1;
                            },
                            None => {
                                raft_cap = st.0;
                                raft_avail = st.1;
                            },
                        }
                    } else {
                        raft_cap = st.0;
                        raft_avail = st.1;
                    }
                    let headroom: u64 = if raft_cap >= raft_used_size {
                        raft_cap - raft_used_size
                    } else {
                        0
                    };
                    let raft_available: u64 = if headroom <= raft_avail {
                        headroom
                    } else {
                        raft_avail
                    };
                    if raft_available <= self.raft_almost_full_thd / 2 {
                        raft_status = DiskUsage::AlreadyFull;
                    } else if raft_available <= self.raft_almost_full_thd {
                        raft_status = DiskUsage::AlmostFull;
                    } else {
                        raft_status = DiskUsage::Normal;
                    }
                },
            }
        }
        match kvdb_stats {
            None => (DiskUsage::Normal, DiskUsage::Normal, DiskUsage::Normal, 0, 0),
            Some(st) => {
                let capacity: u64 = if self.config_disk_capacity == 0 || st.0
                    < self.config_disk_capacity {
                    st.0
                } else {
                    self.config_disk_capacity
                };
                let headroom: u64 = if capacity >= kvdb_used_size {
                    capacity - kvdb_used_size
                } else {
                    0
                };
                let available: u64 = if headroom <= st.1 {
                    headroom
                } else {
                    st.1
                };
                let kv_status: DiskUsage = if available <= self.kvdb_almost_full_thd / 2 {
                    DiskUsage::AlreadyFull
                } else if available <= self.kvdb_almost_full_thd {
                    DiskUsage::AlmostFull
                } else {
                    DiskUsage::Normal
                };
                let overall = calculate_disk_usage(raft_status, kv_status);
                (overall, kv_status, raft_status, capacity, available)
            },
        }
    }
}

/// The smaller of two mathematical integers.
pub open spec fn min_int(a: int, b: int) -> int {
    if a <= b {
        a
    } else {
        b
    }
}

/// Subtraction on mathematical integers, floored at zero.
pub open spec fn sat_sub(a: int, b: int) -> int {
    if a >= b {
        a - b
    } else {
        0
    }
}

/// A small trait for components which can be trivially stopped.  Lets a
/// server keep one list of them rather than storing each individually.
pub trait Stop {
    fn stop(&mut self);
}

/// The decimal digits of a number, most significant first.
pub open spec fn dec_digits(n: nat) -> Seq<char>
    decreases n,
{
    if n < 10 {
        seq![digit_char(n)]
    } else {
        dec_digits(n / 10).push(digit_char(n % 10))
    }
}

/// The character of one decimal digit.
pub open spec fn digit_char(d: nat) -> char {
    ((48 + d) as u8) as char
}

/// Relies on std's `String::push`: appends exactly the one character.
#[verifier::external_body]
fn push_char(s: &mut String, c: char)
    ensures
        final(s)@ == old(s)@.push(c),
{
    s.push(c);
}

/// Relies on std's `String::push_str`: appends exactly the given slice.
#[verifier::external_body]
fn push_str(s: &mut String, t: &str)
    ensures
        final(s)@ == old(s)@ + t@,
{
    s.push_str(t);
}

/// Appends the decimal digits of `n`, most significant first.
fn push_dec(s: &mut String, n: u32)
    ensures
        final(s)@ == old(s)@ + dec_digits(n as nat),
    decreases n,
{
    let ghost pre = s@;
    if n < 10 {
        let c = (48 + n as u8) as char;
        push_char(s, c);
        proof {
            assert(s@ =~= pre + dec_digits(n as nat));
        }
    } else {
        push_dec(s, n / 10);
        let c = (48 + (n % 10) as u8) as char;
        push_char(s, c);
        proof {
            assert(s@ =~= pre + dec_digits(n as nat));
        }
    }
}

/// The name of the directory under which the server keeps its address lock
/// files: the numeric user id followed by a fixed suffix, so different
/// users never contend for one directory.
pub fn get_lock_dir(uid: u32) -> (s: String)
    ensures
        s@ == dec_digits(uid as nat) + "_TIKV_LOCK_FILES"@,
{
    let mut s = String::new();
    push_dec(&mut s, uid);
    push_str(&mut s, "_TIKV_LOCK_FILES");
    proof {
        assert(s@ =~= dec_digits(uid as nat) + "_TIKV_LOCK_FILES"@);
    }
    s
}

} // verus!
