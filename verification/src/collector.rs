use std::collections::HashMap;
use vstd::prelude::*;
use vstd::string::*;
use crate::ring::{RingBuffer, pushed};
use crate::text::{lowercase, contains_seq, decimal, to_lowercase, contains, decimal_string, same_text};

verus! {

/// Cumulative and recent disk counters of one process, in bytes.
#[derive(Clone, Copy, Debug)]
pub struct IoSample {
    pub pid: u32,
    /// Bytes read since the process started.
    pub total_read: u64,
    /// Bytes written since the process started.
    pub total_written: u64,
    /// Bytes read since the operating system's previous refresh.
    pub recent_read: u64,
    /// Bytes written since the operating system's previous refresh.
    pub recent_written: u64,
}

/// `a - b`, or zero when `b` is larger.
pub open spec fn sat_sub(a: u64, b: u64) -> u64 {
    if a >= b { (a - b) as u64 } else { 0 }
}

/// Bytes read and written by a process since the previous sample: the growth
/// of its cumulative counters when it was seen before, else the operating
/// system's own recent counters.
pub open spec fn io_delta(prev: Map<u32, (u64, u64)>, s: IoSample) -> (u64, u64) {
    if prev.contains_key(s.pid) {
        (sat_sub(s.total_read, prev[s.pid].0), sat_sub(s.total_written, prev[s.pid].1))
    } else {
        (s.recent_read, s.recent_written)
    }
}

/// The cumulative counters remembered after a sample, by PID (a later entry
/// for the same PID wins).
pub open spec fn totals_map(samples: Seq<IoSample>) -> Map<u32, (u64, u64)>
    decreases samples.len(),
{
    if samples.len() == 0 {
        Map::empty()
    } else {
        totals_map(samples.drop_last()).insert(
            samples.last().pid,
            (samples.last().total_read, samples.last().total_written),
        )
    }
}

/// Remembers each process's cumulative disk counters between samples, so
/// that per-process read and write rates can be derived.
pub struct ProcIoTracker {
    prev: HashMap<u32, (u64, u64)>,
}

impl View for ProcIoTracker {
    type V = Map<u32, (u64, u64)>;

    closed spec fn view(&self) -> Map<u32, (u64, u64)> {
        self.prev@
    }
}

impl ProcIoTracker {
    /// A tracker that has seen no process yet.
    pub fn new() -> (t: Self)
        ensures
            t@ == Map::<u32, (u64, u64)>::empty(),
    {
        ProcIoTracker { prev: HashMap::new() }
    }

    /// The counters remembered for a process, if it was seen last time.
    pub fn previous(&self, pid: u32) -> (r: Option<(u64, u64)>)
        ensures
            r == (if self@.contains_key(pid) { Some(self@[pid]) } else { None::<(u64, u64)> }),
    {
        broadcast use vstd::std_specs::hash::group_hash_axioms;
        match self.prev.get(&pid) {
            Some(v) => Some(*v),
            None => None,
        }
    }

    /// Takes a new sample of all processes: returns, for each sample, the
    /// bytes read and written since the previous sample, and from now on
    /// remembers exactly this sample's cumulative counters.
    pub fn observe(&mut self, samples: &Vec<IoSample>) -> (deltas: Vec<(u64, u64)>)
        ensures
            deltas@.len() == samples@.len(),
            forall|i: int| 0 <= i < samples@.len() ==> #[trigger] deltas@[i] == io_delta(old(self)@, samples@[i]),
            final(self)@ == totals_map(samples@),
    {
        broadcast use vstd::std_specs::hash::group_hash_axioms;
        let mut curr: HashMap<u32, (u64, u64)> = HashMap::new();
        let mut deltas: Vec<(u64, u64)> = Vec::new();
        let n = samples.len();
        for i in 0..n
            invariant
                n == samples@.len(),
                deltas@.len() == i,
                forall|j: int| 0 <= j < i ==> #[trigger] deltas@[j] == io_delta(self@, samples@[j]),
                curr@ == totals_map(samples@.subrange(0, i as int)),
        {
            let s = samples[i];
            let d = match self.previous(s.pid) {
                Some((r, w)) => {
                    let dr = if s.total_read >= r { s.total_read - r } else { 0 };
                    let dw = if s.total_written >= w { s.total_written - w } else { 0 };
                    (dr, dw)
                },
                None => (s.recent_read, s.recent_written),
            };
            deltas.push(d);
            curr.insert(s.pid, (s.total_read, s.total_written));
            assert(samples@.subrange(0, i + 1).drop_last() =~= samples@.subrange(0, i as int));
        }
        assert(samples@.subrange(0, n as int) =~= samples@);
        self.prev = curr;
        deltas
    }
}

/// The counters remembered for a PID are those of its last sample.
pub proof fn lemma_totals_last_wins(samples: Seq<IoSample>, i: int)
    requires
        0 <= i < samples.len(),
        forall|j: int| i < j < samples.len() ==> #[trigger] samples[j].pid != samples[i].pid,
    ensures
        totals_map(samples).contains_key(samples[i].pid),
        totals_map(samples)[samples[i].pid] == (samples[i].total_read, samples[i].total_written),
    decreases samples.len(),
{
    if i < samples.len() - 1 {
        lemma_totals_last_wins(samples.drop_last(), i);
    }
}

/// A process whose cumulative counters did not move between two samples is
/// reported with no disk traffic.
pub proof fn lemma_unchanged_counters_report_no_io(samples: Seq<IoSample>, i: int, again: IoSample)
    requires
        0 <= i < samples.len(),
        forall|j: int| i < j < samples.len() ==> #[trigger] samples[j].pid != samples[i].pid,
        again.pid == samples[i].pid,
        again.total_read == samples[i].total_read,
        again.total_written == samples[i].total_written,
    ensures
        io_delta(totals_map(samples), again) == (0u64, 0u64),
{
    lemma_totals_last_wins(samples, i);
}

/// A process not seen in the previous sample reports the operating system's
/// own recent counters; one whose cumulative counters went down reports no
/// traffic for that counter.
pub proof fn lemma_new_and_reset_processes(prev: Map<u32, (u64, u64)>, s: IoSample)
    ensures
        !prev.contains_key(s.pid) ==> io_delta(prev, s) == (s.recent_read, s.recent_written),
        prev.contains_key(s.pid) && s.total_read < prev[s.pid].0 ==> io_delta(prev, s).0 == 0,
        prev.contains_key(s.pid) && s.total_written < prev[s.pid].1 ==> io_delta(prev, s).1 == 0,
        prev.contains_key(s.pid) && s.total_read >= prev[s.pid].0 ==> io_delta(prev, s).0 == s.total_read - prev[s.pid].0,
        prev.contains_key(s.pid) && s.total_written >= prev[s.pid].1 ==> io_delta(prev, s).1 == s.total_written - prev[s.pid].1,
{
}

/// Growth of the cumulative counters is reported exactly.
pub proof fn lemma_growth_is_reported(samples: Seq<IoSample>, i: int, later: IoSample)
    requires
        0 <= i < samples.len(),
        forall|j: int| i < j < samples.len() ==> #[trigger] samples[j].pid != samples[i].pid,
        later.pid == samples[i].pid,
        later.total_read >= samples[i].total_read,
        later.total_written >= samples[i].total_written,
    ensures
        io_delta(totals_map(samples), later) == (
            (later.total_read - samples[i].total_read) as u64,
            (later.total_written - samples[i].total_written) as u64,
        ),
{
    lemma_totals_last_wins(samples, i);
}

/// Position of the last process with the given PID, the one whose sample a
/// pinned process takes.
pub fn find_pid(pids: &Vec<u32>, pid: u32) -> (r: Option<usize>)
    ensures
        match r {
            Some(i) => i < pids@.len() && pids@[i as int] == pid && forall|j: int|
                i < j < pids@.len() ==> #[trigger] pids@[j] != pid,
            None => forall|j: int| 0 <= j < pids@.len() ==> #[trigger] pids@[j] != pid,
        },
{
    let mut found: Option<usize> = None;
    let n = pids.len();
    for i in 0..n
        invariant
            n == pids@.len(),
            match found {
                Some(k) => k < i && pids@[k as int] == pid && forall|j: int|
                    k < j < i ==> #[trigger] pids@[j] != pid,
                None => forall|j: int| 0 <= j < i ==> #[trigger] pids@[j] != pid,
            },
    {
        if pids[i] == pid {
            found = Some(i);
        }
    }
    found
}

/// Position of the first entry whose key is `key` (a mount point or an
/// interface name), the entry whose history carries over.
pub fn find_key(keys: &Vec<String>, key: &str) -> (r: Option<usize>)
    ensures
        match r {
            Some(i) => i < keys@.len() && keys@[i as int]@ == key@ && forall|j: int|
                0 <= j < i ==> #[trigger] keys@[j]@ != key@,
            None => forall|j: int| 0 <= j < keys@.len() ==> #[trigger] keys@[j]@ != key@,
        },
{
    let n = keys.len();
    for i in 0..n
        invariant
            n == keys@.len(),
            forall|j: int| 0 <= j < i ==> #[trigger] keys@[j]@ != key@,
    {
        if same_text(keys[i].as_str(), key) {
            return Some(i);
        }
    }
    None
}

/// Whether an already lower-cased sensor label names one of the storage
/// words.
pub open spec fn names_storage(l: Seq<char>) -> bool {
    contains_seq(l, "nvme"@) || contains_seq(l, "ssd"@) || contains_seq(l, "disk"@)
        || contains_seq(l, "drive"@) || contains_seq(l, "storage"@) || contains_seq(l, "composite"@)
}

/// A sensor is a storage sensor when its lower-cased label names one of the
/// storage words.
pub open spec fn is_storage_label(label: Seq<char>) -> bool {
    names_storage(lowercase(label))
}

/// Whether an already lower-cased sensor label belongs to a disk with the
/// already lower-cased mount point: it contains the mount point or a drive
/// word.
pub open spec fn names_disk(l: Seq<char>, m: Seq<char>) -> bool {
    contains_seq(l, m) || contains_seq(l, "nvme"@) || contains_seq(l, "ssd"@)
        || contains_seq(l, "disk"@) || contains_seq(l, "composite"@)
}

/// A storage sensor is taken for a disk when its lower-cased label contains
/// the disk's lower-cased mount point or a drive word.
pub open spec fn sensor_matches_disk(label: Seq<char>, mount: Seq<char>) -> bool {
    names_disk(lowercase(label), lowercase(mount))
}

/// Whether an already lower-cased sensor label names a storage word.
pub fn lowered_label_names_storage(l: &str) -> (r: bool)
    ensures
        r == names_storage(l@),
{
    contains(l, "nvme") || contains(l, "ssd") || contains(l, "disk") || contains(l, "drive")
        || contains(l, "storage") || contains(l, "composite")
}

/// Whether an already lower-cased sensor label belongs to the disk with the
/// already lower-cased mount point `m`.
pub fn lowered_label_names_disk(l: &str, m: &str) -> (r: bool)
    ensures
        r == names_disk(l@, m@),
{
    contains(l, m) || contains(l, "nvme") || contains(l, "ssd") || contains(l, "disk")
        || contains(l, "composite")
}

/// Whether a sensor label marks a storage sensor.
pub fn is_storage_sensor(label: &str) -> (r: bool)
    ensures
        r == is_storage_label(label@),
{
    let l = to_lowercase(label);
    lowered_label_names_storage(l.as_str())
}

/// Picks the storage sensors among all sensors: the positions of sensors with
/// a storage label, and of several sensors with the same label only the last,
/// whose reading wins; in sensor order.
pub fn storage_sensors(labels: &Vec<String>) -> (r: Vec<usize>)
    ensures
        forall|k: int| 0 <= k < r@.len() ==> #[trigger] r@[k] < labels@.len(),
        forall|a: int, b: int| 0 <= a < b < r@.len() ==> #[trigger] r@[a] < #[trigger] r@[b],
        forall|i: int| 0 <= i < labels@.len() ==> (r@.contains(i as usize) <==> (
            is_storage_label(#[trigger] labels@[i]@) && forall|j: int|
                i < j < labels@.len() ==> labels@[j]@ != labels@[i]@)),
{
    let n = labels.len();
    let mut r: Vec<usize> = Vec::new();
    for i in 0..n
        invariant
            n == labels@.len(),
            forall|k: int| 0 <= k < r@.len() ==> #[trigger] r@[k] < i,
            forall|a: int, b: int| 0 <= a < b < r@.len() ==> #[trigger] r@[a] < #[trigger] r@[b],
            forall|k: int| 0 <= k < i ==> (r@.contains(k as usize) <==> (
                is_storage_label(#[trigger] labels@[k]@) && forall|j: int|
                    k < j < labels@.len() ==> labels@[j]@ != labels@[k]@)),
    {
        let mut later = false;
        let mut j = i + 1;
        while j < n
            invariant
                n == labels@.len(),
                i < n,
                i + 1 <= j <= n,
                later == exists|m: int| i < m < j && #[trigger] labels@[m]@ == labels@[i as int]@,
            decreases n - j,
        {
            if same_text(labels[j].as_str(), labels[i].as_str()) {
                later = true;
            }
            j = j + 1;
        }
        let ghost old_r = r@;
        if !later && is_storage_sensor(labels[i].as_str()) {
            r.push(i);
        }
        proof {
            assert forall|k: int| 0 <= k < i + 1 implies (r@.contains(k as usize) <==> (
                is_storage_label(#[trigger] labels@[k]@) && forall|j: int|
                    k < j < labels@.len() ==> labels@[j]@ != labels@[k]@)) by {
                if k < i {
                    if r@.contains(k as usize) {
                        let p = choose|p: int| 0 <= p < r@.len() && r@[p] == k as usize;
                        if p < old_r.len() {
                            assert(old_r[p] == k as usize);
                        }
                    }
                    if old_r.contains(k as usize) {
                        let p = choose|p: int| 0 <= p < old_r.len() && old_r[p] == k as usize;
                        assert(r@[p] == k as usize);
                    }
                } else {
                    if r@.contains(k as usize) {
                        let p = choose|p: int| 0 <= p < r@.len() && r@[p] == k as usize;
                        if p < old_r.len() {
                            assert(old_r[p] < i);
                        }
                    }
                    if is_storage_label(labels@[k]@) && forall|j: int|
                        k < j < labels@.len() ==> labels@[j]@ != labels@[k]@ {
                        assert(!later);
                        assert(r@[r@.len() - 1] == i);
                    }
                }
            }
        }
    }
    r
}

/// The storage sensor whose reading is shown for a disk: the first sensor in
/// `sensors` whose label matches the disk's mount point or a drive word.
pub fn match_disk_sensor(labels: &Vec<String>, sensors: &Vec<usize>, mount: &str) -> (r: Option<usize>)
    requires
        forall|k: int| 0 <= k < sensors@.len() ==> #[trigger] sensors@[k] < labels@.len(),
    ensures
        match r {
            Some(k) => k < sensors@.len() && sensor_matches_disk(labels@[sensors@[k as int] as int]@, mount@)
                && forall|j: int| 0 <= j < k ==> !sensor_matches_disk(
                    #[trigger] labels@[sensors@[j] as int]@,
                    mount@,
                ),
            None => forall|j: int| 0 <= j < sensors@.len() ==> !sensor_matches_disk(
                #[trigger] labels@[sensors@[j] as int]@,
                mount@,
            ),
        },
{
    let m = to_lowercase(mount);
    let n = sensors.len();
    for k in 0..n
        invariant
            n == sensors@.len(),
            m@ == lowercase(mount@),
            forall|q: int| 0 <= q < sensors@.len() ==> #[trigger] sensors@[q] < labels@.len(),
            forall|j: int| 0 <= j < k ==> !sensor_matches_disk(
                #[trigger] labels@[sensors@[j] as int]@,
                mount@,
            ),
    {
        let l = to_lowercase(labels[sensors[k]].as_str());
        if lowered_label_names_disk(l.as_str(), m.as_str()) {
            return Some(k);
        }
    }
    None
}

/// Dedicated history of one pinned process.
#[derive(Debug)]
pub struct FocusedProcessTracker<T> {
    pub pid: u32,
    pub name: String,
    pub user: String,
    pub cpu_history: RingBuffer<T>,
    pub mem_history: RingBuffer<T>,
    pub disk_history: RingBuffer<T>,
}

impl<T> FocusedProcessTracker<T> {
    /// Starts tracking a process with empty histories of the given capacity.
    pub fn new(pid: u32, name: String, user: String, capacity: usize) -> (t: Self)
        ensures
            t.pid == pid,
            t.name == name,
            t.user == user,
            t.cpu_history@ == Seq::<T>::empty(),
            t.mem_history@ == Seq::<T>::empty(),
            t.disk_history@ == Seq::<T>::empty(),
            t.cpu_history.spec_capacity() == capacity,
            t.mem_history.spec_capacity() == capacity,
            t.disk_history.spec_capacity() == capacity,
    {
        FocusedProcessTracker {
            pid,
            name,
            user,
            cpu_history: RingBuffer::new(capacity),
            mem_history: RingBuffer::new(capacity),
            disk_history: RingBuffer::new(capacity),
        }
    }

    /// Records one refresh: the process's CPU, memory and disk figures when
    /// it was found, else `idle` in all three histories.
    pub fn record(&mut self, sample: Option<(T, T, T)>, idle: T)
        where T: Copy
        ensures
            final(self).pid == old(self).pid,
            final(self).name == old(self).name,
            final(self).user == old(self).user,
            final(self).cpu_history.spec_capacity() == old(self).cpu_history.spec_capacity(),
            final(self).mem_history.spec_capacity() == old(self).mem_history.spec_capacity(),
            final(self).disk_history.spec_capacity() == old(self).disk_history.spec_capacity(),
            final(self).cpu_history@ == pushed(
                old(self).cpu_history@,
                old(self).cpu_history.spec_capacity(),
                match sample { Some(s) => s.0, None => idle },
            ),
            final(self).mem_history@ == pushed(
                old(self).mem_history@,
                old(self).mem_history.spec_capacity(),
                match sample { Some(s) => s.1, None => idle },
            ),
            final(self).disk_history@ == pushed(
                old(self).disk_history@,
                old(self).disk_history.spec_capacity(),
                match sample { Some(s) => s.2, None => idle },
            ),
    {
        match sample {
            Some((c, m, d)) => {
                self.cpu_history.push(c);
                self.mem_history.push(m);
                self.disk_history.push(d);
            },
            None => {
                self.cpu_history.push(idle);
                self.mem_history.push(idle);
                self.disk_history.push(idle);
            },
        }
    }
}

impl<T: Copy> Clone for FocusedProcessTracker<T> {
    fn clone(&self) -> (c: Self)
        ensures
            c.pid == self.pid,
            c.name@ == self.name@,
            c.user@ == self.user@,
            c.cpu_history@ == self.cpu_history@,
            c.mem_history@ == self.mem_history@,
            c.disk_history@ == self.disk_history@,
    {
        FocusedProcessTracker {
            pid: self.pid,
            name: self.name.clone(),
            user: self.user.clone(),
            cpu_history: self.cpu_history.duplicate(),
            mem_history: self.mem_history.duplicate(),
            disk_history: self.disk_history.duplicate(),
        }
    }
}

/// Message of a failed kill.
pub open spec fn kill_failed_message(pid: u32) -> Seq<char> {
    "Failed to kill process PID "@ + decimal(pid as nat)
}

/// Message of a kill aimed at a process that does not exist.
pub open spec fn kill_missing_message(pid: u32) -> Seq<char> {
    "Process PID "@ + decimal(pid as nat) + " not found"@
}

/// The answer to a kill request, given whether the process was found and
/// whether the operating system accepted the signal.
pub fn kill_outcome(pid: u32, found: bool, killed: bool) -> (r: Result<(), String>)
    ensures
        found && killed ==> r is Ok,
        found && !killed ==> r is Err && r->Err_0@ == kill_failed_message(pid),
        !found ==> r is Err && r->Err_0@ == kill_missing_message(pid),
{
    if found {
        if killed {
            Ok(())
        } else {
            let mut msg = String::from_str("Failed to kill process PID ");
            msg.append(decimal_string(pid as u64).as_str());
            Err(msg)
        }
    } else {
        let mut msg = String::from_str("Process PID ");
        msg.append(decimal_string(pid as u64).as_str());
        msg.append(" not found");
        Err(msg)
    }
}

/// The number of physical cores to show: the reported one, else the number
/// of logical cores.
pub fn physical_core_count(reported: Option<usize>, logical: usize) -> (n: usize)
    ensures
        n == match reported { Some(p) => p, None => logical },
{
    match reported {
        Some(p) => p,
        None => logical,
    }
}

/// A reported text, or the fallback when the system reported none.
pub fn text_or(reported: Option<String>, fallback: &str) -> (s: String)
    ensures
        s@ == match reported { Some(r) => r@, None => fallback@ },
{
    match reported {
        Some(r) => r,
        None => String::from_str(fallback),
    }
}

/// A sensor whose lower-cased label contains any of "nvme", "ssd", "disk",
/// "drive", "storage" or "composite" is a storage sensor, and only such
/// sensors are.
pub proof fn lemma_storage_words(label: Seq<char>)
    ensures
        contains_seq(lowercase(label), "nvme"@) ==> is_storage_label(label),
        contains_seq(lowercase(label), "ssd"@) ==> is_storage_label(label),
        contains_seq(lowercase(label), "disk"@) ==> is_storage_label(label),
        contains_seq(lowercase(label), "drive"@) ==> is_storage_label(label),
        contains_seq(lowercase(label), "storage"@) ==> is_storage_label(label),
        contains_seq(lowercase(label), "composite"@) ==> is_storage_label(label),
        is_storage_label(label) ==> (contains_seq(lowercase(label), "nvme"@)
            || contains_seq(lowercase(label), "ssd"@) || contains_seq(lowercase(label), "disk"@)
            || contains_seq(lowercase(label), "drive"@) || contains_seq(lowercase(label), "storage"@)
            || contains_seq(lowercase(label), "composite"@)),
{
}

/// A storage sensor is taken for a disk when its lower-cased label contains
/// the disk's lower-cased mount point, or any of "nvme", "ssd", "disk" or
/// "composite" (then it matches every disk); in no other case.
pub proof fn lemma_disk_sensor_words(label: Seq<char>, mount: Seq<char>)
    ensures
        contains_seq(lowercase(label), lowercase(mount)) ==> sensor_matches_disk(label, mount),
        contains_seq(lowercase(label), "nvme"@) ==> sensor_matches_disk(label, mount),
        contains_seq(lowercase(label), "ssd"@) ==> sensor_matches_disk(label, mount),
        contains_seq(lowercase(label), "disk"@) ==> sensor_matches_disk(label, mount),
        contains_seq(lowercase(label), "composite"@) ==> sensor_matches_disk(label, mount),
        sensor_matches_disk(label, mount) ==> (contains_seq(lowercase(label), lowercase(mount))
            || contains_seq(lowercase(label), "nvme"@) || contains_seq(lowercase(label), "ssd"@)
            || contains_seq(lowercase(label), "disk"@) || contains_seq(lowercase(label), "composite"@)),
{
}

/// The same statements on text that is already lower-cased.
pub proof fn lemma_lowered_label_words(l: Seq<char>, m: Seq<char>)
    ensures
        names_storage(l) == (contains_seq(l, "nvme"@) || contains_seq(l, "ssd"@) || contains_seq(l, "disk"@)
            || contains_seq(l, "drive"@) || contains_seq(l, "storage"@) || contains_seq(l, "composite"@)),
        names_disk(l, m) == (contains_seq(l, m) || contains_seq(l, "nvme"@) || contains_seq(l, "ssd"@)
            || contains_seq(l, "disk"@) || contains_seq(l, "composite"@)),
{
}

} // verus!
