//! The pure half of the snapshot builder: defaulting of failed queries,
//! the first-seen-wins union of the two per-context process lists, name
//! application, and the stable descending sort by memory footprint.

use vstd::prelude::*;
use vstd::multiset::Multiset;
use crate::snapshot::{GpuSnapshot, ProcessInfo, RawProc};
use crate::text::pid_label_spec;
use crate::text::pid_label;

verus! {

/// The megabytes a raw process entry stands for: its reported bytes
/// divided down, or zero when the device reported no figure.
pub open spec fn mb_of(mem_bytes: Option<u64>) -> u64 {
    match mem_bytes {
        Some(b) => (b as int / (1024int * 1024)) as u64,
        None => 0,
    }
}

/// Whether some entry of `s` carries `pid`.
pub open spec fn has_pid(s: Seq<RawProc>, pid: u32) -> bool {
    exists|j: int| 0 <= j < s.len() && s[j].pid == pid
}

/// The first entry for each pid of `s`, in order of first appearance.
pub open spec fn merge_spec(s: Seq<RawProc>) -> Seq<RawProc>
    decreases s.len(),
{
    if s.len() == 0 {
        Seq::empty()
    } else if has_pid(s.drop_last(), s.last().pid) {
        merge_spec(s.drop_last())
    } else {
        merge_spec(s.drop_last()).push(s.last())
    }
}

/// Unions the compute-context and graphics-context process lists by pid:
/// first-seen wins, compute entries before graphics entries, order of
/// discovery kept.
pub fn merge_processes(compute: &Vec<RawProc>, graphics: &Vec<RawProc>) -> (merged: Vec<RawProc>)
    ensures
        merged@ == merge_spec(compute@ + graphics@),
{
    let ghost all = compute@ + graphics@;
    let mut merged: Vec<RawProc> = Vec::new();
    let mut ci: usize = 0;
    while ci < compute.len()
        invariant
            ci <= compute@.len(),
            all == compute@ + graphics@,
            merged@ == merge_spec(all.take(ci as int)),
        decreases compute@.len() - ci,
    {
        let p = compute[ci];
        let dup = contains_pid(&merged, p.pid);
        proof {
            let prefix = all.take(ci as int);
            assert(all.take(ci + 1).drop_last() =~= prefix);
            assert(all.take(ci + 1).last() == p);
            lemma_contains_pid_matches_spec(prefix, merged@, p.pid);
        }
        if !dup {
            merged.push(p);
        }
        ci += 1;
    }
    let mut gi: usize = 0;
    while gi < graphics.len()
        invariant
            gi <= graphics@.len(),
            all == compute@ + graphics@,
            merged@ == merge_spec(all.take(compute@.len() + gi as int)),
        decreases graphics@.len() - gi,
    {
        let p = graphics[gi];
        let dup = contains_pid(&merged, p.pid);
        proof {
            let prefix = all.take(compute@.len() + gi as int);
            assert(all.take(compute@.len() + gi as int + 1).drop_last() =~= prefix);
            assert(all.take(compute@.len() + gi as int + 1).last() == p);
            lemma_contains_pid_matches_spec(prefix, merged@, p.pid);
        }
        if !dup {
            merged.push(p);
        }
        gi += 1;
    }
    proof {
        assert(all.take((compute@.len() + graphics@.len()) as int) =~= all);
    }
    merged
}

/// Appending one entry adds exactly its pid.
proof fn lemma_has_pid_push(s: Seq<RawProc>, x: RawProc, pid: u32)
    ensures
        has_pid(s.push(x), pid) == (has_pid(s, pid) || x.pid == pid),
{
    if has_pid(s, pid) {
        let j = choose|j: int| 0 <= j < s.len() && s[j].pid == pid;
        assert(s.push(x)[j].pid == pid);
    }
    if x.pid == pid {
        assert(s.push(x)[s.len() as int].pid == pid);
    }
    if has_pid(s.push(x), pid) {
        let j = choose|j: int| 0 <= j < s.push(x).len() && s.push(x)[j].pid == pid;
        if j < s.len() {
            assert(s[j].pid == pid);
        }
    }
}

/// A sequence holds a pid exactly when its last entry carries it or the
/// rest does.
proof fn lemma_has_pid_unlast(s: Seq<RawProc>, pid: u32)
    requires
        s.len() > 0,
    ensures
        has_pid(s, pid) == (has_pid(s.drop_last(), pid) || s.last().pid == pid),
{
    assert(s.drop_last().push(s.last()) =~= s);
    lemma_has_pid_push(s.drop_last(), s.last(), pid);
}

/// The merged prefix holds a pid exactly when the scanned input does.
proof fn lemma_contains_pid_matches_spec(prefix: Seq<RawProc>, merged: Seq<RawProc>, pid: u32)
    requires
        merged == merge_spec(prefix),
    ensures
        has_pid(merged, pid) == has_pid(prefix, pid),
    decreases prefix.len(),
{
    if prefix.len() > 0 {
        let butlast = prefix.drop_last();
        let last = prefix.last();
        let prev = merge_spec(butlast);
        lemma_contains_pid_matches_spec(butlast, prev, pid);
        lemma_contains_pid_matches_spec(butlast, prev, last.pid);
        lemma_has_pid_unlast(prefix, pid);
        if !has_pid(butlast, last.pid) {
            lemma_has_pid_push(prev, last, pid);
        }
    }
}

/// Builds the process table rows from the merged entries and the batch
/// name-resolution answers, entry by entry: the pid and the megabyte
/// figure are carried over, the name is the resolved one, or the
/// synthesized `"PID {pid}"` label where the OS lookup missed.
pub fn apply_names(entries: &Vec<RawProc>, names: &Vec<Option<String>>) -> (procs: Vec<
    ProcessInfo,
>)
    requires
        entries@.len() == names@.len(),
    ensures
        procs@.len() == entries@.len(),
        forall|i: int|
            0 <= i < procs@.len() ==> {
                &&& (#[trigger] procs@[i]).pid == entries@[i].pid
                &&& procs@[i].vram_mb == mb_of(entries@[i].mem_bytes)
                &&& procs@[i].name@ == match names@[i] {
                    Some(n) => n@,
                    None => pid_label_spec(entries@[i].pid as nat),
                }
            },
{
    let mut procs: Vec<ProcessInfo> = Vec::new();
    let mut i: usize = 0;
    while i < entries.len()
        invariant
            entries@.len() == names@.len(),
            i <= entries@.len(),
            procs@.len() == i,
            forall|k: int|
                0 <= k < i ==> {
                    &&& (#[trigger] procs@[k]).pid == entries@[k].pid
                    &&& procs@[k].vram_mb == mb_of(entries@[k].mem_bytes)
                    &&& procs@[k].name@ == match names@[k] {
                        Some(n) => n@,
                        None => pid_label_spec(entries@[k].pid as nat),
                    }
                },
        decreases entries@.len() - i,
    {
        let e = entries[i];
        let name = match &names[i] {
            Some(n) => n.clone(),
            None => pid_label(e.pid),
        };
        let vram_mb = match e.mem_bytes {
            Some(b) => b / (1024 * 1024),
            None => 0,
        };
        procs.push(ProcessInfo { pid: e.pid, name, vram_mb });
        i += 1;
    }
    procs
}

/// Where a later-discovered entry belongs in a table sorted by
/// descending footprint: after every entry at least as large, before
/// the first strictly smaller one — so equal footprints keep their
/// discovery order.
pub open spec fn insert_desc(x: ProcessInfo, s: Seq<ProcessInfo>) -> Seq<ProcessInfo>
    decreases s.len(),
{
    if s.len() == 0 {
        seq![x]
    } else if x.vram_mb > s[0].vram_mb {
        seq![x] + s
    } else {
        seq![s[0]] + insert_desc(x, s.drop_first())
    }
}

/// The stable descending sort by memory footprint: entries inserted in
/// discovery order, each after its equals.
pub open spec fn sort_desc_spec(s: Seq<ProcessInfo>) -> Seq<ProcessInfo>
    decreases s.len(),
{
    if s.len() == 0 {
        Seq::empty()
    } else {
        insert_desc(s.last(), sort_desc_spec(s.drop_last()))
    }
}

/// Non-increasing memory footprint.
pub open spec fn sorted_desc(s: Seq<ProcessInfo>) -> bool {
    forall|i: int, j: int| 0 <= i <= j < s.len() ==> s[i].vram_mb >= s[j].vram_mb
}

/// Inserting at the first index whose entry is strictly smaller is what
/// `insert_desc` does.
proof fn lemma_insert_desc_at(x: ProcessInfo, s: Seq<ProcessInfo>, j: int)
    requires
        0 <= j <= s.len(),
        forall|k: int| 0 <= k < j ==> s[k].vram_mb >= x.vram_mb,
        j < s.len() ==> s[j].vram_mb < x.vram_mb,
    ensures
        insert_desc(x, s) == s.insert(j, x),
    decreases s.len(),
{
    if s.len() == 0 {
        assert(insert_desc(x, s) =~= s.insert(0, x));
    } else if j == 0 {
        assert(insert_desc(x, s) =~= s.insert(0, x));
    } else {
        assert(s[0].vram_mb >= x.vram_mb);
        let rest = s.drop_first();
        assert(forall|k: int| 0 <= k < j - 1 ==> #[trigger] rest[k].vram_mb >= x.vram_mb);
        lemma_insert_desc_at(x, rest, j - 1);
        assert(seq![s[0]] + rest.insert(j - 1, x) =~= s.insert(j, x));
    }
}

/// Every entry of an insertion result is the inserted one or one of the
/// originals.
proof fn lemma_insert_desc_elems(x: ProcessInfo, s: Seq<ProcessInfo>)
    ensures
        insert_desc(x, s).len() == s.len() + 1,
        forall|k: int|
            0 <= k < insert_desc(x, s).len() ==> #[trigger] insert_desc(x, s)[k] == x
                || exists|m: int| 0 <= m < s.len() && insert_desc(x, s)[k] == s[m],
    decreases s.len(),
{
    if s.len() == 0 {
    } else if x.vram_mb > s[0].vram_mb {
        assert forall|k: int|
            0 <= k < insert_desc(x, s).len() implies #[trigger] insert_desc(x, s)[k] == x
            || exists|m: int| 0 <= m < s.len() && insert_desc(x, s)[k] == s[m] by {
            if k > 0 {
                assert(insert_desc(x, s)[k] == s[k - 1]);
            }
        }
    } else {
        let rest = s.drop_first();
        lemma_insert_desc_elems(x, rest);
        assert forall|k: int|
            0 <= k < insert_desc(x, s).len() implies #[trigger] insert_desc(x, s)[k] == x
            || exists|m: int| 0 <= m < s.len() && insert_desc(x, s)[k] == s[m] by {
            if k == 0 {
                assert(insert_desc(x, s)[0] == s[0]);
            } else {
                let t = insert_desc(x, rest);
                assert(insert_desc(x, s)[k] == t[k - 1]);
                if t[k - 1] != x {
                    let m = choose|m: int| 0 <= m < rest.len() && t[k - 1] == rest[m];
                    assert(insert_desc(x, s)[k] == s[m + 1]);
                }
            }
        }
    }
}

/// Insertion keeps the table sorted.
proof fn lemma_insert_desc_sorted(x: ProcessInfo, s: Seq<ProcessInfo>)
    requires
        sorted_desc(s),
    ensures
        sorted_desc(insert_desc(x, s)),
    decreases s.len(),
{
    if s.len() == 0 {
    } else if x.vram_mb > s[0].vram_mb {
        let r = seq![x] + s;
        assert forall|i: int, j: int| 0 <= i <= j < r.len() implies r[i].vram_mb >= r[j].vram_mb by {
            if i > 0 {
                assert(r[i] == s[i - 1] && r[j] == s[j - 1]);
            } else if j > 0 {
                assert(r[j] == s[j - 1]);
            }
        }
    } else {
        let rest = s.drop_first();
        assert forall|i: int, j: int|
            0 <= i <= j < rest.len() implies #[trigger] rest[i].vram_mb
            >= #[trigger] rest[j].vram_mb by {
            assert(s[i + 1].vram_mb >= s[j + 1].vram_mb);
        }
        lemma_insert_desc_sorted(x, rest);
        lemma_insert_desc_elems(x, rest);
        let t = insert_desc(x, rest);
        let r = seq![s[0]] + t;
        assert forall|i: int, j: int| 0 <= i <= j < r.len() implies r[i].vram_mb >= r[j].vram_mb by {
            if i > 0 {
                assert(r[i] == t[i - 1] && r[j] == t[j - 1]);
            } else if j > 0 {
                assert(r[j] == t[j - 1]);
                if t[j - 1] != x {
                    let m = choose|m: int| 0 <= m < rest.len() && t[j - 1] == rest[m];
                    assert(s[0].vram_mb >= s[m + 1].vram_mb);
                }
            }
        }
    }
}

/// Law: the sorted table is in non-increasing footprint order.
pub proof fn lemma_sort_desc_spec_sorted(s: Seq<ProcessInfo>)
    ensures
        sorted_desc(sort_desc_spec(s)),
    decreases s.len(),
{
    if s.len() > 0 {
        lemma_sort_desc_spec_sorted(s.drop_last());
        lemma_insert_desc_sorted(s.last(), sort_desc_spec(s.drop_last()));
    }
}

/// Law: sorting permutes the table — same rows, same multiplicities.
pub proof fn lemma_sort_desc_spec_multiset(s: Seq<ProcessInfo>)
    ensures
        sort_desc_spec(s).to_multiset() == s.to_multiset(),
    decreases s.len(),
{
    broadcast use vstd::seq_lib::group_to_multiset_ensures;

    if s.len() > 0 {
        lemma_sort_desc_spec_multiset(s.drop_last());
        lemma_insert_desc_multiset(s.last(), sort_desc_spec(s.drop_last()));
        assert(s.drop_last().push(s.last()) =~= s);
    }
}

/// Inserting adds exactly the inserted row to the multiset.
proof fn lemma_insert_desc_multiset(x: ProcessInfo, s: Seq<ProcessInfo>)
    ensures
        insert_desc(x, s).to_multiset() == s.to_multiset().insert(x),
    decreases s.len(),
{
    broadcast use vstd::seq_lib::group_to_multiset_ensures;

    if s.len() == 0 {
        assert(seq![x] =~= Seq::<ProcessInfo>::empty().push(x));
        assert(Seq::<ProcessInfo>::empty().to_multiset() =~= Multiset::<ProcessInfo>::empty());
        assert(s.to_multiset() =~= Multiset::<ProcessInfo>::empty());
    } else if x.vram_mb > s[0].vram_mb {
        vstd::seq_lib::lemma_multiset_commutative(seq![x], s);
        assert(seq![x] =~= Seq::<ProcessInfo>::empty().push(x));
        assert(Seq::<ProcessInfo>::empty().to_multiset() =~= Multiset::<ProcessInfo>::empty());
        assert(seq![x].to_multiset() =~= Multiset::<ProcessInfo>::empty().insert(x));
        assert((seq![x] + s).to_multiset() =~= s.to_multiset().insert(x));
    } else {
        let rest = s.drop_first();
        lemma_insert_desc_multiset(x, rest);
        vstd::seq_lib::lemma_multiset_commutative(seq![s[0]], insert_desc(x, rest));
        vstd::seq_lib::lemma_multiset_commutative(seq![s[0]], rest);
        assert(seq![s[0]] + rest =~= s);
        assert(seq![s[0]].to_multiset() =~= Multiset::<ProcessInfo>::empty().insert(s[0]));
        assert((seq![s[0]] + insert_desc(x, rest)).to_multiset() =~= s.to_multiset().insert(x));
    }
}

/// Inserts `x` after every entry with at least its footprint.
fn insert_sorted(out: &mut Vec<ProcessInfo>, x: ProcessInfo)
    ensures
        final(out)@ == insert_desc(x, old(out)@),
{
    let mut j: usize = 0;
    while j < out.len() && out[j].vram_mb >= x.vram_mb
        invariant
            j <= out@.len(),
            out@ == old(out)@,
            forall|k: int| 0 <= k < j ==> out@[k].vram_mb >= x.vram_mb,
        decreases out@.len() - j,
    {
        j += 1;
    }
    proof {
        lemma_insert_desc_at(x, out@, j as int);
    }
    out.insert(j, x);
}

/// Sorts the process table by descending memory footprint with ties in
/// discovery order, row for row as `sort_desc_spec` says.
pub fn sort_processes(procs: Vec<ProcessInfo>) -> (sorted: Vec<ProcessInfo>)
    ensures
        sorted@ == sort_desc_spec(procs@),
        sorted_desc(sorted@),
{
    let ghost orig = procs@;
    let mut rest = procs;
    let mut sorted: Vec<ProcessInfo> = Vec::new();
    let ghost mut i: int = 0;
    while rest.len() > 0
        invariant
            0 <= i <= orig.len(),
            rest@ == orig.skip(i),
            sorted@ == sort_desc_spec(orig.take(i)),
        decreases rest@.len(),
    {
        let x = rest.remove(0);
        proof {
            assert(x == orig[i]);
            assert(rest@ =~= orig.skip(i + 1));
        }
        insert_sorted(&mut sorted, x);
        proof {
            assert(orig.take(i + 1).drop_last() =~= orig.take(i));
            assert(orig.take(i + 1).last() == orig[i]);
            i = i + 1;
        }
    }
    proof {
        assert(orig.take(orig.len() as int) =~= orig);
        lemma_sort_desc_spec_sorted(orig);
    }
    sorted
}

/// No two raw entries carry the same pid.
pub open spec fn unique_raw_pids(s: Seq<RawProc>) -> bool {
    forall|i: int, j: int| 0 <= i < j < s.len() ==> s[i].pid != s[j].pid
}

/// No two rows of the table carry the same pid.
pub open spec fn unique_pids(s: Seq<ProcessInfo>) -> bool {
    forall|i: int, j: int| 0 <= i < j < s.len() ==> s[i].pid != s[j].pid
}

/// Law: the merged list holds each pid at most once.
pub proof fn lemma_merge_spec_unique(s: Seq<RawProc>)
    ensures
        unique_raw_pids(merge_spec(s)),
    decreases s.len(),
{
    if s.len() > 0 {
        let butlast = s.drop_last();
        let last = s.last();
        let prev = merge_spec(butlast);
        lemma_merge_spec_unique(butlast);
        if !has_pid(butlast, last.pid) {
            lemma_contains_pid_matches_spec(butlast, prev, last.pid);
            let m = prev.push(last);
            assert forall|i: int, j: int| 0 <= i < j < m.len() implies m[i].pid != m[j].pid by {
                if j < prev.len() {
                    assert(prev[i].pid != prev[j].pid);
                } else if m[i].pid == last.pid {
                    assert(prev[i].pid == last.pid);
                    assert(has_pid(prev, last.pid));
                }
            }
        }
    }
}

/// Insertion places the row at some position, shifting the rest along.
proof fn lemma_insert_desc_is_insert(x: ProcessInfo, s: Seq<ProcessInfo>)
    ensures
        exists|j: int| 0 <= j <= s.len() && insert_desc(x, s) == s.insert(j, x),
    decreases s.len(),
{
    if s.len() == 0 {
        assert(insert_desc(x, s) =~= s.insert(0, x));
    } else if x.vram_mb > s[0].vram_mb {
        assert(insert_desc(x, s) =~= s.insert(0, x));
    } else {
        let rest = s.drop_first();
        lemma_insert_desc_is_insert(x, rest);
        let j = choose|j: int| 0 <= j <= rest.len() && insert_desc(x, rest) == rest.insert(j, x);
        assert(seq![s[0]] + rest.insert(j, x) =~= s.insert(j + 1, x));
        assert(0 <= j + 1 <= s.len() && insert_desc(x, s) == s.insert(j + 1, x));
    }
}

/// A row with a fresh pid keeps the table duplicate-free through
/// insertion.
proof fn lemma_insert_desc_unique(x: ProcessInfo, s: Seq<ProcessInfo>)
    requires
        unique_pids(s),
        forall|k: int| 0 <= k < s.len() ==> (#[trigger] s[k]).pid != x.pid,
    ensures
        unique_pids(insert_desc(x, s)),
{
    lemma_insert_desc_is_insert(x, s);
    let pos = choose|j: int| 0 <= j <= s.len() && insert_desc(x, s) == s.insert(j, x);
    s.insert_ensures(pos, x);
    let t = s.insert(pos, x);
    assert forall|a: int, b: int| 0 <= a < b < t.len() implies t[a].pid != t[b].pid by {
        if a < pos {
            assert(t[a] == s[a]);
        } else if a == pos {
            assert(t[a] == x);
        } else {
            assert(t[a] == s[a - 1]);
        }
        if b < pos {
            assert(t[b] == s[b]);
        } else if b == pos {
            assert(t[b] == x);
        } else {
            assert(t[b] == s[b - 1]);
        }
    }
}

/// Law: sorting a duplicate-free table leaves it duplicate-free.
pub proof fn lemma_sort_desc_spec_unique(s: Seq<ProcessInfo>)
    requires
        unique_pids(s),
    ensures
        unique_pids(sort_desc_spec(s)),
    decreases s.len(),
{
    broadcast use vstd::seq_lib::group_to_multiset_ensures;

    if s.len() > 0 {
        let butlast = s.drop_last();
        let x = s.last();
        assert forall|i: int, j: int|
            0 <= i < j < butlast.len() implies (#[trigger] butlast[i]).pid != (
        #[trigger] butlast[j]).pid by {
            assert(s[i].pid != s[j].pid);
        }
        lemma_sort_desc_spec_unique(butlast);
        let t = sort_desc_spec(butlast);
        assert forall|k: int| 0 <= k < t.len() implies (#[trigger] t[k]).pid != x.pid by {
            if t[k].pid == x.pid {
                lemma_sort_desc_spec_multiset(butlast);
                assert(t.contains(t[k]));
                assert(butlast.to_multiset().count(t[k]) > 0);
                assert(butlast.contains(t[k]));
                let m = choose|m: int| 0 <= m < butlast.len() && butlast[m] == t[k];
                assert(s[m].pid == s[s.len() - 1].pid);
                assert(false);
            }
        }
        lemma_insert_desc_unique(x, t);
    }
}

/// Assembles one snapshot from the defaulted query values.  Every field
/// passes through unmodified — in particular the reported memory values
/// are only divided down to megabytes, never clamped or reordered, even
/// when the device reports more used than total memory.
pub fn assemble_snapshot(
    index: u32,
    name: String,
    driver_version: String,
    cuda_version: String,
    utilization: (u32, u32),
    memory_bytes: (u64, u64),
    temperature: u32,
    fan_speed: Option<u32>,
    power_mw: (u32, u32),
    clocks_mhz: (u32, u32, u32),
    processes: Vec<ProcessInfo>,
) -> (s: GpuSnapshot)
    ensures
        s.index == index,
        s.name == name,
        s.driver_version == driver_version,
        s.cuda_version == cuda_version,
        s.gpu_util == utilization.0,
        s.memory_util == utilization.1,
        s.vram_used_mb == memory_bytes.0 as int / (1024int * 1024),
        s.vram_total_mb == memory_bytes.1 as int / (1024int * 1024),
        s.temperature == temperature,
        s.fan_speed == fan_speed,
        s.power_draw_mw == power_mw.0,
        s.power_limit_mw == power_mw.1,
        s.clock_graphics_mhz == clocks_mhz.0,
        s.clock_memory_mhz == clocks_mhz.1,
        s.clock_sm_mhz == clocks_mhz.2,
        s.processes == processes,
{
    GpuSnapshot {
        name,
        index,
        driver_version,
        cuda_version,
        gpu_util: utilization.0,
        memory_util: utilization.1,
        vram_used_mb: memory_bytes.0 / (1024 * 1024),
        vram_total_mb: memory_bytes.1 / (1024 * 1024),
        temperature,
        fan_speed,
        power_draw_mw: power_mw.0,
        power_limit_mw: power_mw.1,
        clock_graphics_mhz: clocks_mhz.0,
        clock_memory_mhz: clocks_mhz.1,
        clock_sm_mhz: clocks_mhz.2,
        processes,
    }
}

/// Linear scan for a pid among the entries collected so far.
fn contains_pid(entries: &Vec<RawProc>, pid: u32) -> (found: bool)
    ensures
        found == has_pid(entries@, pid),
{
    let mut i: usize = 0;
    while i < entries.len()
        invariant
            i <= entries@.len(),
            forall|j: int| 0 <= j < i ==> entries@[j].pid != pid,
        decreases entries@.len() - i,
    {
        if entries[i].pid == pid {
            return true;
        }
        i += 1;
    }
    false
}

} // verus!
