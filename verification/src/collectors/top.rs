//! The process monitor: which processes stand in the memory table, and how
//! the monitor is paced.
use vstd::prelude::*;

use crate::text::{chars_of, slice_of, starts_with_exec, string_of};

verus! {

/// What the memory table reads of a process: its id, the path of its
/// executable (or its name where the path is unknown), and its resident
/// memory in bytes.
pub struct ProcessSample {
    pub pid: u32,
    pub exe: String,
    pub memory: u64,
}

/// The number of rows of each process table.
pub const TOP_ROWS: usize = 10;

/// Two processes fall in one group when they run the same executable with
/// the same resident memory (the threads of one process report both alike).
pub open spec fn same_group(a: ProcessSample, b: ProcessSample) -> bool {
    a.exe@ == b.exe@ && a.memory == b.memory
}

/// `i` comes before `j` by process id, and by position among equal ids.
pub open spec fn pid_before(ps: Seq<ProcessSample>, i: int, j: int) -> bool {
    ps[i].pid < ps[j].pid || (ps[i].pid == ps[j].pid && i < j)
}

/// Process `i` stands for its group: no other member of the group comes
/// before it.
pub open spec fn is_representative(ps: Seq<ProcessSample>, i: int) -> bool {
    &&& 0 <= i < ps.len()
    &&& forall|j: int|
        0 <= j < ps.len() && j != i && #[trigger] same_group(ps[j], ps[i]) ==> pid_before(ps, i, j)
}

/// `i` is listed before `j`: more memory first, then by process id.
pub open spec fn outranks(ps: Seq<ProcessSample>, i: int, j: int) -> bool {
    ps[i].memory > ps[j].memory || (ps[i].memory == ps[j].memory && pid_before(ps, i, j))
}

/// `r` lists, best first, the representatives of the groups with the most
/// memory: at most `n` of them, and every one left out is outranked by all
/// that were listed, of which there are then `n`.
pub open spec fn is_top_by_memory(ps: Seq<ProcessSample>, r: Seq<usize>, n: nat) -> bool {
    &&& r.len() <= n
    &&& forall|k: int| 0 <= k < r.len() ==> is_representative(ps, #[trigger] r[k] as int)
    &&& forall|k: int, l: int| 0 <= k < l < r.len() ==> outranks(ps, r[k] as int, r[l] as int)
    &&& forall|i: int|
        is_representative(ps, i) && !r.contains(i as usize) ==> r.len() == n && forall|k: int|
            0 <= k < r.len() ==> outranks(ps, #[trigger] r[k] as int, i)
}

fn same_key(a: &Vec<char>, b: &Vec<char>) -> (e: bool)
    ensures
        e == (a@ == b@),
{
    if a.len() != b.len() {
        return false;
    }
    let e = starts_with_exec(a, b);
    proof {
        assert(a@.take(b.len() as int) == a@);
    }
    e
}

fn keys_of(procs: &Vec<ProcessSample>) -> (ks: Vec<Vec<char>>)
    ensures
        ks.len() == procs.len(),
        forall|i: int| 0 <= i < procs.len() ==> #[trigger] ks[i]@ == procs[i].exe@,
{
    let mut ks: Vec<Vec<char>> = Vec::new();
    let mut i: usize = 0;
    while i < procs.len()
        invariant
            i <= procs.len(),
            ks.len() == i,
            forall|j: int| 0 <= j < i ==> #[trigger] ks[j]@ == procs[j].exe@,
        decreases procs.len() - i,
    {
        ks.push(chars_of(procs[i].exe.as_str()));
        i = i + 1;
    }
    ks
}

fn representative_flags(procs: &Vec<ProcessSample>) -> (rep: Vec<bool>)
    ensures
        rep.len() == procs.len(),
        forall|i: int| 0 <= i < procs.len() ==> #[trigger] rep[i] == is_representative(procs@, i),
{
    let ks = keys_of(procs);
    let mut rep: Vec<bool> = Vec::new();
    let mut i: usize = 0;
    while i < procs.len()
        invariant
            i <= procs.len(),
            ks.len() == procs.len(),
            forall|j: int| 0 <= j < procs.len() ==> #[trigger] ks[j]@ == procs[j].exe@,
            rep.len() == i,
            forall|j: int| 0 <= j < i ==> #[trigger] rep[j] == is_representative(procs@, j),
        decreases procs.len() - i,
    {
        let mut ok = true;
        let mut j: usize = 0;
        while j < procs.len()
            invariant
                i < procs.len(),
                j <= procs.len(),
                ks.len() == procs.len(),
                forall|m: int| 0 <= m < procs.len() ==> #[trigger] ks[m]@ == procs[m].exe@,
                ok == (forall|m: int|
                    0 <= m < j && m != i && #[trigger] same_group(procs@[m], procs@[i as int])
                        ==> pid_before(procs@, i as int, m)),
            decreases procs.len() - j,
        {
            if j != i && procs[j].memory == procs[i].memory && same_key(&ks[j], &ks[i]) {
                let before = procs[i].pid < procs[j].pid || (procs[i].pid == procs[j].pid && i < j);
                if !before {
                    ok = false;
                }
            }
            proof {
                assert(same_group(procs@[j as int], procs@[i as int]) == (procs[j as int].memory
                    == procs[i as int].memory && ks[j as int]@ == ks[i as int]@));
            }
            j = j + 1;
        }
        rep.push(ok);
        i = i + 1;
    }
    rep
}

fn outranks_exec(procs: &Vec<ProcessSample>, i: usize, j: usize) -> (b: bool)
    requires
        i < procs.len(),
        j < procs.len(),
    ensures
        b == outranks(procs@, i as int, j as int),
{
    procs[i].memory > procs[j].memory || (procs[i].memory == procs[j].memory && (procs[i].pid
        < procs[j].pid || (procs[i].pid == procs[j].pid && i < j)))
}

/// The memory table: the positions in `procs` of at most `n` processes, one
/// for each group of processes that run the same executable with the same
/// memory (the one with the lowest id), most memory first and then by id.
pub fn top_by_memory(procs: &Vec<ProcessSample>, n: usize) -> (r: Vec<usize>)
    ensures
        is_top_by_memory(procs@, r@, n as nat),
{
    let rep = representative_flags(procs);
    let mut taken: Vec<bool> = Vec::new();
    let mut t: usize = 0;
    while t < procs.len()
        invariant
            t <= procs.len(),
            taken.len() == t,
            forall|k: int| 0 <= k < t ==> !(#[trigger] taken[k]),
        decreases procs.len() - t,
    {
        taken.push(false);
        t = t + 1;
    }
    let mut r: Vec<usize> = Vec::new();
    let ghost ps = procs@;
    while r.len() < n
        invariant
            ps == procs@,
            rep.len() == ps.len(),
            forall|i: int| 0 <= i < ps.len() ==> #[trigger] rep[i] == is_representative(ps, i),
            taken.len() == ps.len(),
            r.len() <= n,
            forall|k: int| 0 <= k < r.len() ==> (#[trigger] r[k]) < ps.len(),
            forall|i: int| 0 <= i < ps.len() ==> (#[trigger] taken[i] <==> r@.contains(i as usize)),
            forall|k: int| 0 <= k < r.len() ==> is_representative(ps, #[trigger] r[k] as int),
            forall|k: int, l: int| 0 <= k < l < r.len() ==> outranks(ps, r[k] as int, r[l] as int),
            forall|i: int|
                is_representative(ps, i) && !r@.contains(i as usize) ==> forall|k: int|
                    0 <= k < r.len() ==> outranks(ps, #[trigger] r[k] as int, i),
        ensures
            forall|i: int| is_representative(ps, i) && !r@.contains(i as usize) ==> r.len() == n,
        decreases n - r.len(),
    {
        let mut best: Option<usize> = None;
        let mut i: usize = 0;
        while i < procs.len()
            invariant
                ps == procs@,
                rep.len() == ps.len(),
                forall|m: int| 0 <= m < ps.len() ==> #[trigger] rep[m] == is_representative(ps, m),
                taken.len() == ps.len(),
                i <= ps.len(),
                match best {
                    Some(b) => b < i && rep[b as int] && !taken[b as int] && forall|m: int|
                        0 <= m < i && m != b && rep[m] && !taken[m] ==> outranks(ps, b as int, m),
                    None => forall|m: int| 0 <= m < i ==> !(rep[m] && !taken[m]),
                },
            decreases ps.len() - i,
        {
            if rep[i] && !taken[i] {
                match best {
                    Some(b) => {
                        if outranks_exec(procs, i, b) {
                            best = Some(i);
                        }
                    },
                    None => {
                        best = Some(i);
                    },
                }
            }
            i = i + 1;
        }
        match best {
            Some(b) => {
                proof {
                    assert(!r@.contains(b));
                }
                let ghost old_r = r@;
                r.push(b);
                taken.set(b, true);
                proof {
                    assert forall|m: int| 0 <= m < ps.len() implies (#[trigger] taken[m]
                        <==> r@.contains(m as usize)) by {
                        if m == b as int {
                            assert(r@[old_r.len() as int] == b);
                        } else {
                            if r@.contains(m as usize) {
                                let k = choose|k: int| 0 <= k < r@.len() && r@[k] == m as usize;
                                assert(k < old_r.len());
                                assert(old_r.contains(m as usize));
                            }
                            if old_r.contains(m as usize) {
                                let k = choose|k: int| 0 <= k < old_r.len() && old_r[k] == m as usize;
                                assert(r@[k] == m as usize);
                            }
                        }
                    }
                    assert forall|m: int|
                        is_representative(ps, m) && !r@.contains(m as usize) implies forall|k: int|
                        0 <= k < r.len() ==> outranks(ps, #[trigger] r[k] as int, m) by {
                        assert(!old_r.contains(m as usize)) by {
                            if old_r.contains(m as usize) {
                                let k = choose|k: int| 0 <= k < old_r.len() && old_r[k] == m as usize;
                                assert(r@[k] == m as usize);
                            }
                        }
                        assert(m != b as int) by {
                            assert(r@[old_r.len() as int] == b);
                        }
                        assert(rep[m] && !taken[m]);
                    }
                }
            },
            None => {
                proof {
                    assert forall|m: int| is_representative(ps, m) implies r@.contains(m as usize) by {
                        assert(rep[m]);
                    }
                }
                break;
            },
        }
    }
    r
}

/// The memory table of the process monitor (`TOP_ROWS` rows).
pub fn top_memory_table(procs: &Vec<ProcessSample>) -> (r: Vec<usize>)
    ensures
        is_top_by_memory(procs@, r@, TOP_ROWS as nat),
{
    top_by_memory(procs, TOP_ROWS)
}

/// No two rows of the memory table belong to one group: the threads of a
/// process collapse into a single row.
pub proof fn law_memory_table_one_per_group(ps: Seq<ProcessSample>, r: Seq<usize>, n: nat)
    requires
        is_top_by_memory(ps, r, n),
    ensures
        forall|k: int, l: int|
            0 <= k < r.len() && 0 <= l < r.len() && k != l ==> !same_group(
                ps[#[trigger] r[k] as int],
                ps[#[trigger] r[l] as int],
            ),
{
    assert forall|k: int, l: int| 0 <= k < r.len() && 0 <= l < r.len() && k != l implies !same_group(
        ps[#[trigger] r[k] as int],
        ps[#[trigger] r[l] as int],
    ) by {
        let i = r[k] as int;
        let j = r[l] as int;
        assert(is_representative(ps, i));
        assert(is_representative(ps, j));
        if k < l {
            assert(outranks(ps, i, j));
        } else {
            assert(outranks(ps, j, i));
        }
        if same_group(ps[i], ps[j]) {
            assert(i != j);
            assert(same_group(ps[j], ps[i]));
            assert(pid_before(ps, i, j));
            assert(pid_before(ps, j, i));
        }
    }
}

/// How a memory figure is coloured in the tables.
pub enum MemoryLevel {
    High,
    Medium,
    Low,
}

/// 500 MB and more is high, 200 MB and more is medium, less is low.
pub open spec fn memory_level_of(mem_mb: u64) -> MemoryLevel {
    if mem_mb >= 500 {
        MemoryLevel::High
    } else if mem_mb >= 200 {
        MemoryLevel::Medium
    } else {
        MemoryLevel::Low
    }
}

/// The memory classes split the megabytes at 200 and 500: high from 500
/// up, medium from 200 to 499, low below 200.
pub proof fn law_memory_levels(m: u64)
    ensures
        (memory_level_of(m) is High) <==> m >= 500,
        (memory_level_of(m) is Medium) <==> (200 <= m && m < 500),
        (memory_level_of(m) is Low) <==> m < 200,
{
}

/// The colour class of a memory figure in megabytes.
pub fn memory_level(mem_mb: u64) -> (l: MemoryLevel)
    ensures
        l == memory_level_of(mem_mb),
{
    if mem_mb >= 500 {
        MemoryLevel::High
    } else if mem_mb >= 200 {
        MemoryLevel::Medium
    } else {
        MemoryLevel::Low
    }
}

/// How the monitor runs: how many samples it takes and how long each
/// sampling window lasts, in milliseconds.
pub struct MonitorPlan {
    pub iterations: u64,
    pub sample_ms: u64,
    pub live: bool,
}

/// One sample of a second where no duration is given (or zero); else one
/// sample of 800 ms for each second, redrawn in place.
pub fn monitor_plan(monitor_secs: Option<u64>) -> (p: MonitorPlan)
    ensures
        ({
            let d = match monitor_secs {
                Some(n) => n,
                None => 0,
            };
            &&& p.live == (d > 0)
            &&& p.iterations == (if d == 0 {
                1
            } else {
                d
            })
            &&& p.sample_ms == (if d > 0 {
                800u64
            } else {
                1000u64
            })
        }),
{
    let d = match monitor_secs {
        Some(n) => n,
        None => 0,
    };
    if d == 0 {
        MonitorPlan { iterations: 1, sample_ms: 1000, live: false }
    } else {
        MonitorPlan { iterations: d, sample_ms: 800, live: true }
    }
}

/// The width of the name column of the process tables, in characters.
pub const NAME_WIDTH: usize = 27;

/// A process name as the tables show it: its first `NAME_WIDTH` characters.
pub fn name_column(name: &str) -> (s: String)
    ensures
        s@ == (if name@.len() <= NAME_WIDTH {
            name@
        } else {
            name@.take(NAME_WIDTH as int)
        }),
{
    let v = chars_of(name);
    let n = if v.len() <= NAME_WIDTH {
        v.len()
    } else {
        NAME_WIDTH
    };
    let r = slice_of(&v, 0, n);
    proof {
        assert(v@.subrange(0, n as int) == v@.take(n as int));
        assert(v@.take(v@.len() as int) == v@);
    }
    string_of(&r)
}

} // verus!
