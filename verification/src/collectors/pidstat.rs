//! Per-process inspection: what `/proc/PID/...` files and fd links say.
use vstd::prelude::*;

use crate::style::{bright_cyan_text, bright_green_text, bright_yellow_text, fg_text};
use crate::text::{
    chars_of, contains, contains_str, eq_str, lines, lines_exec, parse_u32, parse_u32_exec,
    parse_u64, parse_u64_exec, push_all, push_str, split_on, split_on_exec, starts_with,
    starts_with_str, string_of, trim, trimmed, views, words, words_exec,
};

pub use crate::units::human_bytes;

verus! {

/// I/O counters of `/proc/PID/io`: `rchar`, `wchar`, `read_bytes`,
/// `write_bytes`.
pub type IoCounters = (u64, u64, u64, u64);

/// One line of `/proc/PID/io`: a line of exactly two words `key: value`
/// sets the counter named by the key (a value that does not parse counts as
/// 0); other lines change nothing.
pub open spec fn io_line(acc: IoCounters, line: Seq<char>) -> IoCounters {
    let p = words(line);
    if p.len() == 2 {
        let val: u64 = match parse_u64(p[1]) {
            Some(v) => v,
            None => 0,
        };
        if p[0] == "rchar:"@ {
            (val, acc.1, acc.2, acc.3)
        } else if p[0] == "wchar:"@ {
            (acc.0, val, acc.2, acc.3)
        } else if p[0] == "read_bytes:"@ {
            (acc.0, acc.1, val, acc.3)
        } else if p[0] == "write_bytes:"@ {
            (acc.0, acc.1, acc.2, val)
        } else {
            acc
        }
    } else {
        acc
    }
}

/// The counters after reading the given lines in order, from all zero.
pub open spec fn io_lines(ls: Seq<Seq<char>>) -> IoCounters
    decreases ls.len(),
{
    if ls.len() == 0 {
        (0, 0, 0, 0)
    } else {
        io_line(io_lines(ls.drop_last()), ls.last())
    }
}

/// The counters of a `/proc/PID/io` file, all zero when it could not be read.
pub open spec fn io_stats(content: Option<Seq<char>>) -> IoCounters {
    match content {
        Some(c) => io_lines(lines(c)),
        None => (0, 0, 0, 0),
    }
}

/// Reads `rchar`, `wchar`, `read_bytes`, `write_bytes` from the content of
/// `/proc/PID/io` (`None` when the file could not be read).
pub fn get_io_stats(content: Option<&str>) -> (r: IoCounters)
    ensures
        r == io_stats(match content {
            Some(c) => Some(c@),
            None => None,
        }),
{
    let c = match content {
        Some(c) => c,
        None => return (0, 0, 0, 0),
    };
    let ls = lines_exec(&chars_of(c));
    let ghost lv = views(ls@);
    let mut acc: IoCounters = (0, 0, 0, 0);
    let mut i: usize = 0;
    while i < ls.len()
        invariant
            i <= ls.len(),
            lv == views(ls@),
            acc == io_lines(lv.take(i as int)),
        decreases ls.len() - i,
    {
        proof {
            assert(lv.take(i + 1).drop_last() == lv.take(i as int));
            assert(lv.take(i + 1).last() == ls[i as int]@);
        }
        let p = words_exec(&ls[i]);
        if p.len() == 2 {
            proof {
                assert(views(p@)[0] == p[0]@);
                assert(views(p@)[1] == p[1]@);
            }
            let val: u64 = match parse_u64_exec(&p[1]) {
                Some(v) => v,
                None => 0,
            };
            if eq_str(&p[0], "rchar:") {
                acc = (val, acc.1, acc.2, acc.3);
            } else if eq_str(&p[0], "wchar:") {
                acc = (acc.0, val, acc.2, acc.3);
            } else if eq_str(&p[0], "read_bytes:") {
                acc = (acc.0, acc.1, val, acc.3);
            } else if eq_str(&p[0], "write_bytes:") {
                acc = (acc.0, acc.1, acc.2, val);
            }
        }
        i = i + 1;
    }
    proof {
        assert(lv.take(ls.len() as int) == lv);
    }
    acc
}

/// The text shown for the current system call.
pub open spec fn syscall_text(content: Option<Seq<char>>) -> Seq<char> {
    match content {
        Some(c) => trim(c),
        None => "N/A (requires privileges or process finished)"@,
    }
}

/// The current system call from `/proc/PID/syscall`, trimmed, or a notice
/// when the file could not be read.
pub fn get_syscall(content: Option<&str>) -> (s: String)
    ensures
        s@ == syscall_text(match content {
            Some(c) => Some(c@),
            None => None,
        }),
{
    match content {
        Some(c) => string_of(&trimmed(&chars_of(c))),
        None => "N/A (requires privileges or process finished)".to_owned(),
    }
}

/// Signal masks found so far: blocked, ignored, caught.
pub type SignalMasks = (Seq<char>, Seq<char>, Seq<char>);

/// One line of `/proc/PID/status`: a line with exactly one colon whose
/// trimmed key is `SigBlk`, `SigIgn` or `SigCgt` sets that mask to the
/// trimmed value.
pub open spec fn signal_line(acc: SignalMasks, line: Seq<char>) -> SignalMasks {
    let parts = split_on(line, ':');
    if parts.len() == 2 {
        let key = trim(parts[0]);
        let val = trim(parts[1]);
        if key == "SigBlk"@ {
            (val, acc.1, acc.2)
        } else if key == "SigIgn"@ {
            (acc.0, val, acc.2)
        } else if key == "SigCgt"@ {
            (acc.0, acc.1, val)
        } else {
            acc
        }
    } else {
        acc
    }
}

/// The masks after reading the given lines, each `N/A` until found.
pub open spec fn signal_lines(ls: Seq<Seq<char>>) -> SignalMasks
    decreases ls.len(),
{
    if ls.len() == 0 {
        ("N/A"@, "N/A"@, "N/A"@)
    } else {
        signal_line(signal_lines(ls.drop_last()), ls.last())
    }
}

/// The signal summary of a `/proc/PID/status` file, each mask coloured
/// (blocked bright yellow, ignored bright green, caught bright cyan), or
/// `N/A` when the file could not be read.
pub open spec fn signals_text(content: Option<Seq<char>>) -> Seq<char> {
    match content {
        None => "N/A"@,
        Some(c) => {
            let m = signal_lines(lines(c));
            "Blocked: "@ + fg_text(seq!['9', '3'], m.0) + ", Ignored: "@ + fg_text(
                seq!['9', '2'],
                m.1,
            ) + ", Caught: "@ + fg_text(seq!['9', '6'], m.2)
        },
    }
}

/// The blocked, ignored and caught signal masks of a process.
pub fn get_crashes_signals(content: Option<&str>) -> (s: String)
    ensures
        s@ == signals_text(match content {
            Some(c) => Some(c@),
            None => None,
        }),
{
    let c = match content {
        Some(c) => c,
        None => return "N/A".to_owned(),
    };
    let ls = lines_exec(&chars_of(c));
    let ghost lv = views(ls@);
    let mut blk = chars_of("N/A");
    let mut ign = chars_of("N/A");
    let mut cgt = chars_of("N/A");
    let mut i: usize = 0;
    while i < ls.len()
        invariant
            i <= ls.len(),
            lv == views(ls@),
            (blk@, ign@, cgt@) == signal_lines(lv.take(i as int)),
        decreases ls.len() - i,
    {
        proof {
            assert(lv.take(i + 1).drop_last() == lv.take(i as int));
            assert(lv.take(i + 1).last() == ls[i as int]@);
        }
        let parts = split_on_exec(&ls[i], ':');
        if parts.len() == 2 {
            proof {
                assert(views(parts@)[0] == parts[0]@);
                assert(views(parts@)[1] == parts[1]@);
            }
            let key = trimmed(&parts[0]);
            let val = trimmed(&parts[1]);
            if eq_str(&key, "SigBlk") {
                blk = val;
            } else if eq_str(&key, "SigIgn") {
                ign = val;
            } else if eq_str(&key, "SigCgt") {
                cgt = val;
            }
        }
        i = i + 1;
    }
    proof {
        assert(lv.take(ls.len() as int) == lv);
    }
    let mut out: Vec<char> = Vec::new();
    push_str(&mut out, "Blocked: ");
    push_str(&mut out, bright_yellow_text(string_of(&blk).as_str()).as_str());
    push_str(&mut out, ", Ignored: ");
    push_str(&mut out, bright_green_text(string_of(&ign).as_str()).as_str());
    push_str(&mut out, ", Caught: ");
    push_str(&mut out, bright_cyan_text(string_of(&cgt).as_str()).as_str());
    string_of(&out)
}

/// The open files among fd link targets: absolute paths, each once, in the
/// order of their first appearance.
pub open spec fn open_files(ts: Seq<Seq<char>>) -> Seq<Seq<char>>
    decreases ts.len(),
{
    if ts.len() == 0 {
        Seq::empty()
    } else {
        let r = open_files(ts.drop_last());
        let t = ts.last();
        if starts_with(t, "/"@) && !r.contains(t) {
            r.push(t)
        } else {
            r
        }
    }
}

/// The text held by a list of strings.
pub open spec fn string_views(v: Seq<String>) -> Seq<Seq<char>> {
    Seq::new(v.len(), |i: int| v[i]@)
}

fn contains_seq(v: &Vec<Vec<char>>, t: &Vec<char>) -> (b: bool)
    ensures
        b == views(v@).contains(t@),
{
    let mut k: usize = 0;
    while k < v.len()
        invariant
            k <= v.len(),
            forall|j: int| 0 <= j < k ==> views(v@)[j] != t@,
        decreases v.len() - k,
    {
        proof {
            assert(views(v@)[k as int] == v[k as int]@);
        }
        if eq_str(&v[k], string_of(t).as_str()) {
            proof {
                assert(views(v@)[k as int] == t@);
            }
            return true;
        }
        k = k + 1;
    }
    false
}

/// The absolute paths among the fd link targets of a process, without
/// repetition.
pub fn get_open_files_list(targets: &Vec<String>) -> (r: Vec<String>)
    ensures
        string_views(r@) == open_files(string_views(targets@)),
{
    let ghost tv = string_views(targets@);
    let mut seen: Vec<Vec<char>> = Vec::new();
    let mut r: Vec<String> = Vec::new();
    let mut i: usize = 0;
    while i < targets.len()
        invariant
            i <= targets.len(),
            tv == string_views(targets@),
            views(seen@) == open_files(tv.take(i as int)),
            string_views(r@) == views(seen@),
        decreases targets.len() - i,
    {
        proof {
            assert(tv.take(i + 1).drop_last() == tv.take(i as int));
            assert(tv.take(i + 1).last() == targets[i as int]@);
        }
        let t = chars_of(targets[i].as_str());
        if starts_with_str(&t, "/") && !contains_seq(&seen, &t) {
            let ghost old_seen = seen@;
            let ghost old_r = r@;
            let s = string_of(&t);
            proof {
                crate::text::lemma_views_push(seen@, t);
            }
            seen.push(t);
            r.push(s);
            proof {
                assert(string_views(r@) =~= string_views(old_r).push(s@));
            }
        }
        i = i + 1;
    }
    proof {
        assert(tv.take(targets.len() as int) == tv);
    }
    r
}

/// The open-file list names each file once, holds only absolute paths, and
/// misses no absolute fd target: the absolute paths in `open_files` are each
/// listed once, each starts with
/// `/`, and every absolute target is among them.
pub proof fn law_open_files_once_absolute_complete(ts: Seq<Seq<char>>)
    ensures
        forall|i: int, j: int|
            0 <= i < j < open_files(ts).len() ==> open_files(ts)[i] != open_files(ts)[j],
        forall|i: int|
            0 <= i < open_files(ts).len() ==> starts_with(#[trigger] open_files(ts)[i], "/"@),
        forall|i: int|
            0 <= i < ts.len() && starts_with(#[trigger] ts[i], "/"@) ==> open_files(ts).contains(
                ts[i],
            ),
    decreases ts.len(),
{
    if ts.len() > 0 {
        let p = ts.drop_last();
        law_open_files_once_absolute_complete(p);
        let r = open_files(p);
        let t = ts.last();
        assert forall|i: int|
            0 <= i < ts.len() && starts_with(#[trigger] ts[i], "/"@) implies open_files(
            ts,
        ).contains(ts[i]) by {
            if i < ts.len() - 1 {
                assert(p[i] == ts[i]);
                let k = choose|k: int| 0 <= k < r.len() && r[k] == p[i];
                assert(open_files(ts)[k] == ts[i]);
            } else if !r.contains(t) {
                assert(open_files(ts)[r.len() as int] == t);
            }
        }
    }
}

/// A fd link target that is a network socket.
pub open spec fn is_socket_target(t: Seq<char>) -> bool {
    contains(t, "socket:"@) || contains(t, "TCP"@) || contains(t, "UDP"@)
}

/// How many of the targets are network sockets.
pub open spec fn socket_count(ts: Seq<Seq<char>>) -> nat
    decreases ts.len(),
{
    if ts.len() == 0 {
        0
    } else {
        socket_count(ts.drop_last()) + if is_socket_target(ts.last()) {
            1nat
        } else {
            0nat
        }
    }
}

/// The number of fd link targets that are sockets (`socket:[...]`, or that
/// name TCP or UDP).
pub fn get_network_sockets(targets: &Vec<String>) -> (n: usize)
    ensures
        n == socket_count(string_views(targets@)),
{
    let ghost tv = string_views(targets@);
    let mut n: usize = 0;
    let mut i: usize = 0;
    while i < targets.len()
        invariant
            i <= targets.len(),
            tv == string_views(targets@),
            n == socket_count(tv.take(i as int)),
            n <= i,
        decreases targets.len() - i,
    {
        proof {
            assert(tv.take(i + 1).drop_last() == tv.take(i as int));
            assert(tv.take(i + 1).last() == targets[i as int]@);
        }
        let t = chars_of(targets[i].as_str());
        if contains_str(&t, "socket:") || contains_str(&t, "TCP") || contains_str(&t, "UDP") {
            n = n + 1;
        }
        i = i + 1;
    }
    proof {
        assert(tv.take(targets.len() as int) == tv);
    }
    n
}

/// A process as the process table lists it.
pub struct ProcessInfo {
    pub pid: u32,
    pub parent: Option<u32>,
    pub name: String,
}

/// The processes whose parent is `pid`, as (pid, name), in table order.
pub open spec fn children_of(procs: Seq<ProcessInfo>, pid: u32) -> Seq<(u32, Seq<char>)>
    decreases procs.len(),
{
    if procs.len() == 0 {
        Seq::empty()
    } else {
        let r = children_of(procs.drop_last(), pid);
        let p = procs.last();
        if p.parent == Some(pid) {
            r.push((p.pid, p.name@))
        } else {
            r
        }
    }
}

/// The children of `pid` among the processes of the table.
pub fn get_child_processes(pid: u32, procs: &Vec<ProcessInfo>) -> (r: Vec<(u32, String)>)
    ensures
        Seq::new(r@.len(), |i: int| (r@[i].0, r@[i].1@)) == children_of(procs@, pid),
{
    let mut r: Vec<(u32, String)> = Vec::new();
    let mut i: usize = 0;
    while i < procs.len()
        invariant
            i <= procs.len(),
            Seq::new(r@.len(), |k: int| (r@[k].0, r@[k].1@)) == children_of(
                procs@.take(i as int),
                pid,
            ),
        decreases procs.len() - i,
    {
        proof {
            assert(procs@.take(i + 1).drop_last() == procs@.take(i as int));
            assert(procs@.take(i + 1).last() == procs@[i as int]);
        }
        let p = &procs[i];
        let is_child = match p.parent {
            Some(pp) => pp == pid,
            None => false,
        };
        if is_child {
            let ghost old_r = r@;
            let name = string_of(&chars_of(p.name.as_str()));
            r.push((p.pid, name));
            proof {
                assert(Seq::new(r@.len(), |k: int| (r@[k].0, r@[k].1@)) =~= Seq::new(
                    old_r.len(),
                    |k: int| (old_r[k].0, old_r[k].1@),
                ).push((p.pid, p.name@)));
            }
        }
        i = i + 1;
    }
    proof {
        assert(procs@.take(procs.len() as int) == procs@);
    }
    r
}

/// The thread name from `/proc/PID/task/TID/comm`, trimmed, or `unknown`
/// when it could not be read.
pub fn thread_comm(content: Option<&str>) -> (s: String)
    ensures
        s@ == (match content {
            Some(c) => trim(c@),
            None => "unknown"@,
        }),
{
    match content {
        Some(c) => string_of(&trimmed(&chars_of(c))),
        None => "unknown".to_owned(),
    }
}

/// A thread id from a `/proc/PID/task` entry name (`str::parse::<u32>`).
pub fn parse_tid(name: &str) -> (r: Option<u32>)
    ensures
        r == parse_u32(name@),
{
    parse_u32_exec(&chars_of(name))
}

/// Number of half-second samples in a window of `duration_secs` seconds:
/// two per second, at least one.
pub fn sample_steps(duration_secs: u64) -> (n: u64)
    requires
        duration_secs <= u64::MAX / 2,
    ensures
        n == (if duration_secs == 0 {
            1
        } else {
            2 * duration_secs
        }),
{
    let n = duration_secs * 2;
    if n >= 1 {
        n
    } else {
        1
    }
}

/// The growth of an I/O counter between two readings (zero if it went down).
pub fn counter_growth(now: u64, before: u64) -> (d: u64)
    ensures
        d == (if now >= before {
            now - before
        } else {
            0
        }),
{
    now.saturating_sub(before)
}

} // verus!
