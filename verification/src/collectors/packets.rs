//! Network packet statistics from `/proc/net/dev`: parsing the table,
//! matching two samples, totals.
use vstd::prelude::*;

use crate::text::{
    chars_of, eq_str, find, occurs_at, find_exec, lines, lines_exec, parse_u64, parse_u64_exec, slice_of,
    starts_with, starts_with_str, string_of, trim, trim_bounds, trimmed, views, words, words_exec,
};

pub use crate::units::human_bytes;
use crate::order::{is_pair_order, pair_order, pair_views};

verus! {

/// Counters of one interface.
#[derive(Clone, Copy, PartialEq, Eq, Structural, Debug)]
pub struct IfaceStats {
    pub rx_bytes: u64,
    pub tx_bytes: u64,
    pub rx_packets: u64,
    pub tx_packets: u64,
    pub rx_errors: u64,
    pub tx_errors: u64,
    pub rx_drop: u64,
    pub tx_drop: u64,
}

/// An interface and its counters.
pub struct IfaceEntry {
    pub name: String,
    pub stats: IfaceStats,
}

/// The words that parse as `u64`, in order (`filter_map(str::parse)`).
pub open spec fn parsed_numbers(ws: Seq<Seq<char>>) -> Seq<u64>
    decreases ws.len(),
{
    if ws.len() == 0 {
        Seq::empty()
    } else {
        let p = parsed_numbers(ws.drop_last());
        match parse_u64(ws.last()) {
            Some(n) => p.push(n),
            None => p,
        }
    }
}

/// One row of `/proc/net/dev`: `iface: rx_bytes rx_packets rx_errs rx_drop
/// ... tx_bytes tx_packets tx_errs tx_drop ...`; rows without a colon or with
/// fewer than 16 numbers are not interface rows.
pub open spec fn net_dev_row(line: Seq<char>) -> Option<(Seq<char>, IfaceStats)> {
    let l = trim(line);
    match find(l, ":"@) {
        None => None,
        Some(c) => {
            let nums = parsed_numbers(words(l.skip(c + 1)));
            if nums.len() < 16 {
                None
            } else {
                Some(
                    (
                        trim(l.take(c)),
                        IfaceStats {
                            rx_bytes: nums[0],
                            rx_packets: nums[1],
                            rx_errors: nums[2],
                            rx_drop: nums[3],
                            tx_bytes: nums[8],
                            tx_packets: nums[9],
                            tx_errors: nums[10],
                            tx_drop: nums[11],
                        },
                    ),
                )
            }
        },
    }
}

/// The interface rows of the given lines, a later row of an interface
/// replacing an earlier one.
pub open spec fn rows_map(ls: Seq<Seq<char>>) -> Map<Seq<char>, IfaceStats>
    decreases ls.len(),
{
    if ls.len() == 0 {
        Map::empty()
    } else {
        let m = rows_map(ls.drop_last());
        match net_dev_row(ls.last()) {
            Some((n, st)) => m.insert(n, st),
            None => m,
        }
    }
}

/// The lines after the two header lines.
pub open spec fn body_lines(ls: Seq<Seq<char>>) -> Seq<Seq<char>> {
    if ls.len() >= 2 {
        ls.skip(2)
    } else {
        Seq::empty()
    }
}

/// The table of `/proc/net/dev` as a map from interface name to counters.
pub open spec fn net_dev_map(content: Seq<char>) -> Map<Seq<char>, IfaceStats> {
    rows_map(body_lines(lines(content)))
}

/// The entries list each interface once, each with its counters in `m`,
/// and every interface of `m`.
pub open spec fn entries_match(names: Seq<Seq<char>>, stats: Seq<IfaceStats>, m: Map<Seq<char>, IfaceStats>) -> bool {
    &&& names.len() == stats.len()
    &&& forall|i: int, j: int| 0 <= i < j < names.len() ==> names[i] != names[j]
    &&& forall|i: int| 0 <= i < names.len() ==> m.contains_key(#[trigger] names[i]) && m[names[i]] == stats[i]
    &&& forall|k: Seq<char>| #[trigger] m.contains_key(k) ==> exists|i: int| 0 <= i < names.len() && names[i] == k
}

/// Names of a list of entries.
pub open spec fn entry_names(es: Seq<IfaceEntry>) -> Seq<Seq<char>> {
    Seq::new(es.len(), |i: int| es[i].name@)
}

/// Counters of a list of entries.
pub open spec fn entry_stats(es: Seq<IfaceEntry>) -> Seq<IfaceStats> {
    Seq::new(es.len(), |i: int| es[i].stats)
}

fn parsed_numbers_exec(ws: &Vec<Vec<char>>) -> (r: Vec<u64>)
    ensures
        r@ == parsed_numbers(views(ws@)),
{
    let mut r: Vec<u64> = Vec::new();
    let mut i: usize = 0;
    while i < ws.len()
        invariant
            i <= ws.len(),
            r@ == parsed_numbers(views(ws@).take(i as int)),
        decreases ws.len() - i,
    {
        proof {
            assert(views(ws@).take(i + 1).drop_last() == views(ws@).take(i as int));
            assert(views(ws@).take(i + 1).last() == ws[i as int]@);
        }
        match parse_u64_exec(&ws[i]) {
            Some(n) => r.push(n),
            None => {},
        }
        i = i + 1;
    }
    proof {
        assert(views(ws@).take(ws.len() as int) == views(ws@));
    }
    r
}

/// One row of `/proc/net/dev`.
pub fn parse_net_dev_row(line: &Vec<char>) -> (r: Option<(Vec<char>, IfaceStats)>)
    ensures
        r matches Some((n, st)) ==> net_dev_row(line@) == Some((n@, st)),
        r is None ==> net_dev_row(line@) is None,
{
    let l = trimmed(line);
    let c = match find_exec(&l, &chars_of(":")) {
        Some(c) => c,
        None => return None,
    };
    proof {
        reveal_strlit(":");
        assert(":"@.len() == 1);
        crate::text::lemma_find_is(l@, ":"@);
        assert(occurs_at(l@, ":"@, c as int));
    }
    assert(c + 1 <= l.len());
    let tail = slice_of(&l, c + 1, l.len());
    proof {
        assert(tail@ == l@.skip(c + 1));
    }
    let ws = words_exec(&tail);
    let nums = parsed_numbers_exec(&ws);
    if nums.len() < 16 {
        return None;
    }
    let (a, b) = trim_bounds(&l, 0, c);
    let name = slice_of(&l, a, b);
    proof {
        assert(l@.subrange(0, c as int) == l@.take(c as int));
    }
    let st = IfaceStats {
        rx_bytes: nums[0],
        rx_packets: nums[1],
        rx_errors: nums[2],
        rx_drop: nums[3],
        tx_bytes: nums[8],
        tx_packets: nums[9],
        tx_errors: nums[10],
        tx_drop: nums[11],
    };
    Some((name, st))
}

fn same_chars(a: &Vec<char>, b: &Vec<char>) -> (r: bool)
    ensures
        r == (a@ == b@),
{
    if a.len() != b.len() {
        return false;
    }
    let mut i: usize = 0;
    while i < a.len()
        invariant
            a.len() == b.len(),
            i <= a.len(),
            forall|t: int| 0 <= t < i ==> a@[t] == b@[t],
        decreases a.len() - i,
    {
        if a[i] != b[i] {
            return false;
        }
        i = i + 1;
    }
    proof {
        assert(a@ =~= b@);
    }
    true
}

fn index_of_name(names: &Vec<Vec<char>>, n: &Vec<char>) -> (r: Option<usize>)
    ensures
        r matches Some(k) ==> k < names.len() && views(names@)[k as int] == n@,
        r is None ==> forall|t: int| 0 <= t < names.len() ==> views(names@)[t] != n@,
{
    let mut k: usize = 0;
    while k < names.len()
        invariant
            k <= names.len(),
            forall|t: int| 0 <= t < k ==> views(names@)[t] != n@,
        decreases names.len() - k,
    {
        proof {
            assert(views(names@)[k as int] == names[k as int]@);
        }
        if same_chars(&names[k], n) {
            return Some(k);
        }
        k = k + 1;
    }
    None
}

/// Reads the interface table of `/proc/net/dev`: each interface once, with
/// the counters of its last row.
pub fn parse_proc_net_dev(content: &str) -> (r: Vec<IfaceEntry>)
    ensures
        entries_match(entry_names(r@), entry_stats(r@), net_dev_map(content@)),
{
    let ls = lines_exec(&chars_of(content));
    let ghost all = views(ls@);
    let ghost body = body_lines(all);
    let mut names: Vec<Vec<char>> = Vec::new();
    let mut stats: Vec<IfaceStats> = Vec::new();
    let mut i: usize = if ls.len() >= 2 {
        2
    } else {
        ls.len()
    };
    proof {
        assert(body == all.subrange(i as int, all.len() as int));
        assert(all.subrange(i as int, i as int).len() == 0);
        assert(rows_map(Seq::<Seq<char>>::empty()) == Map::<Seq<char>, IfaceStats>::empty());
    }
    let start = i;
    while i < ls.len()
        invariant
            start <= i <= ls.len(),
            all == views(ls@),
            body == all.subrange(start as int, all.len() as int),
            body == body_lines(all),
            all == lines(content@),
            entries_match(views(names@), stats@, rows_map(all.subrange(start as int, i as int))),
        decreases ls.len() - i,
    {
        let ghost prefix = all.subrange(start as int, i as int);
        let ghost next = all.subrange(start as int, i + 1);
        let ghost m = rows_map(prefix);
        proof {
            assert(next.drop_last() == prefix);
            assert(next.last() == ls[i as int]@);
        }
        match parse_net_dev_row(&ls[i]) {
            Some((n, st)) => {
                let ghost m2 = m.insert(n@, st);
                let pos = index_of_name(&names, &n);
                let found = pos.is_some();
                let k: usize = match pos {
                    Some(k) => k,
                    None => 0,
                };
                if found {
                    stats.set(k, st);
                    proof {
                        assert(views(names@)[k as int] == n@);
                        assert forall|kk: Seq<char>| #[trigger] m2.contains_key(kk) implies exists|
                            t: int,
                        | 0 <= t < views(names@).len() && views(names@)[t] == kk by {
                            if kk != n@ {
                                assert(m.contains_key(kk));
                            }
                        }
                    }
                } else {
                    let ghost old_names = views(names@);
                    proof {
                        crate::text::lemma_views_push(names@, n);
                    }
                    names.push(n);
                    stats.push(st);
                    proof {
                        assert(views(names@) == old_names.push(n@));
                        assert forall|kk: Seq<char>| #[trigger] m2.contains_key(kk) implies exists|
                            t: int,
                        | 0 <= t < views(names@).len() && views(names@)[t] == kk by {
                            if kk != n@ {
                                assert(m.contains_key(kk));
                                let t = choose|t: int|
                                    0 <= t < old_names.len() && old_names[t] == kk;
                                assert(views(names@)[t] == kk);
                            } else {
                                assert(views(names@)[old_names.len() as int] == kk);
                            }
                        }
                    }
                }
                proof {
                    assert(rows_map(next) == m2);
                }
            },
            None => {
                proof {
                    assert(rows_map(next) == m);
                }
            },
        }
        i = i + 1;
    }
    proof {
        assert(all.subrange(start as int, ls.len() as int) == body);
    }
    let mut r: Vec<IfaceEntry> = Vec::new();
    let mut j: usize = 0;
    while j < names.len()
        invariant
            j <= names.len(),
            names.len() == stats.len(),
            entry_names(r@) == views(names@).take(j as int),
            entry_stats(r@) == stats@.take(j as int),
        decreases names.len() - j,
    {
        let nm = string_of(&names[j]);
        let sv = stats[j];
        let e = IfaceEntry { name: nm, stats: sv };
        let ghost old_r = r@;
        r.push(e);
        proof {
            assert(entry_names(r@) =~= entry_names(old_r).push(names[j as int]@));
            assert(views(names@).take(j + 1) =~= views(names@).take(j as int).push(names[j as int]@));
            assert(entry_stats(r@) =~= entry_stats(old_r).push(stats[j as int]));
            assert(stats@.take(j + 1) =~= stats@.take(j as int).push(stats[j as int]));
        }
        j = j + 1;
    }
    proof {
        assert(views(names@).take(names.len() as int) == views(names@));
        assert(stats@.take(stats.len() as int) == stats@);
    }
    r
}

/// The counters of the named interface in a sample.
pub fn lookup_iface(entries: &Vec<IfaceEntry>, name: &str) -> (r: Option<IfaceStats>)
    ensures
        r matches Some(st) ==> exists|i: int|
            0 <= i < entries.len() && entries[i].name@ == name@ && entries[i].stats == st && forall|j: int|
                0 <= j < i ==> entries[j].name@ != name@,
        r is None ==> forall|i: int| 0 <= i < entries.len() ==> entries[i].name@ != name@,
{
    let mut i: usize = 0;
    while i < entries.len()
        invariant
            i <= entries.len(),
            forall|j: int| 0 <= j < i ==> entries[j].name@ != name@,
        decreases entries.len() - i,
    {
        let n = chars_of(entries[i].name.as_str());
        if eq_str(&n, name) {
            return Some(entries[i].stats);
        }
        i = i + 1;
    }
    None
}

/// Bytes received and sent between two samples of an interface (counters
/// that went down count as zero); zero when the interface was not in the
/// first sample.
pub fn byte_deltas(after: IfaceStats, before: Option<IfaceStats>) -> (r: (u64, u64))
    ensures
        before is None ==> r == (0u64, 0u64),
        before matches Some(b) ==> r.0 == (if after.rx_bytes >= b.rx_bytes {
            after.rx_bytes - b.rx_bytes
        } else {
            0
        }) && r.1 == (if after.tx_bytes >= b.tx_bytes {
            after.tx_bytes - b.tx_bytes
        } else {
            0
        }),
{
    match before {
        Some(b) => (after.rx_bytes.saturating_sub(b.rx_bytes), after.tx_bytes.saturating_sub(b.tx_bytes)),
        None => (0, 0),
    }
}

/// Interface names starting with `lo` are loopback, those starting with
/// `wl` wireless, all others wired.
pub proof fn law_iface_styles(name: Seq<char>)
    ensures
        starts_with(name, "lo"@) ==> iface_style_of(name) == IfaceStyle::Loopback,
        starts_with(name, "wl"@) ==> iface_style_of(name) == IfaceStyle::Wireless,
        !starts_with(name, "lo"@) && !starts_with(name, "wl"@) ==> iface_style_of(name)
            == IfaceStyle::Wired,
{
    reveal_strlit("lo");
    reveal_strlit("wl");
    if name.len() >= 2 {
        assert(name.take(2)[0] == name[0]);
    }
}

/// How an interface name is shown.
#[derive(Clone, Copy, PartialEq, Eq, Structural, Debug)]
pub enum IfaceStyle {
    Loopback,
    Wireless,
    Wired,
}

/// Loopback (`lo…`), wireless (`wl…`) or other interfaces.
pub open spec fn iface_style_of(name: Seq<char>) -> IfaceStyle {
    if starts_with(name, "lo"@) {
        IfaceStyle::Loopback
    } else if starts_with(name, "wl"@) {
        IfaceStyle::Wireless
    } else {
        IfaceStyle::Wired
    }
}

/// The style of an interface name.
pub fn iface_style(name: &str) -> (s: IfaceStyle)
    ensures
        s == iface_style_of(name@),
{
    let v = chars_of(name);
    if starts_with_str(&v, "lo") {
        IfaceStyle::Loopback
    } else if starts_with_str(&v, "wl") {
        IfaceStyle::Wireless
    } else {
        IfaceStyle::Wired
    }
}

/// The sampling window in seconds: the given one, 1 by default, never 0.
pub fn sample_window(interval_secs: Option<u64>) -> (s: u64)
    ensures
        s == (match interval_secs {
            Some(n) => if n >= 1 {
                n
            } else {
                1
            },
            None => 1,
        }),
{
    let n = match interval_secs {
        Some(n) => n,
        None => 1,
    };
    if n >= 1 {
        n
    } else {
        1
    }
}

/// The counters that `packet_totals` adds up.
pub enum Counter {
    RxBytes,
    TxBytes,
    RxPackets,
    TxPackets,
}

/// The value of one counter.
pub open spec fn counter(s: IfaceStats, c: Counter) -> u64 {
    match c {
        Counter::RxBytes => s.rx_bytes,
        Counter::TxBytes => s.tx_bytes,
        Counter::RxPackets => s.rx_packets,
        Counter::TxPackets => s.tx_packets,
    }
}

/// Sum of one counter over all entries.
pub open spec fn total_of(es: Seq<IfaceEntry>, c: Counter) -> nat
    decreases es.len(),
{
    if es.len() == 0 {
        0
    } else {
        total_of(es.drop_last(), c) + counter(es.last().stats, c) as nat
    }
}

proof fn lemma_total_prefix(es: Seq<IfaceEntry>, c: Counter, k: int)
    requires
        0 <= k <= es.len(),
    ensures
        total_of(es.take(k), c) <= total_of(es, c),
    decreases es.len(),
{
    if k < es.len() {
        lemma_total_prefix(es.drop_last(), c, k);
        assert(es.drop_last().take(k) == es.take(k));
    } else {
        assert(es.take(k) == es);
    }
}

/// Totals over all interfaces: received and sent bytes, received and sent
/// packets. Each total must fit in a `u64`.
pub fn packet_totals(es: &Vec<IfaceEntry>) -> (r: (u64, u64, u64, u64))
    requires
        total_of(es@, Counter::RxBytes) <= u64::MAX,
        total_of(es@, Counter::TxBytes) <= u64::MAX,
        total_of(es@, Counter::RxPackets) <= u64::MAX,
        total_of(es@, Counter::TxPackets) <= u64::MAX,
    ensures
        r.0 == total_of(es@, Counter::RxBytes),
        r.1 == total_of(es@, Counter::TxBytes),
        r.2 == total_of(es@, Counter::RxPackets),
        r.3 == total_of(es@, Counter::TxPackets),
{
    let mut a: u64 = 0;
    let mut b: u64 = 0;
    let mut c: u64 = 0;
    let mut d: u64 = 0;
    let mut i: usize = 0;
    while i < es.len()
        invariant
            i <= es.len(),
            total_of(es@, Counter::RxBytes) <= u64::MAX,
            total_of(es@, Counter::TxBytes) <= u64::MAX,
            total_of(es@, Counter::RxPackets) <= u64::MAX,
            total_of(es@, Counter::TxPackets) <= u64::MAX,
            a == total_of(es@.take(i as int), Counter::RxBytes),
            b == total_of(es@.take(i as int), Counter::TxBytes),
            c == total_of(es@.take(i as int), Counter::RxPackets),
            d == total_of(es@.take(i as int), Counter::TxPackets),
        decreases es.len() - i,
    {
        proof {
            assert(es@.take(i + 1).drop_last() == es@.take(i as int));
            assert(es@.take(i + 1).last() == es@[i as int]);
            lemma_total_prefix(es@, Counter::RxBytes, i + 1);
            lemma_total_prefix(es@, Counter::TxBytes, i + 1);
            lemma_total_prefix(es@, Counter::RxPackets, i + 1);
            lemma_total_prefix(es@, Counter::TxPackets, i + 1);
        }
        let st = es[i].stats;
        a = a + st.rx_bytes;
        b = b + st.tx_bytes;
        c = c + st.rx_packets;
        d = d + st.tx_packets;
        i = i + 1;
    }
    proof {
        assert(es@.take(es.len() as int) == es@);
    }
    (a, b, c, d)
}

/// The sum of one counter over all entries, or `None` when it does not fit
/// in a `u64`.
fn checked_total(es: &Vec<IfaceEntry>, c: Counter) -> (r: Option<u64>)
    ensures
        r matches Some(t) ==> t == total_of(es@, c),
        r is None ==> total_of(es@, c) > u64::MAX,
{
    let mut t: u64 = 0;
    let mut i: usize = 0;
    while i < es.len()
        invariant
            i <= es.len(),
            t == total_of(es@.take(i as int), c),
        decreases es.len() - i,
    {
        proof {
            assert(es@.take(i + 1).drop_last() == es@.take(i as int));
            assert(es@.take(i + 1).last() == es@[i as int]);
        }
        let st = es[i].stats;
        let v = match c {
            Counter::RxBytes => st.rx_bytes,
            Counter::TxBytes => st.tx_bytes,
            Counter::RxPackets => st.rx_packets,
            Counter::TxPackets => st.tx_packets,
        };
        match t.checked_add(v) {
            Some(n) => t = n,
            None => {
                proof {
                    lemma_total_prefix(es@, c, i + 1);
                }
                return None;
            },
        }
        i = i + 1;
    }
    proof {
        assert(es@.take(es.len() as int) == es@);
    }
    Some(t)
}

/// The totals of `packet_totals`, or `None` when one of them does not fit in
/// a `u64`.
pub fn packet_totals_checked(es: &Vec<IfaceEntry>) -> (r: Option<(u64, u64, u64, u64)>)
    ensures
        r matches Some(t) ==> t.0 == total_of(es@, Counter::RxBytes) && t.1 == total_of(
            es@,
            Counter::TxBytes,
        ) && t.2 == total_of(es@, Counter::RxPackets) && t.3 == total_of(es@, Counter::TxPackets),
        r is None <==> (total_of(es@, Counter::RxBytes) > u64::MAX || total_of(es@, Counter::TxBytes)
            > u64::MAX || total_of(es@, Counter::RxPackets) > u64::MAX || total_of(
            es@,
            Counter::TxPackets,
        ) > u64::MAX),
{
    let a = checked_total(es, Counter::RxBytes);
    let b = checked_total(es, Counter::TxBytes);
    let c = checked_total(es, Counter::RxPackets);
    let d = checked_total(es, Counter::TxPackets);
    match (a, b, c, d) {
        (Some(a), Some(b), Some(c), Some(d)) => Some((a, b, c, d)),
        _ => None,
    }
}

/// The sort keys of the interface table: the name as text (the names are
/// distinct, so nothing else decides).
pub open spec fn iface_keys(es: Seq<IfaceEntry>) -> Seq<(Seq<char>, Seq<char>)> {
    Seq::new(es.len(), |i: int| (es[i].name@, Seq::<char>::empty()))
}

/// The order in which the interfaces are listed: by name (positions in
/// `es`).
pub fn iface_display_order(es: &Vec<IfaceEntry>) -> (r: Vec<usize>)
    ensures
        is_pair_order(iface_keys(es@), r@),
{
    let mut ks: Vec<(Vec<char>, Vec<char>)> = Vec::new();
    let mut i: usize = 0;
    while i < es.len()
        invariant
            i <= es.len(),
            ks.len() == i,
            forall|j: int| 0 <= j < i ==> (#[trigger] ks[j]).0@ == es[j].name@ && ks[j].1@ == Seq::<char>::empty(),
        decreases es.len() - i,
    {
        ks.push((chars_of(es[i].name.as_str()), Vec::new()));
        i = i + 1;
    }
    proof {
        assert(pair_views(ks@) =~= iface_keys(es@));
    }
    pair_order(&ks)
}

} // verus!
