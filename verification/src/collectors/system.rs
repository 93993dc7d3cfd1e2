//! System summary and hardware: the parts of `lspci` and `nvidia-smi`
//! output that name graphics processors.
use vstd::prelude::*;

use crate::text::{
    chars_of, contains, contains_str, fold_lower, fold_lower_exec, lines, lines_exec, split_once,
    split_once_exec, string_of, trim, trimmed, views,
};

pub use crate::units::format_uptime;

verus! {

/// The GPU named by one `lspci` line: a line whose lowercase form mentions
/// `vga` or `3d controller` and that has a colon gives the trimmed text after
/// its first colon.
pub open spec fn lspci_gpu(line: Seq<char>) -> Option<Seq<char>> {
    let low = fold_lower(line);
    if contains(low, "vga"@) || contains(low, "3d controller"@) {
        let p = split_once(line, ':');
        if p.len() == 2 {
            Some(trim(p[1]))
        } else {
            None
        }
    } else {
        None
    }
}

/// The GPUs named by the given `lspci` lines, in order.
pub open spec fn lspci_gpus(ls: Seq<Seq<char>>) -> Seq<Seq<char>>
    decreases ls.len(),
{
    if ls.len() == 0 {
        Seq::empty()
    } else {
        let r = lspci_gpus(ls.drop_last());
        match lspci_gpu(ls.last()) {
            Some(g) => r.push(g),
            None => r,
        }
    }
}

/// The text held by a list of strings.
pub open spec fn texts(v: Seq<String>) -> Seq<Seq<char>> {
    Seq::new(v.len(), |i: int| v[i]@)
}

proof fn lemma_texts_push(v: Seq<String>, s: String)
    ensures
        texts(v.push(s)) == texts(v).push(s@),
{
    assert(texts(v.push(s)) =~= texts(v).push(s@));
}

/// The graphics processors that `lspci` lists (VGA and 3D controllers).
pub fn parse_lspci_gpus(stdout: &str) -> (r: Vec<String>)
    ensures
        texts(r@) == lspci_gpus(lines(stdout@)),
{
    let ls = lines_exec(&chars_of(stdout));
    let ghost lv = views(ls@);
    let mut r: Vec<String> = Vec::new();
    let mut i: usize = 0;
    while i < ls.len()
        invariant
            i <= ls.len(),
            lv == views(ls@),
            texts(r@) == lspci_gpus(lv.take(i as int)),
        decreases ls.len() - i,
    {
        proof {
            assert(lv.take(i + 1).drop_last() == lv.take(i as int));
            assert(lv.take(i + 1).last() == ls[i as int]@);
        }
        let low = fold_lower_exec(&ls[i]);
        if contains_str(&low, "vga") || contains_str(&low, "3d controller") {
            let p = split_once_exec(&ls[i], ':');
            if p.len() == 2 {
                proof {
                    assert(views(p@)[1] == p[1]@);
                }
                let g = string_of(&trimmed(&p[1]));
                proof {
                    lemma_texts_push(r@, g);
                }
                r.push(g);
            }
        }
        i = i + 1;
    }
    proof {
        assert(lv.take(ls.len() as int) == lv);
    }
    r
}

/// The non-blank lines among `ls`, trimmed.
pub open spec fn nonblank_lines(ls: Seq<Seq<char>>) -> Seq<Seq<char>>
    decreases ls.len(),
{
    if ls.len() == 0 {
        Seq::empty()
    } else {
        let r = nonblank_lines(ls.drop_last());
        if trim(ls.last()).len() > 0 {
            r.push(trim(ls.last()))
        } else {
            r
        }
    }
}

/// The GPUs that `nvidia-smi --query-gpu=name,memory.total
/// --format=csv,noheader` lists: its non-blank lines, trimmed.
pub fn parse_nvidia_gpus(stdout: &str) -> (r: Vec<String>)
    ensures
        texts(r@) == nonblank_lines(lines(stdout@)),
{
    let ls = lines_exec(&chars_of(stdout));
    let ghost lv = views(ls@);
    let mut r: Vec<String> = Vec::new();
    let mut i: usize = 0;
    while i < ls.len()
        invariant
            i <= ls.len(),
            lv == views(ls@),
            texts(r@) == nonblank_lines(lv.take(i as int)),
        decreases ls.len() - i,
    {
        proof {
            assert(lv.take(i + 1).drop_last() == lv.take(i as int));
            assert(lv.take(i + 1).last() == ls[i as int]@);
        }
        let t = trimmed(&ls[i]);
        if t.len() > 0 {
            let g = string_of(&t);
            proof {
                lemma_texts_push(r@, g);
            }
            r.push(g);
        }
        i = i + 1;
    }
    proof {
        assert(lv.take(ls.len() as int) == lv);
    }
    r
}

/// Whole mebibytes in a byte count.
pub fn to_mib(bytes: u64) -> (m: u64)
    ensures
        m == bytes / 1024 / 1024,
{
    bytes / 1024 / 1024
}

/// Whole gibibytes in a byte count.
pub fn to_gib(bytes: u64) -> (g: u64)
    ensures
        g == bytes / 1024 / 1024 / 1024,
{
    bytes / 1024 / 1024 / 1024
}

} // verus!
