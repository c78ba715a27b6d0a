//! Process scanner logic: reading the resident-set size out of a
//! `statm`-formatted line, converting pages to mebibytes, filtering small
//! processes out, and selecting the largest consumers.
use crate::text::{
    parse_digits_range, parse_u64_digits, scan_from, scan_from_exec, trim_exec, trimmed,
};
use vstd::arithmetic::div_mod::{lemma_div_denominator, lemma_div_multiples_vanish};
use vstd::prelude::*;

verus! {

broadcast use vstd::seq_lib::group_to_multiset_ensures;

/// One process row of the snapshot: best-effort name and resident memory.
#[derive(Debug)]
pub struct ProcessInfo {
    pub name: String,
    pub ram_mb: u64,
}

/// The second whitespace-separated token of `s`; empty when `s` has fewer
/// than two tokens.
pub open spec fn second_token(s: Seq<char>) -> Seq<char> {
    let a0 = scan_from(s, 0, false);
    let e0 = scan_from(s, a0, true);
    let a1 = scan_from(s, e0, false);
    let e1 = scan_from(s, a1, true);
    s.subrange(a1, e1)
}

/// The resident-set size in pages that a `statm` line reports: its second
/// field, parsed as a base-ten `u64`.
pub open spec fn statm_resident_pages(s: Seq<char>) -> Option<u64> {
    parse_u64_digits(second_token(s))
}

/// Reads the resident field out of a `statm` line.
pub fn parse_statm_resident(s: &str) -> (r: Option<u64>)
    ensures
        r == statm_resident_pages(s@),
{
    let a0 = scan_from_exec(s, 0, false);
    let e0 = scan_from_exec(s, a0, true);
    let a1 = scan_from_exec(s, e0, false);
    let e1 = scan_from_exec(s, a1, true);
    parse_digits_range(s, a1, e1)
}

/// Resident pages converted to whole mebibytes with a 4096-byte page:
/// `pages * 4096 / 1024 / 1024`.
pub open spec fn mb_of_pages(pages: u64) -> u64 {
    (pages as int * 4096 / 1024 / 1024) as u64
}

proof fn lemma_mb_of_pages(pages: u64)
    ensures
        mb_of_pages(pages) == pages / 256,
{
    let p = pages as int;
    assert(p * 4096 == (p * 4) * 1024);
    lemma_div_multiples_vanish(p * 4, 1024);
    assert(p * 4096 / 1024 == p * 4);
    lemma_div_multiples_vanish(p, 4);
    assert(p * 4 / 4 == p);
    lemma_div_denominator(p * 4, 4, 256);
    assert(p * 4 / 1024 == p / 256);
}

/// Converts resident pages to mebibytes.
pub fn pages_to_mb(pages: u64) -> (r: u64)
    ensures
        r == mb_of_pages(pages),
        r == pages / 256,
{
    proof {
        lemma_mb_of_pages(pages);
    }
    pages / 256
}

/// The resident memory a `statm` line reports, in mebibytes, when it is
/// above the 10 MB floor under which a process is not worth listing.
pub open spec fn statm_candidate(s: Seq<char>) -> Option<u64> {
    match statm_resident_pages(s) {
        Some(pages) => if mb_of_pages(pages) > 10 {
            Some(mb_of_pages(pages))
        } else {
            None
        },
        None => None,
    }
}

/// Decides whether a `statm` line describes a process above the memory
/// floor, and with how many mebibytes.
pub fn statm_candidate_mb(s: &str) -> (r: Option<u64>)
    ensures
        r == statm_candidate(s@),
{
    match parse_statm_resident(s) {
        Some(pages) => {
            let mb = pages_to_mb(pages);
            if mb > 10 {
                Some(mb)
            } else {
                None
            }
        },
        None => None,
    }
}

/// The display name for a process: the trimmed contents of its `comm`
/// entry, or a placeholder when the name could not be read.
pub fn process_name(comm: Option<&str>) -> (r: String)
    ensures
        match comm {
            Some(s) => r@ == trimmed(s@),
            None => r@ == "unknown"@,
        },
{
    match comm {
        Some(s) => trim_exec(s),
        None => "unknown".to_owned(),
    }
}

/// Non-increasing by resident memory.
pub open spec fn sorted_desc(s: Seq<ProcessInfo>) -> bool {
    forall|i: int, j: int| 0 <= i <= j < s.len() ==> #[trigger] s[i].ram_mb >= #[trigger] s[j].ram_mb
}

fn max_index(v: &Vec<ProcessInfo>) -> (r: usize)
    requires
        v@.len() > 0,
    ensures
        r < v@.len(),
        forall|j: int| 0 <= j < v@.len() ==> #[trigger] v@[j].ram_mb <= v@[r as int].ram_mb,
{
    let mut best: usize = 0;
    let mut i: usize = 1;
    while i < v.len()
        invariant
            0 < i <= v@.len() || (i == 1 && v@.len() == 1),
            best < i,
            i <= v@.len() || i == 1,
            best < v@.len(),
            forall|j: int| 0 <= j < i && j < v@.len() ==> #[trigger] v@[j].ram_mb <= v@[best as int].ram_mb,
        decreases v.len() - i,
    {
        if v[i].ram_mb > v[best].ram_mb {
            best = i;
        }
        i = i + 1;
    }
    best
}

/// Keeps the (up to) three entries with the most resident memory, sorted
/// non-increasing. Every returned entry comes from the input; when entries
/// are left out, each of them is no larger than the smallest kept one; and
/// when every input entry is above the 10 MB floor, so is every kept one.
pub fn top_ram_processes(procs: Vec<ProcessInfo>) -> (r: Vec<ProcessInfo>)
    ensures
        sorted_desc(r@),
        r@.len() == if procs@.len() < 3 {
            procs@.len()
        } else {
            3
        },
        r@.to_multiset().subset_of(procs@.to_multiset()),
        forall|p: ProcessInfo|
            procs@.to_multiset().count(p) > r@.to_multiset().count(p) && r@.len() > 0
                ==> p.ram_mb <= r@[r@.len() - 1].ram_mb,
        (forall|i: int| 0 <= i < procs@.len() ==> #[trigger] procs@[i].ram_mb > 10) ==> (forall|
            i: int,
        |
            0 <= i < r@.len() ==> #[trigger] r@[i].ram_mb > 10),
{
    let ghost orig = procs@;
    let mut v = procs;
    let mut out: Vec<ProcessInfo> = Vec::new();
    while out.len() < 3 && v.len() > 0
        invariant
            out@.len() <= 3,
            out@.len() + v@.len() == orig.len(),
            sorted_desc(out@),
            out@.to_multiset().add(v@.to_multiset()) == orig.to_multiset(),
            forall|j: int|
                0 <= j < v@.len() && out@.len() > 0 ==> #[trigger] v@[j].ram_mb <= out@[out@.len()
                    - 1].ram_mb,
        decreases v.len(),
    {
        let ghost v_old = v@;
        let ghost out_old = out@;
        let m = max_index(&v);
        let x = v.remove(m);
        out.push(x);
        proof {
            assert(v_old.contains(x));
            assert(v_old.to_multiset().count(x) > 0);
            assert(v@ == v_old.remove(m as int));
            v_old.remove_ensures(m as int);
            assert(v_old.remove(m as int).to_multiset() == v_old.to_multiset().remove(
                v_old[m as int],
            ));
            assert(v@.to_multiset() == v_old.to_multiset().remove(x));
            assert(out@ == out_old.push(x));
            assert(out@.to_multiset() == out_old.to_multiset().insert(x));
            assert(out@.to_multiset().add(v@.to_multiset()) =~= orig.to_multiset());
            assert(forall|j: int|
                0 <= j < v@.len() ==> #[trigger] v@[j].ram_mb <= x.ram_mb);
            assert(forall|i: int| 0 <= i < out_old.len() ==> out@[i] == out_old[i]);
        }
    }
    proof {
        assert(forall|p: ProcessInfo|
            #[trigger] out@.to_multiset().count(p) + v@.to_multiset().count(p) == orig.to_multiset().count(
                p,
            )) by {
            assert(forall|p: ProcessInfo|
                #[trigger] out@.to_multiset().add(v@.to_multiset()).count(p) == out@.to_multiset().count(
                    p,
                ) + v@.to_multiset().count(p));
        }
        assert(out@.to_multiset().subset_of(orig.to_multiset()));
        assert forall|p: ProcessInfo|
            orig.to_multiset().count(p) > out@.to_multiset().count(p) && out@.len() > 0 implies p.ram_mb
            <= out@[out@.len() - 1].ram_mb by {
            assert(v@.to_multiset().count(p) > 0);
            assert(v@.contains(p));
        }
        if forall|i: int| 0 <= i < orig.len() ==> #[trigger] orig[i].ram_mb > 10 {
            assert forall|i: int| 0 <= i < out@.len() implies #[trigger] out@[i].ram_mb > 10 by {
                assert(out@.contains(out@[i]));
                assert(out@.to_multiset().count(out@[i]) > 0);
                assert(orig.to_multiset().count(out@[i]) > 0);
                assert(orig.contains(out@[i]));
                let j = choose|j: int| 0 <= j < orig.len() && orig[j] == out@[i];
                assert(orig[j].ram_mb > 10);
            }
        }
    }
    out
}

} // verus!
