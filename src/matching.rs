//! All-pairs descriptor matching into a bounded match list.

use vstd::prelude::*;
use vstd::arithmetic::div_mod::lemma_fundamental_div_mod_converse;
use crate::append::{min_nat, AppendBuffer};
use crate::descriptor::{hamming, hamming_distance, Descriptor};

verus! {

/// Feature indices in a match record take 16 bits each.
pub const PAIR_INDEX_LIMIT: u32 = 65536;

/// The match record of latest feature `i` and previous feature `j`:
/// `i` in the low 16 bits, `j` in the high 16 bits.
pub open spec fn pair_record(i: int, j: int) -> int {
    i + PAIR_INDEX_LIMIT * j
}

pub open spec fn record_latest(r: u32) -> int {
    r as int % PAIR_INDEX_LIMIT as int
}

pub open spec fn record_previous(r: u32) -> int {
    r as int / PAIR_INDEX_LIMIT as int
}

/// The records that latest descriptor `d`, at index `i`, adds against the
/// first `n` previous descriptors, in index order.
pub open spec fn row_stream(d: Descriptor, i: int, p: Seq<Descriptor>, n: int, t: u32) -> Seq<u32>
    decreases n,
{
    if n <= 0 {
        Seq::empty()
    } else {
        let s = row_stream(d, i, p, n - 1, t);
        if hamming(d, p[n - 1]) <= t {
            s.push(pair_record(i, n - 1) as u32)
        } else {
            s
        }
    }
}

/// The records of all accepted pairs among the first `lc` latest and the
/// first `pc` previous descriptors, row by row.
pub open spec fn match_stream(l: Seq<Descriptor>, lc: int, p: Seq<Descriptor>, pc: int, t: u32) -> Seq<u32>
    decreases lc,
{
    if lc <= 0 {
        Seq::empty()
    } else {
        match_stream(l, lc - 1, p, pc, t) + row_stream(l[lc - 1], lc - 1, p, pc, t)
    }
}

/// A record is sound when it names a valid pair whose distance is within the threshold.
pub open spec fn sound_record(r: u32, l: Seq<Descriptor>, lc: int, p: Seq<Descriptor>, pc: int, t: u32) -> bool {
    &&& 0 <= record_latest(r) < lc
    &&& 0 <= record_previous(r) < pc
    &&& hamming(l[record_latest(r)], p[record_previous(r)]) <= t
}

proof fn lemma_unpack(i: int, j: int)
    requires
        0 <= i < PAIR_INDEX_LIMIT,
        0 <= j < PAIR_INDEX_LIMIT,
    ensures
        0 <= pair_record(i, j) <= u32::MAX,
        record_latest(pair_record(i, j) as u32) == i,
        record_previous(pair_record(i, j) as u32) == j,
{
    lemma_fundamental_div_mod_converse(pair_record(i, j), PAIR_INDEX_LIMIT as int, j, i);
}

proof fn lemma_row_stream(d: Descriptor, i: int, l: Seq<Descriptor>, lc: int, p: Seq<Descriptor>, n: int, pc: int, t: u32)
    requires
        0 <= i < lc <= l.len(),
        l[i] == d,
        0 <= n <= pc <= p.len(),
        lc < PAIR_INDEX_LIMIT,
        pc < PAIR_INDEX_LIMIT,
    ensures
        row_stream(d, i, p, n, t).len() <= n,
        forall|k: int| 0 <= k < row_stream(d, i, p, n, t).len() ==>
            sound_record(#[trigger] row_stream(d, i, p, n, t)[k], l, lc, p, pc, t),
    decreases n,
{
    if n > 0 {
        lemma_row_stream(d, i, l, lc, p, n - 1, pc, t);
        lemma_unpack(i, n - 1);
    }
}

proof fn lemma_match_stream(l: Seq<Descriptor>, m: int, lc: int, p: Seq<Descriptor>, pc: int, t: u32)
    requires
        0 <= m <= lc <= l.len(),
        0 <= pc <= p.len(),
        lc < PAIR_INDEX_LIMIT,
        pc < PAIR_INDEX_LIMIT,
    ensures
        match_stream(l, m, p, pc, t).len() <= m * pc,
        forall|k: int| 0 <= k < match_stream(l, m, p, pc, t).len() ==>
            sound_record(#[trigger] match_stream(l, m, p, pc, t)[k], l, lc, p, pc, t),
    decreases m,
{
    if m > 0 {
        lemma_match_stream(l, m - 1, lc, p, pc, t);
        lemma_row_stream(l[m - 1], m - 1, l, lc, p, pc, pc, t);
        let a = match_stream(l, m - 1, p, pc, t);
        let b = row_stream(l[m - 1], m - 1, p, pc, t);
        assert forall|k: int| 0 <= k < (a + b).len() implies sound_record(#[trigger] (a + b)[k], l, lc, p, pc, t) by {
            if k >= a.len() {
                assert((a + b)[k] == b[k - a.len()]);
            }
        }
        assert((m - 1) * pc + pc == m * pc) by (nonlinear_arith);
    }
}

/// Record `a` names a pair before that of record `b`, row by row.
pub open spec fn pair_before(a: u32, b: u32) -> bool {
    record_latest(a) < record_latest(b) || (record_latest(a) == record_latest(b) && record_previous(a)
        < record_previous(b))
}

pub open spec fn pairs_ordered(s: Seq<u32>) -> bool {
    forall|i: int, j: int| 0 <= i < j < s.len() ==> pair_before(#[trigger] s[i], #[trigger] s[j])
}

proof fn lemma_row_ordered(d: Descriptor, i: int, p: Seq<Descriptor>, n: int, t: u32)
    requires
        0 <= i < PAIR_INDEX_LIMIT,
        0 <= n <= PAIR_INDEX_LIMIT,
    ensures
        pairs_ordered(row_stream(d, i, p, n, t)),
        forall|k: int| 0 <= k < row_stream(d, i, p, n, t).len() ==> {
            let r = #[trigger] row_stream(d, i, p, n, t)[k];
            record_latest(r) == i && record_previous(r) < n
        },
    decreases n,
{
    if n > 0 {
        lemma_row_ordered(d, i, p, n - 1, t);
        lemma_unpack(i, n - 1);
    }
}

proof fn lemma_stream_ordered(l: Seq<Descriptor>, lc: int, p: Seq<Descriptor>, pc: int, t: u32)
    requires
        0 <= lc <= PAIR_INDEX_LIMIT,
        0 <= pc <= PAIR_INDEX_LIMIT,
    ensures
        pairs_ordered(match_stream(l, lc, p, pc, t)),
        forall|k: int| 0 <= k < match_stream(l, lc, p, pc, t).len() ==> record_latest(
            #[trigger] match_stream(l, lc, p, pc, t)[k],
        ) < lc,
    decreases lc,
{
    if lc > 0 {
        lemma_stream_ordered(l, lc - 1, p, pc, t);
        lemma_row_ordered(l[lc - 1], lc - 1, p, pc, t);
        let a = match_stream(l, lc - 1, p, pc, t);
        let b = row_stream(l[lc - 1], lc - 1, p, pc, t);
        assert forall|i: int, j: int| 0 <= i < j < (a + b).len() implies pair_before(
            #[trigger] (a + b)[i],
            #[trigger] (a + b)[j],
        ) by {
            if j < a.len() {
                assert((a + b)[i] == a[i] && (a + b)[j] == a[j]);
            } else if i < a.len() {
                assert((a + b)[i] == a[i] && (a + b)[j] == b[j - a.len()]);
            } else {
                assert((a + b)[i] == b[i - a.len()] && (a + b)[j] == b[j - a.len()]);
            }
        }
        assert forall|k: int| 0 <= k < (a + b).len() implies record_latest(#[trigger] (a + b)[k]) < lc by {
            if k < a.len() {
                assert((a + b)[k] == a[k]);
            } else {
                assert((a + b)[k] == b[k - a.len()]);
            }
        }
    }
}

/// Compares each of the first `latest_count` latest descriptors with each
/// of the first `previous_count` previous ones and appends the record of
/// every pair whose Hamming distance is at most `threshold` to a match list
/// of `capacity` slots, row by row.
pub fn match_descriptors(
    latest: &Vec<Descriptor>,
    latest_count: usize,
    previous: &Vec<Descriptor>,
    previous_count: usize,
    threshold: u32,
    capacity: usize,
) -> (r: AppendBuffer<u32>)
    requires
        latest_count <= latest@.len(),
        previous_count <= previous@.len(),
        latest_count < PAIR_INDEX_LIMIT,
        previous_count < PAIR_INDEX_LIMIT,
    ensures
        r.capacity() == capacity,
        r.holds_stream(match_stream(latest@, latest_count as int, previous@, previous_count as int, threshold)),
{
    let mut out = AppendBuffer::new(capacity, 0u32);
    let ghost l = latest@;
    let ghost p = previous@;
    let ghost pc = previous_count as int;
    let mut i: usize = 0;
    while i < latest_count
        invariant
            latest_count <= l.len(),
            previous_count <= p.len(),
            latest_count < PAIR_INDEX_LIMIT,
            previous_count < PAIR_INDEX_LIMIT,
            l == latest@,
            p == previous@,
            pc == previous_count,
            i <= latest_count,
            out.capacity() == capacity,
            out.holds_stream(match_stream(l, i as int, p, pc, threshold)),
        decreases latest_count - i,
    {
        let ghost before = match_stream(l, i as int, p, pc, threshold);
        proof {
            lemma_match_stream(l, i as int, latest_count as int, p, pc, threshold);
            assert(i * pc <= 4294836225) by (nonlinear_arith)
                requires
                    0 <= i <= 65535,
                    0 <= pc <= 65535,
            ;
        }
        let mut j: usize = 0;
        while j < previous_count
            invariant
                previous_count <= p.len(),
                i < latest_count <= l.len(),
                latest_count < PAIR_INDEX_LIMIT,
                previous_count < PAIR_INDEX_LIMIT,
                l == latest@,
                p == previous@,
                pc == previous_count,
                j <= previous_count,
                before.len() <= i * pc,
                i * pc <= 4294836225,
                out.capacity() == capacity,
                out.holds_stream(before + row_stream(l[i as int], i as int, p, j as int, threshold)),
            decreases previous_count - j,
        {
            let ghost row = row_stream(l[i as int], i as int, p, j as int, threshold);
            proof {
                lemma_row_stream(l[i as int], i as int, l, latest_count as int, p, j as int, pc, threshold);
            }
            let dist = hamming_distance(&latest[i], &previous[j]);
            if dist <= threshold {
                proof {
                    lemma_unpack(i as int, j as int);
                    assert(row.len() <= j);
                    assert((before + row).len() < u32::MAX);
                }
                let rec: u32 = (i as u32) + 65536 * (j as u32);
                out.append_to_stream(rec, Ghost(before + row));
                proof {
                    assert((before + row).push(rec) =~= before + row.push(rec));
                }
            }
            j = j + 1;
        }
        proof {
            assert(match_stream(l, i + 1, p, pc, threshold) == before + row_stream(l[i as int], i as int, p, pc, threshold));
        }
        i = i + 1;
    }
    out
}

/// Every written match record names a latest and a previous feature within
/// the counts, and their descriptors differ in at most `threshold` bits: no
/// pair farther apart appears. No pair is written twice.
pub proof fn lemma_match_soundness(
    b: &AppendBuffer<u32>,
    latest: Seq<Descriptor>,
    latest_count: int,
    previous: Seq<Descriptor>,
    previous_count: int,
    threshold: u32,
)
    requires
        0 <= latest_count <= latest.len(),
        0 <= previous_count <= previous.len(),
        latest_count < PAIR_INDEX_LIMIT,
        previous_count < PAIR_INDEX_LIMIT,
        b.holds_stream(match_stream(latest, latest_count, previous, previous_count, threshold)),
    ensures
        forall|k: int| 0 <= k < b.written() ==>
            sound_record(#[trigger] b.records()[k], latest, latest_count, previous, previous_count, threshold),
        forall|i: int, j: int| 0 <= i < b.written() && 0 <= j < b.written() && i != j ==> #[trigger] b.records()[i]
            != #[trigger] b.records()[j],
{
    let s = match_stream(latest, latest_count, previous, previous_count, threshold);
    lemma_match_stream(latest, latest_count, latest_count, previous, previous_count, threshold);
    assert forall|k: int| 0 <= k < b.written() implies
        sound_record(#[trigger] b.records()[k], latest, latest_count, previous, previous_count, threshold) by {
        assert(b.records()[k] == b.slots()[k]);
        assert(k < min_nat(s.len(), b.capacity()));
        assert(b.slots()[k] == s[k]);
    }
    lemma_stream_ordered(latest, latest_count, previous, previous_count, threshold);
    assert forall|i: int, j: int| 0 <= i < b.written() && 0 <= j < b.written() && i != j implies #[trigger] b.records()[i]
        != #[trigger] b.records()[j] by {
        assert(b.records()[i] == b.slots()[i] && b.slots()[i] == s[i]);
        assert(b.records()[j] == b.slots()[j] && b.slots()[j] == s[j]);
        if i < j {
            assert(pair_before(s[i], s[j]));
        } else {
            assert(pair_before(s[j], s[i]));
        }
    }
}

proof fn lemma_row_complete(d: Descriptor, i: int, p: Seq<Descriptor>, n: int, j: int, t: u32)
    requires
        0 <= j < n <= p.len(),
        hamming(d, p[j]) <= t,
    ensures
        row_stream(d, i, p, n, t).contains(pair_record(i, j) as u32),
    decreases n,
{
    let s = row_stream(d, i, p, n - 1, t);
    if j < n - 1 {
        lemma_row_complete(d, i, p, n - 1, j, t);
        let k = choose|k: int| 0 <= k < s.len() && s[k] == pair_record(i, j) as u32;
        if hamming(d, p[n - 1]) <= t {
            assert(s.push(pair_record(i, n - 1) as u32)[k] == pair_record(i, j) as u32);
        }
    } else {
        assert(s.push(pair_record(i, j) as u32)[s.len() as int] == pair_record(i, j) as u32);
    }
}

proof fn lemma_stream_complete(l: Seq<Descriptor>, lc: int, p: Seq<Descriptor>, pc: int, i: int, j: int, t: u32)
    requires
        0 <= i < lc <= l.len(),
        0 <= j < pc <= p.len(),
        hamming(l[i], p[j]) <= t,
    ensures
        match_stream(l, lc, p, pc, t).contains(pair_record(i, j) as u32),
    decreases lc,
{
    let a = match_stream(l, lc - 1, p, pc, t);
    let b = row_stream(l[lc - 1], lc - 1, p, pc, t);
    if i < lc - 1 {
        lemma_stream_complete(l, lc - 1, p, pc, i, j, t);
        let k = choose|k: int| 0 <= k < a.len() && a[k] == pair_record(i, j) as u32;
        assert((a + b)[k] == a[k]);
    } else {
        lemma_row_complete(l[i], i, p, pc, j, t);
        let k = choose|k: int| 0 <= k < b.len() && b[k] == pair_record(i, j) as u32;
        assert((a + b)[a.len() + k] == b[k]);
    }
}

/// When the match list does not overflow, every pair of a latest and a
/// previous feature within the counts whose descriptors differ in at most
/// `threshold` bits is among the written records.
pub proof fn lemma_match_completeness(
    b: &AppendBuffer<u32>,
    latest: Seq<Descriptor>,
    latest_count: int,
    previous: Seq<Descriptor>,
    previous_count: int,
    threshold: u32,
    i: int,
    j: int,
)
    requires
        0 <= i < latest_count <= latest.len(),
        0 <= j < previous_count <= previous.len(),
        latest_count < PAIR_INDEX_LIMIT,
        previous_count < PAIR_INDEX_LIMIT,
        hamming(latest[i], previous[j]) <= threshold,
        b.holds_stream(match_stream(latest, latest_count, previous, previous_count, threshold)),
        match_stream(latest, latest_count, previous, previous_count, threshold).len() <= b.capacity(),
    ensures
        b.records().contains(pair_record(i, j) as u32),
{
    let s = match_stream(latest, latest_count, previous, previous_count, threshold);
    lemma_stream_complete(latest, latest_count, previous, previous_count, i, j, threshold);
    lemma_match_stream(latest, latest_count, latest_count, previous, previous_count, threshold);
    assert(latest_count * previous_count <= 4294836225) by (nonlinear_arith)
        requires
            0 <= latest_count <= 65535,
            0 <= previous_count <= 65535,
    ;
    crate::append::lemma_records_of_stream(b, s);
    assert(b.records() =~= s);
}

} // verus!
