//! Progress reporting. During synchronization the processed height maps
//! into `[0, 50)` with floor semantics; the two aggregation stages then
//! report exactly 75 and exactly 100. The caller-visible sequence of a
//! successful bootstrap is therefore non-decreasing and never exceeds 100.
use vstd::arithmetic::div_mod::{lemma_div_is_ordered, lemma_multiply_divide_lt};
use vstd::prelude::*;

verus! {

/// The progress value reported while height `h` of the window
/// `[start, end)` is being synchronized: the raw percentage of heights
/// processed, halved, both divisions flooring.
pub open spec fn sync_progress_of(start: u32, end: u32, h: u32) -> int {
    (100 * (h - start)) / (end - start) / 2
}

/// The progress value emitted when the nullifier-set root is computed.
pub const NF_ROOT_PROGRESS: u32 = 75;

/// The progress value emitted when the note-commitment root is computed.
pub const CMX_ROOT_PROGRESS: u32 = 100;

proof fn lemma_sync_progress_bounds(start: u32, end: u32, h: u32)
    requires
        start < end,
        start <= h < end,
    ensures
        0 <= sync_progress_of(start, end, h) < 50,
{
    let n = (h - start) as int;
    let d = (end - start) as int;
    assert(100 * n >= 0);
    vstd::arithmetic::div_mod::lemma_div_pos_is_pos(100 * n, d);
    vstd::arithmetic::div_mod::lemma_div_pos_is_pos((100 * n) / d, 2);
    assert(100 * n < 100 * d) by (nonlinear_arith)
        requires
            n < d,
    ;
    lemma_multiply_divide_lt(100 * n, d, 100);
    lemma_div_is_ordered((100 * n) / d, 99, 2);
}

/// The progress reported for height `h` while the window `[start, end)`
/// is synchronizing: always below 50, the second half of the range being
/// reserved for the aggregation stages.
pub fn sync_progress(start: u32, end: u32, h: u32) -> (r: u32)
    requires
        start < end,
        start <= h < end,
    ensures
        r == sync_progress_of(start, end, h),
        r < 50,
{
    proof {
        lemma_sync_progress_bounds(start, end, h);
    }
    let n = (h - start) as u64;
    let d = (end - start) as u64;
    let p = 100u64 * n / d / 2;
    p as u32
}

/// Monotonicity of the sync-phase mapping: later heights never report a
/// smaller value.
pub proof fn lemma_sync_progress_monotone(start: u32, end: u32, h1: u32, h2: u32)
    requires
        start < end,
        start <= h1 <= h2 < end,
    ensures
        sync_progress_of(start, end, h1) <= sync_progress_of(start, end, h2),
{
    let n1 = (h1 - start) as int;
    let n2 = (h2 - start) as int;
    let d = (end - start) as int;
    assert(100 * n1 <= 100 * n2) by (nonlinear_arith)
        requires
            n1 <= n2,
    ;
    lemma_div_is_ordered(100 * n1, 100 * n2, d);
    lemma_div_is_ordered((100 * n1) / d, (100 * n2) / d, 2);
}

/// A caller-visible progress sequence of a successful bootstrap: a
/// non-decreasing run of values below 50 while the ledger slice downloads,
/// then exactly 75, then exactly 100 — nothing else, in no other order.
pub open spec fn valid_progress_sequence(s: Seq<u32>) -> bool {
    &&& s.len() >= 2
    &&& s[s.len() - 2] == NF_ROOT_PROGRESS
    &&& s[s.len() - 1] == CMX_ROOT_PROGRESS
    &&& forall|i: int| 0 <= i < s.len() - 2 ==> s[i] < 50
    &&& forall|i: int, j: int| 0 <= i <= j < s.len() ==> s[i] <= s[j]
}

/// Every value of a valid sequence stays within 100.
pub proof fn lemma_progress_never_exceeds_100(s: Seq<u32>)
    requires
        valid_progress_sequence(s),
    ensures
        forall|i: int| 0 <= i < s.len() ==> s[i] <= 100,
{
    assert forall|i: int| 0 <= i < s.len() implies s[i] <= 100 by {
        assert(s[i] <= s[s.len() - 1]);
    }
}

/// The progress sequence of a successful bootstrap over any non-decreasing
/// run of synchronized heights within the window: the mapped sync values
/// followed by 75 and 100 form a valid caller-visible sequence.
pub proof fn lemma_bootstrap_progress_sequence(start: u32, end: u32, hs: Seq<u32>)
    requires
        start < end,
        forall|i: int| 0 <= i < hs.len() ==> start <= #[trigger] hs[i] < end,
        forall|i: int, j: int| 0 <= i <= j < hs.len() ==> hs[i] <= hs[j],
    ensures
        valid_progress_sequence(
            hs.map_values(|h: u32| sync_progress_of(start, end, h) as u32).push(
                NF_ROOT_PROGRESS,
            ).push(CMX_ROOT_PROGRESS),
        ),
{
    let mapped = hs.map_values(|h: u32| sync_progress_of(start, end, h) as u32);
    let s = mapped.push(NF_ROOT_PROGRESS).push(CMX_ROOT_PROGRESS);
    assert(s.len() == hs.len() + 2);
    assert forall|i: int| 0 <= i < hs.len() implies s[i] < 50 by {
        lemma_sync_progress_bounds(start, end, hs[i]);
        assert(s[i] == sync_progress_of(start, end, hs[i]) as u32);
    }
    assert forall|i: int, j: int| 0 <= i <= j < s.len() implies s[i] <= s[j] by {
        if j < hs.len() {
            lemma_sync_progress_monotone(start, end, hs[i], hs[j]);
            lemma_sync_progress_bounds(start, end, hs[i]);
            lemma_sync_progress_bounds(start, end, hs[j]);
        } else if i < hs.len() {
            lemma_sync_progress_bounds(start, end, hs[i]);
        }
    }
}

/// Exec check of [`valid_progress_sequence`], so that an observed sequence
/// can be audited at run time.
pub fn check_progress_sequence(v: &Vec<u32>) -> (r: bool)
    ensures
        r == valid_progress_sequence(v@),
{
    let n = v.len();
    if n < 2 {
        return false;
    }
    if v[n - 2] != 75 || v[n - 1] != 100 {
        return false;
    }
    let mut i: usize = 0;
    while i < n - 2
        invariant
            0 <= i <= n - 2,
            2 <= n == v@.len(),
            forall|j: int| 0 <= j < i ==> v@[j] < 50,
        decreases n - 2 - i,
    {
        if v[i] >= 50 {
            return false;
        }
        i = i + 1;
    }
    let mut k: usize = 1;
    while k < n
        invariant
            1 <= k <= n,
            n == v@.len(),
            forall|x: int, y: int| 0 <= x <= y < k ==> v@[x] <= v@[y],
        decreases n - k,
    {
        if v[k - 1] > v[k] {
            return false;
        }
        k = k + 1;
    }
    true
}

} // verus!
