//! Pruners: remove unused patterns or samples from a module while
//! renumbering every reference embedded in the note cells and the play
//! order, so that each surviving reference still addresses the same
//! logical content.
use vstd::prelude::*;

use core::mem;
use crate::module::{Channel, Module, ModuleData, Pattern, Row, SampleData, SampleInfo};
use crate::usage::{pattern_has_sample, pattern_used, positions_contain, row_has_sample, sample_used, sample_used_flags};

verus! {

/// Number of used pattern indices strictly below `i`: the index that a
/// used pattern `i` occupies once every unused pattern is removed.
pub open spec fn pattern_rank(m: ModuleData, i: int) -> nat
    decreases i,
{
    if i <= 0 {
        0
    } else {
        pattern_rank(m, i - 1) + if pattern_used(m, i - 1) {
            1nat
        } else {
            0nat
        }
    }
}

proof fn lemma_pattern_rank_bounds(m: ModuleData, a: int, b: int)
    requires
        0 <= a <= b,
    ensures
        pattern_rank(m, a) <= pattern_rank(m, b),
        pattern_rank(m, b) - pattern_rank(m, a) <= b - a,
    decreases b - a,
{
    if a < b {
        lemma_pattern_rank_bounds(m, a, b - 1);
    }
}

/// Every slot below `pattern_rank(m, n)` is the rank of some used index:
/// the compacted pattern table has no gaps.
proof fn lemma_pattern_rank_witness(m: ModuleData, k: int, n: int)
    requires
        0 <= n,
        0 <= k < pattern_rank(m, n),
    ensures
        exists|i: int| 0 <= i < n && pattern_used(m, i) && pattern_rank(m, i) == k,
    decreases n,
{
    if n > 0 {
        if pattern_used(m, n - 1) && pattern_rank(m, n - 1) == k {
            assert(0 <= n - 1 < n && pattern_used(m, n - 1) && pattern_rank(m, n - 1) == k);
        } else {
            lemma_pattern_rank_witness(m, k, n - 1);
        }
    }
}

/// Removes every pattern that the active play order never references, in
/// a single atomic operation, and renumbers the play order so that each
/// active entry addresses the same pattern content as before. Afterwards
/// no pattern is unused.
pub fn remove_unused_patterns(module: &mut Module)
    requires
        old(module).wf(),
    ensures
        final(module).wf(),
        final(module)@.name == old(module)@.name,
        final(module)@.length == old(module)@.length,
        final(module)@.samples == old(module)@.samples,
        final(module)@.patterns.len() == pattern_rank(
            old(module)@,
            old(module)@.patterns.len() as int,
        ),
        forall|i: int|
            0 <= i < old(module)@.patterns.len() && pattern_used(old(module)@, i)
                ==> final(module)@.patterns[pattern_rank(old(module)@, i) as int] == old(
                module,
            )@.patterns[i],
        forall|j: int|
            0 <= j < old(module)@.length ==> (#[trigger] final(module)@.positions[j]) as int
                == pattern_rank(old(module)@, old(module)@.positions[j] as int),
        forall|j: int|
            old(module)@.length <= j < 128 ==> final(module)@.positions[j] == old(
                module,
            )@.positions[j],
        // The whole point: nothing is unused any more ...
        forall|i: int|
            0 <= i < final(module)@.patterns.len() ==> pattern_used(final(module)@, i),
        // ... and every active play-order entry still plays the same content.
        forall|j: int|
            0 <= j < old(module)@.length ==> final(module)@.patterns[(
            #[trigger] final(module)@.positions[j]) as int] == old(module)@.patterns[old(
                module,
            )@.positions[j] as int],
{
    let ghost m0 = module@;
    let n = module.patterns.len();

    // Which pattern indices are used, checked against the play order
    // before anything moves.
    let mut used: Vec<bool> = Vec::new();
    let mut i: usize = 0;
    while i < n
        invariant
            m0 == module@,
            module.wf(),
            n == m0.patterns.len(),
            n <= 255,
            i <= n,
            used@.len() == i,
            forall|k: int| 0 <= k < i ==> (#[trigger] used@[k] <==> pattern_used(m0, k)),
        decreases n - i,
    {
        let f = positions_contain(&module.positions, module.length, i as u8);
        proof {
            assert(f <==> pattern_used(m0, i as int));
        }
        used.push(f);
        i += 1;
    }

    // The rank table: ranks[i] is the index pattern i will occupy.
    let mut ranks: Vec<u8> = Vec::new();
    let mut cnt: u8 = 0;
    let mut i: usize = 0;
    while i < n
        invariant
            m0 == module@,
            n == m0.patterns.len(),
            n <= 255,
            i <= n,
            used@.len() == n,
            forall|k: int| 0 <= k < n ==> (#[trigger] used@[k] <==> pattern_used(m0, k)),
            ranks@.len() == i,
            cnt as int == pattern_rank(m0, i as int),
            forall|k: int| 0 <= k < i ==> (#[trigger] ranks@[k]) as int == pattern_rank(m0, k),
        decreases n - i,
    {
        proof {
            lemma_pattern_rank_bounds(m0, 0, i as int);
        }
        ranks.push(cnt);
        if used[i] {
            cnt += 1;
        }
        i += 1;
    }

    // Renumber the active play order.
    let len = module.length as usize;
    let mut j: usize = 0;
    while j < len
        invariant
            m0.wf(),
            module@.length == m0.length,
            module@.patterns == m0.patterns,
            module@.name == m0.name,
            module@.samples == m0.samples,
            len == m0.length as int,
            module.positions@.len() == 128,
            n == m0.patterns.len(),
            ranks@.len() == n,
            forall|k: int| 0 <= k < n ==> (#[trigger] ranks@[k]) as int == pattern_rank(m0, k),
            forall|jj: int| 0 <= jj < len ==> (m0.positions[jj] as int) < n,
            j <= len,
            forall|jj: int|
                0 <= jj < j ==> (#[trigger] module.positions@[jj]) as int == pattern_rank(
                    m0,
                    m0.positions[jj] as int,
                ),
            forall|jj: int| j <= jj < 128 ==> module.positions@[jj] == m0.positions[jj],
        decreases len - j,
    {
        let p = module.positions[j];
        proof {
            assert(p == m0.positions[j as int]);
            assert((p as int) < n);
        }
        module.positions.set(j, ranks[p as usize]);
        j += 1;
    }

    // Compact the pattern table, keeping the used patterns in order.
    let mut source: Vec<Pattern> = Vec::new();
    mem::swap(&mut module.patterns, &mut source);
    let ghost orig = source@;
    let mut i: usize = 0;
    while i < n
        invariant
            m0.wf(),
            module@.length == m0.length,
            module@.name == m0.name,
            module@.samples == m0.samples,
            module.positions@.len() == 128,
            forall|jj: int|
                0 <= jj < m0.length ==> (#[trigger] module.positions@[jj]) as int == pattern_rank(
                    m0,
                    m0.positions[jj] as int,
                ),
            forall|jj: int| m0.length <= jj < 128 ==> module.positions@[jj] == m0.positions[jj],
            forall|jj: int| 0 <= jj < m0.length ==> (m0.positions[jj] as int) < n,
            n == m0.patterns.len(),
            n <= 255,
            used@.len() == n,
            forall|k: int| 0 <= k < n ==> (#[trigger] used@[k] <==> pattern_used(m0, k)),
            i <= n,
            orig.len() == n,
            forall|k: int| 0 <= k < n ==> (#[trigger] orig[k])@ == m0.patterns[k],
            source@ == orig.subrange(i as int, n as int),
            module.patterns@.len() == pattern_rank(m0, i as int),
            forall|k: int|
                0 <= k < i && pattern_used(m0, k) ==> #[trigger] module.patterns@[pattern_rank(
                    m0,
                    k,
                ) as int] == orig[k],
        decreases n - i,
    {
        let pat = source.remove(0);
        proof {
            assert(pat == orig[i as int]);
            assert(orig.subrange(i as int, n as int).remove(0) =~= orig.subrange(
                i + 1 as int,
                n as int,
            ));
            lemma_pattern_rank_bounds(m0, 0, i as int);
        }
        let ghost kept = module.patterns@;
        if used[i] {
            module.patterns.push(pat);
        }
        proof {
            assert forall|k: int|
                0 <= k < i + 1 && pattern_used(m0, k) implies #[trigger] module.patterns@[
            pattern_rank(m0, k) as int] == orig[k] by {
                if k < i {
                    lemma_pattern_rank_bounds(m0, k + 1, i as int);
                    assert(kept[pattern_rank(m0, k) as int] == orig[k]);
                } else {
                    assert(module.patterns@[kept.len() as int] == orig[i as int]);
                }
            }
        }
        i += 1;
    }

    proof {
        let m1 = module@;
        assert(m1.positions.len() == 128);
        assert(m1.patterns.len() == pattern_rank(m0, n as int));
        assert forall|i: int|
            0 <= i < m0.patterns.len() && pattern_used(m0, i) implies m1.patterns[pattern_rank(
            m0,
            i,
        ) as int] == m0.patterns[i] by {
            lemma_pattern_rank_bounds(m0, i + 1, n as int);
            assert(module.patterns@[pattern_rank(m0, i) as int] == orig[i]);
        }
        // Well-formedness: each renumbered entry addresses a pattern.
        assert forall|j: int| 0 <= j < m1.length implies (m1.positions[j] as int)
            < m1.patterns.len() by {
            let p = m0.positions[j] as int;
            lemma_pattern_rank_bounds(m0, p + 1, n as int);
            assert(pattern_used(m0, p));
        }
        // No pattern is unused afterwards: slot k is the rank of some used
        // index i, which some active entry pointed at and still points at.
        assert forall|k: int| 0 <= k < m1.patterns.len() implies pattern_used(m1, k) by {
            lemma_pattern_rank_witness(m0, k, n as int);
            let i = choose|i: int| 0 <= i < n && pattern_used(m0, i) && pattern_rank(m0, i) == k;
            let j = choose|j: int| 0 <= j < m0.length && m0.positions[j] as int == i;
            assert(m1.positions[j] as int == k);
        }
    }
}


/// Number of unused logical sample numbers strictly below `r` (only
/// numbers 1 to `samples.len()` can be unused): how far a reference `r`
/// shifts down when the unused slots are recycled.
pub open spec fn unused_count_below(m: ModuleData, r: int) -> nat
    decreases r,
{
    if r <= 1 {
        0
    } else {
        unused_count_below(m, r - 1) + if r - 1 <= m.samples.len() && !sample_used(m, r - 1) {
            1nat
        } else {
            0nat
        }
    }
}

proof fn lemma_unused_count_bounds(m: ModuleData, a: int, b: int)
    requires
        a <= b,
    ensures
        unused_count_below(m, a) <= unused_count_below(m, b),
        unused_count_below(m, b) - unused_count_below(m, a) <= b - a,
    decreases b - a,
{
    if a < b {
        lemma_unused_count_bounds(m, a, b - 1);
    }
}

proof fn lemma_unused_count_le(m: ModuleData, r: int)
    ensures
        unused_count_below(m, r) <= m.samples.len(),
        r >= 1 ==> unused_count_below(m, r) <= r - 1,
    decreases r,
{
    if r > 1 {
        lemma_unused_count_le(m, r - 1);
        if r - 1 > m.samples.len() {
            assert(unused_count_below(m, r) == unused_count_below(m, r - 1));
        }
    }
}

/// A recycled sample slot: descriptive fields kept, playable content gone.
pub open spec fn cleared_sample(s: SampleData) -> SampleData {
    SampleData { length: 0, repeat_start: 0, repeat_length: 0, data: Seq::empty(), ..s }
}

/// One row with every sample reference pushed through the renumber table.
fn renumber_row(row: Row, table: &Vec<u8>) -> (res: Row)
    requires
        table@.len() == 256,
    ensures
        res@.len() == row@.len(),
        forall|c: int| 0 <= c < row@.len() ==> (#[trigger] res@[c]).period == row@[c].period,
        forall|c: int| 0 <= c < row@.len() ==> (#[trigger] res@[c]).effect == row@[c].effect,
        forall|c: int|
            0 <= c < row@.len() ==> (#[trigger] res@[c]).sample_number == table@[row@[c].sample_number as int],
{
    let ghost rv = row@;
    let mut out: Vec<Channel> = Vec::new();
    let mut c: usize = 0;
    while c < row.channels.len()
        invariant
            rv == row@,
            table@.len() == 256,
            c <= row.channels.len(),
            out@.len() == c,
            forall|cc: int| 0 <= cc < c ==> (#[trigger] out@[cc]).period == rv[cc].period,
            forall|cc: int| 0 <= cc < c ==> (#[trigger] out@[cc]).effect == rv[cc].effect,
            forall|cc: int|
                0 <= cc < c ==> (#[trigger] out@[cc]).sample_number == table@[rv[cc].sample_number as int],
        decreases row.channels.len() - c,
    {
        let ch = row.channels[c];
        out.push(
            Channel {
                period: ch.period,
                sample_number: table[ch.sample_number as usize],
                effect: ch.effect,
            },
        );
        c += 1;
    }
    Row { channels: out }
}

/// One pattern with every sample reference pushed through the table.
fn renumber_pattern(pattern: Pattern, table: &Vec<u8>) -> (res: Pattern)
    requires
        table@.len() == 256,
    ensures
        res@.len() == pattern@.len(),
        forall|r: int| 0 <= r < pattern@.len() ==> (#[trigger] res@[r]).len() == pattern@[r].len(),
        forall|r: int, c: int|
            0 <= r < pattern@.len() && 0 <= c < pattern@[r].len() ==> {
                &&& (#[trigger] res@[r][c]).period == pattern@[r][c].period
                &&& res@[r][c].effect == pattern@[r][c].effect
                &&& res@[r][c].sample_number == table@[pattern@[r][c].sample_number as int]
            },
{
    let ghost pv = pattern@;
    let n = pattern.rows.len();
    let mut source = pattern;
    let mut out: Vec<Row> = Vec::new();
    let mut r: usize = 0;
    while r < n
        invariant
            table@.len() == 256,
            r <= n,
            pv.len() == n,
            source.rows@.len() == n - r,
            forall|k: int| 0 <= k < n - r ==> (#[trigger] source.rows@[k])@ == pv[k + r],
            out@.len() == r,
            forall|rr: int| 0 <= rr < r ==> (#[trigger] out@[rr])@.len() == pv[rr].len(),
            forall|rr: int, c: int|
                0 <= rr < r && 0 <= c < pv[rr].len() ==> {
                    &&& (#[trigger] out@[rr]@[c]).period == pv[rr][c].period
                    &&& out@[rr]@[c].effect == pv[rr][c].effect
                    &&& out@[rr]@[c].sample_number == table@[pv[rr][c].sample_number as int]
                },
        decreases n - r,
    {
        let row = source.rows.remove(0);
        proof {
            assert(row@ == pv[r as int]);
        }
        let nr = renumber_row(row, table);
        out.push(nr);
        r += 1;
    }
    let res = Pattern { rows: out };
    proof {
        assert forall|rr: int, c: int|
            0 <= rr < pv.len() && 0 <= c < pv[rr].len() implies {
            &&& (#[trigger] res@[rr][c]).period == pv[rr][c].period
            &&& res@[rr][c].effect == pv[rr][c].effect
            &&& res@[rr][c].sample_number == table@[pv[rr][c].sample_number as int]
        } by {
            assert(res@[rr] == out@[rr]@);
        }
    }
    res
}

/// Rewrites every sample reference in every note cell through the table;
/// everything else is untouched.
fn renumber_sample_refs(module: &mut Module, table: &Vec<u8>)
    requires
        table@.len() == 256,
    ensures
        final(module)@.name == old(module)@.name,
        final(module)@.length == old(module)@.length,
        final(module)@.positions == old(module)@.positions,
        final(module)@.samples == old(module)@.samples,
        final(module)@.patterns.len() == old(module)@.patterns.len(),
        forall|p: int|
            0 <= p < old(module)@.patterns.len() ==> (#[trigger] final(module)@.patterns[p]).len()
                == old(module)@.patterns[p].len(),
        forall|p: int, r: int|
            0 <= p < old(module)@.patterns.len() && 0 <= r < old(module)@.patterns[p].len() ==> (
            #[trigger] final(module)@.patterns[p][r]).len() == old(module)@.patterns[p][r].len(),
        forall|p: int, r: int, c: int|
            0 <= p < old(module)@.patterns.len() && 0 <= r < old(module)@.patterns[p].len() && 0
                <= c < old(module)@.patterns[p][r].len() ==> {
                &&& (#[trigger] final(module)@.patterns[p][r][c]).period == old(
                    module,
                )@.patterns[p][r][c].period
                &&& final(module)@.patterns[p][r][c].effect == old(module)@.patterns[p][r][c].effect
                &&& final(module)@.patterns[p][r][c].sample_number == table@[old(
                    module,
                )@.patterns[p][r][c].sample_number as int]
            },
{
    let ghost m0 = module@;
    let n = module.patterns.len();
    let mut source: Vec<Pattern> = Vec::new();
    mem::swap(&mut module.patterns, &mut source);
    let mut p: usize = 0;
    while p < n
        invariant
            table@.len() == 256,
            module@.name == m0.name,
            module@.length == m0.length,
            module@.positions == m0.positions,
            module@.samples == m0.samples,
            n == m0.patterns.len(),
            p <= n,
            source@.len() == n - p,
            forall|k: int| 0 <= k < n - p ==> (#[trigger] source@[k])@ == m0.patterns[k + p],
            module.patterns@.len() == p,
            forall|pp: int|
                0 <= pp < p ==> (#[trigger] module.patterns@[pp])@.len() == m0.patterns[pp].len(),
            forall|pp: int, r: int|
                0 <= pp < p && 0 <= r < m0.patterns[pp].len() ==> (#[trigger] module.patterns@[pp]@[
                r]).len() == m0.patterns[pp][r].len(),
            forall|pp: int, r: int, c: int|
                0 <= pp < p && 0 <= r < m0.patterns[pp].len() && 0 <= c < m0.patterns[pp][r].len()
                    ==> {
                    &&& (#[trigger] module.patterns@[pp]@[r][c]).period
                        == m0.patterns[pp][r][c].period
                    &&& module.patterns@[pp]@[r][c].effect == m0.patterns[pp][r][c].effect
                    &&& module.patterns@[pp]@[r][c].sample_number == table@[m0.patterns[pp][r][
                    c].sample_number as int]
                },
        decreases n - p,
    {
        let pat = source.remove(0);
        proof {
            assert(pat@ == m0.patterns[p as int]);
        }
        let np = renumber_pattern(pat, table);
        module.patterns.push(np);
        p += 1;
    }
    proof {
        let m1 = module@;
        assert forall|p: int, r: int, c: int|
            0 <= p < m0.patterns.len() && 0 <= r < m0.patterns[p].len() && 0 <= c
                < m0.patterns[p][r].len() implies {
            &&& (#[trigger] m1.patterns[p][r][c]).period == m0.patterns[p][r][c].period
            &&& m1.patterns[p][r][c].effect == m0.patterns[p][r][c].effect
            &&& m1.patterns[p][r][c].sample_number == table@[m0.patterns[p][r][c].sample_number as int]
        } by {
            assert(m1.patterns[p] == module.patterns@[p]@);
        }
        assert forall|p: int, r: int|
            0 <= p < m0.patterns.len() && 0 <= r < m0.patterns[p].len() implies (
        #[trigger] m1.patterns[p][r]).len() == m0.patterns[p][r].len() by {
            assert(m1.patterns[p] == module.patterns@[p]@);
        }
        assert forall|p: int| 0 <= p < m0.patterns.len() implies (#[trigger] m1.patterns[p]).len()
            == m0.patterns[p].len() by {
            assert(m1.patterns[p] == module.patterns@[p]@);
        }
    }
}

/// Recycles unused sample slots: used descriptors stay in order at the
/// front, unused ones are cleared and appended at the back, highest
/// number first.
#[verifier::rlimit(100)]
fn compact_sample_slots(module: &mut Module, flags: &Vec<bool>)
    requires
        flags@.len() == 32,
        old(module)@.samples.len() <= 31,
        forall|n: int|
            1 <= n < 32 ==> (#[trigger] flags@[n] <==> sample_used(old(module)@, n)),
    ensures
        final(module)@.name == old(module)@.name,
        final(module)@.length == old(module)@.length,
        final(module)@.positions == old(module)@.positions,
        final(module)@.patterns == old(module)@.patterns,
        final(module)@.samples.len() == old(module)@.samples.len(),
        forall|n: int|
            1 <= n <= old(module)@.samples.len() && #[trigger] sample_used(old(module)@, n)
                ==> final(module)@.samples[n - 1 - unused_count_below(old(module)@, n)] == old(
                module,
            )@.samples[n - 1],
        forall|n: int|
            1 <= n <= old(module)@.samples.len() && !(#[trigger] sample_used(old(module)@, n))
                ==> final(module)@.samples[old(module)@.samples.len() - 1 - unused_count_below(
                old(module)@,
                n,
            )] == cleared_sample(old(module)@.samples[n - 1]),
{
    let ghost m0 = module@;
    let slots = module.sample_info.len();
    let mut source: Vec<SampleInfo> = Vec::new();
    mem::swap(&mut module.sample_info, &mut source);
    let ghost sorig = source@;
    let mut kept: Vec<SampleInfo> = Vec::new();
    let mut tomb: Vec<SampleInfo> = Vec::new();
    let mut nidx: usize = 1;
    while nidx <= slots
        invariant
            module@.name == m0.name,
            module@.length == m0.length,
            module@.positions == m0.positions,
            module@.patterns == m0.patterns,
            flags@.len() == 32,
            forall|n: int| 1 <= n < 32 ==> (#[trigger] flags@[n] <==> sample_used(m0, n)),
            slots == m0.samples.len(),
            slots <= 31,
            1 <= nidx <= slots + 1,
            sorig.len() == slots,
            forall|k: int| 0 <= k < slots ==> (#[trigger] sorig[k])@ == m0.samples[k],
            source@ == sorig.subrange(nidx - 1, slots as int),
            kept@.len() == nidx - 1 - unused_count_below(m0, nidx as int),
            forall|nn: int|
                1 <= nn < nidx && #[trigger] flags@[nn] ==> kept@[nn - 1 - unused_count_below(
                    m0,
                    nn,
                )] == sorig[nn - 1],
            tomb@.len() == unused_count_below(m0, nidx as int),
            forall|nn: int|
                1 <= nn < nidx && !(#[trigger] flags@[nn]) ==> tomb@[unused_count_below(
                    m0,
                    nn,
                ) as int]@ == cleared_sample(m0.samples[nn - 1]),
        decreases slots + 1 - nidx,
    {
        let mut si = source.remove(0);
        proof {
            assert(si == sorig[nidx - 1]);
            assert(sorig.subrange(nidx - 1, slots as int).remove(0) =~= sorig.subrange(
                nidx as int,
                slots as int,
            ));
            lemma_unused_count_le(m0, nidx as int);
        }
        let ghost kept_pre = kept@;
        let ghost tomb_pre = tomb@;
        if flags[nidx] {
            kept.push(si);
        } else {
            si.length = 0;
            si.repeat_start = 0;
            si.repeat_length = 0;
            si.data = Vec::new();
            proof {
                assert(si@ == cleared_sample(m0.samples[nidx - 1]));
            }
            tomb.push(si);
        }
        proof {
            assert forall|nn: int|
                1 <= nn < nidx + 1 && #[trigger] flags@[nn] implies kept@[nn - 1
                - unused_count_below(m0, nn)] == sorig[nn - 1] by {
                if nn == nidx {
                    assert(kept@[kept_pre.len() as int] == sorig[nidx - 1]);
                } else {
                    assert(sample_used(m0, nn));
                    lemma_unused_count_le(m0, nn);
                    lemma_unused_count_bounds(m0, nn + 1, nidx as int);
                    assert(unused_count_below(m0, nn + 1) == unused_count_below(m0, nn));
                    assert(0 <= nn - 1 - unused_count_below(m0, nn) < kept_pre.len());
                    assert(kept_pre[nn - 1 - unused_count_below(m0, nn)] == sorig[nn - 1]);
                    assert(kept@[nn - 1 - unused_count_below(m0, nn)] == kept_pre[nn - 1
                        - unused_count_below(m0, nn)]);
                }
            }
            assert forall|nn: int|
                1 <= nn < nidx + 1 && !(#[trigger] flags@[nn]) implies tomb@[unused_count_below(
                m0,
                nn,
            ) as int]@ == cleared_sample(m0.samples[nn - 1]) by {
                if nn == nidx {
                    assert(tomb@[tomb_pre.len() as int]@ == cleared_sample(m0.samples[nidx - 1]));
                } else {
                    assert(!sample_used(m0, nn));
                    lemma_unused_count_bounds(m0, nn + 1, nidx as int);
                    assert(unused_count_below(m0, nn + 1) == unused_count_below(m0, nn) + 1);
                    assert(unused_count_below(m0, nn) < tomb_pre.len());
                    assert(tomb_pre[unused_count_below(m0, nn) as int]@ == cleared_sample(
                        m0.samples[nn - 1],
                    ));
                    assert(tomb@[unused_count_below(m0, nn) as int] == tomb_pre[unused_count_below(
                        m0,
                        nn,
                    ) as int]);
                }
            }
        }
        nidx += 1;
    }
    // Append the cleared slots behind the used ones, highest number first.
    let ghost tombs = tomb@;
    let ghost used_total = kept@.len() as int;
    while tomb.len() > 0
        invariant
            module@.name == m0.name,
            module@.length == m0.length,
            module@.positions == m0.positions,
            module@.patterns == m0.patterns,
            flags@.len() == 32,
            forall|n: int| 1 <= n < 32 ==> (#[trigger] flags@[n] <==> sample_used(m0, n)),
            slots == m0.samples.len(),
            slots <= 31,
            sorig.len() == slots,
            forall|k: int| 0 <= k < slots ==> (#[trigger] sorig[k])@ == m0.samples[k],
            used_total == slots - unused_count_below(m0, slots + 1),
            tombs.len() == unused_count_below(m0, slots + 1),
            forall|nn: int|
                1 <= nn <= slots && #[trigger] flags@[nn] ==> kept@[nn - 1 - unused_count_below(
                    m0,
                    nn,
                )] == sorig[nn - 1],
            forall|nn: int|
                1 <= nn <= slots && !(#[trigger] flags@[nn]) ==> tombs[unused_count_below(
                    m0,
                    nn,
                ) as int]@ == cleared_sample(m0.samples[nn - 1]),
            tomb@.len() <= tombs.len(),
            tomb@ == tombs.subrange(0, tomb@.len() as int),
            kept@.len() == used_total + tombs.len() - tomb@.len(),
            forall|idx: int|
                used_total <= idx < kept@.len() ==> #[trigger] kept@[idx] == tombs[tombs.len() - 1
                    - (idx - used_total)],
        decreases tomb@.len(),
    {
        let ghost pre = tomb@;
        let ghost kept_pre = kept@;
        let t = tomb.pop().unwrap();
        proof {
            assert(t == pre[pre.len() - 1]);
            assert(pre[pre.len() - 1] == tombs[pre.len() - 1]);
            assert(tomb@ =~= tombs.subrange(0, tomb@.len() as int));
        }
        kept.push(t);
        proof {
            assert forall|nn: int|
                1 <= nn <= slots && #[trigger] flags@[nn] implies kept@[nn - 1
                - unused_count_below(m0, nn)] == sorig[nn - 1] by {
                assert(sample_used(m0, nn));
                lemma_unused_count_le(m0, nn);
                lemma_unused_count_bounds(m0, nn + 1, slots + 1);
                assert(unused_count_below(m0, nn + 1) == unused_count_below(m0, nn));
                assert(0 <= nn - 1 - unused_count_below(m0, nn) < used_total);
                assert(kept_pre[nn - 1 - unused_count_below(m0, nn)] == sorig[nn - 1]);
                assert(kept@[nn - 1 - unused_count_below(m0, nn)] == kept_pre[nn - 1
                    - unused_count_below(m0, nn)]);
            }
            assert forall|idx: int|
                used_total <= idx < kept@.len() implies #[trigger] kept@[idx] == tombs[tombs.len()
                - 1 - (idx - used_total)] by {
                if idx == kept_pre.len() {
                    assert(kept@[idx] == t);
                } else {
                    lemma_unused_count_le(m0, slots + 1);
                    assert(0 <= used_total);
                    assert(kept@[idx] == kept_pre[idx]);
                }
            }
        }
    }
    module.sample_info = kept;
    proof {
        let m1 = module@;
        assert forall|n: int|
            1 <= n <= m0.samples.len() && #[trigger] sample_used(m0, n) implies m1.samples[n - 1
            - unused_count_below(m0, n)] == m0.samples[n - 1] by {
            assert(flags@[n]);
            lemma_unused_count_bounds(m0, n + 1, slots + 1);
            lemma_unused_count_le(m0, n);
            assert(unused_count_below(m0, n + 1) == unused_count_below(m0, n));
            assert(n - 1 - unused_count_below(m0, n) < used_total);
            assert(module.sample_info@[n - 1 - unused_count_below(m0, n)] == sorig[n - 1]);
        }
        assert forall|n: int|
            1 <= n <= m0.samples.len() && !(#[trigger] sample_used(m0, n)) implies m1.samples[
        m0.samples.len() - 1 - unused_count_below(m0, n)] == cleared_sample(
            m0.samples[n - 1],
        ) by {
            assert(!flags@[n]);
            lemma_unused_count_bounds(m0, n + 1, slots + 1);
            lemma_unused_count_le(m0, n);
            assert(unused_count_below(m0, n + 1) == unused_count_below(m0, n) + 1);
            let idx = slots - 1 - unused_count_below(m0, n);
            assert(used_total <= idx < slots);
            assert(module.sample_info@[idx] == tombs[tombs.len() - 1 - (idx - used_total)]);
            assert(tombs.len() - 1 - (idx - used_total) == unused_count_below(m0, n));
        }
    }
}

/// Removes every sample that no note cell references, in a single atomic
/// operation: unused descriptors are cleared and recycled to the back of
/// the sample table, and every note cell's reference is renumbered so
/// that it still denotes the same sample content as before.
pub fn remove_unused_samples(module: &mut Module)
    requires
        old(module).wf(),
    ensures
        final(module).wf(),
        final(module)@.name == old(module)@.name,
        final(module)@.length == old(module)@.length,
        final(module)@.positions == old(module)@.positions,
        final(module)@.samples.len() == old(module)@.samples.len(),
        final(module)@.patterns.len() == old(module)@.patterns.len(),
        forall|p: int|
            0 <= p < old(module)@.patterns.len() ==> (#[trigger] final(module)@.patterns[p]).len()
                == old(module)@.patterns[p].len(),
        forall|p: int, r: int|
            0 <= p < old(module)@.patterns.len() && 0 <= r < old(module)@.patterns[p].len() ==> (
            #[trigger] final(module)@.patterns[p][r]).len() == old(module)@.patterns[p][r].len(),
        // Every note cell keeps its pitch and effect, and its sample
        // reference shifts down by the number of unused slots below it.
        forall|p: int, r: int, c: int|
            0 <= p < old(module)@.patterns.len() && 0 <= r < old(module)@.patterns[p].len() && 0
                <= c < old(module)@.patterns[p][r].len() ==> {
                &&& (#[trigger] final(module)@.patterns[p][r][c]).period == old(
                    module,
                )@.patterns[p][r][c].period
                &&& final(module)@.patterns[p][r][c].effect == old(module)@.patterns[p][r][c].effect
                &&& final(module)@.patterns[p][r][c].sample_number as int == old(
                    module,
                )@.patterns[p][r][c].sample_number - unused_count_below(
                    old(module)@,
                    old(module)@.patterns[p][r][c].sample_number as int,
                )
            },
        forall|n: int|
            1 <= n <= old(module)@.samples.len() && #[trigger] sample_used(old(module)@, n)
                ==> final(module)@.samples[n - 1 - unused_count_below(old(module)@, n)] == old(
                module,
            )@.samples[n - 1],
        forall|n: int|
            1 <= n <= old(module)@.samples.len() && !(#[trigger] sample_used(old(module)@, n))
                ==> final(module)@.samples[old(module)@.samples.len() - 1 - unused_count_below(
                old(module)@,
                n,
            )] == cleared_sample(old(module)@.samples[n - 1]),
        // Every note cell that referenced a sample still denotes the same
        // sample content afterwards.
        forall|p: int, r: int, c: int|
            0 <= p < old(module)@.patterns.len() && 0 <= r < old(module)@.patterns[p].len() && 0
                <= c < old(module)@.patterns[p][r].len() && 1 <= old(
                module,
            )@.patterns[p][r][c].sample_number <= old(module)@.samples.len() ==> {
                &&& 1 <= (#[trigger] final(module)@.patterns[p][r][c]).sample_number
                &&& final(module)@.samples[final(module)@.patterns[p][r][c].sample_number - 1]
                    == old(module)@.samples[old(module)@.patterns[p][r][c].sample_number - 1]
            },
{
    let ghost m0 = module@;
    let flags = sample_used_flags(module);
    let slots = module.sample_info.len();

    // The renumber table over every possible byte-sized reference.
    let mut table: Vec<u8> = Vec::new();
    let mut cnt: u8 = 0;
    let mut r: usize = 0;
    while r < 256
        invariant
            flags@.len() == 32,
            forall|n: int| 1 <= n < 32 ==> (#[trigger] flags@[n] <==> sample_used(m0, n)),
            slots == m0.samples.len(),
            slots <= 31,
            r <= 256,
            table@.len() == r,
            cnt as int == unused_count_below(m0, r as int),
            forall|rr: int|
                0 <= rr < r ==> (#[trigger] table@[rr]) as int == rr - unused_count_below(m0, rr),
        decreases 256 - r,
    {
        proof {
            lemma_unused_count_le(m0, r as int);
        }
        table.push((r as u8) - cnt);
        if 1 <= r && r <= slots && !flags[r] {
            cnt += 1;
        }
        r += 1;
    }

    compact_sample_slots(module, &flags);
    renumber_sample_refs(module, &table);

    proof {
        let m1 = module@;
        assert forall|p: int, r: int, c: int|
            0 <= p < m0.patterns.len() && 0 <= r < m0.patterns[p].len() && 0 <= c
                < m0.patterns[p][r].len() && 1 <= m0.patterns[p][r][c].sample_number
                <= m0.samples.len() implies {
            &&& 1 <= (#[trigger] m1.patterns[p][r][c]).sample_number
            &&& m1.samples[m1.patterns[p][r][c].sample_number - 1] == m0.samples[m0.patterns[p][r][
            c].sample_number - 1]
        } by {
            let r0 = m0.patterns[p][r][c].sample_number as int;
            assert(row_has_sample(m0.patterns[p][r], r0));
            assert(pattern_has_sample(m0.patterns[p], r0));
            assert(sample_used(m0, r0));
            lemma_unused_count_le(m0, r0);
            assert(m1.patterns[p][r][c].sample_number as int == r0 - unused_count_below(m0, r0));
            assert(m1.samples[r0 - 1 - unused_count_below(m0, r0)] == m0.samples[r0 - 1]);
        }
        assert forall|j: int| 0 <= j < m1.length implies (m1.positions[j] as int)
            < m1.patterns.len() by {}
    }
}

} // verus!
