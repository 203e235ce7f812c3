//! Usage scanner: which pattern indices are absent from the active play
//! order, and which logical sample numbers are never referenced by any
//! note cell.
use vstd::prelude::*;

use crate::module::{Channel, Module, ModuleData, Pattern, Row};

verus! {

/// Pattern index `i` appears somewhere in the active play order.
pub open spec fn pattern_used(m: ModuleData, i: int) -> bool {
    exists|j: int| 0 <= j < m.length && m.positions[j] as int == i
}

/// Some channel of the row references logical sample number `n`.
pub open spec fn row_has_sample(chs: Seq<Channel>, n: int) -> bool {
    exists|c: int| 0 <= c < chs.len() && chs[c].sample_number as int == n
}

/// Some channel of the pattern references logical sample number `n`.
pub open spec fn pattern_has_sample(p: Seq<Seq<Channel>>, n: int) -> bool {
    exists|r: int| 0 <= r < p.len() && row_has_sample(p[r], n)
}

/// Some channel anywhere in the module references logical sample number `n`.
pub open spec fn sample_used(m: ModuleData, n: int) -> bool {
    exists|p: int| 0 <= p < m.patterns.len() && pattern_has_sample(m.patterns[p], n)
}

/// Whether `value` occurs in the first `length` entries of the play order.
pub(crate) fn positions_contain(positions: &Vec<u8>, length: u8, value: u8) -> (found: bool)
    requires
        length as int <= positions@.len(),
    ensures
        found <==> exists|j: int| 0 <= j < length && positions@[j] == value,
{
    let mut j: usize = 0;
    while j < length as usize
        invariant
            length as int <= positions@.len(),
            j <= length as usize,
            forall|k: int| 0 <= k < j ==> positions@[k] != value,
        decreases length as usize - j,
    {
        if positions[j] == value {
            return true;
        }
        j += 1;
    }
    false
}

/// All pattern indices that never occur in the active play order,
/// in ascending order.
pub fn find_unused_patterns(module: &Module) -> (unused: Vec<u8>)
    requires
        module.wf(),
    ensures
        forall|k: int|
            0 <= k < unused@.len() ==> (unused@[k] as int) < module@.patterns.len()
                && !pattern_used(module@, unused@[k] as int),
        forall|i: int|
            0 <= i < module@.patterns.len() && !pattern_used(module@, i) ==> exists|k: int|
                0 <= k < unused@.len() && unused@[k] as int == i,
        forall|k1: int, k2: int| 0 <= k1 < k2 < unused@.len() ==> unused@[k1] < unused@[k2],
{
    let mut unused: Vec<u8> = Vec::new();
    let n = module.patterns.len();
    let mut i: usize = 0;
    while i < n
        invariant
            module.wf(),
            n == module@.patterns.len(),
            n <= 255,
            i <= n,
            forall|k: int|
                0 <= k < unused@.len() ==> (unused@[k] as int) < i && !pattern_used(
                    module@,
                    unused@[k] as int,
                ),
            forall|ii: int|
                0 <= ii < i && !pattern_used(module@, ii) ==> exists|k: int|
                    0 <= k < unused@.len() && unused@[k] as int == ii,
            forall|k1: int, k2: int| 0 <= k1 < k2 < unused@.len() ==> unused@[k1] < unused@[k2],
        decreases n - i,
    {
        let absent = !positions_contain(&module.positions, module.length, i as u8);
        let ghost pre = unused@;
        if absent {
            unused.push(i as u8);
        }
        proof {
            assert(absent <==> !pattern_used(module@, i as int));
            assert forall|ii: int| 0 <= ii < i + 1 && !pattern_used(module@, ii) implies exists|
                k: int,
            | 0 <= k < unused@.len() && unused@[k] as int == ii by {
                if ii == i {
                    assert(unused@[unused@.len() - 1] as int == ii);
                } else {
                    let k = choose|k: int| 0 <= k < pre.len() && pre[k] as int == ii;
                    assert(unused@[k] as int == ii);
                }
            }
        }
        i += 1;
    }
    unused
}

/// Marks, for every channel of the row, the sample number it references
/// (numbers above 31 are left for the integrity scan and not recorded).
fn mark_row_samples(used: &mut Vec<bool>, row: &Row)
    requires
        old(used)@.len() == 32,
    ensures
        final(used)@.len() == 32,
        final(used)@[0] == old(used)@[0],
        forall|n: int|
            1 <= n < 32 ==> (#[trigger] final(used)@[n] <==> old(used)@[n] || row_has_sample(
                row@,
                n,
            )),
{
    let ghost u0 = used@;
    let ghost rv = row@;
    let mut c: usize = 0;
    while c < row.channels.len()
        invariant
            u0 == old(used)@,
            rv == row@,
            u0.len() == 32,
            used@.len() == 32,
            c <= row.channels.len(),
            used@[0] == u0[0],
            forall|n: int|
                1 <= n < 32 ==> (#[trigger] used@[n] <==> u0[n] || row_has_sample(
                    rv.subrange(0, c as int),
                    n,
                )),
        decreases row.channels.len() - c,
    {
        let number = row.channels[c].sample_number;
        if number > 0 && number <= 31 {
            used.set(number as usize, true);
        }
        proof {
            let prefix = rv.subrange(0, c as int);
            let prefix1 = rv.subrange(0, c + 1 as int);
            assert(prefix1.drop_last() =~= prefix);
            assert(prefix1.last() == rv[c as int]);
            assert forall|n: int| 1 <= n < 32 implies (row_has_sample(prefix1, n) <==> (
            row_has_sample(prefix, n) || rv[c as int].sample_number as int == n)) by {
                if row_has_sample(prefix, n) {
                    let cc = choose|cc: int|
                        0 <= cc < prefix.len() && prefix[cc].sample_number as int == n;
                    assert(prefix1[cc].sample_number as int == n);
                }
                if rv[c as int].sample_number as int == n {
                    assert(prefix1[c as int].sample_number as int == n);
                }
                if row_has_sample(prefix1, n) && !(rv[c as int].sample_number as int == n) {
                    let cc = choose|cc: int|
                        0 <= cc < prefix1.len() && prefix1[cc].sample_number as int == n;
                    assert(prefix[cc].sample_number as int == n);
                }
            }
        }
        c += 1;
    }
    proof {
        assert(rv.subrange(0, rv.len() as int) =~= rv);
    }
}

/// Marks every sample number referenced anywhere in the pattern.
fn mark_pattern_samples(used: &mut Vec<bool>, pattern: &Pattern)
    requires
        old(used)@.len() == 32,
    ensures
        final(used)@.len() == 32,
        final(used)@[0] == old(used)@[0],
        forall|n: int|
            1 <= n < 32 ==> (#[trigger] final(used)@[n] <==> old(used)@[n] || pattern_has_sample(
                pattern@,
                n,
            )),
{
    let ghost u0 = used@;
    let ghost pv = pattern@;
    let mut r: usize = 0;
    while r < pattern.rows.len()
        invariant
            u0 == old(used)@,
            pv == pattern@,
            u0.len() == 32,
            used@.len() == 32,
            r <= pattern.rows.len(),
            used@[0] == u0[0],
            forall|n: int|
                1 <= n < 32 ==> (#[trigger] used@[n] <==> u0[n] || pattern_has_sample(
                    pv.subrange(0, r as int),
                    n,
                )),
        decreases pattern.rows.len() - r,
    {
        let ghost pre = used@;
        mark_row_samples(used, &pattern.rows[r]);
        proof {
            assert(pattern.rows@[r as int]@ == pv[r as int]);
            assert forall|n: int| 1 <= n < 32 implies (#[trigger] used@[n] <==> pre[n]
                || row_has_sample(pv[r as int], n)) by {}
            let prefix = pv.subrange(0, r as int);
            let prefix1 = pv.subrange(0, r + 1 as int);
            assert(prefix1.drop_last() =~= prefix);
            assert(prefix1.last() == pv[r as int]);
            assert forall|n: int| 1 <= n < 32 implies (pattern_has_sample(prefix1, n) <==> (
            pattern_has_sample(prefix, n) || row_has_sample(pv[r as int], n))) by {
                if pattern_has_sample(prefix, n) {
                    let rr = choose|rr: int| 0 <= rr < prefix.len() && row_has_sample(prefix[rr], n);
                    assert(row_has_sample(prefix1[rr], n));
                }
                if row_has_sample(pv[r as int], n) {
                    assert(row_has_sample(prefix1[r as int], n));
                }
                if pattern_has_sample(prefix1, n) && !row_has_sample(pv[r as int], n) {
                    let rr = choose|rr: int|
                        0 <= rr < prefix1.len() && row_has_sample(prefix1[rr], n);
                    assert(row_has_sample(prefix[rr], n));
                }
            }
        }
        r += 1;
    }
    proof {
        assert(pv.subrange(0, pv.len() as int) =~= pv);
    }
}

/// One flag per sample number 0 to 31, true exactly when some note cell
/// references that number.
pub(crate) fn sample_used_flags(module: &Module) -> (used: Vec<bool>)
    requires
        module.wf(),
    ensures
        used@.len() == 32,
        !used@[0],
        forall|n: int| 1 <= n < 32 ==> (#[trigger] used@[n] <==> sample_used(module@, n)),
{
    let mut used: Vec<bool> = Vec::new();
    let mut f: usize = 0;
    while f < 32
        invariant
            used@.len() == f,
            f <= 32,
            forall|n: int| 0 <= n < f ==> !used@[n],
        decreases 32 - f,
    {
        used.push(false);
        f += 1;
    }

    let ghost mv = module@;
    let mut p: usize = 0;
    while p < module.patterns.len()
        invariant
            mv == module@,
            module.wf(),
            used@.len() == 32,
            p <= module.patterns.len(),
            !used@[0],
            forall|n: int|
                1 <= n < 32 ==> (#[trigger] used@[n] <==> exists|pp: int|
                    0 <= pp < p && pattern_has_sample(mv.patterns[pp], n)),
        decreases module.patterns.len() - p,
    {
        let ghost pre = used@;
        mark_pattern_samples(&mut used, &module.patterns[p]);
        proof {
            assert(module.patterns@[p as int]@ == mv.patterns[p as int]);
            assert forall|n: int| 1 <= n < 32 implies (#[trigger] used@[n] <==> pre[n]
                || pattern_has_sample(mv.patterns[p as int], n)) by {}
            assert forall|n: int| 1 <= n < 32 implies (#[trigger] used@[n] <==> exists|pp: int|
                0 <= pp < p + 1 && pattern_has_sample(mv.patterns[pp], n)) by {
                if used@[n] {
                    if pre[n] {
                        let pp = choose|pp: int|
                            0 <= pp < p && pattern_has_sample(mv.patterns[pp], n);
                        assert(0 <= pp < p + 1 && pattern_has_sample(mv.patterns[pp], n));
                    } else {
                        assert(pattern_has_sample(mv.patterns[p as int], n));
                    }
                }
                if exists|pp: int| 0 <= pp < p + 1 && pattern_has_sample(mv.patterns[pp], n) {
                    let pp = choose|pp: int|
                        0 <= pp < p + 1 && pattern_has_sample(mv.patterns[pp], n);
                    if pp < p {
                        assert(pre[n]);
                        assert(used@[n]);
                    } else {
                        assert(pattern_has_sample(mv.patterns[p as int], n));
                        assert(used@[n]);
                    }
                }
            }
        }
        p += 1;
    }

    assert forall|n: int| 1 <= n < 32 implies (#[trigger] used@[n] <==> sample_used(
        module@,
        n,
    )) by {
        assert(used@[n] <==> exists|pp: int|
            0 <= pp < module@.patterns.len() && pattern_has_sample(mv.patterns[pp], n));
    }
    used
}

/// All logical sample numbers (1-based, up to the number of sample slots)
/// that no note cell references, in ascending order.
pub fn find_unused_samples(module: &Module) -> (unused: Vec<u8>)
    requires
        module.wf(),
    ensures
        forall|k: int|
            0 <= k < unused@.len() ==> 1 <= unused@[k] && (unused@[k] as int)
                <= module@.samples.len() && !sample_used(module@, unused@[k] as int),
        forall|n: int|
            1 <= n <= module@.samples.len() && !sample_used(module@, n) ==> exists|k: int|
                0 <= k < unused@.len() && unused@[k] as int == n,
        forall|k1: int, k2: int| 0 <= k1 < k2 < unused@.len() ==> unused@[k1] < unused@[k2],
{
    let used = sample_used_flags(module);
    let mut unused: Vec<u8> = Vec::new();
    let mut n: usize = 1;
    let slots = module.sample_info.len();
    while n <= slots
        invariant
            module.wf(),
            used@.len() == 32,
            slots == module@.samples.len(),
            slots <= 31,
            1 <= n <= slots + 1,
            forall|nn: int| 1 <= nn < 32 ==> (used@[nn] <==> sample_used(module@, nn)),
            forall|k: int|
                0 <= k < unused@.len() ==> 1 <= unused@[k] && (unused@[k] as int) < n
                    && !sample_used(module@, unused@[k] as int),
            forall|nn: int|
                1 <= nn < n && !sample_used(module@, nn) ==> exists|k: int|
                    0 <= k < unused@.len() && unused@[k] as int == nn,
            forall|k1: int, k2: int| 0 <= k1 < k2 < unused@.len() ==> unused@[k1] < unused@[k2],
        decreases slots + 1 - n,
    {
        let ghost pre = unused@;
        if !used[n] {
            unused.push(n as u8);
        }
        proof {
            assert forall|nn: int| 1 <= nn < n + 1 && !sample_used(module@, nn) implies exists|
                k: int,
            | 0 <= k < unused@.len() && unused@[k] as int == nn by {
                if nn == n {
                    assert(unused@[unused@.len() - 1] as int == nn);
                } else {
                    let k = choose|k: int| 0 <= k < pre.len() && pre[k] as int == nn;
                    assert(unused@[k] as int == nn);
                }
            }
        }
        n += 1;
    }
    unused
}


/// One out-of-range sample reference: where it sits and the value found.
#[derive(Clone, Copy, PartialEq, Eq, Structural, Debug)]
pub struct SampleRefWarning {
    pub pattern: usize,
    pub row: usize,
    pub channel: usize,
    pub value: u8,
}

/// The warnings one row contributes, in channel order: every reference
/// above 31 (the largest logical sample number a module can have).
pub open spec fn row_warnings(chs: Seq<Channel>, p: usize, r: usize) -> Seq<SampleRefWarning>
    decreases chs.len(),
{
    if chs.len() == 0 {
        Seq::empty()
    } else {
        let rest = row_warnings(chs.drop_last(), p, r);
        if chs.last().sample_number > 31 {
            rest.push(
                SampleRefWarning {
                    pattern: p,
                    row: r,
                    channel: (chs.len() - 1) as usize,
                    value: chs.last().sample_number,
                },
            )
        } else {
            rest
        }
    }
}

/// The warnings one pattern contributes, row by row.
pub open spec fn pattern_warnings(rows: Seq<Seq<Channel>>, p: usize) -> Seq<SampleRefWarning>
    decreases rows.len(),
{
    if rows.len() == 0 {
        Seq::empty()
    } else {
        pattern_warnings(rows.drop_last(), p) + row_warnings(
            rows.last(),
            p,
            (rows.len() - 1) as usize,
        )
    }
}

/// The warnings a whole pattern table contributes, pattern by pattern.
pub open spec fn table_warnings(pats: Seq<Seq<Seq<Channel>>>) -> Seq<SampleRefWarning>
    decreases pats.len(),
{
    if pats.len() == 0 {
        Seq::empty()
    } else {
        table_warnings(pats.drop_last()) + pattern_warnings(pats.last(), (pats.len() - 1) as usize)
    }
}

/// Every sample reference above 31 anywhere in the module, in row-major
/// scan order. Such references are a data-integrity anomaly: they are
/// reported, never corrected, and the usage scan ignores them.
pub fn integrity_warnings(module: &Module) -> (warnings: Vec<SampleRefWarning>)
    ensures
        warnings@ == table_warnings(module@.patterns),
{
    let ghost mv = module@;
    let mut warnings: Vec<SampleRefWarning> = Vec::new();
    let mut p: usize = 0;
    while p < module.patterns.len()
        invariant
            mv == module@,
            mv.patterns.len() == module.patterns@.len(),
            p <= mv.patterns.len(),
            warnings@ == table_warnings(mv.patterns.subrange(0, p as int)),
        decreases module.patterns.len() - p,
    {
        let pattern = &module.patterns[p];
        let ghost pv = pattern@;
        proof {
            assert(pv == mv.patterns[p as int]);
        }
        let mut r: usize = 0;
        while r < pattern.rows.len()
            invariant
                mv == module@,
                pv == pattern@,
                pv == mv.patterns[p as int],
                p < mv.patterns.len(),
                pv.len() == pattern.rows@.len(),
                r <= pv.len(),
                warnings@ == table_warnings(mv.patterns.subrange(0, p as int)) + pattern_warnings(
                    pv.subrange(0, r as int),
                    p,
                ),
            decreases pattern.rows.len() - r,
        {
            let row = &pattern.rows[r];
            let ghost rv = row@;
            proof {
                assert(rv == pv[r as int]);
            }
            let mut c: usize = 0;
            while c < row.channels.len()
                invariant
                    mv == module@,
                    pv == mv.patterns[p as int],
                    rv == row@,
                    rv == pv[r as int],
                    p < mv.patterns.len(),
                    r < pv.len(),
                    rv.len() == row.channels@.len(),
                    c <= rv.len(),
                    warnings@ == table_warnings(mv.patterns.subrange(0, p as int))
                        + pattern_warnings(pv.subrange(0, r as int), p) + row_warnings(
                        rv.subrange(0, c as int),
                        p,
                        r,
                    ),
                decreases row.channels.len() - c,
            {
                let number = row.channels[c].sample_number;
                if number > 31 {
                    warnings.push(SampleRefWarning { pattern: p, row: r, channel: c, value: number });
                }
                proof {
                    let prefix = rv.subrange(0, c as int);
                    let prefix1 = rv.subrange(0, c + 1 as int);
                    assert(prefix1.drop_last() =~= prefix);
                    assert(prefix1.last() == rv[c as int]);
                    if number > 31 {
                        assert(warnings@ =~= table_warnings(mv.patterns.subrange(0, p as int))
                            + pattern_warnings(pv.subrange(0, r as int), p) + row_warnings(
                            prefix1,
                            p,
                            r,
                        ));
                    }
                }
                c += 1;
            }
            proof {
                let prefix = pv.subrange(0, r as int);
                let prefix1 = pv.subrange(0, r + 1 as int);
                assert(prefix1.drop_last() =~= prefix);
                assert(prefix1.last() == pv[r as int]);
                assert(rv.subrange(0, rv.len() as int) =~= rv);
                assert(warnings@ =~= table_warnings(mv.patterns.subrange(0, p as int))
                    + pattern_warnings(prefix1, p));
            }
            r += 1;
        }
        proof {
            let prefix = mv.patterns.subrange(0, p as int);
            let prefix1 = mv.patterns.subrange(0, p + 1 as int);
            assert(prefix1.drop_last() =~= prefix);
            assert(prefix1.last() == pv);
            assert(pv.subrange(0, pv.len() as int) =~= pv);
            assert(warnings@ =~= table_warnings(prefix1));
        }
        p += 1;
    }
    proof {
        assert(mv.patterns.subrange(0, mv.patterns.len() as int) =~= mv.patterns);
    }
    warnings
}

} // verus!
