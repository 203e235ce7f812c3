//! Marker inserter: makes sure every pattern carries a pattern-loop
//! marker command (an effect in the 0xE80 to 0xE8F range), writing the
//! 0xE81 marker into the first free cell of any pattern that has none.
use vstd::prelude::*;

use crate::module::{Channel, Module, Pattern, Row};

verus! {

/// The marker command value written into a free cell.
pub open spec fn marker_value() -> u16 {
    0x0e81
}

/// An effect in the extended pattern-loop family 0xE80 to 0xE8F.
pub open spec fn is_marker_effect(e: u16) -> bool {
    (e & 0x0ff0) == 0x0e80
}

pub open spec fn row_has_marker(chs: Seq<Channel>) -> bool {
    exists|c: int| 0 <= c < chs.len() && is_marker_effect(chs[c].effect)
}

/// The pattern already carries a marker command somewhere.
pub open spec fn has_marker(p: Seq<Seq<Channel>>) -> bool {
    exists|r: int| 0 <= r < p.len() && row_has_marker(p[r])
}

pub open spec fn row_has_free(chs: Seq<Channel>) -> bool {
    exists|c: int| 0 <= c < chs.len() && chs[c].effect == 0
}

/// Some cell of the pattern has no effect at all.
pub open spec fn has_free_cell(p: Seq<Seq<Channel>>) -> bool {
    exists|r: int| 0 <= r < p.len() && row_has_free(p[r])
}

/// Cell `c` is the first effect-free cell of the row.
pub open spec fn row_first_free(chs: Seq<Channel>, c: int) -> bool {
    &&& 0 <= c < chs.len()
    &&& chs[c].effect == 0
    &&& forall|c2: int| 0 <= c2 < c ==> chs[c2].effect != 0
}

/// Cell (`r`, `c`) is the first effect-free cell of the pattern in
/// row-major order.
pub open spec fn first_free(p: Seq<Seq<Channel>>, r: int, c: int) -> bool {
    &&& 0 <= r < p.len()
    &&& row_first_free(p[r], c)
    &&& forall|r2: int| 0 <= r2 < r ==> !row_has_free(p[r2])
}

/// `p1` is `p0` with the marker written into its first free cell; the
/// cell keeps its pitch and instrument.
pub open spec fn marker_inserted(p0: Seq<Seq<Channel>>, p1: Seq<Seq<Channel>>) -> bool {
    exists|r: int, c: int|
        #![trigger first_free(p0, r, c)]
        first_free(p0, r, c) && p1 == p0.update(
            r,
            p0[r].update(
                c,
                Channel {
                    period: p0[r][c].period,
                    sample_number: p0[r][c].sample_number,
                    effect: marker_value(),
                },
            ),
        )
}

/// What `insert_marker` does to one pattern: an already compliant
/// pattern and one with no free cell are untouched; any other gets the
/// marker in its first free cell.
pub open spec fn marker_outcome(p0: Seq<Seq<Channel>>, p1: Seq<Seq<Channel>>) -> bool {
    if has_marker(p0) || !has_free_cell(p0) {
        p1 == p0
    } else {
        marker_inserted(p0, p1)
    }
}

fn row_scan_marker(row: &Row) -> (found: bool)
    ensures
        found == row_has_marker(row@),
{
    let mut c: usize = 0;
    while c < row.channels.len()
        invariant
            c <= row.channels.len(),
            forall|cc: int| 0 <= cc < c ==> !is_marker_effect(row.channels@[cc].effect),
        decreases row.channels.len() - c,
    {
        if row.channels[c].effect & 0x0ff0 == 0x0e80 {
            return true;
        }
        c += 1;
    }
    false
}

fn pattern_scan_marker(pattern: &Pattern) -> (found: bool)
    ensures
        found == has_marker(pattern@),
{
    let ghost pv = pattern@;
    let mut r: usize = 0;
    while r < pattern.rows.len()
        invariant
            pv == pattern@,
            pv.len() == pattern.rows@.len(),
            r <= pattern.rows.len(),
            forall|rr: int| 0 <= rr < r ==> !row_has_marker(pv[rr]),
        decreases pattern.rows.len() - r,
    {
        if row_scan_marker(&pattern.rows[r]) {
            proof {
                assert(row_has_marker(pv[r as int]));
            }
            return true;
        }
        r += 1;
    }
    false
}

fn row_scan_free(row: &Row) -> (res: Option<usize>)
    ensures
        res is Some ==> row_first_free(row@, res->0 as int),
        res is None <==> !row_has_free(row@),
{
    let mut c: usize = 0;
    while c < row.channels.len()
        invariant
            c <= row.channels.len(),
            forall|cc: int| 0 <= cc < c ==> row.channels@[cc].effect != 0,
        decreases row.channels.len() - c,
    {
        if row.channels[c].effect == 0 {
            return Some(c);
        }
        c += 1;
    }
    None
}

fn find_first_free(pattern: &Pattern) -> (res: Option<(usize, usize)>)
    ensures
        res matches Some(rc) ==> first_free(pattern@, rc.0 as int, rc.1 as int),
        res is None <==> !has_free_cell(pattern@),
{
    let ghost pv = pattern@;
    let mut r: usize = 0;
    while r < pattern.rows.len()
        invariant
            pv == pattern@,
            pv.len() == pattern.rows@.len(),
            r <= pattern.rows.len(),
            forall|rr: int| 0 <= rr < r ==> !row_has_free(pv[rr]),
        decreases pattern.rows.len() - r,
    {
        match row_scan_free(&pattern.rows[r]) {
            Some(c) => {
                proof {
                    assert(row_first_free(pv[r as int], c as int));
                }
                return Some((r, c));
            },
            None => {
                proof {
                    assert(!row_has_free(pv[r as int]));
                }
            },
        }
        r += 1;
    }
    None
}

/// Makes the pattern carry a marker command: leaves it alone if one is
/// already there, otherwise writes 0xE81 into the first free cell in
/// row-major order. Returns false, leaving the pattern untouched, only
/// when every cell already carries some other effect.
pub fn insert_marker(pattern: &mut Pattern) -> (ok: bool)
    ensures
        ok <==> (has_marker(old(pattern)@) || has_free_cell(old(pattern)@)),
        marker_outcome(old(pattern)@, final(pattern)@),
{
    let ghost p0 = pattern@;
    if pattern_scan_marker(pattern) {
        return true;
    }
    match find_first_free(pattern) {
        Some((r, c)) => {
            let ch = pattern.rows[r].channels[c];
            let marked = Channel {
                period: ch.period,
                sample_number: ch.sample_number,
                effect: 0x0e81,
            };
            pattern.rows[r].channels.set(c, marked);
            proof {
                assert(first_free(p0, r as int, c as int));
                assert(pattern@ =~~= p0.update(
                    r as int,
                    p0[r as int].update(
                        c as int,
                        Channel {
                            period: p0[r as int][c as int].period,
                            sample_number: p0[r as int][c as int].sample_number,
                            effect: marker_value(),
                        },
                    ),
                ));
            }
            true
        },
        None => false,
    }
}

/// Runs `insert_marker` over every pattern of the module and reports the
/// indices of the patterns where no free cell was found, in ascending
/// order.
pub fn insert_markers(module: &mut Module) -> (failed: Vec<u8>)
    requires
        old(module).wf(),
    ensures
        final(module).wf(),
        final(module)@.name == old(module)@.name,
        final(module)@.length == old(module)@.length,
        final(module)@.positions == old(module)@.positions,
        final(module)@.samples == old(module)@.samples,
        final(module)@.patterns.len() == old(module)@.patterns.len(),
        forall|p: int|
            0 <= p < old(module)@.patterns.len() ==> marker_outcome(
                old(module)@.patterns[p],
                #[trigger] final(module)@.patterns[p],
            ),
        forall|k: int|
            0 <= k < failed@.len() ==> (failed@[k] as int) < old(module)@.patterns.len()
                && !has_marker(old(module)@.patterns[failed@[k] as int]) && !has_free_cell(
                old(module)@.patterns[failed@[k] as int],
            ),
        forall|p: int|
            0 <= p < old(module)@.patterns.len() && !has_marker(old(module)@.patterns[p])
                && !has_free_cell(old(module)@.patterns[p]) ==> exists|k: int|
                0 <= k < failed@.len() && failed@[k] as int == p,
        forall|k1: int, k2: int| 0 <= k1 < k2 < failed@.len() ==> failed@[k1] < failed@[k2],
{
    let ghost m0 = module@;
    let mut failed: Vec<u8> = Vec::new();
    let n = module.patterns.len();
    let mut p: usize = 0;
    while p < n
        invariant
            m0.wf(),
            module@.name == m0.name,
            module@.length == m0.length,
            module@.positions == m0.positions,
            module@.samples == m0.samples,
            n == m0.patterns.len(),
            n <= 255,
            module@.patterns.len() == n,
            p <= n,
            forall|pp: int|
                0 <= pp < p ==> marker_outcome(m0.patterns[pp], #[trigger] module@.patterns[pp]),
            forall|pp: int| p <= pp < n ==> #[trigger] module@.patterns[pp] == m0.patterns[pp],
            forall|k: int|
                0 <= k < failed@.len() ==> (failed@[k] as int) < p && !has_marker(
                    m0.patterns[failed@[k] as int],
                ) && !has_free_cell(m0.patterns[failed@[k] as int]),
            forall|pp: int|
                0 <= pp < p && !has_marker(m0.patterns[pp]) && !has_free_cell(m0.patterns[pp])
                    ==> exists|k: int| 0 <= k < failed@.len() && failed@[k] as int == pp,
            forall|k1: int, k2: int| 0 <= k1 < k2 < failed@.len() ==> failed@[k1] < failed@[k2],
        decreases n - p,
    {
        let ghost pre = failed@;
        let ghost mv_pre = module@;
        let ghost pats_pre = module.patterns@;
        let ok = insert_marker(&mut module.patterns[p]);
        proof {
            assert(module.patterns@ == pats_pre.update(
                p as int,
                module.patterns@[p as int],
            )) by {
                assert(module.patterns@ =~= pats_pre.update(p as int, module.patterns@[p as int]));
            }
            assert(mv_pre.patterns[p as int] == m0.patterns[p as int]);
            assert(pats_pre[p as int]@ == mv_pre.patterns[p as int]);
            assert(marker_outcome(m0.patterns[p as int], module.patterns@[p as int]@));
            assert(ok <==> has_marker(m0.patterns[p as int]) || has_free_cell(
                m0.patterns[p as int],
            ));
            assert forall|pp: int| 0 <= pp < n && pp != p implies #[trigger] module@.patterns[pp]
                == mv_pre.patterns[pp] by {
                assert(module.patterns@[pp] == pats_pre[pp]);
                assert(pats_pre[pp]@ == mv_pre.patterns[pp]);
            }
            assert forall|pp: int| 0 <= pp < n && pp != p implies #[trigger] mv_pre.patterns[pp]
                == m0.patterns[pp] || marker_outcome(m0.patterns[pp], mv_pre.patterns[pp]) by {}
        }
        if !ok {
            failed.push(p as u8);
        }
        proof {
            assert forall|pp: int|
                0 <= pp < p + 1 && !has_marker(m0.patterns[pp]) && !has_free_cell(m0.patterns[pp])
                    implies exists|k: int| 0 <= k < failed@.len() && failed@[k] as int == pp by {
                if pp == p {
                    assert(failed@[failed@.len() - 1] as int == pp);
                } else {
                    let k = choose|k: int| 0 <= k < pre.len() && pre[k] as int == pp;
                    assert(failed@[k] as int == pp);
                }
            }
        }
        p += 1;
    }
    proof {
        assert forall|j: int| 0 <= j < module@.length implies (module@.positions[j] as int)
            < module@.patterns.len() by {}
    }
    failed
}

} // verus!
