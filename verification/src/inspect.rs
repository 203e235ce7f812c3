//! Pattern inspection: which patterns are completely empty, and which
//! period values occur anywhere in a module.
use vstd::prelude::*;

use crate::module::{Channel, Module, ModuleData, Pattern};

verus! {

/// A note cell with no pitch, no instrument and no effect.
pub open spec fn channel_empty(ch: Channel) -> bool {
    ch.period == 0 && ch.sample_number == 0 && ch.effect == 0
}

/// A pattern whose every cell is empty.
pub open spec fn pattern_empty(p: Seq<Seq<Channel>>) -> bool {
    forall|r: int, c: int| 0 <= r < p.len() && 0 <= c < p[r].len() ==> channel_empty(#[trigger] p[r][c])
}

/// Whether every cell of the pattern is empty.
pub fn pattern_is_empty(pattern: &Pattern) -> (empty: bool)
    ensures
        empty == pattern_empty(pattern@),
{
    let ghost pv = pattern@;
    let mut r: usize = 0;
    while r < pattern.rows.len()
        invariant
            pv == pattern@,
            pv.len() == pattern.rows@.len(),
            r <= pattern.rows.len(),
            forall|rr: int, c: int|
                0 <= rr < r && 0 <= c < pv[rr].len() ==> channel_empty(#[trigger] pv[rr][c]),
        decreases pattern.rows.len() - r,
    {
        let row = &pattern.rows[r];
        let mut c: usize = 0;
        while c < row.channels.len()
            invariant
                pv == pattern@,
                r < pv.len(),
                row@ == pv[r as int],
                c <= row.channels.len(),
                row@.len() == row.channels@.len(),
                forall|cc: int| 0 <= cc < c ==> channel_empty(#[trigger] pv[r as int][cc]),
            decreases row.channels.len() - c,
        {
            let ch = row.channels[c];
            if ch.period != 0 || ch.sample_number != 0 || ch.effect != 0 {
                proof {
                    assert(!channel_empty(pv[r as int][c as int]));
                }
                return false;
            }
            c += 1;
        }
        r += 1;
    }
    true
}

/// All indices of completely empty patterns, in ascending order.
pub fn find_empty_patterns(module: &Module) -> (empty: Vec<u8>)
    requires
        module.wf(),
    ensures
        forall|k: int|
            0 <= k < empty@.len() ==> (empty@[k] as int) < module@.patterns.len() && pattern_empty(
                module@.patterns[empty@[k] as int],
            ),
        forall|p: int|
            0 <= p < module@.patterns.len() && pattern_empty(module@.patterns[p]) ==> exists|k: int|
                0 <= k < empty@.len() && empty@[k] as int == p,
        forall|k1: int, k2: int| 0 <= k1 < k2 < empty@.len() ==> empty@[k1] < empty@[k2],
{
    let ghost mv = module@;
    let mut empty: Vec<u8> = Vec::new();
    let n = module.patterns.len();
    let mut p: usize = 0;
    while p < n
        invariant
            mv == module@,
            n == mv.patterns.len(),
            n <= 255,
            p <= n,
            forall|k: int|
                0 <= k < empty@.len() ==> (empty@[k] as int) < p && pattern_empty(
                    mv.patterns[empty@[k] as int],
                ),
            forall|pp: int|
                0 <= pp < p && pattern_empty(mv.patterns[pp]) ==> exists|k: int|
                    0 <= k < empty@.len() && empty@[k] as int == pp,
            forall|k1: int, k2: int| 0 <= k1 < k2 < empty@.len() ==> empty@[k1] < empty@[k2],
        decreases n - p,
    {
        let ghost pre = empty@;
        let is_empty = pattern_is_empty(&module.patterns[p]);
        proof {
            assert(module.patterns@[p as int]@ == mv.patterns[p as int]);
        }
        if is_empty {
            empty.push(p as u8);
        }
        proof {
            assert forall|pp: int| 0 <= pp < p + 1 && pattern_empty(mv.patterns[pp]) implies exists|
                k: int,
            | 0 <= k < empty@.len() && empty@[k] as int == pp by {
                if pp == p {
                    assert(empty@[empty@.len() - 1] as int == pp);
                } else {
                    let k = choose|k: int| 0 <= k < pre.len() && pre[k] as int == pp;
                    assert(empty@[k] as int == pp);
                }
            }
        }
        p += 1;
    }
    empty
}

/// Some channel of the row plays period `v`.
pub open spec fn row_has_period(chs: Seq<Channel>, v: u16) -> bool {
    exists|c: int| 0 <= c < chs.len() && chs[c].period == v
}

/// Some channel of the pattern plays period `v`.
pub open spec fn pattern_has_period(p: Seq<Seq<Channel>>, v: u16) -> bool {
    exists|r: int| 0 <= r < p.len() && row_has_period(p[r], v)
}

/// Some channel anywhere in the module plays period `v`.
pub open spec fn module_has_period(m: ModuleData, v: u16) -> bool {
    exists|p: int| 0 <= p < m.patterns.len() && pattern_has_period(m.patterns[p], v)
}

/// Inserts `v` into the ascending list if it is not there yet.
fn sorted_insert(list: &mut Vec<u16>, v: u16)
    requires
        forall|k1: int, k2: int| 0 <= k1 < k2 < old(list)@.len() ==> old(list)@[k1] < old(list)@[k2],
    ensures
        forall|k1: int, k2: int|
            0 <= k1 < k2 < final(list)@.len() ==> final(list)@[k1] < final(list)@[k2],
        forall|w: u16| #[trigger] final(list)@.contains(w) <==> (old(list)@.contains(w) || w == v),
{
    let ghost l0 = list@;
    let mut pos: usize = 0;
    while pos < list.len() && list[pos] < v
        invariant
            l0 == list@,
            forall|k1: int, k2: int| 0 <= k1 < k2 < l0.len() ==> l0[k1] < l0[k2],
            pos <= l0.len(),
            forall|k: int| 0 <= k < pos ==> l0[k] < v,
        decreases list.len() - pos,
    {
        pos += 1;
    }
    if pos < list.len() {
        let cur = list[pos];
        if cur == v {
            proof {
                assert(l0.contains(v));
                assert forall|w: u16| #[trigger] list@.contains(w) implies (l0.contains(w) || w
                    == v) by {}
            }
            return ;
        }
    }
    list.insert(pos, v);
    proof {
        assert(list@.len() == l0.len() + 1);
        assert forall|k1: int, k2: int|
            0 <= k1 < k2 < list@.len() implies list@[k1] < list@[k2] by {
            let a = if k1 < pos {
                l0[k1]
            } else if k1 == pos {
                v
            } else {
                l0[k1 - 1]
            };
            assert(list@[k1] == a);
            let b = if k2 < pos {
                l0[k2]
            } else if k2 == pos {
                v
            } else {
                l0[k2 - 1]
            };
            assert(list@[k2] == b);
            if pos < l0.len() {
                assert(l0[pos as int] > v || l0[pos as int] == list@[pos + 1]);
            }
        }
        assert forall|w: u16| #[trigger] list@.contains(w) implies (l0.contains(w) || w == v) by {
            let k = choose|k: int| 0 <= k < list@.len() && list@[k] == w;
            if k < pos {
                assert(l0[k] == w);
            } else if k > pos {
                assert(l0[k - 1] == w);
            }
        }
        assert forall|w: u16| l0.contains(w) || w == v implies #[trigger] list@.contains(w) by {
            if w == v {
                assert(list@[pos as int] == v);
            } else {
                let k = choose|k: int| 0 <= k < l0.len() && l0[k] == w;
                if k < pos {
                    assert(list@[k] == w);
                } else {
                    assert(list@[k + 1] == w);
                }
            }
        }
    }
}

/// All nonzero period values that occur anywhere in the module, in
/// ascending order without duplicates.
pub fn used_periods(module: &Module) -> (periods: Vec<u16>)
    requires
        module.wf(),
    ensures
        forall|k1: int, k2: int| 0 <= k1 < k2 < periods@.len() ==> periods@[k1] < periods@[k2],
        forall|v: u16|
            #[trigger] periods@.contains(v) <==> (v != 0 && module_has_period(module@, v)),
{
    let ghost mv = module@;
    let mut periods: Vec<u16> = Vec::new();
    let n = module.patterns.len();
    let mut p: usize = 0;
    while p < n
        invariant
            mv == module@,
            n == mv.patterns.len(),
            p <= n,
            forall|k1: int, k2: int| 0 <= k1 < k2 < periods@.len() ==> periods@[k1] < periods@[k2],
            forall|v: u16|
                #[trigger] periods@.contains(v) <==> (v != 0 && exists|pp: int|
                    0 <= pp < p && pattern_has_period(mv.patterns[pp], v)),
        decreases n - p,
    {
        let pattern = &module.patterns[p];
        let ghost pv = pattern@;
        proof {
            assert(pv == mv.patterns[p as int]);
        }
        let mut r: usize = 0;
        while r < pattern.rows.len()
            invariant
                mv == module@,
                pv == pattern@,
                pv == mv.patterns[p as int],
                n == mv.patterns.len(),
                p < n,
                pv.len() == pattern.rows@.len(),
                r <= pattern.rows.len(),
                forall|k1: int, k2: int|
                    0 <= k1 < k2 < periods@.len() ==> periods@[k1] < periods@[k2],
                forall|v: u16|
                    #[trigger] periods@.contains(v) <==> (v != 0 && (exists|pp: int|
                        0 <= pp < p && pattern_has_period(mv.patterns[pp], v) || exists|rr: int|
                        0 <= rr < r && row_has_period(pv[rr], v))),
            decreases pattern.rows.len() - r,
        {
            let row = &pattern.rows[r];
            let ghost rv = row@;
            proof {
                assert(rv == pv[r as int]);
            }
            let mut c: usize = 0;
            while c < row.channels.len()
                invariant
                    mv == module@,
                    pv == mv.patterns[p as int],
                    rv == row@,
                    rv == pv[r as int],
                    n == mv.patterns.len(),
                    p < n,
                    r < pv.len(),
                    rv.len() == row.channels@.len(),
                    c <= row.channels.len(),
                    forall|k1: int, k2: int|
                        0 <= k1 < k2 < periods@.len() ==> periods@[k1] < periods@[k2],
                    forall|v: u16|
                        #[trigger] periods@.contains(v) <==> (v != 0 && (exists|pp: int|
                            0 <= pp < p && pattern_has_period(mv.patterns[pp], v) || exists|rr: int|
                            0 <= rr < r && row_has_period(pv[rr], v) || exists|cc: int|
                            0 <= cc < c && rv[cc].period == v)),
                decreases row.channels.len() - c,
            {
                let ghost pre = periods@;
                let value = row.channels[c].period;
                if value > 0 {
                    sorted_insert(&mut periods, value);
                }
                proof {
                    assert forall|v: u16| #[trigger] periods@.contains(v) implies (v != 0 && (exists|
                        pp: int,
                    |
                        0 <= pp < p && pattern_has_period(mv.patterns[pp], v) || exists|rr: int|
                        0 <= rr < r && row_has_period(pv[rr], v) || exists|cc: int|
                        0 <= cc < c + 1 && rv[cc].period == v)) by {
                        if value > 0 && v == value {
                            assert(rv[c as int].period == v);
                        } else {
                            assert(pre.contains(v));
                        }
                    }
                    assert forall|v: u16|
                        v != 0 && (exists|pp: int|
                            0 <= pp < p && pattern_has_period(mv.patterns[pp], v) || exists|rr: int|
                            0 <= rr < r && row_has_period(pv[rr], v) || exists|cc: int|
                            0 <= cc < c + 1 && rv[cc].period == v) implies #[trigger] periods@.contains(
                        v,
                    ) by {
                        if exists|cc: int| 0 <= cc < c + 1 && rv[cc].period == v {
                            let cc = choose|cc: int| 0 <= cc < c + 1 && rv[cc].period == v;
                            if cc < c {
                                assert(pre.contains(v));
                            } else {
                                assert(v == value);
                            }
                        } else {
                            assert(pre.contains(v));
                        }
                    }
                }
                c += 1;
            }
            proof {
                assert forall|v: u16| #[trigger] periods@.contains(v) implies (v != 0 && (exists|
                    pp: int,
                |
                    0 <= pp < p && pattern_has_period(mv.patterns[pp], v) || exists|rr: int|
                    0 <= rr < r + 1 && row_has_period(pv[rr], v))) by {
                    if exists|cc: int| 0 <= cc < rv.len() && rv[cc].period == v {
                        assert(row_has_period(pv[r as int], v));
                    }
                }
                assert forall|v: u16|
                    v != 0 && (exists|pp: int|
                        0 <= pp < p && pattern_has_period(mv.patterns[pp], v) || exists|rr: int|
                        0 <= rr < r + 1 && row_has_period(pv[rr], v)) implies #[trigger] periods@.contains(
                    v,
                ) by {
                    if exists|rr: int| 0 <= rr < r + 1 && row_has_period(pv[rr], v) {
                        let rr = choose|rr: int| 0 <= rr < r + 1 && row_has_period(pv[rr], v);
                        if rr == r {
                            let cc = choose|cc: int| 0 <= cc < rv.len() && rv[cc].period == v;
                            assert(0 <= cc < rv.len() && rv[cc].period == v);
                        }
                    }
                }
            }
            r += 1;
        }
        proof {
            assert forall|v: u16| #[trigger] periods@.contains(v) implies (v != 0 && exists|pp: int|
                0 <= pp < p + 1 && pattern_has_period(mv.patterns[pp], v)) by {
                if exists|rr: int| 0 <= rr < pv.len() && row_has_period(pv[rr], v) {
                    assert(pattern_has_period(mv.patterns[p as int], v));
                }
            }
            assert forall|v: u16|
                v != 0 && (exists|pp: int|
                    0 <= pp < p + 1 && pattern_has_period(
                        mv.patterns[pp],
                        v,
                    )) implies #[trigger] periods@.contains(v) by {
                let pp = choose|pp: int| 0 <= pp < p + 1 && pattern_has_period(mv.patterns[pp], v);
                if pp == p {
                    let rr = choose|rr: int| 0 <= rr < pv.len() && row_has_period(pv[rr], v);
                    assert(0 <= rr < pv.len() && row_has_period(pv[rr], v));
                }
            }
        }
        p += 1;
    }
    periods
}

} // verus!
