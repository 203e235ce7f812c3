//! Usecode calculator: a 32-bit capability mask describing which effect
//! families a module exercises, in the exact bit layout the playback
//! runtime expects: extended commands occupy a second bank of sixteen
//! flags, a bare command 0 is reported as command 8, and bit 0 flags any
//! nonzero finetune.
use vstd::prelude::*;

use crate::module::{Channel, Module, ModuleData, Pattern, Row};

verus! {

/// A cell carries a real command unless its whole effect field is zero
/// (the top nibble is not part of the 12-bit command and is ignored).
pub open spec fn effect_is_real(e: u16) -> bool {
    !((e & 0x0f00) >> 8 == 0 && (e & 0x00ff) == 0)
}

/// The flag slot an effect occupies: its command family 0x0 to 0xF, or
/// 16 plus the sub-family for extended (0xE) commands.
pub open spec fn effect_slot(e: u16) -> int {
    if (e & 0x0f00) >> 8 == 0xe {
        ((e & 0x00f0) >> 4) + 16
    } else {
        ((e & 0x0f00) >> 8) as int
    }
}

proof fn lemma_effect_slot_bounds(e: u16)
    ensures
        0 <= effect_slot(e) < 32,
{
    assert((e & 0x0f00) >> 8 < 16 && (e & 0x00f0) >> 4 < 16) by (bit_vector);
}

/// Some channel of the row carries a real effect in slot `f`.
pub open spec fn row_has_effect(chs: Seq<Channel>, f: int) -> bool {
    exists|c: int|
        0 <= c < chs.len() && effect_is_real(chs[c].effect) && effect_slot(chs[c].effect) == f
}

/// Some channel of the pattern carries a real effect in slot `f`.
pub open spec fn pattern_has_effect(p: Seq<Seq<Channel>>, f: int) -> bool {
    exists|r: int| 0 <= r < p.len() && row_has_effect(p[r], f)
}

/// Some channel anywhere in the module carries a real effect in slot `f`.
pub open spec fn effect_seen(m: ModuleData, f: int) -> bool {
    exists|p: int| 0 <= p < m.patterns.len() && pattern_has_effect(m.patterns[p], f)
}

/// Some sample has a nonzero finetune.
pub open spec fn finetune_used(m: ModuleData) -> bool {
    exists|s: int| 0 <= s < m.samples.len() && m.samples[s].finetune != 0
}

/// The bit the runtime reads at position `i` of the usecode.
pub open spec fn usecode_bit(m: ModuleData, i: int) -> bool {
    if i == 0 {
        finetune_used(m)
    } else if i == 8 {
        effect_seen(m, 8) || effect_seen(m, 0)
    } else {
        effect_seen(m, i)
    }
}

/// The flag slot `f` lands on in the usecode: the runtime reinterprets a
/// bare command 0 as command 8.
pub open spec fn mapped_slot(f: int) -> int {
    if f == 0 {
        8
    } else {
        f
    }
}

/// Some flag among the first `upto` maps onto usecode bit `b`.
spec fn acc_bit(flags: Seq<bool>, upto: int, b: int) -> bool {
    exists|f: int| 0 <= f < upto && flags[f] && mapped_slot(f) == b
}

proof fn lemma_or_shift_bit(x: u32, m: u32, b: u32)
    requires
        m < 32,
        b < 32,
    ensures
        (x | (1u32 << m)) >> b & 1 == (if b == m {
            1u32
        } else {
            x >> b & 1
        }),
{
    assert((x | (1u32 << m)) >> b & 1 == (if b == m {
        1u32
    } else {
        x >> b & 1
    })) by (bit_vector)
        requires
            m < 32,
            b < 32,
    ;
}

/// Marks the flag slot of every real effect in the row.
fn mark_row_effects(flags: &mut Vec<bool>, row: &Row)
    requires
        old(flags)@.len() == 32,
    ensures
        final(flags)@.len() == 32,
        forall|f: int|
            0 <= f < 32 ==> (#[trigger] final(flags)@[f] <==> old(flags)@[f] || row_has_effect(
                row@,
                f,
            )),
{
    let ghost g0 = flags@;
    let ghost rv = row@;
    let mut c: usize = 0;
    while c < row.channels.len()
        invariant
            g0 == old(flags)@,
            rv == row@,
            g0.len() == 32,
            flags@.len() == 32,
            c <= row.channels.len(),
            forall|f: int|
                0 <= f < 32 ==> (#[trigger] flags@[f] <==> g0[f] || row_has_effect(
                    rv.subrange(0, c as int),
                    f,
                )),
        decreases row.channels.len() - c,
    {
        let e = row.channels[c].effect;
        proof {
            lemma_effect_slot_bounds(e);
        }
        let family = (e & 0x0f00) >> 8;
        if !(family == 0 && (e & 0x00ff) == 0) {
            let slot: u16 = if family == 0xe {
                ((e & 0x00f0) >> 4) + 16
            } else {
                family
            };
            proof {
                assert(slot as int == effect_slot(e));
            }
            flags.set(slot as usize, true);
        }
        proof {
            let prefix = rv.subrange(0, c as int);
            let prefix1 = rv.subrange(0, c + 1 as int);
            assert(prefix1.drop_last() =~= prefix);
            assert(prefix1.last() == rv[c as int]);
            assert forall|f: int| 0 <= f < 32 implies (row_has_effect(prefix1, f) <==> (
            row_has_effect(prefix, f) || (effect_is_real(rv[c as int].effect) && effect_slot(
                rv[c as int].effect,
            ) == f))) by {
                if row_has_effect(prefix, f) {
                    let cc = choose|cc: int|
                        0 <= cc < prefix.len() && effect_is_real(prefix[cc].effect) && effect_slot(
                            prefix[cc].effect,
                        ) == f;
                    assert(effect_is_real(prefix1[cc].effect) && effect_slot(prefix1[cc].effect)
                        == f);
                }
                if effect_is_real(rv[c as int].effect) && effect_slot(rv[c as int].effect) == f {
                    assert(effect_is_real(prefix1[c as int].effect) && effect_slot(
                        prefix1[c as int].effect,
                    ) == f);
                }
                if row_has_effect(prefix1, f) && !(effect_is_real(rv[c as int].effect)
                    && effect_slot(rv[c as int].effect) == f) {
                    let cc = choose|cc: int|
                        0 <= cc < prefix1.len() && effect_is_real(prefix1[cc].effect)
                            && effect_slot(prefix1[cc].effect) == f;
                    assert(effect_is_real(prefix[cc].effect) && effect_slot(prefix[cc].effect)
                        == f);
                }
            }
        }
        c += 1;
    }
    proof {
        assert(rv.subrange(0, rv.len() as int) =~= rv);
    }
}

/// Marks the flag slot of every real effect in the pattern.
fn mark_pattern_effects(flags: &mut Vec<bool>, pattern: &Pattern)
    requires
        old(flags)@.len() == 32,
    ensures
        final(flags)@.len() == 32,
        forall|f: int|
            0 <= f < 32 ==> (#[trigger] final(flags)@[f] <==> old(flags)@[f] || pattern_has_effect(
                pattern@,
                f,
            )),
{
    let ghost g0 = flags@;
    let ghost pv = pattern@;
    let mut r: usize = 0;
    while r < pattern.rows.len()
        invariant
            g0 == old(flags)@,
            pv == pattern@,
            g0.len() == 32,
            flags@.len() == 32,
            r <= pattern.rows.len(),
            forall|f: int|
                0 <= f < 32 ==> (#[trigger] flags@[f] <==> g0[f] || pattern_has_effect(
                    pv.subrange(0, r as int),
                    f,
                )),
        decreases pattern.rows.len() - r,
    {
        let ghost pre = flags@;
        mark_row_effects(flags, &pattern.rows[r]);
        proof {
            assert(pattern.rows@[r as int]@ == pv[r as int]);
            assert forall|f: int| 0 <= f < 32 implies (#[trigger] flags@[f] <==> pre[f]
                || row_has_effect(pv[r as int], f)) by {}
            let prefix = pv.subrange(0, r as int);
            let prefix1 = pv.subrange(0, r + 1 as int);
            assert(prefix1.drop_last() =~= prefix);
            assert(prefix1.last() == pv[r as int]);
            assert forall|f: int| 0 <= f < 32 implies (pattern_has_effect(prefix1, f) <==> (
            pattern_has_effect(prefix, f) || row_has_effect(pv[r as int], f))) by {
                if pattern_has_effect(prefix, f) {
                    let rr = choose|rr: int| 0 <= rr < prefix.len() && row_has_effect(prefix[rr], f);
                    assert(row_has_effect(prefix1[rr], f));
                }
                if row_has_effect(pv[r as int], f) {
                    assert(row_has_effect(prefix1[r as int], f));
                }
                if pattern_has_effect(prefix1, f) && !row_has_effect(pv[r as int], f) {
                    let rr = choose|rr: int|
                        0 <= rr < prefix1.len() && row_has_effect(prefix1[rr], f);
                    assert(row_has_effect(prefix[rr], f));
                }
            }
        }
        r += 1;
    }
    proof {
        assert(pv.subrange(0, pv.len() as int) =~= pv);
    }
}

/// Whether any sample of the module has a nonzero finetune.
fn any_finetune(module: &Module) -> (r: bool)
    ensures
        r == finetune_used(module@),
{
    let mut s: usize = 0;
    while s < module.sample_info.len()
        invariant
            s <= module.sample_info.len(),
            forall|k: int| 0 <= k < s ==> module.sample_info@[k].finetune == 0,
        decreases module.sample_info.len() - s,
    {
        if module.sample_info[s].finetune != 0 {
            proof {
                assert(module@.samples[s as int].finetune != 0);
            }
            return true;
        }
        s += 1;
    }
    proof {
        assert forall|k: int| 0 <= k < module@.samples.len() implies module@.samples[k].finetune
            == 0 by {
            assert(module@.samples[k] == module.sample_info@[k]@);
        }
    }
    false
}

/// One flag per effect slot, true exactly when some note cell exercises
/// that slot.
pub fn effect_flags(module: &Module) -> (flags: Vec<bool>)
    requires
        module.wf(),
    ensures
        flags@.len() == 32,
        forall|f: int| 0 <= f < 32 ==> (#[trigger] flags@[f] <==> effect_seen(module@, f)),
{
    let ghost mv = module@;
    let mut flags: Vec<bool> = Vec::new();
    let mut f: usize = 0;
    while f < 32
        invariant
            flags@.len() == f,
            f <= 32,
            forall|k: int| 0 <= k < f ==> !flags@[k],
        decreases 32 - f,
    {
        flags.push(false);
        f += 1;
    }

    let mut p: usize = 0;
    while p < module.patterns.len()
        invariant
            mv == module@,
            module.wf(),
            flags@.len() == 32,
            p <= module.patterns.len(),
            forall|f: int|
                0 <= f < 32 ==> (#[trigger] flags@[f] <==> exists|pp: int|
                    0 <= pp < p && pattern_has_effect(mv.patterns[pp], f)),
        decreases module.patterns.len() - p,
    {
        let ghost pre = flags@;
        mark_pattern_effects(&mut flags, &module.patterns[p]);
        proof {
            assert(module.patterns@[p as int]@ == mv.patterns[p as int]);
            assert forall|f: int| 0 <= f < 32 implies (#[trigger] flags@[f] <==> pre[f]
                || pattern_has_effect(mv.patterns[p as int], f)) by {}
            assert forall|f: int| 0 <= f < 32 implies (#[trigger] flags@[f] <==> exists|pp: int|
                0 <= pp < p + 1 && pattern_has_effect(mv.patterns[pp], f)) by {
                if flags@[f] {
                    if pre[f] {
                        let pp = choose|pp: int|
                            0 <= pp < p && pattern_has_effect(mv.patterns[pp], f);
                        assert(0 <= pp < p + 1 && pattern_has_effect(mv.patterns[pp], f));
                    } else {
                        assert(pattern_has_effect(mv.patterns[p as int], f));
                    }
                }
                if exists|pp: int| 0 <= pp < p + 1 && pattern_has_effect(mv.patterns[pp], f) {
                    let pp = choose|pp: int|
                        0 <= pp < p + 1 && pattern_has_effect(mv.patterns[pp], f);
                    if pp < p {
                        assert(pre[f]);
                        assert(flags@[f]);
                    } else {
                        assert(pattern_has_effect(mv.patterns[p as int], f));
                        assert(flags@[f]);
                    }
                }
            }
        }
        p += 1;
    }

    assert forall|f: int| 0 <= f < 32 implies (#[trigger] flags@[f] <==> effect_seen(mv, f)) by {}
    flags
}

/// The usecode of a module: bit `i` is set exactly when the module
/// exercises the capability the runtime associates with bit `i`.
pub fn get_usecode(module: &Module) -> (usecode: u32)
    requires
        module.wf(),
    ensures
        forall|i: int|
            0 <= i < 32 ==> ((#[trigger] (usecode >> (i as u32))) & 1 == 1 <==> usecode_bit(
                module@,
                i,
            )),
{
    let ghost mv = module@;
    let flags = effect_flags(module);

    let mut usecode: u32 = 0;
    proof {
        assert forall|b: u32| b < 32 implies (0u32 >> b) & 1 == 0u32 by {
            assert((0u32 >> b) & 1 == 0u32) by (bit_vector);
        }
    }
    let mut i: usize = 0;
    while i < 32
        invariant
            flags@.len() == 32,
            forall|f: int| 0 <= f < 32 ==> (#[trigger] flags@[f] <==> effect_seen(mv, f)),
            i <= 32,
            forall|b: int|
                0 <= b < 32 ==> ((#[trigger] (usecode >> (b as u32))) & 1 == 1 <==> acc_bit(
                    flags@,
                    i as int,
                    b,
                )),
        decreases 32 - i,
    {
        let ghost pre = usecode;
        if flags[i] {
            let m: u32 = if i == 0 {
                8
            } else {
                i as u32
            };
            usecode = usecode | (1u32 << m);
            proof {
                assert(m == mapped_slot(i as int));
                assert forall|b: u32| b < 32 implies (usecode >> b) & 1 == (if b == m {
                    1u32
                } else {
                    (pre >> b) & 1
                }) by {
                    lemma_or_shift_bit(pre, m, b);
                }
            }
        }
        proof {
            assert forall|b: int| 0 <= b < 32 implies ((#[trigger] (usecode >> (b as u32))) & 1 == 1
                <==> acc_bit(flags@, i + 1 as int, b)) by {
                if acc_bit(flags@, i + 1 as int, b) {
                    let f = choose|f: int| 0 <= f < i + 1 && flags@[f] && mapped_slot(f) == b;
                    if f < i {
                        assert(acc_bit(flags@, i as int, b));
                    }
                    assert((usecode >> (b as u32)) & 1 == 1);
                }
                if (usecode >> (b as u32)) & 1 == 1 {
                    if flags@[i as int] && b == mapped_slot(i as int) {
                        assert(0 <= i < i + 1 && flags@[i as int] && mapped_slot(i as int) == b);
                    } else {
                        assert((pre >> (b as u32)) & 1 == 1);
                        let f = choose|f: int| 0 <= f < i && flags@[f] && mapped_slot(f) == b;
                        assert(0 <= f < i + 1 && flags@[f] && mapped_slot(f) == b);
                    }
                }
            }
        }
        i += 1;
    }

    let ft = any_finetune(module);
    let ghost pre = usecode;
    if ft {
        usecode = usecode | 1u32;
    }
    proof {
        if ft {
            assert forall|b: u32| b < 32 implies (usecode >> b) & 1 == (if b == 0 {
                1u32
            } else {
                (pre >> b) & 1
            }) by {
                lemma_or_shift_bit(pre, 0, b);
                assert(1u32 << 0u32 == 1u32) by (bit_vector);
            }
        }
        assert forall|i: int| 0 <= i < 32 implies ((#[trigger] (usecode >> (i as u32))) & 1 == 1
            <==> usecode_bit(mv, i)) by {
            if i == 0 {
                assert(!acc_bit(flags@, 32, 0)) by {
                    if acc_bit(flags@, 32, 0) {
                        let f = choose|f: int| 0 <= f < 32 && flags@[f] && mapped_slot(f) == 0;
                    }
                }
            } else if i == 8 {
                if acc_bit(flags@, 32, 8) {
                    let f = choose|f: int| 0 <= f < 32 && flags@[f] && mapped_slot(f) == 8;
                    assert(f == 0 || f == 8);
                }
                if effect_seen(mv, 8) {
                    assert(flags@[8] && mapped_slot(8) == 8);
                    assert(acc_bit(flags@, 32, 8));
                }
                if effect_seen(mv, 0) {
                    assert(flags@[0] && mapped_slot(0) == 8);
                    assert(acc_bit(flags@, 32, 8));
                }
            } else {
                if acc_bit(flags@, 32, i) {
                    let f = choose|f: int| 0 <= f < 32 && flags@[f] && mapped_slot(f) == i;
                    assert(f == i);
                }
                if effect_seen(mv, i) {
                    assert(flags@[i] && mapped_slot(i) == i);
                    assert(acc_bit(flags@, 32, i));
                }
            }
        }
    }
    usecode
}

} // verus!
