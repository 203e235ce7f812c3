//! Pattern merger: appends the patterns and play order of source modules
//! to a target module, offsetting each appended play-order entry by the
//! number of patterns the target held when that source was appended. In
//! sync mode every appended note cell is stripped down to the
//! transport-control effects the runtime needs to stay in step.
use vstd::prelude::*;

use crate::module::{Channel, Module, ModuleData, Pattern, Row};

verus! {

/// The merge capacity checks that can fail, each reporting the size the
/// module would have needed.
#[derive(Clone, Copy, PartialEq, Eq, Structural, Debug)]
pub enum MergeError {
    /// The combined play order would exceed the 128-entry position table.
    PositionTableFull { required: u16 },
    /// The combined pattern count would exceed what a byte-sized pattern
    /// index can address.
    PatternTableFull { required: u16 },
}

/// Effects that survive a sync merge: pattern loop (E8x), set speed
/// (Fxx), pattern break (Dxx) and position jump (Bxx), matched by the
/// same masks the runtime uses.
pub open spec fn effect_kept_in_sync(e: u16) -> bool {
    ||| (e & 0x0ff0) == 0x0e80
    ||| (e & 0x0f00) == 0x0f00
    ||| (e & 0x0d00) == 0x0d00
    ||| (e & 0x0b00) == 0x0b00
}

/// A note cell after a sync merge: pitch and instrument cleared, the
/// effect kept only when whitelisted.
pub open spec fn sync_channel(ch: Channel) -> Channel {
    Channel {
        period: 0,
        sample_number: 0,
        effect: if effect_kept_in_sync(ch.effect) {
            ch.effect
        } else {
            0
        },
    }
}

pub open spec fn sync_pattern(p: Seq<Seq<Channel>>) -> Seq<Seq<Channel>> {
    Seq::new(p.len(), |r: int| Seq::new(p[r].len(), |c: int| sync_channel(p[r][c])))
}

/// What one appended pattern looks like, with or without sync mode.
pub open spec fn merged_pattern(p: Seq<Seq<Channel>>, sync: bool) -> Seq<Seq<Channel>> {
    if sync {
        sync_pattern(p)
    } else {
        p
    }
}

/// The module that merging `s` into `t` produces.
pub open spec fn merge_one_data(t: ModuleData, s: ModuleData, sync: bool) -> ModuleData {
    ModuleData {
        name: t.name,
        length: (t.length + s.length) as u8,
        positions: Seq::new(
            t.positions.len(),
            |j: int|
                if t.length <= j < t.length + s.length {
                    (s.positions[j - t.length] + t.patterns.len()) as u8
                } else {
                    t.positions[j]
                },
        ),
        patterns: t.patterns + Seq::new(
            s.patterns.len(),
            |k: int| merged_pattern(s.patterns[k], sync),
        ),
        samples: t.samples,
    }
}

/// A copy of the pattern with every cell stripped for sync mode.
fn sync_pattern_exec(pattern: &Pattern) -> (res: Pattern)
    ensures
        res@ == sync_pattern(pattern@),
{
    let ghost pv = pattern@;
    let mut rows: Vec<Row> = Vec::new();
    let mut r: usize = 0;
    while r < pattern.rows.len()
        invariant
            pv == pattern@,
            pv.len() == pattern.rows@.len(),
            r <= pattern.rows.len(),
            rows@.len() == r,
            forall|rr: int| 0 <= rr < r ==> (#[trigger] rows@[rr])@.len() == pv[rr].len(),
            forall|rr: int, c: int|
                0 <= rr < r && 0 <= c < pv[rr].len() ==> (#[trigger] rows@[rr]@[c]) == sync_channel(
                    pv[rr][c],
                ),
        decreases pattern.rows.len() - r,
    {
        let src = &pattern.rows[r];
        let ghost rv = src@;
        let mut channels: Vec<Channel> = Vec::new();
        let mut c: usize = 0;
        while c < src.channels.len()
            invariant
                rv == src@,
                c <= src.channels.len(),
                channels@.len() == c,
                forall|cc: int|
                    0 <= cc < c ==> (#[trigger] channels@[cc]) == sync_channel(rv[cc]),
            decreases src.channels.len() - c,
        {
            let e = src.channels[c].effect;
            let keep = (e & 0x0ff0) == 0x0e80 || (e & 0x0f00) == 0x0f00 || (e & 0x0d00) == 0x0d00
                || (e & 0x0b00) == 0x0b00;
            let effect = if keep {
                e
            } else {
                0
            };
            channels.push(Channel { period: 0, sample_number: 0, effect });
            c += 1;
        }
        proof {
            assert(rv == pv[r as int]);
        }
        rows.push(Row { channels });
        r += 1;
    }
    let res = Pattern { rows };
    proof {
        assert(res@ =~~= sync_pattern(pv));
    }
    res
}

/// Merges one source module into the target: appends its patterns (sync
/// mode strips them first) and its active play order, each entry offset
/// by the pattern count the target had before. Fails, leaving the target
/// untouched, when the combined play order would not fit the position
/// table or the combined pattern count a byte-sized index.
pub fn merge_from(target: &mut Module, source: &Module, sync: bool) -> (r: Result<(), MergeError>)
    requires
        old(target).wf(),
        source.wf(),
    ensures
        r is Ok <==> (old(target)@.length + source@.length <= 128 && old(target)@.patterns.len()
            + source@.patterns.len() <= 255),
        old(target)@.length + source@.length > 128 ==> r == Err::<(), MergeError>(
            MergeError::PositionTableFull {
                required: (old(target)@.length + source@.length) as u16,
            },
        ) && final(target)@ == old(target)@,
        old(target)@.length + source@.length <= 128 && old(target)@.patterns.len()
            + source@.patterns.len() > 255 ==> r == Err::<(), MergeError>(
            MergeError::PatternTableFull {
                required: (old(target)@.patterns.len() + source@.patterns.len()) as u16,
            },
        ) && final(target)@ == old(target)@,
        r is Ok ==> final(target)@ == merge_one_data(old(target)@, source@, sync)
            && final(target).wf(),
{
    let ghost t0 = target@;
    let ghost sv = source@;
    let new_len: u16 = target.length as u16 + source.length as u16;
    if new_len > 128 {
        return Err(MergeError::PositionTableFull { required: new_len });
    }
    let pattern_total: u16 = target.patterns.len() as u16 + source.patterns.len() as u16;
    if pattern_total > 255 {
        return Err(MergeError::PatternTableFull { required: pattern_total });
    }

    let offset = target.patterns.len() as u8;
    let base = target.length as usize;

    // Append the source's patterns, stripped when in sync mode.
    let ghost porig = target.patterns@;
    let mut k: usize = 0;
    while k < source.patterns.len()
        invariant
            t0.wf(),
            sv.wf(),
            sv == source@,
            target@.name == t0.name,
            target@.length == t0.length,
            target@.positions == t0.positions,
            target@.samples == t0.samples,
            porig.len() == t0.patterns.len(),
            forall|i: int| 0 <= i < porig.len() ==> (#[trigger] porig[i])@ == t0.patterns[i],
            k <= source.patterns.len(),
            sv.patterns.len() == source.patterns@.len(),
            target.patterns@.len() == porig.len() + k,
            forall|i: int| 0 <= i < porig.len() ==> #[trigger] target.patterns@[i] == porig[i],
            forall|kk: int|
                0 <= kk < k ==> (#[trigger] target.patterns@[porig.len() + kk])@ == merged_pattern(
                    sv.patterns[kk],
                    sync,
                ),
        decreases source.patterns.len() - k,
    {
        let pat = if sync {
            sync_pattern_exec(&source.patterns[k])
        } else {
            source.patterns[k].clone()
        };
        proof {
            assert(source.patterns@[k as int]@ == sv.patterns[k as int]);
            assert(pat@ == merged_pattern(sv.patterns[k as int], sync));
        }
        target.patterns.push(pat);
        k += 1;
    }

    // Append the source's active play order, offset into the appended
    // patterns.
    let src_len = source.length as usize;
    let mut k: usize = 0;
    while k < src_len
        invariant
            t0.wf(),
            sv.wf(),
            sv == source@,
            target@.name == t0.name,
            target@.length == t0.length,
            target@.samples == t0.samples,
            src_len == sv.length as int,
            base == t0.length as int,
            base + src_len <= 128,
            offset as int == t0.patterns.len(),
            target@.patterns.len() == t0.patterns.len() + sv.patterns.len(),
            t0.patterns.len() + sv.patterns.len() <= 255,
            forall|i: int|
                0 <= i < t0.patterns.len() ==> #[trigger] target@.patterns[i] == t0.patterns[i],
            forall|kk: int|
                0 <= kk < sv.patterns.len() ==> #[trigger] target@.patterns[t0.patterns.len() + kk]
                    == merged_pattern(sv.patterns[kk], sync),
            target.positions@.len() == 128,
            k <= src_len,
            forall|j: int| 0 <= j < base ==> #[trigger] target.positions@[j] == t0.positions[j],
            forall|kk: int|
                0 <= kk < k ==> (#[trigger] target.positions@[base + kk]) as int == sv.positions[kk]
                    + t0.patterns.len(),
            forall|j: int| base + k <= j < 128 ==> #[trigger] target.positions@[j] == t0.positions[j],
        decreases src_len - k,
    {
        let entry = source.positions[k];
        proof {
            assert(entry == sv.positions[k as int]);
            assert((entry as int) < sv.patterns.len());
        }
        target.positions.set(base + k, entry + offset);
        k += 1;
    }
    target.length = new_len as u8;

    proof {
        let m1 = target@;
        let merged = merge_one_data(t0, sv, sync);
        let appended = Seq::new(sv.patterns.len(), |k: int| merged_pattern(sv.patterns[k], sync));
        assert forall|i: int| 0 <= i < t0.patterns.len() implies #[trigger] m1.patterns[i]
            == merged.patterns[i] by {
            assert(m1.patterns[i] == target.patterns@[i]@);
            assert(merged.patterns[i] == t0.patterns[i]);
        }
        assert forall|j: int|
            t0.patterns.len() <= j < t0.patterns.len() + sv.patterns.len() implies #[trigger] m1.patterns[j] == merged.patterns[j] by {
            let kk = j - t0.patterns.len();
            assert(target@.patterns[t0.patterns.len() + kk] == merged_pattern(
                sv.patterns[kk],
                sync,
            ));
            assert(merged.patterns[j] == appended[kk]);
        }
        assert(m1.patterns =~= merged.patterns);
        assert forall|j: int| 0 <= j < 128 implies #[trigger] m1.positions[j]
            == merged.positions[j] by {
            if t0.length <= j < t0.length + sv.length {
                let kk = j - base;
                assert((target.positions@[base + kk]) as int == sv.positions[kk]
                    + t0.patterns.len());
                assert(base + kk == j);
                assert((sv.positions[kk] as int) < sv.patterns.len());
            }
        }
        assert(m1.positions =~= merged.positions);
        assert(m1 =~= merged);
        assert forall|j: int| 0 <= j < m1.length implies (m1.positions[j] as int)
            < m1.patterns.len() by {
            if j < t0.length {
                assert(m1.positions[j] == t0.positions[j]);
            }
        }
    }
    Ok(())
}

/// A size clamped to what the error report can carry.
pub open spec fn clamp_u16(x: int) -> u16 {
    if x > 65535 {
        65535u16
    } else {
        x as u16
    }
}

/// The sum of the active play-order lengths of the first `upto` sources.
pub open spec fn sum_lengths(sources: Seq<Module>, upto: int) -> int
    decreases upto,
{
    if upto <= 0 {
        0
    } else {
        sum_lengths(sources, upto - 1) + sources[upto - 1]@.length
    }
}

/// The sum of the pattern counts of the first `upto` sources.
pub open spec fn sum_patterns(sources: Seq<Module>, upto: int) -> int
    decreases upto,
{
    if upto <= 0 {
        0
    } else {
        sum_patterns(sources, upto - 1) + sources[upto - 1]@.patterns.len()
    }
}

/// The module that merging every source into `t`, in order, produces.
pub open spec fn merged_data(t: ModuleData, sources: Seq<Module>, upto: int, sync: bool) -> ModuleData
    decreases upto,
{
    if upto <= 0 {
        t
    } else {
        merge_one_data(merged_data(t, sources, upto - 1, sync), sources[upto - 1]@, sync)
    }
}

proof fn lemma_sums_nonneg(sources: Seq<Module>, upto: int)
    ensures
        sum_lengths(sources, upto) >= 0,
        sum_patterns(sources, upto) >= 0,
    decreases upto,
{
    if upto > 0 {
        lemma_sums_nonneg(sources, upto - 1);
    }
}

proof fn lemma_merged_counts(t: ModuleData, sources: Seq<Module>, upto: int, sync: bool)
    requires
        0 <= upto,
        t.length + sum_lengths(sources, upto) <= 128,
        t.patterns.len() + sum_patterns(sources, upto) <= 255,
    ensures
        merged_data(t, sources, upto, sync).length == t.length + sum_lengths(sources, upto),
        merged_data(t, sources, upto, sync).patterns.len() == t.patterns.len() + sum_patterns(
            sources,
            upto,
        ),
        merged_data(t, sources, upto, sync).name == t.name,
        merged_data(t, sources, upto, sync).samples == t.samples,
    decreases upto,
{
    if upto > 0 {
        lemma_merged_counts(t, sources, upto - 1, sync);
    }
}

/// Merges every source module into the target, in order. The combined
/// play order and pattern count are checked up front: on failure the
/// target is left untouched and the required size is reported.
pub fn merge(target: &mut Module, sources: &Vec<Module>, sync: bool) -> (r: Result<
    (),
    MergeError,
>)
    requires
        old(target).wf(),
        forall|s: int| 0 <= s < sources@.len() ==> (#[trigger] sources@[s]).wf(),
    ensures
        r is Ok <==> (old(target)@.length + sum_lengths(sources@, sources@.len() as int) <= 128
            && old(target)@.patterns.len() + sum_patterns(sources@, sources@.len() as int) <= 255),
        old(target)@.length + sum_lengths(sources@, sources@.len() as int) > 128 ==> r == Err::<
            (),
            MergeError,
        >(
            MergeError::PositionTableFull {
                required: clamp_u16(
                    old(target)@.length + sum_lengths(sources@, sources@.len() as int),
                ),
            },
        ) && final(target)@ == old(target)@,
        old(target)@.length + sum_lengths(sources@, sources@.len() as int) <= 128 && old(
            target,
        )@.patterns.len() + sum_patterns(sources@, sources@.len() as int) > 255 ==> r == Err::<
            (),
            MergeError,
        >(
            MergeError::PatternTableFull {
                required: clamp_u16(
                    old(target)@.patterns.len() + sum_patterns(sources@, sources@.len() as int),
                ),
            },
        ) && final(target)@ == old(target)@,
        r is Ok ==> final(target)@ == merged_data(
            old(target)@,
            sources@,
            sources@.len() as int,
            sync,
        ) && final(target).wf() && final(target)@.length == old(target)@.length + sum_lengths(
            sources@,
            sources@.len() as int,
        ),
{
    let ghost t0 = target@;
    let ghost ss = sources@;
    let total = sources.len();

    // Up-front capacity checks over every source; the reported size is
    // clamped to what the error can carry.
    let mut len_sum: u32 = target.length as u32;
    let mut pat_sum: u32 = target.patterns.len() as u32;
    let mut s: usize = 0;
    while s < total
        invariant
            t0 == target@,
            target.wf(),
            ss == sources@,
            forall|i: int| 0 <= i < ss.len() ==> (#[trigger] ss[i]).wf(),
            total == ss.len(),
            s <= total,
            len_sum <= 65535,
            pat_sum <= 65535,
            len_sum == clamp_u16(t0.length + sum_lengths(ss, s as int)),
            pat_sum == clamp_u16(t0.patterns.len() + sum_patterns(ss, s as int)),
            (len_sum > 128) == (t0.length + sum_lengths(ss, s as int) > 128),
            (pat_sum > 255) == (t0.patterns.len() + sum_patterns(ss, s as int) > 255),
        decreases total - s,
    {
        proof {
            lemma_sums_nonneg(ss, s as int);
            assert(sources@[s as int]@.length <= 128);
            assert(sources@[s as int]@.patterns.len() <= 255);
        }
        let more_len = sources[s].length as u32;
        len_sum = if len_sum + more_len > 65535 {
            65535
        } else {
            len_sum + more_len
        };
        let more_pat = sources[s].patterns.len() as u32;
        pat_sum = if pat_sum + more_pat > 65535 {
            65535
        } else {
            pat_sum + more_pat
        };
        s += 1;
    }
    if len_sum > 128 {
        proof {
            lemma_sums_nonneg(ss, total as int);
        }
        return Err(MergeError::PositionTableFull { required: len_sum as u16 });
    }
    if pat_sum > 255 {
        return Err(MergeError::PatternTableFull { required: pat_sum as u16 });
    }

    let mut s: usize = 0;
    while s < total
        invariant
            t0.wf(),
            ss == sources@,
            forall|i: int| 0 <= i < ss.len() ==> (#[trigger] ss[i]).wf(),
            total == ss.len(),
            s <= total,
            t0.length + sum_lengths(ss, total as int) <= 128,
            t0.patterns.len() + sum_patterns(ss, total as int) <= 255,
            target@ == merged_data(t0, ss, s as int, sync),
            target.wf(),
        decreases total - s,
    {
        proof {
            lemma_sum_prefix_bounds(ss, s as int, total as int);
            lemma_merged_counts(t0, ss, s as int, sync);
        }
        let res = merge_from(target, &sources[s], sync);
        proof {
            lemma_sum_prefix_bounds(ss, s + 1 as int, total as int);
            assert(sources@[s as int]@ == ss[s as int]@);
            if res is Err {
                assert(false);
            }
        }
        s += 1;
    }
    proof {
        lemma_merged_counts(t0, ss, total as int, sync);
    }
    Ok(())
}

/// The partial sums never exceed the full sums.
proof fn lemma_sum_prefix_bounds(sources: Seq<Module>, a: int, b: int)
    requires
        0 <= a <= b,
    ensures
        sum_lengths(sources, a) <= sum_lengths(sources, b),
        sum_patterns(sources, a) <= sum_patterns(sources, b),
    decreases b - a,
{
    if a < b {
        lemma_sum_prefix_bounds(sources, a, b - 1);
    }
}

} // verus!
