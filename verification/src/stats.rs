//! Aggregate statistics: a running minimum / maximum / sum / count
//! accumulator over a scalar series, and the per-field summary over the
//! used samples of a module.
use vstd::prelude::*;

use crate::module::{Module, SampleData};

verus! {

/// A running accumulator; `done` must be called before `avg` is read.
#[derive(Clone, Copy, PartialEq, Eq, Structural, Debug)]
pub struct Stats {
    pub min: u32,
    pub max: u32,
    pub sum: usize,
    pub avg: usize,
    pub num_values: u32,
}

impl Stats {
    pub fn new() -> (s: Stats)
        ensures
            s == (Stats { min: u32::MAX, max: 0u32, sum: 0usize, avg: 0usize, num_values: 0u32 }),
    {
        Stats { min: u32::MAX, max: 0, sum: 0, avg: 0, num_values: 0 }
    }

    /// Feeds one value into the accumulator.
    pub fn update(&mut self, val: u32)
        requires
            old(self).sum + val <= usize::MAX,
            old(self).num_values < u32::MAX,
        ensures
            final(self).min == (if val < old(self).min {
                val
            } else {
                old(self).min
            }),
            final(self).max == (if val > old(self).max {
                val
            } else {
                old(self).max
            }),
            final(self).sum == old(self).sum + val,
            final(self).num_values == old(self).num_values + 1,
            final(self).avg == old(self).avg,
    {
        if val < self.min {
            self.min = val;
        }
        if val > self.max {
            self.max = val;
        }
        self.sum = self.sum + (val as usize);
        self.num_values = self.num_values + 1;
    }

    /// Computes the truncating average of everything fed in so far.
    pub fn done(&mut self)
        requires
            old(self).num_values > 0,
        ensures
            final(self).avg == old(self).sum as int / old(self).num_values as int,
            final(self).min == old(self).min,
            final(self).max == old(self).max,
            final(self).sum == old(self).sum,
            final(self).num_values == old(self).num_values,
    {
        self.avg = self.sum / (self.num_values as usize);
    }
}

/// A sample slot is in use when it holds any sample data.
pub open spec fn sample_in_use(s: SampleData) -> bool {
    s.length > 0
}

/// How many of the first `upto` sample slots are in use.
pub open spec fn used_sample_count(ss: Seq<SampleData>, upto: int) -> int
    decreases upto,
{
    if upto <= 0 {
        0
    } else {
        used_sample_count(ss, upto - 1) + if sample_in_use(ss[upto - 1]) {
            1int
        } else {
            0int
        }
    }
}

/// The smallest `f` value over the used slots among the first `upto`
/// (the accumulator's starting point when none is used).
pub open spec fn used_min(ss: Seq<SampleData>, upto: int, f: spec_fn(SampleData) -> u32) -> u32
    decreases upto,
{
    if upto <= 0 {
        u32::MAX
    } else {
        let rest = used_min(ss, upto - 1, f);
        if sample_in_use(ss[upto - 1]) && f(ss[upto - 1]) < rest {
            f(ss[upto - 1])
        } else {
            rest
        }
    }
}

/// The largest `f` value over the used slots among the first `upto`.
pub open spec fn used_max(ss: Seq<SampleData>, upto: int, f: spec_fn(SampleData) -> u32) -> u32
    decreases upto,
{
    if upto <= 0 {
        0u32
    } else {
        let rest = used_max(ss, upto - 1, f);
        if sample_in_use(ss[upto - 1]) && f(ss[upto - 1]) > rest {
            f(ss[upto - 1])
        } else {
            rest
        }
    }
}

/// The sum of `f` over the used slots among the first `upto`.
pub open spec fn used_sum(ss: Seq<SampleData>, upto: int, f: spec_fn(SampleData) -> u32) -> int
    decreases upto,
{
    if upto <= 0 {
        0
    } else {
        used_sum(ss, upto - 1, f) + if sample_in_use(ss[upto - 1]) {
            f(ss[upto - 1]) as int
        } else {
            0int
        }
    }
}

/// What one finished accumulator must hold for field `f` over the used
/// samples of `ss`.
pub open spec fn stats_of(st: Stats, ss: Seq<SampleData>, f: spec_fn(SampleData) -> u32) -> bool {
    let n = ss.len() as int;
    &&& st.min == used_min(ss, n, f)
    &&& st.max == used_max(ss, n, f)
    &&& st.sum == used_sum(ss, n, f)
    &&& st.num_values == used_sample_count(ss, n)
    &&& st.avg == used_sum(ss, n, f) / used_sample_count(ss, n)
}

/// The byte length of a sample (`length` counts 16-bit words).
pub open spec fn sample_byte_length(s: SampleData) -> u32 {
    (2 * s.length) as u32
}

pub open spec fn sample_finetune_value(s: SampleData) -> u32 {
    s.finetune as u32
}

pub open spec fn sample_volume_value(s: SampleData) -> u32 {
    s.volume as u32
}

pub open spec fn sample_repeat_start_bytes(s: SampleData) -> u32 {
    (2 * s.repeat_start) as u32
}

pub open spec fn sample_repeat_length_bytes(s: SampleData) -> u32 {
    (2 * s.repeat_length) as u32
}

/// The per-field summaries over the used samples of a module.
#[derive(Clone, Copy, PartialEq, Eq, Structural, Debug)]
pub struct SampleStats {
    pub length: Stats,
    pub finetune: Stats,
    pub volume: Stats,
    pub repeat_start: Stats,
    pub repeat_length: Stats,
}

/// How many samples of the module hold data.
pub fn count_used_samples(module: &Module) -> (count: usize)
    ensures
        count == used_sample_count(module@.samples, module@.samples.len() as int),
{
    let ghost ss = module@.samples;
    let mut count: usize = 0;
    let mut i: usize = 0;
    while i < module.sample_info.len()
        invariant
            ss == module@.samples,
            ss.len() == module.sample_info@.len(),
            i <= ss.len(),
            count == used_sample_count(ss, i as int),
            count <= i,
        decreases ss.len() - i,
    {
        proof {
            assert(module.sample_info@[i as int]@ == ss[i as int]);
        }
        if module.sample_info[i].length > 0 {
            count = count + 1;
        }
        i += 1;
    }
    count
}

/// Aggregates byte length, finetune, volume and the repeat fields over
/// the used samples. Yields nothing when no sample is in use (there is
/// no average to take).
pub fn sample_stats(module: &Module) -> (res: Option<SampleStats>)
    requires
        module.wf(),
    ensures
        res is None <==> used_sample_count(module@.samples, module@.samples.len() as int) == 0,
        res matches Some(st) ==> {
            &&& stats_of(st.length, module@.samples, |s: SampleData| sample_byte_length(s))
            &&& stats_of(st.finetune, module@.samples, |s: SampleData| sample_finetune_value(s))
            &&& stats_of(st.volume, module@.samples, |s: SampleData| sample_volume_value(s))
            &&& stats_of(st.repeat_start, module@.samples, |s: SampleData| sample_repeat_start_bytes(s))
            &&& stats_of(
                st.repeat_length,
                module@.samples,
                |s: SampleData| sample_repeat_length_bytes(s),
            )
        },
{
    let ghost ss = module@.samples;
    let mut length = Stats::new();
    let mut finetune = Stats::new();
    let mut volume = Stats::new();
    let mut repeat_start = Stats::new();
    let mut repeat_length = Stats::new();
    let mut i: usize = 0;
    while i < module.sample_info.len()
        invariant
            ss == module@.samples,
            ss.len() == module.sample_info@.len(),
            ss.len() <= 31,
            i <= ss.len(),
            length.min == used_min(ss, i as int, |s: SampleData| sample_byte_length(s)),
            length.max == used_max(ss, i as int, |s: SampleData| sample_byte_length(s)),
            length.sum == used_sum(ss, i as int, |s: SampleData| sample_byte_length(s)),
            length.num_values == used_sample_count(ss, i as int),
            length.avg == 0,
            finetune.min == used_min(ss, i as int, |s: SampleData| sample_finetune_value(s)),
            finetune.max == used_max(ss, i as int, |s: SampleData| sample_finetune_value(s)),
            finetune.sum == used_sum(ss, i as int, |s: SampleData| sample_finetune_value(s)),
            finetune.num_values == used_sample_count(ss, i as int),
            finetune.avg == 0,
            volume.min == used_min(ss, i as int, |s: SampleData| sample_volume_value(s)),
            volume.max == used_max(ss, i as int, |s: SampleData| sample_volume_value(s)),
            volume.sum == used_sum(ss, i as int, |s: SampleData| sample_volume_value(s)),
            volume.num_values == used_sample_count(ss, i as int),
            volume.avg == 0,
            repeat_start.min == used_min(ss, i as int, |s: SampleData| sample_repeat_start_bytes(s)),
            repeat_start.max == used_max(ss, i as int, |s: SampleData| sample_repeat_start_bytes(s)),
            repeat_start.sum == used_sum(ss, i as int, |s: SampleData| sample_repeat_start_bytes(s)),
            repeat_start.num_values == used_sample_count(ss, i as int),
            repeat_start.avg == 0,
            repeat_length.min == used_min(
                ss,
                i as int,
                |s: SampleData| sample_repeat_length_bytes(s),
            ),
            repeat_length.max == used_max(
                ss,
                i as int,
                |s: SampleData| sample_repeat_length_bytes(s),
            ),
            repeat_length.sum == used_sum(
                ss,
                i as int,
                |s: SampleData| sample_repeat_length_bytes(s),
            ),
            repeat_length.num_values == used_sample_count(ss, i as int),
            repeat_length.avg == 0,
        decreases ss.len() - i,
    {
        proof {
            assert(module.sample_info@[i as int]@ == ss[i as int]);
            lemma_used_count_bounds(ss, i as int);
            lemma_used_sum_bound(ss, i as int, |s: SampleData| sample_byte_length(s), 0x1fffe);
            lemma_used_sum_bound(ss, i as int, |s: SampleData| sample_finetune_value(s), 0xff);
            lemma_used_sum_bound(ss, i as int, |s: SampleData| sample_volume_value(s), 0xff);
            lemma_used_sum_bound(ss, i as int, |s: SampleData| sample_repeat_start_bytes(s), 0x1fffe);
            lemma_used_sum_bound(
                ss,
                i as int,
                |s: SampleData| sample_repeat_length_bytes(s),
                0x1fffe,
            );
        }
        let sample = &module.sample_info[i];
        if sample.length > 0 {
            length.update(sample.length as u32 * 2);
            finetune.update(sample.finetune as u32);
            volume.update(sample.volume as u32);
            repeat_start.update(sample.repeat_start as u32 * 2);
            repeat_length.update(sample.repeat_length as u32 * 2);
        }
        i += 1;
    }
    if length.num_values == 0 {
        return None;
    }
    length.done();
    finetune.done();
    volume.done();
    repeat_start.done();
    repeat_length.done();
    Some(SampleStats { length, finetune, volume, repeat_start, repeat_length })
}

proof fn lemma_used_count_bounds(ss: Seq<SampleData>, upto: int)
    ensures
        0 <= used_sample_count(ss, upto),
        used_sample_count(ss, upto) <= (if upto >= 0 {
            upto
        } else {
            0int
        }),
    decreases upto,
{
    if upto > 0 {
        lemma_used_count_bounds(ss, upto - 1);
    }
}

proof fn lemma_used_sum_bound(ss: Seq<SampleData>, upto: int, f: spec_fn(SampleData) -> u32, b: int)
    requires
        forall|s: SampleData| #[trigger] f(s) <= b,
        0 <= b,
    ensures
        0 <= used_sum(ss, upto, f),
        used_sum(ss, upto, f) <= (if upto >= 0 {
            upto * b
        } else {
            0int
        }),
    decreases upto,
{
    if upto > 0 {
        lemma_used_sum_bound(ss, upto - 1, f, b);
        assert((upto - 1) * b + b == upto * b) by (nonlinear_arith);
    }
}

} // verus!
