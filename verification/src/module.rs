//! The in-memory model of a ProTracker module: patterns of note cells,
//! a play-order table, and sample descriptors.
use vstd::prelude::*;

verus! {

/// One note cell: a hardware pitch value, a 1-based sample number
/// (0 = none) and a 12-bit packed effect command.
#[derive(Clone, Copy, PartialEq, Eq, Structural, Debug)]
pub struct Channel {
    pub period: u16,
    pub sample_number: u8,
    pub effect: u16,
}

/// One time-step across all channels of a pattern.
#[derive(PartialEq, Debug)]
pub struct Row {
    pub channels: Vec<Channel>,
}

impl View for Row {
    type V = Seq<Channel>;

    open spec fn view(&self) -> Seq<Channel> {
        self.channels@
    }
}

impl Clone for Row {
    fn clone(&self) -> (res: Self)
        ensures
            res@ == self@,
    {
        let channels = self.channels.clone();
        proof {
            assert(channels@ =~= self.channels@);
        }
        Row { channels }
    }
}

/// A fixed grid of rows, playable as a unit.
#[derive(PartialEq, Debug)]
pub struct Pattern {
    pub rows: Vec<Row>,
}

impl View for Pattern {
    type V = Seq<Seq<Channel>>;

    open spec fn view(&self) -> Seq<Seq<Channel>> {
        Seq::new(self.rows@.len(), |i: int| self.rows@[i]@)
    }
}

impl Clone for Pattern {
    fn clone(&self) -> (res: Self)
        ensures
            res@ == self@,
    {
        let rows = self.rows.clone();
        proof {
            assert forall|i: int| 0 <= i < rows@.len() implies rows@[i]@ == self.rows@[i]@ by {
                assert(cloned::<Row>(self.rows@[i], rows@[i]));
            }
            assert(Seq::new(rows@.len(), |i: int| rows@[i]@) =~~= Seq::new(
                self.rows@.len(),
                |i: int| self.rows@[i]@,
            ));
        }
        Pattern { rows }
    }
}

/// The mathematical value of one sample descriptor.
#[verifier::ext_equal]
pub ghost struct SampleData {
    pub name: Seq<char>,
    pub length: u16,
    pub finetune: u8,
    pub volume: u8,
    pub repeat_start: u16,
    pub repeat_length: u16,
    pub data: Seq<u8>,
}

/// Descriptor of one instrument sample; `length` counts 16-bit words,
/// so the PCM byte count is `length * 2`.
#[derive(PartialEq, Debug)]
pub struct SampleInfo {
    pub name: String,
    pub length: u16,
    pub finetune: u8,
    pub volume: u8,
    pub repeat_start: u16,
    pub repeat_length: u16,
    pub data: Vec<u8>,
}

impl View for SampleInfo {
    type V = SampleData;

    open spec fn view(&self) -> SampleData {
        SampleData {
            name: self.name@,
            length: self.length,
            finetune: self.finetune,
            volume: self.volume,
            repeat_start: self.repeat_start,
            repeat_length: self.repeat_length,
            data: self.data@,
        }
    }
}

impl Clone for SampleInfo {
    fn clone(&self) -> (res: Self)
        ensures
            res@ == self@,
    {
        let data = self.data.clone();
        proof {
            assert(data@ =~= self.data@);
        }
        SampleInfo {
            name: self.name.clone(),
            length: self.length,
            finetune: self.finetune,
            volume: self.volume,
            repeat_start: self.repeat_start,
            repeat_length: self.repeat_length,
            data,
        }
    }
}

/// The mathematical value of a whole module.
#[verifier::ext_equal]
pub ghost struct ModuleData {
    pub name: Seq<char>,
    pub length: u8,
    pub positions: Seq<u8>,
    pub patterns: Seq<Seq<Seq<Channel>>>,
    pub samples: Seq<SampleData>,
}

/// A whole module: song name, the play order (`positions`, of which only
/// the first `length` entries are active), the patterns, and the sample
/// descriptors (slot `k` holds logical sample number `k + 1`).
#[derive(PartialEq, Debug)]
pub struct Module {
    pub name: String,
    pub length: u8,
    pub positions: Vec<u8>,
    pub patterns: Vec<Pattern>,
    pub sample_info: Vec<SampleInfo>,
}

impl View for Module {
    type V = ModuleData;

    open spec fn view(&self) -> ModuleData {
        ModuleData {
            name: self.name@,
            length: self.length,
            positions: self.positions@,
            patterns: Seq::new(self.patterns@.len(), |i: int| self.patterns@[i]@),
            samples: Seq::new(self.sample_info@.len(), |i: int| self.sample_info@[i]@),
        }
    }
}

impl ModuleData {
    /// Well-formedness: the play-order table has its fixed capacity of 128
    /// entries, the active prefix fits in it, every active entry addresses an
    /// existing pattern, pattern indices fit in a byte, and there are at most
    /// 31 sample slots.
    pub open spec fn wf(self) -> bool {
        &&& self.positions.len() == 128
        &&& self.length <= 128
        &&& self.patterns.len() <= 255
        &&& self.samples.len() <= 31
        &&& forall|j: int| 0 <= j < self.length ==> (self.positions[j] as int) < self.patterns.len()
    }
}

impl Module {
    pub open spec fn wf(&self) -> bool {
        self@.wf()
    }
}

impl Clone for Module {
    fn clone(&self) -> (res: Self)
        ensures
            res@ == self@,
    {
        let positions = self.positions.clone();
        let patterns = self.patterns.clone();
        let sample_info = self.sample_info.clone();
        proof {
            assert(positions@ =~= self.positions@);
            assert forall|i: int| 0 <= i < patterns@.len() implies #[trigger] patterns@[i]@
                == self.patterns@[i]@ by {
                assert(cloned::<Pattern>(self.patterns@[i], patterns@[i]));
            }
            assert forall|i: int| 0 <= i < sample_info@.len() implies #[trigger] sample_info@[i]@
                == self.sample_info@[i]@ by {
                assert(cloned::<SampleInfo>(self.sample_info@[i], sample_info@[i]));
            }
        }
        let res = Module {
            name: self.name.clone(),
            length: self.length,
            positions,
            patterns,
            sample_info,
        };
        proof {
            assert(res@.patterns =~~= self@.patterns);
            assert(res@.samples =~= self@.samples);
            assert(res@ =~= self@);
        }
        res
    }
}

/// A sample number supplied from outside the engine is meaningful only in
/// the range 1 to 31.
pub fn validate_sample_number(number: usize) -> (ok: bool)
    ensures
        ok <==> 1 <= number <= 31,
{
    1 <= number && number <= 31
}

} // verus!
