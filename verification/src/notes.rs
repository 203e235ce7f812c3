//! Period/note resolver: finds the nearest entry of the fixed hardware
//! period table for a raw pitch value and names the note it stands for.
use vstd::prelude::*;

verus! {

/// The sixty hardware period values: five octaves of twelve semitones,
/// lowest octave (highest periods) first.
pub open spec fn period_table() -> Seq<u16> {
    seq![
        1712u16,
        1616u16,
        1525u16,
        1440u16,
        1357u16,
        1281u16,
        1209u16,
        1141u16,
        1077u16,
        1017u16,
        961u16,
        907u16,
        856u16,
        808u16,
        762u16,
        720u16,
        678u16,
        640u16,
        604u16,
        570u16,
        538u16,
        508u16,
        480u16,
        453u16,
        428u16,
        404u16,
        381u16,
        360u16,
        339u16,
        320u16,
        302u16,
        285u16,
        269u16,
        254u16,
        240u16,
        226u16,
        214u16,
        202u16,
        190u16,
        180u16,
        170u16,
        160u16,
        151u16,
        143u16,
        135u16,
        127u16,
        120u16,
        113u16,
        107u16,
        101u16,
        95u16,
        90u16,
        85u16,
        80u16,
        76u16,
        71u16,
        67u16,
        64u16,
        60u16,
        57u16,
    ]
}

/// The name of semitone `i` within an octave.
pub open spec fn note_name_table(i: int) -> Seq<char> {
    if i == 0 {
        "C"@
    } else if i == 1 {
        "C#"@
    } else if i == 2 {
        "D"@
    } else if i == 3 {
        "D#"@
    } else if i == 4 {
        "E"@
    } else if i == 5 {
        "F"@
    } else if i == 6 {
        "F#"@
    } else if i == 7 {
        "G"@
    } else if i == 8 {
        "G#"@
    } else if i == 9 {
        "A"@
    } else if i == 10 {
        "A#"@
    } else {
        "B"@
    }
}

/// Relies on modfile's `ptmf::PERIODS`: the fixed table of sixty Amiga
/// period values, listed octave by octave from the lowest octave.
#[verifier::external_body]
fn periods() -> (r: Vec<u16>)
    ensures
        r@ == period_table(),
{
    modfile::ptmf::PERIODS.to_vec()
}

/// Relies on modfile's `ptmf::NOTE_NAMES`: the twelve semitone names
/// from C to B.
#[verifier::external_body]
fn note_name_of(index: usize) -> (r: &'static str)
    requires
        index < 12,
    ensures
        r@ == note_name_table(index as int),
{
    modfile::ptmf::NOTE_NAMES[index]
}

/// The distance between a queried period and a table entry.
pub open spec fn period_distance(period: u16, entry: u16) -> int {
    if period >= entry {
        period - entry
    } else {
        entry - period
    }
}

/// A resolved note: the table index of the nearest period, the semitone
/// and octave it stands for, its display name, and whether the match was
/// exact.
#[derive(Clone, Copy, PartialEq, Debug)]
pub struct NoteMatch {
    pub index: usize,
    pub semitone: u8,
    pub octave: u8,
    pub name: &'static str,
    pub exact: bool,
}

/// Resolves a raw period value against the period table: the nearest
/// entry wins, and on a tie the first (lowest-index, highest-period)
/// entry is kept. A period of zero carries no note and resolves to
/// nothing. With `use_spn` the octave is shifted so that the table's
/// octave 0 displays as octave 2 (scientific pitch notation).
pub fn resolve_note(period: u16, use_spn: bool) -> (res: Option<NoteMatch>)
    ensures
        res is None <==> period == 0,
        res matches Some(nm) ==> {
            &&& nm.index < 60
            &&& forall|k: int|
                0 <= k < 60 ==> period_distance(period, period_table()[nm.index as int])
                    <= period_distance(period, #[trigger] period_table()[k])
            &&& forall|k: int|
                0 <= k < nm.index ==> period_distance(period, #[trigger] period_table()[k])
                    > period_distance(period, period_table()[nm.index as int])
            &&& (nm.exact <==> period_table()[nm.index as int] == period)
            &&& nm.semitone as int == nm.index as int % 12
            &&& nm.octave as int == nm.index as int / 12 + (if use_spn {
                2int
            } else {
                0int
            })
            &&& nm.name@ == note_name_table(nm.semitone as int)
        },
{
    if period == 0 {
        return None;
    }
    let table = periods();
    let mut best: usize = 0;
    let mut best_diff: u16 = if period >= table[0] {
        period - table[0]
    } else {
        table[0] - period
    };
    let mut k: usize = 1;
    while k < 60
        invariant
            table@ == period_table(),
            table@.len() == 60,
            1 <= k <= 60,
            best < k,
            best_diff as int == period_distance(period, table@[best as int]),
            forall|j: int|
                0 <= j < k ==> best_diff as int <= period_distance(
                    period,
                    #[trigger] table@[j],
                ),
            forall|j: int|
                0 <= j < best ==> period_distance(period, #[trigger] table@[j]) > best_diff as int,
        decreases 60 - k,
    {
        let entry = table[k];
        let diff = if period >= entry {
            period - entry
        } else {
            entry - period
        };
        if diff < best_diff {
            best = k;
            best_diff = diff;
        }
        k += 1;
    }
    let semitone = (best % 12) as u8;
    let octave = (best / 12) as u8 + (if use_spn {
        2
    } else {
        0
    });
    let name = note_name_of(semitone as usize);
    Some(
        NoteMatch {
            index: best,
            semitone,
            octave,
            name,
            exact: best_diff == 0,
        },
    )
}

} // verus!
