//! Equal-tempered note quantizer.
//!
//! Frequencies are exact integers in `1 / UNITS_PER_HZ` Hz. With the note table
//! held in centihertz at octave 4, the reference frequency of a note at octave
//! `o` is `base * 2^o` units, so all 96 candidates are exact.
use vstd::prelude::*;

verus! {

/// Frequency units per hertz.
pub const UNITS_PER_HZ: u64 = 1600;

/// Number of chromatic notes in the table.
pub const NOTES_PER_OCTAVE: usize = 12;

/// Number of candidates searched, octave-major then note-minor.
pub const CANDIDATES: usize = 96;

/// Reference frequency of `note` at octave 4, in centihertz.
pub open spec fn base_centihertz(note: int) -> int {
    if note == 0 {
        26163
    } else if note == 1 {
        27718
    } else if note == 2 {
        29366
    } else if note == 3 {
        31113
    } else if note == 4 {
        32963
    } else if note == 5 {
        34923
    } else if note == 6 {
        36999
    } else if note == 7 {
        39200
    } else if note == 8 {
        41530
    } else if note == 9 {
        44000
    } else if note == 10 {
        46616
    } else {
        49388
    }
}

/// The name of `note`, as characters.
pub open spec fn note_name(note: int) -> Seq<char> {
    if note == 0 {
        seq!['C']
    } else if note == 1 {
        seq!['C', '#']
    } else if note == 2 {
        seq!['D']
    } else if note == 3 {
        seq!['D', '#']
    } else if note == 4 {
        seq!['E']
    } else if note == 5 {
        seq!['F']
    } else if note == 6 {
        seq!['F', '#']
    } else if note == 7 {
        seq!['G']
    } else if note == 8 {
        seq!['G', '#']
    } else if note == 9 {
        seq!['A']
    } else if note == 10 {
        seq!['A', '#']
    } else {
        seq!['B']
    }
}

/// The label of a note at an octave: its name followed by the octave number.
pub open spec fn label_of(note: int, octave: int) -> Seq<char> {
    note_name(note) + seq![octave_digit(octave)]
}

/// The decimal digit of an octave number below ten.
pub open spec fn octave_digit(octave: int) -> char {
    if octave == 0 {
        '0'
    } else if octave == 1 {
        '1'
    } else if octave == 2 {
        '2'
    } else if octave == 3 {
        '3'
    } else if octave == 4 {
        '4'
    } else if octave == 5 {
        '5'
    } else if octave == 6 {
        '6'
    } else if octave == 7 {
        '7'
    } else if octave == 8 {
        '8'
    } else {
        '9'
    }
}

pub open spec fn pow2(n: nat) -> nat
    decreases n,
{
    if n == 0 {
        1
    } else {
        2 * pow2((n - 1) as nat)
    }
}

/// Frequency, in units, of the note at `octave` (0..8) and `note` (0..12).
pub open spec fn note_frequency(octave: int, note: int) -> int {
    base_centihertz(note) * pow2(octave as nat)
}

/// Frequency, in units, of candidate `i` of the octave-major scan.
pub open spec fn candidate(i: int) -> int {
    note_frequency(i / 12, i % 12)
}

pub open spec fn distance(a: int, b: int) -> int {
    if a >= b {
        a - b
    } else {
        b - a
    }
}

/// Candidate `i` is the nearest to `freq`, and the first such in the scan.
pub open spec fn is_nearest(freq: int, i: int) -> bool {
    &&& 0 <= i < 96
    &&& forall|j: int| 0 <= j < 96 ==> distance(freq, candidate(i)) <= #[trigger] distance(freq, candidate(j))
    &&& forall|j: int| 0 <= j < i ==> distance(freq, candidate(i)) < #[trigger] distance(freq, candidate(j))
}

/// A note of the table at one octave.
#[derive(Clone, Copy, Debug, PartialEq, Eq, Structural)]
pub struct NoteMatch {
    /// Index into the chromatic table, `C` = 0 through `B` = 11.
    pub note: usize,
    /// Octave number, 0 through 7.
    pub octave: u32,
    /// Reference frequency of this note at this octave, in units.
    pub frequency: u64,
}

impl NoteMatch {
    pub open spec fn index(&self) -> int {
        12 * self.octave + self.note
    }

    pub open spec fn wf(&self) -> bool {
        &&& self.note < 12
        &&& self.octave < 8
        &&& self.frequency == note_frequency(self.octave as int, self.note as int)
    }

    /// The label of this note: its name followed by its octave number, as in `A4`.
    pub fn label(&self) -> (r: String)
        requires
            self.wf(),
        ensures
            r@ == label_of(self.note as int, self.octave as int),
    {
        let mut s = name_of(self.note);
        let digit = digit_str(self.octave);
        s.append(digit);
        s
    }
}

/// Reference frequency of `note` at octave 4, in centihertz.
pub fn base_frequency(note: usize) -> (r: u64)
    requires
        note < 12,
    ensures
        r == base_centihertz(note as int),
{
    match note {
        0 => 26163,
        1 => 27718,
        2 => 29366,
        3 => 31113,
        4 => 32963,
        5 => 34923,
        6 => 36999,
        7 => 39200,
        8 => 41530,
        9 => 44000,
        10 => 46616,
        _ => 49388,
    }
}

/// The name of `note` as a string.
pub fn name_of(note: usize) -> (r: String)
    requires
        note < 12,
    ensures
        r@ == note_name(note as int),
{
    let s: &str = match note {
        0 => "C",
        1 => "C#",
        2 => "D",
        3 => "D#",
        4 => "E",
        5 => "F",
        6 => "F#",
        7 => "G",
        8 => "G#",
        9 => "A",
        10 => "A#",
        _ => "B",
    };
    proof {
        reveal_strlit("C");
        reveal_strlit("C#");
        reveal_strlit("D");
        reveal_strlit("D#");
        reveal_strlit("E");
        reveal_strlit("F");
        reveal_strlit("F#");
        reveal_strlit("G");
        reveal_strlit("G#");
        reveal_strlit("A");
        reveal_strlit("A#");
        reveal_strlit("B");
        assert(s@ =~= note_name(note as int));
    }
    String::from_str(s)
}

fn digit_str(octave: u32) -> (r: &'static str)
    ensures
        r@ == seq![octave_digit(octave as int)],
{
    let s: &str = match octave {
        0 => "0",
        1 => "1",
        2 => "2",
        3 => "3",
        4 => "4",
        5 => "5",
        6 => "6",
        7 => "7",
        8 => "8",
        _ => "9",
    };
    proof {
        reveal_strlit("0");
        reveal_strlit("1");
        reveal_strlit("2");
        reveal_strlit("3");
        reveal_strlit("4");
        reveal_strlit("5");
        reveal_strlit("6");
        reveal_strlit("7");
        reveal_strlit("8");
        reveal_strlit("9");
        assert(s@ =~= seq![octave_digit(octave as int)]);
    }
    s
}

/// `2^octave`, for the octaves searched.
fn octave_factor(octave: u32) -> (r: u64)
    requires
        octave < 8,
    ensures
        r == pow2(octave as nat),
{
    proof {
        reveal_with_fuel(pow2, 8);
    }
    match octave {
        0 => 1,
        1 => 2,
        2 => 4,
        3 => 8,
        4 => 16,
        5 => 32,
        6 => 64,
        _ => 128,
    }
}

/// The table's note at `octave` and `note`, with its reference frequency.
pub fn note_at(octave: u32, note: usize) -> (r: NoteMatch)
    requires
        octave < 8,
        note < 12,
    ensures
        r.wf(),
        r.octave == octave,
        r.note == note,
{
    let base = base_frequency(note);
    let factor = octave_factor(octave);
    proof {
        lemma_pow2_bound(octave as nat);
        assert(base * factor <= 49388 * 128) by (nonlinear_arith)
            requires
                base <= 49388,
                factor <= 128,
        ;
    }
    NoteMatch { note, octave, frequency: base * factor }
}

fn abs_diff(a: u64, b: u64) -> (r: u64)
    ensures
        r == distance(a as int, b as int),
{
    if a >= b {
        a - b
    } else {
        b - a
    }
}

/// The note nearest to `freq` (in units), searching octaves 0 through 7 and
/// all twelve notes, octave-major; of equally near notes the first found wins.
/// A frequency that is not positive has no note.
pub fn nearest_note(freq: i64) -> (r: Option<NoteMatch>)
    ensures
        r is Some <==> freq > 0,
        r matches Some(m) ==> m.wf() && is_nearest(freq as int, m.index()),
{
    if freq <= 0 {
        return None;
    }
    let f = freq as u64;
    let mut best = note_at(0, 0);
    let mut best_diff = abs_diff(f, best.frequency);
    let mut k: usize = 1;
    while k < CANDIDATES
        invariant
            1 <= k <= 96,
            f == freq,
            best.wf(),
            best.index() < k,
            best_diff == distance(f as int, candidate(best.index())),
            forall|j: int| 0 <= j < k ==> best_diff <= #[trigger] distance(f as int, candidate(j)),
            forall|j: int|
                0 <= j < best.index() ==> best_diff < #[trigger] distance(f as int, candidate(j)),
        decreases 96 - k,
    {
        let octave = (k / NOTES_PER_OCTAVE) as u32;
        let note = k % NOTES_PER_OCTAVE;
        let cand = note_at(octave, note);
        assert(cand.index() == k);
        let diff = abs_diff(f, cand.frequency);
        if diff < best_diff {
            best = cand;
            best_diff = diff;
        }
        k = k + 1;
    }
    Some(best)
}

proof fn lemma_pow2_bound(n: nat)
    requires
        n < 8,
    ensures
        1 <= pow2(n) <= 128,
{
    reveal_with_fuel(pow2, 8);
}

proof fn lemma_pow2_positive(n: nat)
    ensures
        pow2(n) >= 1,
    decreases n,
{
    if n > 0 {
        lemma_pow2_positive((n - 1) as nat);
    }
}

proof fn lemma_candidate_step(i: int)
    requires
        0 <= i < 95,
    ensures
        candidate(i) < candidate(i + 1),
{
    let p = pow2((i / 12) as nat);
    lemma_pow2_positive((i / 12) as nat);
    if i % 12 < 11 {
        assert((i + 1) / 12 == i / 12 && (i + 1) % 12 == i % 12 + 1);
        let a = base_centihertz(i % 12);
        let b = base_centihertz(i % 12 + 1);
        assert(a < b);
        assert(a * p < b * p) by (nonlinear_arith)
            requires
                a < b,
                p >= 1,
        ;
    } else {
        assert((i + 1) / 12 == i / 12 + 1 && (i + 1) % 12 == 0);
        assert(pow2(((i + 1) / 12) as nat) == 2 * p);
        assert(49388 * p < 26163 * (2 * p)) by (nonlinear_arith)
            requires
                p >= 1,
        ;
    }
}

/// The candidates rise strictly along the scan.
pub proof fn lemma_candidates_increasing(i: int, j: int)
    requires
        0 <= i < j < 96,
    ensures
        candidate(i) < candidate(j),
    decreases j - i,
{
    lemma_candidate_step(j - 1);
    if i < j - 1 {
        lemma_candidates_increasing(i, j - 1);
    }
}

/// At most one candidate is the first nearest to a frequency.
pub proof fn lemma_nearest_unique(freq: int, i: int, j: int)
    requires
        is_nearest(freq, i),
        is_nearest(freq, j),
    ensures
        i == j,
{
    if i < j {
        assert(distance(freq, candidate(j)) < distance(freq, candidate(i)));
    } else if j < i {
        assert(distance(freq, candidate(i)) < distance(freq, candidate(j)));
    }
}

/// Quantizing the reference frequency of any note of the table, at any octave
/// searched, gives back that very note and octave, at zero distance.
pub proof fn lemma_reference_round_trip(octave: int, note: int)
    requires
        0 <= octave < 8,
        0 <= note < 12,
    ensures
        is_nearest(note_frequency(octave, note), 12 * octave + note),
        forall|i: int| is_nearest(note_frequency(octave, note), i) ==> i == 12 * octave + note,
        distance(note_frequency(octave, note), candidate(12 * octave + note)) == 0,
{
    let k = 12 * octave + note;
    assert(k / 12 == octave && k % 12 == note);
    let f = note_frequency(octave, note);
    assert(candidate(k) == f);
    assert forall|j: int| 0 <= j < k implies distance(f, candidate(k)) < #[trigger] distance(
        f,
        candidate(j),
    ) by {
        lemma_candidates_increasing(j, k);
    }
    assert forall|i: int| is_nearest(f, i) implies i == k by {
        lemma_nearest_unique(f, i, k);
    }
}

/// Quantization keeps the order of frequencies: a higher frequency never
/// gives an earlier note of the scan, nor a lower octave.
pub proof fn lemma_nearest_monotonic(f1: int, f2: int, i1: int, i2: int)
    requires
        f1 <= f2,
        is_nearest(f1, i1),
        is_nearest(f2, i2),
    ensures
        i1 <= i2,
        i1 / 12 <= i2 / 12,
{
    if i2 < i1 {
        lemma_candidates_increasing(i2, i1);
        let lo = candidate(i2);
        let hi = candidate(i1);
        assert(distance(f1, hi) < distance(f1, lo));
        assert(distance(f2, lo) <= distance(f2, hi));
    }
}

} // verus!
