//! Fixed tables of the renderer: the default timing group, beat snaps and judgements.

use vstd::prelude::*;

verus! {

/// Identifier of the timing group that hit objects without a group belong to.
pub const DEFAULT_TIMING_GROUP_ID: &'static str = "$Default";

/// Number of beat snaps, from the 1st down to the 48th (the fallback).
pub const BEAT_SNAP_COUNT: usize = 9;

/// Divisor of the `i`-th beat snap: a note `k` 48ths of a beat after its timing point
/// has that snap when `k` is a multiple of the divisor (1st, 2nd, 3rd, 4th, 6th, 8th,
/// 12th, 16th, and 48th as the fallback).
pub open spec fn beat_snap_divisor_spec(i: int) -> u32 {
    if i == 0 {
        48
    } else if i == 1 {
        24
    } else if i == 2 {
        16
    } else if i == 3 {
        12
    } else if i == 4 {
        8
    } else if i == 5 {
        6
    } else if i == 6 {
        4
    } else if i == 7 {
        3
    } else {
        1
    }
}

/// Divisor of the `i`-th beat snap.
pub fn beat_snap_divisor(i: usize) -> (d: u32)
    requires
        i < BEAT_SNAP_COUNT,
    ensures
        d == beat_snap_divisor_spec(i as int),
        d > 0,
{
    match i {
        0 => 48,
        1 => 24,
        2 => 16,
        3 => 12,
        4 => 8,
        5 => 6,
        6 => 4,
        7 => 3,
        _ => 1,
    }
}

/// `r` is the snap of a note `index` 48ths of a beat after its timing point: the
/// first beat snap whose divisor divides `index`.
pub open spec fn is_snap_of(index: u32, r: int) -> bool {
    &&& 0 <= r < BEAT_SNAP_COUNT
    &&& index % beat_snap_divisor_spec(r) == 0
    &&& forall|k: int| 0 <= k < r ==> index % #[trigger] beat_snap_divisor_spec(k) != 0
}

/// Returns the beat snap of a note that lies `index` 48ths of a beat after its timing
/// point: the first snap whose divisor divides `index`, the 48th when none before does.
pub fn snap_index_for(index: u32) -> (r: usize)
    ensures
        is_snap_of(index, r as int),
{
    let mut i: usize = 0;
    while i < BEAT_SNAP_COUNT
        invariant
            i <= BEAT_SNAP_COUNT,
            forall|k: int| 0 <= k < i ==> index % #[trigger] beat_snap_divisor_spec(k) != 0,
        decreases BEAT_SNAP_COUNT - i,
    {
        if index % beat_snap_divisor(i) == 0 {
            return i;
        }
        i = i + 1;
    }
    // the last divisor is 1, which divides every index
    assert(index % beat_snap_divisor_spec(8) != 0);
    BEAT_SNAP_COUNT - 1
}

/// Every note has exactly one beat snap.
pub proof fn snap_is_unique(index: u32, r1: int, r2: int)
    requires
        is_snap_of(index, r1),
        is_snap_of(index, r2),
    ensures
        r1 == r2,
{
    if r1 < r2 {
        assert(index % beat_snap_divisor_spec(r1) != 0);
    } else if r2 < r1 {
        assert(index % beat_snap_divisor_spec(r2) != 0);
    }
}

/// How accurately a note was hit.
#[derive(Debug, Clone, Copy, PartialEq, Eq, Hash, Structural)]
pub enum JudgementType {
    Marvelous,
    Perfect,
    Great,
    Good,
    Okay,
    Miss,
}

/// The name a judgement is shown with.
pub open spec fn judgement_name(kind: JudgementType) -> Seq<char> {
    match kind {
        JudgementType::Marvelous => "Marvelous"@,
        JudgementType::Perfect => "Perfect"@,
        JudgementType::Great => "Great"@,
        JudgementType::Good => "Good"@,
        JudgementType::Okay => "Okay"@,
        JudgementType::Miss => "Miss"@,
    }
}

impl JudgementType {
    /// The name the judgement is shown with.
    pub fn to_string(&self) -> (s: String)
        ensures
            s@ == judgement_name(*self),
    {
        let name = match self {
            JudgementType::Marvelous => "Marvelous",
            JudgementType::Perfect => "Perfect",
            JudgementType::Great => "Great",
            JudgementType::Good => "Good",
            JudgementType::Okay => "Okay",
            JudgementType::Miss => "Miss",
        };
        String::from_str(name)
    }
}

} // verus!
