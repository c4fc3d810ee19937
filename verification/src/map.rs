//! The parts of a map that are plain values, and the rules of the map that work on
//! them: key counts, lanes, timing groups, beat snaps and position history.

use crate::constants::{snap_index_for, is_snap_of, DEFAULT_TIMING_GROUP_ID};
use crate::timing::{index_at_time, is_active_index, key_at, none_active, HasStartTime};
use std::collections::VecDeque;
use vstd::prelude::*;

verus! {

/// Anything representing a position on the track.
pub type Position = i64;

/// How many previous positions each hit object remembers.
pub const PREVIOUS_POSITION_COUNT: usize = 10;

/// Modifiers that change how a map is played.
#[derive(Debug, Clone)]
pub struct Mods {
    /// Mirror notes horizontally.
    pub mirror: bool,
    /// Ignore scroll velocities.
    pub no_sv: bool,
    /// Ignore scroll speed factors.
    pub no_ssf: bool,
}

impl Default for Mods {
    fn default() -> (m: Self)
        ensures
            !m.mirror && !m.no_sv && !m.no_ssf,
    {
        Mods { mirror: false, no_sv: false, no_ssf: false }
    }
}

/// Game mode of a map.
#[derive(Debug, Clone)]
pub enum GameMode {
    Keys4,
    Keys7,
}

impl Default for GameMode {
    fn default() -> (m: Self)
        ensures
            m is Keys4,
    {
        GameMode::Keys4
    }
}

/// A key sound played when a hit object is hit.
#[derive(Debug, Clone)]
pub struct KeySound {
    /// One-based index of the sample in the map's custom audio samples.
    pub sample: i32,
    /// Volume of the sample (100 by default).
    pub volume: i32,
}

/// Time signature of a timing point.
#[derive(Debug, Clone, Copy)]
pub enum TimeSignature {
    Quadruple,
    Triple,
}

impl TimeSignature {
    /// Beats in a measure under this signature.
    pub fn beats(&self) -> (b: u32)
        ensures
            b == (match self {
                TimeSignature::Quadruple => 4u32,
                TimeSignature::Triple => 3u32,
            }),
    {
        match self {
            TimeSignature::Quadruple => 4,
            TimeSignature::Triple => 3,
        }
    }
}

/// Beats in a measure of a timing point; four when it gives no signature.
pub fn measure_beats(signature: Option<TimeSignature>) -> (b: u32)
    ensures
        b == (match signature {
            Some(TimeSignature::Triple) => 3u32,
            _ => 4u32,
        }),
{
    match signature {
        Some(s) => s.beats(),
        None => 4,
    }
}

/// Errors of the map's rules.
#[derive(Debug, Clone, Copy, PartialEq, Eq, Structural)]
pub enum MapError {
    /// The default timing group is not among the map's timing groups.
    DefaultTimingGroupMissing,
    /// Beat snaps were asked for on a map without timing points.
    NoTimingPoints,
}

impl MapError {
    /// The message the error is reported with.
    pub fn message(&self) -> (s: String)
        ensures
            s@ == (match self {
                MapError::DefaultTimingGroupMissing => "Default timing group '$Default' not found"@,
                MapError::NoTimingPoints => "Cannot initialize beat snaps without timing points"@,
            }),
    {
        match self {
            MapError::DefaultTimingGroupMissing => String::from_str(
                "Default timing group '$Default' not found",
            ),
            MapError::NoTimingPoints => String::from_str(
                "Cannot initialize beat snaps without timing points",
            ),
        }
    }
}

/// Number of lanes of a game mode, without the scratch lane.
pub open spec fn mode_key_count(mode: GameMode) -> int {
    match mode {
        GameMode::Keys4 => 4,
        GameMode::Keys7 => 7,
    }
}

/// Returns the number of keys of a map in `mode`, counting the scratch key when the
/// map has one and `include_scratch` asks for it.
pub fn get_key_count(mode: &GameMode, has_scratch_key: bool, include_scratch: bool) -> (n: i64)
    ensures
        n == mode_key_count(*mode) + (if has_scratch_key && include_scratch { 1int } else { 0int }),
{
    let key_count: i64 = match mode {
        GameMode::Keys4 => 4,
        GameMode::Keys7 => 7,
    };
    if has_scratch_key && include_scratch {
        key_count + 1
    } else {
        key_count
    }
}

/// Zero-based column of a note in one-based `lane`, mirrored when `mirror` is set.
pub open spec fn lane_column(lane: int, num_lanes: int, mirror: bool) -> int {
    if mirror {
        num_lanes - lane
    } else {
        lane - 1
    }
}

/// Returns the zero-based column a note in one-based `lane` is drawn in, counted from
/// the right when notes are mirrored.
pub fn lane_index(lane: i64, num_lanes: i64, mirror: bool) -> (c: i64)
    requires
        mirror ==> i64::MIN <= num_lanes - lane <= i64::MAX,
        !mirror ==> lane > i64::MIN,
    ensures
        c == lane_column(lane as int, num_lanes as int, mirror),
        !mirror ==> c == lane - 1,
        mirror ==> c == num_lanes - lane,
{
    if mirror {
        num_lanes - lane
    } else {
        lane - 1
    }
}

/// Mirroring sends the note in lane `lane` to the column of lane `num_lanes + 1 - lane`,
/// and mirroring twice gives back the lane.
pub proof fn mirror_reflects_lanes(lane: int, num_lanes: int)
    ensures
        lane_column(lane, num_lanes, true) == lane_column(num_lanes + 1 - lane, num_lanes, false),
        lane_column(num_lanes + 1 - lane, num_lanes, true) == lane_column(lane, num_lanes, false),
        1 <= lane <= num_lanes ==> 0 <= lane_column(lane, num_lanes, true) < num_lanes,
{
}

/// Lanes are one-based and columns zero-based: without mirroring lane `l` is drawn in
/// column `l - 1`, the first lane leftmost and each lane one column right of the one
/// before; with mirroring the order is reversed, the last lane leftmost. Either way the
/// lanes of a map fill its columns `0..num_lanes`, one lane to a column.
pub proof fn lanes_fill_columns_in_order(num_lanes: int)
    ensures
        forall|l: int| 1 <= l <= num_lanes ==> #[trigger] lane_column(l, num_lanes, false) == l - 1,
        forall|l: int| 1 <= l <= num_lanes ==> #[trigger] lane_column(l, num_lanes, true) == num_lanes - l,
        forall|l: int, m: bool|
            1 <= l <= num_lanes ==> 0 <= #[trigger] lane_column(l, num_lanes, m) < num_lanes,
        forall|l1: int, l2: int|
            1 <= l1 < l2 <= num_lanes ==> #[trigger] lane_column(l1, num_lanes, false) + 1 <= #[trigger] lane_column(
                l2,
                num_lanes,
                false,
            ),
        forall|l1: int, l2: int|
            1 <= l1 < l2 <= num_lanes ==> #[trigger] lane_column(l1, num_lanes, true) > #[trigger] lane_column(
                l2,
                num_lanes,
                true,
            ),
        num_lanes >= 1 ==> lane_column(1, num_lanes, false) == 0 && lane_column(num_lanes, num_lanes, true) == 0,
        num_lanes >= 1 ==> lane_column(num_lanes, num_lanes, false) == num_lanes - 1 && lane_column(
            1,
            num_lanes,
            true,
        ) == num_lanes - 1,
{
}

/// Puts every hit object that names no timing group into the default group; those that
/// name one keep it.
pub fn assign_default_timing_groups(groups: &mut Vec<Option<String>>)
    ensures
        final(groups)@.len() == old(groups)@.len(),
        forall|k: int|
            0 <= k < old(groups)@.len() ==> match #[trigger] old(groups)@[k] {
                Some(g) => final(groups)@[k] == Some(g),
                None => final(groups)@[k] matches Some(d) && d@ == DEFAULT_TIMING_GROUP_ID@,
            },
{
    let n = groups.len();
    let mut k: usize = 0;
    while k < n
        invariant
            n == groups@.len(),
            n == old(groups)@.len(),
            k <= n,
            forall|j: int|
                0 <= j < n ==> match #[trigger] old(groups)@[j] {
                    Some(g) => groups@[j] == Some(g),
                    None => if j < k {
                        groups@[j] matches Some(d) && d@ == DEFAULT_TIMING_GROUP_ID@
                    } else {
                        groups@[j] is None
                    },
                },
        decreases n - k,
    {
        if groups[k].is_none() {
            groups[k] = Some(String::from_str(DEFAULT_TIMING_GROUP_ID));
        }
        k = k + 1;
    }
}

/// `r` is the timing point whose beat a note starting at `time` is snapped to: the one
/// active at that time, or the first when the note comes before every timing point.
pub open spec fn is_snap_timing_point<T: HasStartTime>(timing_points: Seq<T>, time: i64, r: int) -> bool {
    ||| is_active_index(timing_points, time, r)
    ||| (none_active(timing_points, time) && r == 0)
}

/// For each hit object, returns the index of the timing point whose beat it is snapped
/// to; fails when the map has no timing points.
pub fn beat_snap_timing_points<T: HasStartTime, U: HasStartTime>(
    timing_points: &[T],
    hit_objects: &[U],
) -> (r: Result<Vec<usize>, MapError>)
    ensures
        r is Err <==> timing_points@.len() == 0,
        r matches Err(e) ==> e == MapError::NoTimingPoints,
        r matches Ok(v) ==> {
            &&& v@.len() == hit_objects@.len()
            &&& forall|k: int|
                0 <= k < v@.len() ==> #[trigger] v@[k] < timing_points@.len()
                    && is_snap_timing_point(timing_points@, key_at(hit_objects@, k), v@[k] as int)
        },
{
    if timing_points.len() == 0 {
        return Err(MapError::NoTimingPoints);
    }
    let mut chosen: Vec<usize> = Vec::new();
    let mut k: usize = 0;
    while k < hit_objects.len()
        invariant
            k <= hit_objects@.len(),
            timing_points@.len() > 0,
            chosen@.len() == k,
            forall|j: int|
                0 <= j < k ==> #[trigger] chosen@[j] < timing_points@.len()
                    && is_snap_timing_point(timing_points@, key_at(hit_objects@, j), chosen@[j] as int),
        decreases hit_objects@.len() - k,
    {
        let t = hit_objects[k].start_time();
        let index = match index_at_time(timing_points, t) {
            Some(i) => i,
            None => 0,
        };
        chosen.push(index);
        k = k + 1;
    }
    Ok(chosen)
}

/// Returns, for each note, the beat snap of a note lying `indices[k]` 48ths of a beat
/// after its timing point.
pub fn beat_snaps(indices: &[u32]) -> (r: Vec<usize>)
    ensures
        r@.len() == indices@.len(),
        forall|k: int| 0 <= k < r@.len() ==> is_snap_of(indices@[k], #[trigger] r@[k] as int),
{
    let mut snaps: Vec<usize> = Vec::new();
    let mut k: usize = 0;
    while k < indices.len()
        invariant
            k <= indices@.len(),
            snaps@.len() == k,
            forall|j: int| 0 <= j < k ==> is_snap_of(indices@[j], #[trigger] snaps@[j] as int),
        decreases indices@.len() - k,
    {
        snaps.push(snap_index_for(indices[k]));
        k = k + 1;
    }
    snaps
}

/// The remembered positions of a hit object after `position` is recorded: the list is
/// filled up to its length with `position` first, `position` goes in front, and the
/// oldest entry is dropped.
pub open spec fn recorded_positions(previous: Seq<Position>, position: Position) -> Seq<Position> {
    let pad: int = if previous.len() < PREVIOUS_POSITION_COUNT {
        PREVIOUS_POSITION_COUNT - previous.len()
    } else {
        0
    };
    (Seq::new((pad + 1) as nat, |i: int| position) + previous).drop_last()
}

/// Records `position` in front of a hit object's previous positions, keeping at least
/// `PREVIOUS_POSITION_COUNT` of them.
pub fn record_previous_position(previous: &mut VecDeque<Position>, position: Position)
    ensures
        final(previous)@ == recorded_positions(old(previous)@, position),
{
    let ghost start = previous@;
    let ghost pad: int = if start.len() < PREVIOUS_POSITION_COUNT {
        PREVIOUS_POSITION_COUNT - start.len()
    } else {
        0
    };
    while previous.len() < PREVIOUS_POSITION_COUNT
        invariant
            start.len() <= previous@.len() <= start.len() + pad,
            previous@ == Seq::new((previous@.len() - start.len()) as nat, |i: int| position) + start,
            pad == (if start.len() < PREVIOUS_POSITION_COUNT {
                PREVIOUS_POSITION_COUNT - start.len()
            } else {
                0
            }),
            previous@.len() < PREVIOUS_POSITION_COUNT ==> previous@.len() < start.len() + pad,
        decreases PREVIOUS_POSITION_COUNT - previous@.len(),
    {
        previous.push_front(position);
        assert(previous@ =~= Seq::new((previous@.len() - start.len()) as nat, |i: int| position) + start);
    }
    previous.push_front(position);
    assert(previous@ =~= Seq::new((pad + 1) as nat, |i: int| position) + start);
    if previous.len() > PREVIOUS_POSITION_COUNT {
        previous.pop_back();
    }
}

/// After recording, a hit object remembers at least `PREVIOUS_POSITION_COUNT`
/// positions, exactly that many when it remembered no more before, the newest first.
pub proof fn recorded_positions_shape(previous: Seq<Position>, position: Position)
    ensures
        recorded_positions(previous, position).len() == if previous.len() < PREVIOUS_POSITION_COUNT {
            PREVIOUS_POSITION_COUNT as nat
        } else {
            previous.len()
        },
        recorded_positions(previous, position)[0] == position,
        previous.len() >= PREVIOUS_POSITION_COUNT ==> forall|i: int|
            1 <= i < previous.len() ==> #[trigger] recorded_positions(previous, position)[i]
                == previous[i - 1],
{
}

/// Sum of the first `k` entries of `s`.
pub open spec fn prefix_sum(s: Seq<Position>, k: int) -> int
    decreases k,
{
    if k <= 0 || k > s.len() {
        0
    } else {
        prefix_sum(s, k - 1) + s[k - 1]
    }
}

/// Returns the track position at the start of each scroll velocity point: the first
/// point sits at `first`, and each later one at the previous position plus the
/// distance travelled since it (`increments[k]` between point `k` and point `k + 1`).
pub fn cumulative_positions(first: Position, increments: &[Position]) -> (r: Vec<Position>)
    requires
        forall|k: int|
            0 <= k <= increments@.len() ==> i64::MIN <= first + #[trigger] prefix_sum(increments@, k)
                <= i64::MAX,
    ensures
        r@.len() == increments@.len() + 1,
        forall|k: int| 0 <= k < r@.len() ==> #[trigger] r@[k] == first + prefix_sum(increments@, k),
{
    let mut positions: Vec<Position> = Vec::new();
    let mut position: Position = first;
    positions.push(position);
    let mut k: usize = 0;
    while k < increments.len()
        invariant
            k <= increments@.len(),
            positions@.len() == k + 1,
            position == first + prefix_sum(increments@, k as int),
            forall|j: int| 0 <= j < positions@.len() ==> #[trigger] positions@[j] == first + prefix_sum(increments@, j),
            forall|j: int|
                0 <= j <= increments@.len() ==> i64::MIN <= first + #[trigger] prefix_sum(increments@, j)
                    <= i64::MAX,
        decreases increments@.len() - k,
    {
        assert(prefix_sum(increments@, k + 1) == prefix_sum(increments@, k as int) + increments@[k as int]);
        position = position + increments[k];
        positions.push(position);
        k = k + 1;
    }
    positions
}

/// Where a time falls among a timing group's scroll speed factor points.
#[derive(Debug, Clone, Copy, PartialEq, Eq, Structural)]
pub enum FactorSpan {
    /// Before the first point, or there are none: no factor applies.
    BeforeFirst,
    /// At or after the last point, the one given: its factor applies unchanged.
    Last(usize),
    /// Between the given point and the next: the factor moves from one to the other.
    Between(usize),
}

/// Returns where `time` falls among the scroll speed factor `points`: before them, on
/// the last one, or between an active point and the next.
pub fn scroll_speed_factor_span<T: HasStartTime>(points: &[T], time: i64) -> (r: FactorSpan)
    ensures
        r is BeforeFirst ==> none_active(points@, time),
        r matches FactorSpan::Last(i) ==> i + 1 == points@.len() && is_active_index(points@, time, i as int),
        r matches FactorSpan::Between(i) ==> i + 1 < points@.len() && is_active_index(points@, time, i as int),
        crate::timing::sorted_by_start_time(points@) ==> (r is BeforeFirst <==> none_active(points@, time)),
{
    match index_at_time(points, time) {
        None => FactorSpan::BeforeFirst,
        Some(i) => {
            if i == points.len() - 1 {
                FactorSpan::Last(i)
            } else {
                FactorSpan::Between(i)
            }
        },
    }
}

} // verus!
