//! Transport decisions: repeat modes, next/previous resolution, seeking and
//! volume arithmetic.

use vstd::prelude::*;

use crate::text::{ascii_lower_seq, chars_vec, lower_equals};
use rand::seq::IndexedRandom;

verus! {

/// Repeat mode.
#[derive(Debug, Clone, Copy, PartialEq, Eq, Structural)]
pub enum RepeatMode {
    Off,
    One,
    All,
}

/// The stored name of a repeat mode.
pub open spec fn spec_repeat_name(m: RepeatMode) -> Seq<char> {
    match m {
        RepeatMode::Off => "off"@,
        RepeatMode::One => "one"@,
        RepeatMode::All => "all"@,
    }
}

/// The repeat mode named by a word (case-insensitive); anything else is `Off`.
pub open spec fn spec_repeat_from_name(s: Seq<char>) -> RepeatMode {
    let l = ascii_lower_seq(s);
    if l == "one"@ {
        RepeatMode::One
    } else if l == "all"@ {
        RepeatMode::All
    } else {
        RepeatMode::Off
    }
}

/// The repeat mode that follows `m`.
pub open spec fn spec_repeat_next(m: RepeatMode) -> RepeatMode {
    match m {
        RepeatMode::Off => RepeatMode::One,
        RepeatMode::One => RepeatMode::All,
        RepeatMode::All => RepeatMode::Off,
    }
}

impl RepeatMode {
    /// The stored name of the mode.
    pub fn as_str(self) -> (r: &'static str)
        ensures
            r@ == spec_repeat_name(self),
    {
        match self {
            RepeatMode::Off => "off",
            RepeatMode::One => "one",
            RepeatMode::All => "all",
        }
    }

    /// The mode named by `s`, ignoring ASCII case; unknown names are `Off`.
    pub fn parse(s: &str) -> (r: Self)
        ensures
            r == spec_repeat_from_name(s@),
    {
        let v = chars_vec(s);
        if lower_equals(&v, "one") {
            RepeatMode::One
        } else if lower_equals(&v, "all") {
            RepeatMode::All
        } else {
            RepeatMode::Off
        }
    }

    /// The next mode in the cycle Off, One, All.
    pub fn cycle(self) -> (r: Self)
        ensures
            r == spec_repeat_next(self),
    {
        match self {
            RepeatMode::Off => RepeatMode::One,
            RepeatMode::One => RepeatMode::All,
            RepeatMode::All => RepeatMode::Off,
        }
    }

    /// The default mode.
    pub fn default_mode() -> (r: Self)
        ensures
            r == RepeatMode::Off,
    {
        RepeatMode::Off
    }
}

/// Every stored repeat name reads back as the same mode.
pub proof fn lemma_repeat_name_round_trip(m: RepeatMode)
    ensures
        spec_repeat_from_name(spec_repeat_name(m)) == m,
{
    reveal_strlit("off");
    reveal_strlit("one");
    reveal_strlit("all");
    let n = spec_repeat_name(m);
    assert(ascii_lower_seq(n) =~= n);
    assert("one"@[0] != "all"@[0] && "one"@[1] != "off"@[1]);
    assert("all"@[0] != "off"@[0]);
}

/// Cycling the repeat mode three times returns to the start.
pub proof fn lemma_repeat_cycle_period(m: RepeatMode)
    ensures
        spec_repeat_next(spec_repeat_next(spec_repeat_next(m))) == m,
        spec_repeat_next(m) != m,
{
}

/// The position of the first occurrence of `x` in `s`, if any.
pub open spec fn spec_first_index(s: Seq<i64>, x: i64) -> Option<int> {
    if s.contains(x) {
        Some(choose|i: int| 0 <= i < s.len() && s[i] == x && forall|j: int| 0 <= j < i ==> s[j] != x)
    } else {
        None
    }
}

/// The item after `item` in playlist order; past the end, the first item when
/// `wrap` is set. `None` when `item` is not in the playlist.
pub open spec fn spec_next_item(order: Seq<i64>, item: i64, wrap: bool) -> Option<i64> {
    match spec_first_index(order, item) {
        None => None,
        Some(i) => if i + 1 < order.len() {
            Some(order[i + 1])
        } else if wrap {
            Some(order[0])
        } else {
            None
        },
    }
}

/// The item before `item` in playlist order; before the start, the last item
/// when `wrap` is set. `None` when `item` is not in the playlist.
pub open spec fn spec_prev_item(order: Seq<i64>, item: i64, wrap: bool) -> Option<i64> {
    match spec_first_index(order, item) {
        None => None,
        Some(i) => if i > 0 {
            Some(order[i - 1])
        } else if wrap {
            Some(order[order.len() - 1])
        } else {
            None
        },
    }
}

proof fn lemma_earliest_at_or_before(s: Seq<i64>, x: i64, k: int) -> (m: int)
    requires
        0 <= k < s.len(),
        s[k] == x,
    ensures
        0 <= m <= k,
        s[m] == x,
        forall|j: int| 0 <= j < m ==> s[j] != x,
    decreases k,
{
    if exists|j: int| 0 <= j < k && s[j] == x {
        let j = choose|j: int| 0 <= j < k && s[j] == x;
        lemma_earliest_at_or_before(s, x, j)
    } else {
        k
    }
}

proof fn lemma_first_index_props(s: Seq<i64>, x: i64)
    ensures
        spec_first_index(s, x) matches Some(i) ==> 0 <= i < s.len() && s[i] == x && forall|j: int|
            0 <= j < i ==> s[j] != x,
        spec_first_index(s, x) is None <==> !s.contains(x),
{
    if s.contains(x) {
        let k = choose|k: int| 0 <= k < s.len() && s[k] == x;
        let m = lemma_earliest_at_or_before(s, x, k);
        assert(0 <= m < s.len() && s[m] == x && forall|j: int| 0 <= j < m ==> s[j] != x);
    }
}

proof fn lemma_first_index_unique(s: Seq<i64>, i: int)
    requires
        s.no_duplicates(),
        0 <= i < s.len(),
    ensures
        spec_first_index(s, s[i]) == Some(i),
{
    lemma_first_index_props(s, s[i]);
}

/// The position of the first occurrence of `x` in `v`.
pub fn first_index(v: &Vec<i64>, x: i64) -> (r: Option<usize>)
    ensures
        r matches Some(i) ==> i < v@.len() && v@[i as int] == x,
        r matches Some(i) ==> spec_first_index(v@, x) == Some(i as int),
        r is None ==> spec_first_index(v@, x) is None,
{
    proof {
        lemma_first_index_props(v@, x);
    }
    let mut i: usize = 0;
    while i < v.len()
        invariant
            i <= v.len(),
            forall|j: int| 0 <= j < i ==> v@[j] != x,
        decreases v.len() - i,
    {
        if v[i] == x {
            proof {
                let f = spec_first_index(v@, x)->0;
                assert(v@[f] == x);
                if f < i {
                    assert(false);
                }
                if f > i {
                    assert(v@[i as int] == x);
                    assert(false);
                }
            }
            return Some(i);
        }
        i += 1;
    }
    None
}

/// The item after `item_id` in `order` (the playlist's item ids by position).
pub fn next_item_id(order: &Vec<i64>, item_id: i64, wrap: bool) -> (r: Option<i64>)
    ensures
        r == spec_next_item(order@, item_id, wrap),
{
    match first_index(order, item_id) {
        None => None,
        Some(i) => {
            assert(i < order.len());
            if i + 1 < order.len() {
                Some(order[i + 1])
            } else if wrap {
                Some(order[0])
            } else {
                None
            }
        },
    }
}

/// The item before `item_id` in `order` (the playlist's item ids by position).
pub fn prev_item_id(order: &Vec<i64>, item_id: i64, wrap: bool) -> (r: Option<i64>)
    ensures
        r == spec_prev_item(order@, item_id, wrap),
{
    match first_index(order, item_id) {
        None => None,
        Some(i) => {
            if i > 0 {
                Some(order[i - 1])
            } else if wrap {
                Some(order[order.len() - 1])
            } else {
                None
            }
        },
    }
}

/// The 1-based playlist position of `item_id`, if present.
pub fn item_index(order: &Vec<i64>, item_id: i64) -> (r: Option<usize>)
    ensures
        r matches Some(n) ==> spec_first_index(order@, item_id) == Some(n - 1),
        r is None ==> !order@.contains(item_id),
{
    proof {
        lemma_first_index_props(order@, item_id);
    }
    match first_index(order, item_id) {
        None => None,
        Some(i) => {
            assert(i < order.len());
            Some(i + 1)
        },
    }
}

/// Stepping through a playlist of distinct items: the item after the one at
/// position `i` is the one at `i + 1` whether or not wrap-around is on;
/// only at the last item does wrap-around decide, giving the first item or
/// nothing. The same holds backwards. An item not in the playlist has no
/// neighbour.
pub proof fn lemma_step_follows_playlist_order(order: Seq<i64>, i: int, wrap: bool)
    requires
        order.no_duplicates(),
        0 <= i < order.len(),
    ensures
        i + 1 < order.len() ==> spec_next_item(order, order[i], wrap) == Some(order[i + 1]),
        i + 1 == order.len() ==> spec_next_item(order, order[i], wrap) == (if wrap { Some(order[0]) } else { None }),
        i > 0 ==> spec_prev_item(order, order[i], wrap) == Some(order[i - 1]),
        i == 0 ==> spec_prev_item(order, order[i], wrap) == (if wrap { Some(order[order.len() - 1]) } else { None }),
{
    lemma_first_index_unique(order, i);
}

/// An item that is not in the playlist has no next or previous item.
pub proof fn lemma_step_from_absent_item(order: Seq<i64>, item: i64, wrap: bool)
    requires
        !order.contains(item),
    ensures
        spec_next_item(order, item, wrap) is None,
        spec_prev_item(order, item, wrap) is None,
{
    lemma_first_index_props(order, item);
}

/// With wrap-around, stepping to the next item and then to the previous one
/// returns to the starting item (item ids are distinct).
pub proof fn lemma_next_then_prev(order: Seq<i64>, i: int)
    requires
        order.no_duplicates(),
        0 <= i < order.len(),
    ensures
        spec_next_item(order, order[i], true) matches Some(n) && spec_prev_item(order, n, true)
            == Some(order[i]),
{
    lemma_first_index_unique(order, i);
    let j = if i + 1 < order.len() { i + 1 } else { 0 };
    lemma_first_index_unique(order, j);
}

/// With wrap-around, stepping to the previous item and then to the next one
/// returns to the starting item (item ids are distinct).
pub proof fn lemma_prev_then_next(order: Seq<i64>, i: int)
    requires
        order.no_duplicates(),
        0 <= i < order.len(),
    ensures
        spec_prev_item(order, order[i], true) matches Some(p) && spec_next_item(order, p, true)
            == Some(order[i]),
{
    lemma_first_index_unique(order, i);
    let j = if i > 0 { i - 1 } else { order.len() - 1 };
    lemma_first_index_unique(order, j);
}

/// Picks one id at random (`rand::seq::IndexedRandom::choose`).
#[verifier::external_body]
fn choose_random(ids: &Vec<i64>) -> (r: Option<i64>)
    ensures
        r is None <==> ids@.len() == 0,
        r matches Some(x) ==> ids@.contains(x),
{
    ids.choose(&mut rand::rng()).copied()
}

/// Inequality with `item`, as a filter predicate.
pub open spec fn other_than(item: i64) -> spec_fn(i64) -> bool {
    |x: i64| x != item
}

/// The ids of `order` other than `item_id`, in order.
pub fn without_item(order: &Vec<i64>, item_id: i64) -> (r: Vec<i64>)
    ensures
        r@ == order@.filter(other_than(item_id)),
{
    let mut out: Vec<i64> = Vec::new();
    let mut i: usize = 0;
    while i < order.len()
        invariant
            i <= order.len(),
            out@ == order@.take(i as int).filter(other_than(item_id)),
        decreases order.len() - i,
    {
        proof {
            order@.take(i as int).lemma_filter_push(order@[i as int], other_than(item_id));
            assert(order@.take(i + 1) =~= order@.take(i as int).push(order@[i as int]));
        }
        if order[i] != item_id {
            out.push(order[i]);
        }
        i += 1;
    }
    assert(order@.take(order.len() as int) =~= order@);
    out
}

/// The next item in shuffle mode: a random item other than `item_id`; the
/// same item again when it is the only one and `wrap` is set; `None` for an
/// empty playlist.
pub fn shuffle_next(order: &Vec<i64>, item_id: i64, wrap: bool) -> (r: Option<i64>)
    ensures
        order@.len() == 0 ==> r is None,
        order@.len() > 0 && (forall|j: int| 0 <= j < order@.len() ==> order@[j] == item_id) ==> r
            == (if wrap { Some(item_id) } else { None }),
        (exists|j: int| 0 <= j < order@.len() && order@[j] != item_id) ==> (r matches Some(x)
            && x != item_id && order@.contains(x)),
{
    if order.len() == 0 {
        return None;
    }
    let others = without_item(order, item_id);
    let ghost p = other_than(item_id);
    if others.len() == 0 {
        proof {
            if exists|j: int| 0 <= j < order@.len() && order@[j] != item_id {
                let j = choose|j: int| 0 <= j < order@.len() && order@[j] != item_id;
                order@.lemma_filter_contains(p, j);
                assert(others@.contains(order@[j]));
                assert(false);
            }
        }
        return if wrap { Some(item_id) } else { None };
    }
    let picked = choose_random(&others);
    proof {
        order@.lemma_filter_pred(p, 0);
        order@.lemma_filter_contains_rev(p, others@[0]);
        assert(others@.contains(others@[0]));
        let j0 = choose|j: int| 0 <= j < order@.len() && order@[j] == others@[0];
        assert(order@[j0] != item_id);
        if let Some(x) = picked {
            let k = choose|k: int| 0 <= k < others@.len() && others@[k] == x;
            order@.lemma_filter_pred(p, k);
            order@.lemma_filter_contains_rev(p, x);
        }
    }
    picked
}

/// What to play when a track ends: the same item for repeat-one; otherwise
/// the resolved `next` item, unless it is the item that just ended and
/// repeat is off.
pub fn end_of_track_choice(repeat: RepeatMode, current: i64, next: Option<i64>) -> (r: Option<i64>)
    ensures
        r == match repeat {
            RepeatMode::One => Some(current),
            _ => match next {
                Some(n) => if n != current || repeat == RepeatMode::All {
                    Some(n)
                } else {
                    None
                },
                None => None,
            },
        },
{
    match repeat {
        RepeatMode::One => Some(current),
        _ => match next {
            Some(n) => {
                if n != current || repeat == RepeatMode::All {
                    Some(n)
                } else {
                    None
                }
            },
            None => None,
        },
    }
}

/// The seek target for a relative seek: the position moved by `delta_ms`,
/// floored at zero and capped at a positive duration. Position and duration
/// are read as signed millisecond counts.
pub open spec fn spec_seek_target(position_ms: u64, duration_ms: u64, delta_ms: i64) -> int {
    let pos = (position_ms as i64) as int;
    let dur = (duration_ms as i64) as int;
    let raw = pos + delta_ms;
    let sat = if raw > i64::MAX {
        i64::MAX as int
    } else if raw < i64::MIN {
        i64::MIN as int
    } else {
        raw
    };
    let floored = if sat < 0 { 0 } else { sat };
    if dur > 0 && floored > dur {
        dur
    } else {
        floored
    }
}

/// Target position of a relative seek.
pub fn seek_relative_target(position_ms: u64, duration_ms: u64, delta_ms: i64) -> (r: u64)
    ensures
        r == spec_seek_target(position_ms, duration_ms, delta_ms),
{
    let pos = position_ms as i64;
    let dur = duration_ms as i64;
    let wide = pos as i128 + delta_ms as i128;
    let sum: i64 = if wide > i64::MAX as i128 {
        i64::MAX
    } else if wide < i64::MIN as i128 {
        i64::MIN
    } else {
        wide as i64
    };
    let floored = if sum < 0 { 0i64 } else { sum };
    let mut next = floored as u64;
    if dur > 0 && next > dur as u64 {
        next = dur as u64;
    }
    next
}

/// A relative seek moves by exactly `delta_ms` when the result stays within
/// the track (at or after its start and, when the duration is known, not
/// past it); a seek before the start lands at the start, and one past a known
/// end lands at the end. The target is never negative nor past a known end.
pub proof fn lemma_seek_relative_moves_by_delta(position_ms: u64, duration_ms: u64, delta_ms: i64)
    requires
        position_ms <= i64::MAX,
        duration_ms <= i64::MAX,
    ensures
        0 <= position_ms + delta_ms <= i64::MAX && (duration_ms == 0 || position_ms + delta_ms <= duration_ms)
            ==> spec_seek_target(position_ms, duration_ms, delta_ms) == position_ms + delta_ms,
        position_ms + delta_ms < 0 ==> spec_seek_target(position_ms, duration_ms, delta_ms) == 0,
        duration_ms > 0 && position_ms + delta_ms > duration_ms ==> spec_seek_target(position_ms, duration_ms, delta_ms)
            == duration_ms,
        0 <= spec_seek_target(position_ms, duration_ms, delta_ms),
        duration_ms > 0 ==> spec_seek_target(position_ms, duration_ms, delta_ms) <= duration_ms,
{
    assert((position_ms as i64) as int == position_ms as int);
    assert((duration_ms as i64) as int == duration_ms as int);
}

/// The highest volume level.
pub const VOLUME_MAX: u8 = 100;

/// A volume level capped at 100.
pub fn clamp_volume(volume: u8) -> (r: u8)
    ensures
        r == if volume > 100 { 100 } else { volume },
{
    if volume > VOLUME_MAX { VOLUME_MAX } else { volume }
}

/// The volume after a relative change, kept within `0 ..= 100`.
pub fn volume_after_delta(current: u8, delta: i16) -> (r: u8)
    requires
        current + delta <= i16::MAX,
    ensures
        r == if current + delta < 0 {
            0
        } else if current + delta > 100 {
            100
        } else {
            current + delta
        },
{
    let sum = current as i16 + delta;
    if sum < 0 {
        0
    } else if sum > 100 {
        100
    } else {
        sum as u8
    }
}


/// Whether a poll shows the track ran out by itself: the backend stopped
/// without being asked to, a track is loaded, and the reported position is
/// within 50 ms of a known duration.
pub fn reached_natural_end(backend_stopped: bool, stop_requested: bool, has_item: bool, duration_ms: u64, position_ms: u64) -> (r: bool)
    ensures
        r == (backend_stopped && !stop_requested && has_item && duration_ms > 0
            && position_ms >= (if duration_ms >= 50 { duration_ms - 50 } else { 0 })),
{
    let threshold: u64 = if duration_ms >= 50 { duration_ms - 50 } else { 0 };
    backend_stopped && !stop_requested && has_item && duration_ms > 0 && position_ms >= threshold
}

} // verus!
