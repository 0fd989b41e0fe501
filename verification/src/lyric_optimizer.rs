//! Syllable smoothing: groups of alike syllables, and their new timing.
//!
//! Smoothing redistributes the durations inside a group of consecutive
//! syllables that are alike in length and close in time. This module finds
//! the groups and lays a group out again from a new duration for each of
//! its syllables. The first syllable of a group keeps its start and the last
//! one its end, whatever the new durations are.

use crate::types::{LineModel, LyricLine, LyricSyllable, SyllableModel};
use vstd::prelude::*;

verus! {

/// When two neighbouring syllables belong to different groups.
#[derive(Debug, Clone, Copy, PartialEq, Eq)]
pub struct SmoothingThresholds {
    /// The largest difference in duration inside a group, in milliseconds.
    pub duration_threshold_ms: u64,
    /// The largest gap between two syllables of a group, in milliseconds.
    pub gap_threshold_ms: u64,
}

/// `a - b`, or zero where `b` is larger.
pub open spec fn minus(a: u64, b: u64) -> u64 {
    if a >= b {
        (a - b) as u64
    } else {
        0
    }
}

/// `a + b`, or the largest value where the sum does not fit.
pub open spec fn plus(a: u64, b: u64) -> u64 {
    if a + b <= u64::MAX {
        (a + b) as u64
    } else {
        u64::MAX
    }
}

/// The distance between two numbers.
pub open spec fn distance(a: u64, b: u64) -> u64 {
    if a >= b {
        (a - b) as u64
    } else {
        (b - a) as u64
    }
}

/// The duration of a syllable, zero where it ends before it starts.
pub open spec fn syllable_duration(s: SyllableModel) -> u64 {
    minus(s.end_ms, s.start_ms)
}

/// The silence between a syllable and the next one, zero where they overlap.
pub open spec fn gap_between(a: SyllableModel, b: SyllableModel) -> u64 {
    minus(b.start_ms, a.end_ms)
}

/// A group ends between two neighbouring syllables: their durations differ
/// by more than the duration threshold, or the gap between them is larger
/// than the gap threshold.
pub open spec fn breaks_between(a: SyllableModel, b: SyllableModel, t: SmoothingThresholds) -> bool {
    distance(syllable_duration(a), syllable_duration(b)) > t.duration_threshold_ms || gap_between(a, b)
        > t.gap_threshold_ms
}

/// The index of the last syllable of the group that holds syllable `i`.
pub open spec fn group_last(syllables: Seq<SyllableModel>, i: int, t: SmoothingThresholds) -> int
    decreases syllables.len() - i,
{
    if i + 1 >= syllables.len() || breaks_between(syllables[i], syllables[i + 1], t) {
        i
    } else {
        group_last(syllables, i + 1, t)
    }
}

/// The index of the first syllable of the group that holds syllable `i`.
pub open spec fn group_first(syllables: Seq<SyllableModel>, i: int, t: SmoothingThresholds) -> int
    decreases i,
{
    if i <= 0 || breaks_between(syllables[i - 1], syllables[i], t) {
        i
    } else {
        group_first(syllables, i - 1, t)
    }
}

/// The start that the member `k` of a group gets: the first member keeps its
/// start, and each next one starts after the new duration of the member
/// before it and the gap that lay between the two.
pub open spec fn new_start(syllables: Seq<SyllableModel>, start: int, durations: Seq<u64>, k: int) -> u64
    decreases k,
{
    if k <= 0 {
        syllables[start].start_ms
    } else {
        plus(
            plus(new_start(syllables, start, durations, k - 1), durations[k - 1]),
            gap_between(syllables[start + k - 1], syllables[start + k]),
        )
    }
}

/// The syllables with the group from `start` to `end` laid out again: each
/// member starts at its new start and lasts its new duration, but the last
/// member keeps its end. Everything else stays.
pub open spec fn retimed(syllables: Seq<SyllableModel>, start: int, end: int, durations: Seq<u64>) -> Seq<
    SyllableModel,
> {
    Seq::new(
        syllables.len(),
        |i: int|
            if start <= i <= end {
                let begin = new_start(syllables, start, durations, i - start);
                SyllableModel {
                    start_ms: begin,
                    end_ms: if i == end {
                        syllables[end].end_ms
                    } else {
                        plus(begin, durations[i - start])
                    },
                    ..syllables[i]
                }
            } else {
                syllables[i]
            },
    )
}

/// The syllables of a line with every group of two or more syllables laid
/// out again. `durations` holds the new duration of every syllable of the
/// line. Each syllable is laid out within its own group.
pub open spec fn smoothed(syllables: Seq<SyllableModel>, t: SmoothingThresholds, durations: Seq<u64>) -> Seq<
    SyllableModel,
> {
    Seq::new(
        syllables.len(),
        |i: int|
            {
                let first = group_first(syllables, i, t);
                let last = group_last(syllables, i, t);
                if last > first {
                    retimed(syllables, first, last, durations.subrange(first, last + 1))[i]
                } else {
                    syllables[i]
                }
            },
    )
}

/// A line with its groups laid out again. A line with fewer than two
/// syllables, or for which the number of durations is not the number of its
/// syllables, stays as it is.
pub open spec fn smoothed_line(line: LineModel, t: SmoothingThresholds, durations: Seq<u64>) -> LineModel {
    if line.main_syllables.len() < 2 || durations.len() != line.main_syllables.len() {
        line
    } else {
        LineModel { main_syllables: smoothed(line.main_syllables, t, durations), ..line }
    }
}

/// A group lies inside the line, around each of its syllables.
pub proof fn lemma_group_bounds(syllables: Seq<SyllableModel>, i: int, t: SmoothingThresholds)
    requires
        0 <= i < syllables.len(),
    ensures
        0 <= group_first(syllables, i, t) <= i <= group_last(syllables, i, t) < syllables.len(),
{
    lemma_group_first_bounds(syllables, i, t);
    lemma_group_last_bounds(syllables, i, t);
}

proof fn lemma_group_first_bounds(syllables: Seq<SyllableModel>, i: int, t: SmoothingThresholds)
    requires
        0 <= i < syllables.len(),
    ensures
        0 <= group_first(syllables, i, t) <= i,
    decreases i,
{
    if !(i <= 0 || breaks_between(syllables[i - 1], syllables[i], t)) {
        lemma_group_first_bounds(syllables, i - 1, t);
    }
}

proof fn lemma_group_last_bounds(syllables: Seq<SyllableModel>, i: int, t: SmoothingThresholds)
    requires
        0 <= i < syllables.len(),
    ensures
        i <= group_last(syllables, i, t) < syllables.len(),
    decreases syllables.len() - i,
{
    if !(i + 1 >= syllables.len() || breaks_between(syllables[i], syllables[i + 1], t)) {
        lemma_group_last_bounds(syllables, i + 1, t);
    }
}

/// The syllables from the first syllable of a group `first` up to its last
/// one all have `first` as the first syllable of their group, and the same
/// last syllable.
pub proof fn lemma_group_members(syllables: Seq<SyllableModel>, first: int, i: int, t: SmoothingThresholds)
    requires
        0 <= first <= i < syllables.len(),
        group_first(syllables, first, t) == first,
        i <= group_last(syllables, first, t),
    ensures
        group_first(syllables, i, t) == first,
        group_last(syllables, i, t) == group_last(syllables, first, t),
    decreases i - first,
{
    if i > first {
        lemma_group_last_reaches(syllables, first, i - 1, t);
        lemma_group_members(syllables, first, i - 1, t);
        assert(!breaks_between(syllables[i - 1], syllables[i], t));
    }
}

/// Between a syllable and the last one of its group no group ends.
proof fn lemma_group_last_reaches(syllables: Seq<SyllableModel>, from: int, j: int, t: SmoothingThresholds)
    requires
        0 <= from <= j < group_last(syllables, from, t),
        from < syllables.len(),
    ensures
        j + 1 < syllables.len(),
        !breaks_between(syllables[j], syllables[j + 1], t),
        group_last(syllables, j, t) == group_last(syllables, from, t),
        group_last(syllables, j + 1, t) == group_last(syllables, from, t),
    decreases j - from,
{
    lemma_group_last_bounds(syllables, from, t);
    if j == from {
    } else {
        assert(from + 1 < syllables.len() && !breaks_between(syllables[from], syllables[from + 1], t));
        lemma_group_last_reaches(syllables, from + 1, j, t);
    }
}

/// The last syllable of a group depends on the syllables from `i` on only.
pub proof fn lemma_group_last_local(a: Seq<SyllableModel>, b: Seq<SyllableModel>, i: int, t: SmoothingThresholds)
    requires
        0 <= i,
        a.len() == b.len(),
        forall|j: int| i <= j < a.len() ==> a[j] == b[j],
    ensures
        group_last(a, i, t) == group_last(b, i, t),
    decreases a.len() - i,
{
    if i + 1 < a.len() && !breaks_between(a[i], a[i + 1], t) {
        lemma_group_last_local(a, b, i + 1, t);
    }
}

/// The new start of a member depends on the members up to it only.
pub proof fn lemma_new_start_local(
    a: Seq<SyllableModel>,
    b: Seq<SyllableModel>,
    start: int,
    durations: Seq<u64>,
    k: int,
)
    requires
        0 <= start,
        0 <= k,
        start + k < a.len() == b.len(),
        forall|j: int| start <= j <= start + k ==> a[j] == b[j],
    ensures
        new_start(a, start, durations, k) == new_start(b, start, durations, k),
    decreases k,
{
    if k > 0 {
        lemma_new_start_local(a, b, start, durations, k - 1);
    }
}

/// Smoothing keeps the ends of every group: the first syllable of the group
/// of any syllable starts where it started, and the last syllable of that
/// group ends where it ended.
pub proof fn lemma_smoothing_keeps_group_ends(
    syllables: Seq<SyllableModel>,
    t: SmoothingThresholds,
    durations: Seq<u64>,
    i: int,
)
    requires
        0 <= i < syllables.len(),
    ensures
        smoothed(syllables, t, durations).len() == syllables.len(),
        smoothed(syllables, t, durations)[group_first(syllables, i, t)].start_ms == syllables[group_first(
            syllables,
            i,
            t,
        )].start_ms,
        smoothed(syllables, t, durations)[group_last(syllables, i, t)].end_ms == syllables[group_last(
            syllables,
            i,
            t,
        )].end_ms,
{
    lemma_group_bounds(syllables, i, t);
    let first = group_first(syllables, i, t);
    let last = group_last(syllables, i, t);
    lemma_group_first_is_first(syllables, i, t);
    lemma_group_last_from_first(syllables, i, t);
    lemma_group_members(syllables, first, first, t);
    lemma_group_members(syllables, first, last, t);
}

/// The first syllable of a group is the first syllable of its own group.
pub proof fn lemma_group_first_is_first(syllables: Seq<SyllableModel>, i: int, t: SmoothingThresholds)
    requires
        0 <= i < syllables.len(),
    ensures
        group_first(syllables, group_first(syllables, i, t), t) == group_first(syllables, i, t),
    decreases i,
{
    if !(i <= 0 || breaks_between(syllables[i - 1], syllables[i], t)) {
        lemma_group_first_is_first(syllables, i - 1, t);
    }
}

/// The group of a syllable ends where the group of its first syllable ends.
pub proof fn lemma_group_last_from_first(syllables: Seq<SyllableModel>, i: int, t: SmoothingThresholds)
    requires
        0 <= i < syllables.len(),
    ensures
        group_last(syllables, group_first(syllables, i, t), t) == group_last(syllables, i, t),
    decreases i,
{
    if !(i <= 0 || breaks_between(syllables[i - 1], syllables[i], t)) {
        lemma_group_last_from_first(syllables, i - 1, t);
    }
}

/// Smoothing keeps the time that a group spans, from the start of its first
/// syllable to the end of its last one.
pub proof fn lemma_smoothing_keeps_group_span(
    syllables: Seq<SyllableModel>,
    t: SmoothingThresholds,
    durations: Seq<u64>,
    i: int,
)
    requires
        0 <= i < syllables.len(),
    ensures
        ({
            let after = smoothed(syllables, t, durations);
            let first = group_first(syllables, i, t);
            let last = group_last(syllables, i, t);
            after[last].end_ms - after[first].start_ms == syllables[last].end_ms - syllables[first].start_ms
        }),
{
    lemma_smoothing_keeps_group_ends(syllables, t, durations, i);
}

/// The sum, over the syllables from `first` to `last`, of the time from the
/// start of the syllable to its end. A syllable that ends before it starts
/// counts with the negative difference.
pub open spec fn total_duration(syllables: Seq<SyllableModel>, first: int, last: int) -> int
    decreases last - first + 1,
{
    if last < first {
        0
    } else {
        total_duration(syllables, first, last - 1) + (syllables[last].end_ms - syllables[last].start_ms)
    }
}

/// The sum of the gaps after the first `k` members of the group that starts
/// at `start`.
pub open spec fn gaps_total(syllables: Seq<SyllableModel>, start: int, k: int) -> int
    decreases k,
{
    if k <= 0 {
        0
    } else {
        gaps_total(syllables, start, k - 1) + gap_between(syllables[start + k - 1], syllables[start + k])
    }
}

/// Where member `k` of a group would start if no sum were cut off at the
/// largest value: after the new durations of the members before it and the
/// gaps between them.
pub open spec fn uncut_start(syllables: Seq<SyllableModel>, start: int, durations: Seq<u64>, k: int) -> int
    decreases k,
{
    if k <= 0 {
        syllables[start].start_ms as int
    } else {
        uncut_start(syllables, start, durations, k - 1) + durations[k - 1] + gap_between(
            syllables[start + k - 1],
            syllables[start + k],
        )
    }
}

/// The syllables from `first` to `last` lie in order: none ends before it
/// starts, and none starts before the one before it ends.
pub open spec fn in_order(syllables: Seq<SyllableModel>, first: int, last: int) -> bool {
    &&& forall|j: int| first <= j <= last ==> (#[trigger] syllables[j]).end_ms >= syllables[j].start_ms
    &&& forall|j: int| first <= j < last ==> (#[trigger] syllables[j + 1]).start_ms >= syllables[j].end_ms
}

/// The total duration depends on the syllables it runs over only.
proof fn lemma_total_local(a: Seq<SyllableModel>, b: Seq<SyllableModel>, first: int, last: int)
    requires
        0 <= first,
        last < a.len() == b.len(),
        forall|j: int| first <= j <= last ==> a[j] == b[j],
    ensures
        total_duration(a, first, last) == total_duration(b, first, last),
    decreases last - first + 1,
{
    if last >= first {
        lemma_total_local(a, b, first, last - 1);
    }
}

/// Where a member would start does not go back from one member to a later one.
proof fn lemma_uncut_monotone(syllables: Seq<SyllableModel>, start: int, durations: Seq<u64>, k: int, m: int)
    requires
        0 <= k <= m,
    ensures
        uncut_start(syllables, start, durations, k) <= uncut_start(syllables, start, durations, m),
    decreases m - k,
{
    if k < m {
        lemma_uncut_monotone(syllables, start, durations, k, m - 1);
    }
}

/// Where no sum is cut off, a member starts where it would start.
proof fn lemma_new_start_uncut_below(syllables: Seq<SyllableModel>, start: int, durations: Seq<u64>, k: int, m: int)
    requires
        0 <= k <= m,
        uncut_start(syllables, start, durations, m) <= u64::MAX,
    ensures
        new_start(syllables, start, durations, k) == uncut_start(syllables, start, durations, k),
    decreases k,
{
    if k > 0 {
        lemma_new_start_uncut_below(syllables, start, durations, k - 1, m);
        lemma_uncut_monotone(syllables, start, durations, k, m);
    }
}

/// Before a group was laid out again, the durations of its first `k`
/// syllables and the gaps between them fill the time from the start of the
/// first to the end of the last of them.
proof fn lemma_total_before(syllables: Seq<SyllableModel>, first: int, last: int, k: int)
    requires
        0 <= first <= last < syllables.len(),
        1 <= k <= last - first + 1,
        in_order(syllables, first, last),
    ensures
        total_duration(syllables, first, first + k - 1) == syllables[first + k - 1].end_ms - syllables[first].start_ms
            - gaps_total(syllables, first, k - 1),
    decreases k,
{
    if k > 1 {
        lemma_total_before(syllables, first, last, k - 1);
        assert(syllables[first + k - 2 + 1].start_ms >= syllables[first + k - 2].end_ms);
    } else {
        assert(total_duration(syllables, first, first - 1) == 0);
    }
}

/// After a group was laid out again, the durations of its first `k`
/// syllables, none of them the last, are their new durations.
proof fn lemma_total_after(syllables: Seq<SyllableModel>, first: int, last: int, durations: Seq<u64>, k: int)
    requires
        0 <= first <= last < syllables.len(),
        0 <= k <= last - first,
        durations.len() == last - first + 1,
        uncut_start(syllables, first, durations, last - first) <= u64::MAX,
    ensures
        total_duration(retimed(syllables, first, last, durations), first, first + k - 1) == uncut_start(
            syllables,
            first,
            durations,
            k,
        ) - syllables[first].start_ms - gaps_total(syllables, first, k),
    decreases k,
{
    let after = retimed(syllables, first, last, durations);
    if k > 0 {
        lemma_total_after(syllables, first, last, durations, k - 1);
        lemma_new_start_uncut_below(syllables, first, durations, k - 1, last - first);
        lemma_uncut_monotone(syllables, first, durations, k, last - first);
        let member = after[first + k - 1];
        assert(member.start_ms == new_start(syllables, first, durations, k - 1));
        assert(member.end_ms == plus(member.start_ms, durations[k - 1]));
    } else {
        assert(total_duration(after, first, first - 1) == 0);
    }
}

/// Laying a group out again keeps the total of its durations, whatever the
/// new durations are, where its syllables lie in order and no sum of the new
/// layout is cut off at the largest value: the last member takes up the
/// difference.
pub proof fn lemma_retimed_keeps_total(syllables: Seq<SyllableModel>, first: int, last: int, durations: Seq<u64>)
    requires
        0 <= first <= last < syllables.len(),
        durations.len() == last - first + 1,
        in_order(syllables, first, last),
        uncut_start(syllables, first, durations, last - first) <= u64::MAX,
    ensures
        total_duration(retimed(syllables, first, last, durations), first, last) == total_duration(
            syllables,
            first,
            last,
        ),
{
    let after = retimed(syllables, first, last, durations);
    let m = last - first;
    lemma_total_after(syllables, first, last, durations, m);
    lemma_total_before(syllables, first, last, m + 1);
    lemma_new_start_uncut_below(syllables, first, durations, m, m);
    assert(after[last].start_ms == new_start(syllables, first, durations, m));
    assert(after[last].end_ms == syllables[last].end_ms);
}

/// Smoothing keeps the total duration of the group of any syllable,
/// whatever the new durations are, where the syllables of the group lie in
/// order and no sum of the new layout is cut off at the largest value.
pub proof fn lemma_smoothing_keeps_total_duration(
    syllables: Seq<SyllableModel>,
    t: SmoothingThresholds,
    durations: Seq<u64>,
    i: int,
)
    requires
        0 <= i < syllables.len(),
        durations.len() == syllables.len(),
        in_order(syllables, group_first(syllables, i, t), group_last(syllables, i, t)),
        uncut_start(
            syllables,
            group_first(syllables, i, t),
            durations.subrange(group_first(syllables, i, t), group_last(syllables, i, t) + 1),
            group_last(syllables, i, t) - group_first(syllables, i, t),
        ) <= u64::MAX,
    ensures
        total_duration(
            smoothed(syllables, t, durations),
            group_first(syllables, i, t),
            group_last(syllables, i, t),
        ) == total_duration(syllables, group_first(syllables, i, t), group_last(syllables, i, t)),
{
    lemma_group_bounds(syllables, i, t);
    let first = group_first(syllables, i, t);
    let last = group_last(syllables, i, t);
    lemma_group_first_is_first(syllables, i, t);
    lemma_group_last_from_first(syllables, i, t);
    let after = smoothed(syllables, t, durations);
    assert forall|j: int| first <= j <= last implies group_first(syllables, j, t) == first && group_last(
        syllables,
        j,
        t,
    ) == last by {
        lemma_group_members(syllables, first, j, t);
    }
    if last > first {
        let group = durations.subrange(first, last + 1);
        let laid = retimed(syllables, first, last, group);
        assert forall|j: int| first <= j <= last implies after[j] == laid[j] by {
            assert(group_first(syllables, j, t) == first && group_last(syllables, j, t) == last);
        }
        lemma_total_local(after, laid, first, last);
        lemma_retimed_keeps_total(syllables, first, last, group);
    } else {
        assert(after[first] == syllables[first]);
        lemma_total_local(after, syllables, first, last);
    }
}

/// The duration of a syllable.
pub fn duration_of(s: &LyricSyllable) -> (d: u64)
    ensures
        d == syllable_duration(s.deep_view()),
{
    if s.end_ms >= s.start_ms {
        s.end_ms - s.start_ms
    } else {
        0
    }
}

/// Tells whether a group ends between two neighbouring syllables.
pub fn is_break(a: &LyricSyllable, b: &LyricSyllable, t: &SmoothingThresholds) -> (r: bool)
    ensures
        r == breaks_between(a.deep_view(), b.deep_view(), *t),
{
    let da = duration_of(a);
    let db = duration_of(b);
    let diff = if da >= db { da - db } else { db - da };
    let gap = if b.start_ms >= a.end_ms { b.start_ms - a.end_ms } else { 0 };
    diff > t.duration_threshold_ms || gap > t.gap_threshold_ms
}

/// The index of the last syllable of the group that holds syllable `start`.
pub fn find_group_end(syllables: &Vec<LyricSyllable>, start: usize, t: &SmoothingThresholds) -> (end: usize)
    requires
        start < syllables.len(),
    ensures
        end == group_last(syllables.deep_view(), start as int, *t),
        start <= end < syllables.len(),
{
    let ghost all = syllables.deep_view();
    let mut end: usize = start;
    while end + 1 < syllables.len() && !is_break(&syllables[end], &syllables[end + 1], t)
        invariant
            start <= end < syllables.len(),
            all == syllables.deep_view(),
            group_last(all, start as int, *t) == group_last(all, end as int, *t),
        decreases syllables.len() - end,
    {
        end += 1;
    }
    end
}

/// The groups of a line, each by the indices of its first and last syllable,
/// in order: the first group starts with the first syllable, each next one
/// right after the group before it, and the last one ends with the last
/// syllable. A line without syllables has no group.
pub fn line_groups(syllables: &Vec<LyricSyllable>, t: &SmoothingThresholds) -> (groups: Vec<(usize, usize)>)
    ensures
        forall|k: int|
            0 <= k < groups.len() ==> {
                &&& (#[trigger] groups[k]).0 <= groups[k].1 < syllables.len()
                &&& groups[k].0 == group_first(syllables.deep_view(), groups[k].0 as int, *t)
                &&& groups[k].1 == group_last(syllables.deep_view(), groups[k].0 as int, *t)
            },
        forall|j: int, k: int|
            #![trigger groups[j], groups[k]]
            0 <= j && k == j + 1 && k < groups.len() ==> groups[k].0 == groups[j].1 + 1,
        syllables.len() == 0 ==> groups.len() == 0,
        syllables.len() > 0 ==> groups.len() > 0 && groups[0].0 == 0 && groups[groups.len() - 1].1
            == syllables.len() - 1,
{
    let ghost all = syllables.deep_view();
    let mut groups: Vec<(usize, usize)> = Vec::new();
    let mut start: usize = 0;
    while start < syllables.len()
        invariant
            start <= syllables.len(),
            all == syllables.deep_view(),
            start < syllables.len() ==> group_first(all, start as int, *t) == start,
            groups.len() == 0 ==> start == 0,
            groups.len() > 0 ==> groups[0].0 == 0 && start == groups[groups.len() - 1].1 + 1,
            forall|k: int|
                0 <= k < groups.len() ==> {
                    &&& (#[trigger] groups[k]).0 <= groups[k].1 < syllables.len()
                    &&& groups[k].0 == group_first(all, groups[k].0 as int, *t)
                    &&& groups[k].1 == group_last(all, groups[k].0 as int, *t)
                },
            forall|j: int, k: int|
                #![trigger groups[j], groups[k]]
                0 <= j && k == j + 1 && k < groups.len() ==> groups[k].0 == groups[j].1 + 1,
        decreases syllables.len() - start,
    {
        let end = find_group_end(syllables, start, t);
        proof {
            lemma_next_group_starts(all, start as int, *t);
        }
        groups.push((start, end));
        start = end + 1;
    }
    groups
}

/// The syllable after the last one of a group is the first of its own group.
pub proof fn lemma_next_group_starts(syllables: Seq<SyllableModel>, i: int, t: SmoothingThresholds)
    requires
        0 <= i < syllables.len(),
    ensures
        group_last(syllables, i, t) + 1 < syllables.len() ==> group_first(
            syllables,
            group_last(syllables, i, t) + 1,
            t,
        ) == group_last(syllables, i, t) + 1,
    decreases syllables.len() - i,
{
    if !(i + 1 >= syllables.len() || breaks_between(syllables[i], syllables[i + 1], t)) {
        lemma_next_group_starts(syllables, i + 1, t);
    }
}

/// `a + b`, or the largest value where the sum does not fit.
fn saturating_plus(a: u64, b: u64) -> (r: u64)
    ensures
        r == plus(a, b),
{
    if a <= u64::MAX - b {
        a + b
    } else {
        u64::MAX
    }
}

/// Lays the group from `start` to `end` out again, with a new duration for
/// each of its syllables.
pub fn retime_group(syllables: &mut Vec<LyricSyllable>, start: usize, end: usize, durations: &Vec<u64>)
    requires
        start <= end < old(syllables).len(),
        durations.len() == end - start + 1,
    ensures
        final(syllables).len() == old(syllables).len(),
        final(syllables).deep_view() == retimed(old(syllables).deep_view(), start as int, end as int, durations@),
{
    let ghost all = syllables.deep_view();
    let ghost target = retimed(all, start as int, end as int, durations@);
    let n = syllables.len();
    let last_end = syllables[end].end_ms;
    let mut cursor: u64 = syllables[start].start_ms;
    let mut i: usize = start;
    while i <= end
        invariant
            start <= i <= end + 1,
            end < n == syllables.len(),
            all.len() == n,
            durations.len() == end - start + 1,
            last_end == all[end as int].end_ms,
            target == retimed(all, start as int, end as int, durations@),
            i <= end ==> cursor == new_start(all, start as int, durations@, i - start),
            forall|j: int| 0 <= j < i ==> (#[trigger] syllables[j]).deep_view() == target[j],
            forall|j: int| i <= j < n ==> (#[trigger] syllables[j]).deep_view() == all[j],
        decreases end + 1 - i,
    {
        let end_before = syllables[i].end_ms;
        let duration = durations[i - start];
        let new_end = if i == end { last_end } else { saturating_plus(cursor, duration) };
        let next_cursor = if i < end {
            let next_start = syllables[i + 1].start_ms;
            let gap = if next_start >= end_before { next_start - end_before } else { 0 };
            saturating_plus(saturating_plus(cursor, duration), gap)
        } else {
            cursor
        };
        let ghost before = *syllables;
        let mut syllable = syllables.remove(i);
        syllable.start_ms = cursor;
        syllable.end_ms = new_end;
        let ghost changed = syllable;
        syllables.insert(i, syllable);
        proof {
            assert(syllables@ =~= before@.update(i as int, changed));
            assert(changed.deep_view() == target[i as int]);
            assert forall|j: int| 0 <= j < i + 1 implies (#[trigger] syllables[j]).deep_view() == target[j] by {
                if j < i {
                    assert(syllables[j] == before[j]);
                }
            }
            assert forall|j: int| i + 1 <= j < n implies (#[trigger] syllables[j]).deep_view() == all[j] by {
                assert(syllables[j] == before[j]);
            }
            if i < end {
                assert(before[i as int].deep_view() == all[i as int]);
                assert(before[i + 1].deep_view() == all[i + 1]);
            }
        }
        cursor = next_cursor;
        i += 1;
    }
    assert(syllables.deep_view() =~= target);
}

/// Lays the groups of the syllables of a line out again.
pub fn smooth_syllables(syllables: &mut Vec<LyricSyllable>, t: &SmoothingThresholds, durations: &Vec<u64>)
    requires
        durations.len() == old(syllables).len(),
    ensures
        final(syllables).deep_view() == smoothed(old(syllables).deep_view(), *t, durations@),
{
    let ghost all = syllables.deep_view();
    let ghost target = smoothed(all, *t, durations@);
    let n = syllables.len();
    let mut start: usize = 0;
    while start < n
        invariant
            start <= n == syllables.len(),
            all.len() == n,
            durations.len() == n,
            target == smoothed(all, *t, durations@),
            start < n ==> group_first(all, start as int, *t) == start,
            forall|j: int| 0 <= j < start ==> (#[trigger] syllables.deep_view()[j]) == target[j],
            forall|j: int| start <= j < n ==> (#[trigger] syllables.deep_view()[j]) == all[j],
        decreases n - start,
    {
        let ghost current = syllables.deep_view();
        let end = find_group_end(syllables, start, t);
        proof {
            lemma_group_last_local(current, all, start as int, *t);
            lemma_next_group_starts(all, start as int, *t);
            assert forall|j: int| start <= j <= end implies group_first(all, j, *t) == start && group_last(
                all,
                j,
                *t,
            ) == end by {
                lemma_group_members(all, start as int, j, *t);
            }
        }
        if end > start {
            let mut group: Vec<u64> = Vec::new();
            let mut k: usize = start;
            while k <= end
                invariant
                    start <= k <= end + 1,
                    end < durations.len(),
                    group@ == durations@.subrange(start as int, k as int),
                decreases end + 1 - k,
            {
                group.push(durations[k]);
                assert(durations@.subrange(start as int, k + 1) == durations@.subrange(start as int, k as int).push(
                    durations@[k as int],
                ));
                k += 1;
            }
            retime_group(syllables, start, end, &group);
            proof {
                let after = syllables.deep_view();
                assert forall|j: int| 0 <= j < end + 1 implies (#[trigger] after[j]) == target[j] by {
                    if j >= start {
                        lemma_new_start_local(current, all, start as int, group@, j - start);
                        assert(current[j] == all[j]);
                        assert(current[end as int] == all[end as int]);
                    } else {
                        assert(after[j] == current[j]);
                    }
                }
                assert forall|j: int| end + 1 <= j < n implies (#[trigger] after[j]) == all[j] by {
                    assert(after[j] == current[j]);
                }
            }
        } else {
            assert(target[start as int] == all[start as int]);
        }
        start = end + 1;
    }
    assert(syllables.deep_view() =~= target);
}

/// Lays the groups of every line out again. `durations` holds, for every
/// line, the new duration of each of its syllables; a line for which it
/// holds another number of durations stays as it is, and so does a line
/// beyond the end of `durations`.
pub fn apply_smoothed_durations(lines: &mut Vec<LyricLine>, t: &SmoothingThresholds, durations: &Vec<Vec<u64>>)
    ensures
        final(lines).len() == old(lines).len(),
        forall|i: int|
            0 <= i < old(lines).len() ==> (#[trigger] final(lines)[i]).deep_view() == (if i < durations.len() {
                smoothed_line(old(lines)[i].deep_view(), *t, durations[i]@)
            } else {
                old(lines)[i].deep_view()
            }),
{
    let n = lines.len();
    let mut i: usize = 0;
    while i < n && i < durations.len()
        invariant
            i <= n == lines.len(),
            i <= durations.len(),
            n == old(lines).len(),
            forall|j: int|
                0 <= j < i ==> (#[trigger] lines[j]).deep_view() == smoothed_line(
                    old(lines)[j].deep_view(),
                    *t,
                    durations[j]@,
                ),
            forall|j: int| i <= j < n ==> (#[trigger] lines[j]) == old(lines)[j],
        decreases n - i,
    {
        let ghost before = *lines;
        let mut line = lines.remove(i);
        if line.main_syllables.len() >= 2 && durations[i].len() == line.main_syllables.len() {
            smooth_syllables(&mut line.main_syllables, t, &durations[i]);
        }
        let ghost changed = line;
        lines.insert(i, line);
        proof {
            assert(lines@ =~= before@.update(i as int, changed));
            assert forall|j: int| 0 <= j < i + 1 implies (#[trigger] lines[j]).deep_view() == smoothed_line(
                old(lines)[j].deep_view(),
                *t,
                durations[j]@,
            ) by {
                if j < i {
                    assert(lines[j] == before[j]);
                }
            }
            assert forall|j: int| i + 1 <= j < n implies (#[trigger] lines[j]) == old(lines)[j] by {
                assert(lines[j] == before[j]);
            }
        }
        i += 1;
    }
}

} // verus!
