//! History-based trailing: every tick the head's world transform, cell and
//! cumulative arc length are recorded; each body fragment is then placed at
//! the newest recorded sample that lies at least its arc-length offset behind
//! the head. All fragments thereby follow the head's exact path, corners
//! included, with no per-fragment simulation.

use vstd::prelude::*;

use crate::body::Fragment;
use crate::field::{Cell, WorldVec};

verus! {

/// Cumulative arc length, in fixed-point units of [`crate::PROGRESS_ONE`]
/// per cell.
#[derive(Clone, Copy, Debug, PartialEq, Eq, Structural)]
pub struct DistancePassed(pub u64);

/// One recorded head sample: the head's world position, the cell it was on,
/// and its arc length at that moment.
#[derive(Clone, Copy, Debug, PartialEq, Eq, Structural)]
pub struct PreviousHeadPosition {
    pub position: WorldVec,
    pub cell: Cell,
    pub distance_passed: DistancePassed,
}

/// The per-player history of head samples, appended once per tick, newest at
/// the back.
pub struct PreviousHeadPositions(pub Vec<PreviousHeadPosition>);

/// The fragments of one player's body and the arc-length gaps that trail
/// them: `first_gap` from the head to the first fragment, `gap` between
/// consecutive fragments.
pub struct BodyInfo {
    pub body: Vec<Fragment>,
    pub first_gap: u64,
    pub gap: u64,
}

/// Arc lengths never decrease along the history.
pub open spec fn distances_sorted(h: Seq<PreviousHeadPosition>) -> bool {
    forall|i: int, j: int|
        0 <= i <= j < h.len() ==> #[trigger] h[i].distance_passed.0 <= #[trigger] h[j].distance_passed.0
}

/// The index of the newest sample lying at least `offset` behind a head that
/// has travelled `head_dist`, clamped to the oldest sample when the history
/// is not yet long enough.
pub open spec fn sample_index(h: Seq<PreviousHeadPosition>, head_dist: int, offset: int) -> int
    decreases h.len(),
{
    if h.len() == 0 {
        0
    } else if head_dist - h[h.len() - 1].distance_passed.0 >= offset {
        h.len() - 1
    } else {
        sample_index(h.drop_last(), head_dist, offset)
    }
}

/// A fragment placed at its trailing sample: position and cell come from the
/// history, everything else stays.
pub open spec fn trailed_fragment(
    h: Seq<PreviousHeadPosition>,
    head_dist: int,
    offset: int,
    f: Fragment,
) -> Fragment {
    let s = h[sample_index(h, head_dist, offset)];
    Fragment { position: s.position, cell: s.cell, ..f }
}

/// The chosen sample index is in range; every newer sample is strictly less
/// than `offset` behind the head; and unless clamped to the oldest sample,
/// the chosen one is at least `offset` behind.
pub proof fn lemma_sample_index_props(h: Seq<PreviousHeadPosition>, head_dist: int, offset: int)
    requires
        h.len() > 0,
    ensures
        0 <= sample_index(h, head_dist, offset) < h.len(),
        forall|i: int|
            sample_index(h, head_dist, offset) < i < h.len() ==> head_dist - #[trigger] h[i].distance_passed.0
                < offset,
        sample_index(h, head_dist, offset) > 0 ==> head_dist
            - h[sample_index(h, head_dist, offset)].distance_passed.0 >= offset,
    decreases h.len(),
{
    let si = sample_index(h, head_dist, offset);
    if head_dist - h[h.len() - 1].distance_passed.0 >= offset {
    } else if h.len() == 1 {
        assert(si == sample_index(h.drop_last(), head_dist, offset));
        assert(h.drop_last().len() == 0);
    } else {
        lemma_sample_index_props(h.drop_last(), head_dist, offset);
        assert forall|i: int| si < i < h.len() implies head_dist - #[trigger] h[i].distance_passed.0
            < offset by {
            if i < h.len() - 1 {
                assert(h.drop_last()[i] == h[i]);
            }
        }
        if si > 0 {
            assert(h.drop_last()[si] == h[si]);
        }
    }
}

/// Any index that satisfies the newest-sample-behind conditions is the
/// sample index.
pub proof fn lemma_sample_index_unique(
    h: Seq<PreviousHeadPosition>,
    head_dist: int,
    offset: int,
    p: int,
)
    requires
        h.len() > 0,
        0 <= p < h.len(),
        p == 0 || head_dist - h[p].distance_passed.0 >= offset,
        forall|i: int| p < i < h.len() ==> head_dist - #[trigger] h[i].distance_passed.0 < offset,
    ensures
        p == sample_index(h, head_dist, offset),
    decreases h.len(),
{
    if p == h.len() - 1 {
        if head_dist - h[p].distance_passed.0 < offset {
            assert(h.drop_last().len() == 0);
            assert(sample_index(h.drop_last(), head_dist, offset) == 0);
        }
    } else {
        assert(head_dist - h[h.len() - 1].distance_passed.0 < offset);
        assert forall|i: int|
            p < i < h.drop_last().len() implies head_dist
            - #[trigger] h.drop_last()[i].distance_passed.0 < offset by {
            assert(h.drop_last()[i] == h[i]);
        }
        if p > 0 {
            assert(h.drop_last()[p] == h[p]);
        }
        lemma_sample_index_unique(h.drop_last(), head_dist, offset, p);
    }
}

/// Trailing fidelity: once the history reaches back at least `offset` behind
/// the head, the chosen sample lies at least `offset` behind, and the next
/// newer sample (when there is one) lies strictly less than `offset` behind —
/// the placement is exact up to the history's resolution.
pub proof fn lemma_trailing_fidelity(h: Seq<PreviousHeadPosition>, head_dist: int, offset: int)
    requires
        h.len() > 0,
        head_dist - h[0].distance_passed.0 >= offset,
    ensures
        head_dist - h[sample_index(h, head_dist, offset)].distance_passed.0 >= offset,
        sample_index(h, head_dist, offset) + 1 < h.len() ==> head_dist - h[sample_index(
            h,
            head_dist,
            offset,
        ) + 1].distance_passed.0 < offset,
{
    lemma_sample_index_props(h, head_dist, offset);
}

/// How many of the oldest samples no fragment can need any more: a sample is
/// stale while the one after it still lies at least `max_offset` behind the
/// head, `max_offset` being the offset of the farthest fragment.
pub open spec fn stale_count(h: Seq<PreviousHeadPosition>, head_dist: int, max_offset: int) -> int
    decreases h.len(),
{
    if h.len() >= 2 && head_dist - h[1].distance_passed.0 >= max_offset {
        1 + stale_count(h.skip(1), head_dist, max_offset)
    } else {
        0
    }
}

/// Dropping one stale sample shifts the chosen sample index down by one, for
/// any offset the dropped sample could have served.
proof fn lemma_sample_index_shift(h: Seq<PreviousHeadPosition>, head_dist: int, offset: int)
    requires
        h.len() >= 2,
        head_dist - h[1].distance_passed.0 >= offset,
    ensures
        sample_index(h, head_dist, offset) == 1 + sample_index(h.skip(1), head_dist, offset),
    decreases h.len(),
{
    let t = h.skip(1);
    assert(t.len() == h.len() - 1);
    assert(t[t.len() - 1] == h[h.len() - 1]);
    if head_dist - h[h.len() - 1].distance_passed.0 >= offset {
    } else {
        assert(h.len() >= 3);
        assert(h.drop_last().skip(1) =~= t.drop_last());
        assert(h.drop_last()[1] == h[1]);
        lemma_sample_index_shift(h.drop_last(), head_dist, offset);
    }
}

/// The stale count never eats the whole history.
proof fn lemma_stale_count_bounds(h: Seq<PreviousHeadPosition>, head_dist: int, max_offset: int)
    requires
        h.len() > 0,
    ensures
        0 <= stale_count(h, head_dist, max_offset) < h.len(),
    decreases h.len(),
{
    if h.len() >= 2 && head_dist - h[1].distance_passed.0 >= max_offset {
        lemma_stale_count_bounds(h.skip(1), head_dist, max_offset);
    }
}

/// Truncation safety: dropping the stale samples changes no fragment
/// placement, for every trailing offset up to `max_offset` the chosen sample
/// is the same one as before.
pub proof fn lemma_truncation_preserves_trailing(
    h: Seq<PreviousHeadPosition>,
    head_dist: int,
    max_offset: int,
    offset: int,
)
    requires
        h.len() > 0,
        offset <= max_offset,
    ensures
        ({
            let t = h.skip(stale_count(h, head_dist, max_offset));
            &&& t.len() > 0
            &&& t[sample_index(t, head_dist, offset)] == h[sample_index(h, head_dist, offset)]
        }),
    decreases h.len(),
{
    lemma_stale_count_bounds(h, head_dist, max_offset);
    if h.len() >= 2 && head_dist - h[1].distance_passed.0 >= max_offset {
        let rest = h.skip(1);
        let d2 = stale_count(rest, head_dist, max_offset);
        lemma_stale_count_bounds(rest, head_dist, max_offset);
        assert forall|m: int| 0 <= m < rest.skip(d2).len() implies h.skip(1 + d2)[m] == rest.skip(
            d2,
        )[m] by {
            assert(rest.skip(d2)[m] == rest[d2 + m]);
            assert(rest[d2 + m] == h[1 + d2 + m]);
        }
        assert(h.skip(1 + d2) =~= rest.skip(d2));
        lemma_sample_index_shift(h, head_dist, offset);
        lemma_sample_index_props(rest, head_dist, offset);
        assert(h[1 + sample_index(rest, head_dist, offset)] == rest[sample_index(
            rest,
            head_dist,
            offset,
        )]);
        lemma_truncation_preserves_trailing(rest, head_dist, max_offset, offset);
    } else {
        assert(h.skip(0) =~= h);
    }
}

impl BodyInfo {
    /// The arc-length offset of the farthest fragment: nothing older than
    /// this behind the head is ever read.
    pub fn max_needed_offset(&self) -> (r: u64)
        requires
            self.body@.len() >= 1,
            self.first_gap + self.body@.len() * self.gap <= u64::MAX,
        ensures
            r == self.first_gap + (self.body@.len() - 1) * self.gap,
    {
        proof {
            let g = self.gap as int;
            let n = self.body@.len() as int;
            assert((n - 1) * g == n * g - g) by (nonlinear_arith);
            assert(0 <= (n - 1) * g) by (nonlinear_arith)
                requires
                    1 <= n,
                    0 <= g,
            ;
        }
        self.first_gap + ((self.body.len() - 1) as u64) * self.gap
    }
}

impl PreviousHeadPositions {
    /// Evicts the history samples that no fragment can need any more: a
    /// sample may go while the one after it still lies at least `max_offset`
    /// behind the head. This keeps the history bounded over a long session
    /// and, by [`lemma_truncation_preserves_trailing`], moves no fragment.
    pub fn truncate(&mut self, head_distance: DistancePassed, max_offset: u64)
        requires
            old(self).0@.len() > 0,
            forall|i: int|
                0 <= i < old(self).0@.len() ==> #[trigger] old(self).0@[i].distance_passed.0
                    <= head_distance.0,
        ensures
            final(self).0@ == old(self).0@.skip(
                stale_count(old(self).0@, head_distance.0 as int, max_offset as int),
            ),
            final(self).0@.len() > 0,
    {
        let ghost mut dropped: int = 0;
        let ghost whole = self.0@;
        let ghost hd = head_distance.0 as int;
        let ghost mo = max_offset as int;
        proof {
            assert(whole.skip(0) =~= whole);
        }
        while self.0.len() >= 2 && head_distance.0 - self.0[1].distance_passed.0 >= max_offset
            invariant
                hd == head_distance.0 as int,
                mo == max_offset as int,
                0 <= dropped,
                dropped + self.0@.len() == whole.len(),
                self.0@.len() > 0,
                self.0@ == whole.skip(dropped),
                dropped + stale_count(self.0@, hd, mo) == stale_count(whole, hd, mo),
                forall|i: int|
                    0 <= i < self.0@.len() ==> #[trigger] self.0@[i].distance_passed.0
                        <= head_distance.0,
            decreases self.0@.len(),
        {
            proof {
                assert(self.0@.remove(0) =~= self.0@.skip(1));
                assert forall|m: int| 0 <= m < whole.len() - (dropped + 1) implies whole.skip(
                    dropped + 1,
                )[m] == whole.skip(dropped).skip(1)[m] by {
                    assert(whole.skip(dropped + 1)[m] == whole[dropped + 1 + m]);
                    assert(whole.skip(dropped).skip(1)[m] == whole.skip(dropped)[1 + m]);
                }
                assert(whole.skip(dropped + 1) =~= whole.skip(dropped).skip(1));
                assert(self.0@.len() >= 2 && hd - self.0@[1].distance_passed.0 >= mo);
                assert(stale_count(self.0@, hd, mo) == 1 + stale_count(self.0@.skip(1), hd, mo));
            }
            self.0.remove(0);
            proof {
                dropped = dropped + 1;
            }
        }
    }

    /// Appends this tick's head sample; arc length keeps growing, so the
    /// history stays sorted.
    pub fn record(&mut self, position: WorldVec, cell: Cell, distance_passed: DistancePassed)
        requires
            distances_sorted(old(self).0@),
            old(self).0@.len() > 0 ==> old(self).0@.last().distance_passed.0 <= distance_passed.0,
        ensures
            final(self).0@ == old(self).0@.push(
                PreviousHeadPosition { position, cell, distance_passed },
            ),
            distances_sorted(final(self).0@),
    {
        self.0.push(PreviousHeadPosition { position, cell, distance_passed });
    }
}

/// Positions every fragment of the body at its arc-length offset behind the
/// head: fragment `k` takes the position and cell of the newest history
/// sample at least `first_gap + k * gap` behind, clamped to the oldest
/// sample while the history is still short. The scan reuses one pointer that
/// only moves toward older samples, so the whole chain is placed in one pass
/// over the history.
pub fn move_body(info: &mut BodyInfo, history: &PreviousHeadPositions, head_distance: DistancePassed)
    requires
        history.0@.len() > 0,
        distances_sorted(history.0@),
        forall|i: int|
            0 <= i < history.0@.len() ==> #[trigger] history.0@[i].distance_passed.0
                <= head_distance.0,
        old(info).first_gap + old(info).body@.len() * old(info).gap <= u64::MAX,
    ensures
        final(info).first_gap == old(info).first_gap,
        final(info).gap == old(info).gap,
        final(info).body@.len() == old(info).body@.len(),
        forall|k: int|
            0 <= k < old(info).body@.len() ==> #[trigger] final(info).body@[k] == trailed_fragment(
                history.0@,
                head_distance.0 as int,
                old(info).first_gap + k * old(info).gap,
                old(info).body@[k],
            ),
{
    let gap = info.gap;
    let len = info.body.len();
    let mut next_fragment_distance: u64 = info.first_gap;
    let mut pointer: usize = history.0.len() - 1;
    let mut k: usize = 0;
    while k < len
        invariant
            len == info.body@.len(),
            info.body@.len() == old(info).body@.len(),
            info.first_gap == old(info).first_gap,
            info.gap == old(info).gap,
            gap == info.gap,
            k <= len,
            history.0@.len() > 0,
            distances_sorted(history.0@),
            forall|i: int|
                0 <= i < history.0@.len() ==> #[trigger] history.0@[i].distance_passed.0
                    <= head_distance.0,
            old(info).first_gap + old(info).body@.len() * old(info).gap <= u64::MAX,
            next_fragment_distance == old(info).first_gap + k * old(info).gap,
            pointer < history.0@.len(),
            forall|i: int|
                pointer < i < history.0@.len() ==> head_distance.0 - #[trigger] history.0@[i].distance_passed.0
                    < next_fragment_distance,
            forall|m: int| k <= m < len ==> info.body@[m] == old(info).body@[m],
            forall|m: int|
                0 <= m < k ==> #[trigger] info.body@[m] == trailed_fragment(
                    history.0@,
                    head_distance.0 as int,
                    old(info).first_gap + m * old(info).gap,
                    old(info).body@[m],
                ),
        decreases len - k,
    {
        proof {
            let g = old(info).gap as int;
            let n = old(info).body@.len() as int;
            assert((k as int) * g <= n * g) by (nonlinear_arith)
                requires
                    0 <= (k as int),
                    (k as int) < n,
                    0 <= g,
            ;
        }
        while pointer > 0 && head_distance.0 - history.0[pointer].distance_passed.0
            < next_fragment_distance
            invariant
                history.0@.len() > 0,
                pointer < history.0@.len(),
                forall|i: int|
                    pointer < i < history.0@.len() ==> head_distance.0
                        - #[trigger] history.0@[i].distance_passed.0 < next_fragment_distance,
                forall|i: int|
                    0 <= i < history.0@.len() ==> #[trigger] history.0@[i].distance_passed.0
                        <= head_distance.0,
            decreases pointer,
        {
            pointer = pointer - 1;
        }
        proof {
            lemma_sample_index_unique(
                history.0@,
                head_distance.0 as int,
                next_fragment_distance as int,
                pointer as int,
            );
        }
        let sample = history.0[pointer];
        let f = info.body[k];
        info.body.set(k, Fragment { position: sample.position, cell: sample.cell, ..f });
        proof {
            let g = old(info).gap as int;
            let n = old(info).body@.len() as int;
            assert(((k + 1) as int) * g == (k as int) * g + g) by (nonlinear_arith);
            assert(((k + 1) as int) * g <= n * g) by (nonlinear_arith)
                requires
                    (k as int) + 1 <= n,
                    0 <= g,
            ;
        }
        next_fragment_distance = next_fragment_distance + gap;
        k = k + 1;
    }
}

} // verus!
