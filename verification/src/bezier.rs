//! Subdivision of a cubic curve, as a stack of segments that are yet to be
//! examined. The caller measures each segment that the stack hands out, and
//! either takes its end point as flat enough or gives back its two halves.

use vstd::prelude::*;

verus! {

/// Deepest level at which a segment is examined. The whole curve is at
/// level 0, each half of a segment one level below it.
pub const MAX_LEVEL: u32 = 10;

/// The four control points of a cubic curve.
#[derive(Copy, Clone, Debug)]
pub struct Cubic<S> {
    pub x1: S,
    pub y1: S,
    pub x2: S,
    pub y2: S,
    pub x3: S,
    pub y3: S,
    pub x4: S,
    pub y4: S,
}

/// A piece of the curve that is yet to be examined.
#[derive(Copy, Clone, Debug)]
pub struct Segment<S> {
    pub curve: Cubic<S>,
    /// How many times the curve was halved to get this piece.
    pub level: u32,
    /// The flags that the end point of the piece is stored with.
    pub flags: u32,
}

/// The pieces of one curve that are yet to be examined; the last is next.
pub struct Tessellator<S> {
    pub pending: Vec<Segment<S>>,
}

/// Number of segments that can still be handed out below and including a
/// segment at `level`: the segment itself and, above the deepest level, as
/// many again for each of its halves.
pub open spec fn weight(level: int) -> int
    decreases MAX_LEVEL - level,
{
    if level >= MAX_LEVEL {
        1
    } else {
        2 * weight(level + 1) + 1
    }
}

/// Number of segments that can still be handed out, all pending segments
/// taken together.
pub open spec fn work<S>(pending: Seq<Segment<S>>) -> int
    decreases pending.len(),
{
    if pending.len() == 0 {
        0
    } else {
        work(pending.drop_last()) + weight(pending.last().level as int)
    }
}

/// The left half of a segment: one level down, and without flags, as its
/// end point lies inside the curve.
pub open spec fn left_half<S>(segment: Segment<S>, curve: Cubic<S>) -> Segment<S> {
    Segment { curve, level: (segment.level + 1) as u32, flags: 0 }
}

/// The right half of a segment: one level down, with the flags of the
/// segment, as it ends where the segment ends.
pub open spec fn right_half<S>(segment: Segment<S>, curve: Cubic<S>) -> Segment<S> {
    Segment { curve, level: (segment.level + 1) as u32, flags: segment.flags }
}

/// Every segment weighs at least one.
pub proof fn lemma_weight_positive(level: int)
    ensures
        weight(level) >= 1,
    decreases MAX_LEVEL - level,
{
    if level < MAX_LEVEL {
        lemma_weight_positive(level + 1);
    }
}

/// Pending segments never weigh less than nothing.
pub proof fn lemma_work_bounds<S>(pending: Seq<Segment<S>>)
    ensures
        work(pending) >= 0,
    decreases pending.len(),
{
    if pending.len() > 0 {
        lemma_work_bounds(pending.drop_last());
        lemma_weight_positive(pending.last().level as int);
    }
}

/// A whole curve is examined in at most 2047 segments.
pub proof fn lemma_weight_of_curve()
    ensures
        weight(0) == 2047,
{
    assert(weight(10) == 1);
    assert(weight(9) == 3);
    assert(weight(8) == 7);
    assert(weight(7) == 15);
    assert(weight(6) == 31);
    assert(weight(5) == 63);
    assert(weight(4) == 127);
    assert(weight(3) == 255);
    assert(weight(2) == 511);
    assert(weight(1) == 1023);
}

impl<S: Copy> Tessellator<S> {
    /// No pending segment lies below the deepest level.
    pub open spec fn wf(&self) -> bool {
        forall|i: int| 0 <= i < self.pending@.len() ==> (#[trigger] self.pending@[i]).level <= MAX_LEVEL
    }

    /// Tells whether the pending segments are well formed.
    pub fn well_formed(&self) -> (ok: bool)
        ensures
            ok == self.wf(),
    {
        let n: usize = self.pending.len();
        let mut i: usize = 0;
        while i < n
            invariant
                0 <= i <= n,
                n == self.pending@.len(),
                forall|k: int| 0 <= k < i ==> (#[trigger] self.pending@[k]).level <= MAX_LEVEL,
            decreases n - i,
        {
            if self.pending[i].level > MAX_LEVEL {
                return false;
            }
            i = i + 1;
        }
        true
    }

    /// Starts on a whole curve, whose end point is stored with `flags`.
    pub fn new(curve: Cubic<S>, flags: u32) -> (walk: Self)
        ensures
            walk.pending@ == seq![(Segment { curve, level: 0, flags })],
            walk.wf(),
            work(walk.pending@) == weight(0),
    {
        let mut pending: Vec<Segment<S>> = Vec::new();
        pending.push(Segment { curve, level: 0, flags });
        proof {
            assert(pending@.drop_last() =~= Seq::<Segment<S>>::empty());
            assert(work(pending@.drop_last()) == 0);
        }
        Tessellator { pending }
    }

    /// Hands out the next segment to examine, if any is left. A segment that
    /// is handed out is never deeper than the deepest level.
    pub fn next(&mut self) -> (segment: Option<Segment<S>>)
        requires
            old(self).wf(),
        ensures
            final(self).wf(),
            old(self).pending@.len() == 0 ==> segment.is_none() && final(self).pending@ == old(
                self,
            ).pending@,
            old(self).pending@.len() > 0 ==> segment == Some(old(self).pending@.last()) && final(self).pending@ == old(self).pending@.drop_last(),
            segment.is_some() ==> segment.unwrap().level <= MAX_LEVEL,
            segment.is_some() ==> work(final(self).pending@) + weight(
                segment.unwrap().level as int,
            ) == work(old(self).pending@),
    {
        let n: usize = self.pending.len();
        if n == 0 {
            return None;
        }
        let segment = self.pending[n - 1];
        self.pending.truncate(n - 1);
        assert(self.pending@ =~= old(self).pending@.drop_last());
        Some(segment)
    }

    /// Gives back the two halves of a segment that was found not to be flat
    /// enough. The left half is examined first. At the deepest level the
    /// halves are not examined at all, so nothing is added.
    pub fn split(&mut self, segment: &Segment<S>, left: Cubic<S>, right: Cubic<S>)
        requires
            old(self).wf(),
        ensures
            final(self).wf(),
            segment.level < MAX_LEVEL ==> final(self).pending@ == old(self).pending@.push(
                right_half(*segment, right),
            ).push(left_half(*segment, left)),
            segment.level >= MAX_LEVEL ==> final(self).pending@ == old(self).pending@,
            segment.level <= MAX_LEVEL ==> work(final(self).pending@) == work(old(self).pending@)
                + weight(segment.level as int) - 1,
    {
        if segment.level < MAX_LEVEL {
            let level: u32 = segment.level + 1;
            self.pending.push(Segment { curve: right, level, flags: segment.flags });
            let ghost middle = self.pending@;
            self.pending.push(Segment { curve: left, level, flags: 0 });
            proof {
                assert(middle.drop_last() =~= old(self).pending@);
                assert(self.pending@.drop_last() =~= middle);
                assert(work(middle) == work(old(self).pending@) + weight(level as int));
                assert(work(self.pending@) == work(middle) + weight(level as int));
                assert(weight(segment.level as int) == 2 * weight(level as int) + 1);
            }
        } else {
            assert(weight(MAX_LEVEL as int) == 1);
        }
    }
}

} // verus!
