//! The edges of a sub-path as pairs of point indices, the closing edge from
//! the last point to the first always in front.

use vstd::prelude::*;

verus! {

/// Index of the point before point `to` in a ring of `len` points: before
/// the first point comes the last.
pub open spec fn edge_from(len: int, to: int) -> int {
    if to > 0 {
        to - 1
    } else if len > 0 {
        len - 1
    } else {
        0
    }
}

/// A walk over the edges of a ring of points. Each edge is a pair of indices
/// into the points: where it starts and where it ends.
#[derive(Copy, Clone, Debug, PartialEq, Eq, Structural)]
pub struct EdgeIterMut {
    pub len: usize,
    pub from: usize,
    pub to: usize,
}

impl EdgeIterMut {
    /// The walk stands on an edge of its ring, or at its end.
    pub open spec fn wf(&self) -> bool {
        self.to <= self.len && self.from == edge_from(self.len as int, self.to as int)
    }

    /// The edges that the walk has yet to yield.
    pub open spec fn remaining(&self) -> Seq<(usize, usize)> {
        Seq::new(
            (self.len - self.to) as nat,
            |k: int| (edge_from(self.len as int, self.to + k) as usize, (self.to + k) as usize),
        )
    }

    /// Yields the edge that the walk stands on and moves to the one that
    /// starts where it ended; yields nothing at the end of the ring.
    pub fn next(&mut self) -> (edge: Option<(usize, usize)>)
        ensures
            final(self).len == old(self).len,
            old(self).to < old(self).len ==> edge == Some((old(self).from, old(self).to))
                && final(self).from == old(self).to && final(self).to == old(self).to + 1,
            old(self).to >= old(self).len ==> edge.is_none() && *final(self) == *old(self),
            old(self).wf() ==> final(self).wf(),
            old(self).wf() && old(self).to < old(self).len ==> edge == Some(old(self).remaining()[0])
                && final(self).remaining() == old(self).remaining().skip(1),
    {
        if self.to < self.len {
            let edge = (self.from, self.to);
            self.from = self.to;
            self.to = self.to + 1;
            proof {
                if old(self).wf() {
                    assert(self.remaining() =~= old(self).remaining().skip(1));
                }
            }
            Some(edge)
        } else {
            None
        }
    }

    /// All the edges that the walk has yet to yield, in order.
    pub fn collect(&mut self) -> (edges: Vec<(usize, usize)>)
        requires
            old(self).wf(),
        ensures
            edges@ == old(self).remaining(),
            final(self).wf(),
            final(self).len == old(self).len,
            final(self).to == old(self).len,
    {
        let mut edges: Vec<(usize, usize)> = Vec::new();
        while self.to < self.len
            invariant
                self.wf(),
                self.len == old(self).len,
                old(self).to <= self.to,
                edges@ + self.remaining() == old(self).remaining(),
            decreases self.len - self.to,
        {
            let ghost before = self.remaining();
            let ghost had = edges@;
            match self.next() {
                Some(edge) => {
                    edges.push(edge);
                    assert(edges@ + self.remaining() =~= had + before);
                },
                None => {},
            }
        }
        assert(self.remaining() =~= Seq::empty());
        assert(edges@ =~= edges@ + self.remaining());
        edges
    }
}

/// Starts a walk over the edges of `points` taken as a ring: the edge from
/// the last point to the first, then the edge from each point to the next.
/// Without points there are no edges.
pub fn edges_iter_mut<T>(points: &[T]) -> (edges: EdgeIterMut)
    ensures
        edges.len == points@.len(),
        edges.to == 0,
        edges.wf(),
        edges.remaining().len() == points@.len(),
        forall|k: int|
            0 <= k < points@.len() ==> #[trigger] edges.remaining()[k] == (
                edge_from(points@.len() as int, k) as usize,
                k as usize,
            ),
{
    let len: usize = points.len();
    let from: usize = if len > 0 {
        len - 1
    } else {
        0
    };
    EdgeIterMut { len, from, to: 0 }
}

} // verus!
