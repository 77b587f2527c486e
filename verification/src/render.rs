//! What a renderer is handed for one stroke: the mesh of each sub-path and
//! the style that it is drawn with.

use vstd::prelude::*;
use crate::cache::{PathBuilder, PathCache};
use crate::canvas::{Paint, Scissor, State};
use crate::stroke::Vertex;

verus! {

/// A finished stroke: a style, the cache that holds the mesh, and the half
/// width and the width of the fringe that the mesh was built with.
pub struct Stroke<'a, S> {
    pub state: &'a State<S>,
    pub cache: &'a PathCache<S>,
    pub fringe: S,
    pub half_width: S,
}

/// A walk over the sub-paths of a stroke.
pub struct PathIter<'a, S> {
    pub cache: &'a PathCache<S>,
    pub index: usize,
}

/// One sub-path of a stroke, with its range of the vertex buffer.
pub struct Path<'a> {
    pub path: &'a PathBuilder,
    pub verts: &'a [Vertex],
    pub first: usize,
    pub count: usize,
}

/// Anything that can draw a stroke.
pub trait StrokeRenderer<S> {
    fn render(&mut self, stroke: Stroke<'_, S>);
}

/// Anything that can draw what a canvas produces.
pub trait CanvasRenderer<S>: StrokeRenderer<S> {

}

/// Where the mesh of a sub-path starts in the vertex buffer; 0 where none
/// was built.
pub open spec fn mesh_first(path: PathBuilder) -> usize {
    match path.stroke {
        Some(r) => r.first,
        None => 0,
    }
}

/// Number of vertices of the mesh of a sub-path; 0 where none was built.
pub open spec fn mesh_count(path: PathBuilder) -> usize {
    match path.stroke {
        Some(r) => r.count,
        None => 0,
    }
}

impl<'a> Path<'a> {
    /// The range lies inside the vertex buffer.
    pub open spec fn wf(&self) -> bool {
        self.first + self.count <= self.verts@.len()
    }

    /// Tells whether the range lies inside the vertex buffer.
    pub fn well_formed(&self) -> (ok: bool)
        ensures
            ok == self.wf(),
    {
        let len: usize = self.verts.len();
        match self.first.checked_add(self.count) {
            Some(end) => end <= len,
            None => false,
        }
    }

    /// The vertices of the sub-path, in strip order.
    pub fn verts(&self) -> (verts: &[Vertex])
        requires
            self.wf(),
        ensures
            verts@ == self.verts@.subrange(self.first as int, self.first + self.count),
    {
        let len: usize = self.verts.len();
        let end: usize = self.first + self.count;
        &self.verts[self.first..end]
    }

    /// The sub-path is closed.
    pub fn closed(&self) -> (closed: bool)
        ensures
            closed == self.path.closed,
    {
        self.path.closed
    }

    /// Every vertex of the sub-path turns left.
    pub fn convex(&self) -> (convex: bool)
        ensures
            convex == self.path.convex,
    {
        self.path.convex
    }
}

impl<'a, S: Copy> PathIter<'a, S> {
    /// The next sub-path and its mesh, if any sub-path is left. A sub-path
    /// that no mesh was built for comes with an empty one.
    pub fn next(&mut self) -> (path: Option<Path<'a>>)
        requires
            old(self).cache.wf(),
        ensures
            final(self).cache == old(self).cache,
            old(self).index >= old(self).cache.paths@.len() ==> path.is_none() && final(self).index == old(self).index,
            old(self).index < old(self).cache.paths@.len() ==> {
                &&& final(self).index == old(self).index + 1
                &&& path.is_some()
                &&& *path.unwrap().path == old(self).cache.paths@[old(self).index as int]
                &&& path.unwrap().verts@ == old(self).cache.verts@
                &&& path.unwrap().first == mesh_first(*path.unwrap().path)
                &&& path.unwrap().count == mesh_count(*path.unwrap().path)
                &&& path.unwrap().wf()
            },
    {
        if self.index < self.cache.paths.len() {
            let cache: &'a PathCache<S> = self.cache;
            let path: &'a PathBuilder = &cache.paths[self.index];
            self.index = self.index + 1;
            let (first, count) = match path.stroke {
                Some(r) => (r.first, r.count),
                None => (0, 0),
            };
            Some(Path { path, verts: cache.verts.as_slice(), first, count })
        } else {
            None
        }
    }
}

impl<'a, S: Copy> Stroke<'a, S> {
    /// A walk over the sub-paths of the stroke, from the first.
    pub fn path_iter(&self) -> (paths: PathIter<'a, S>)
        ensures
            paths.cache == self.cache,
            paths.index == 0,
    {
        PathIter { cache: self.cache, index: 0 }
    }

    /// The colour at the core of the stroke.
    pub fn inner_color(&self) -> (color: [S; 4])
        ensures
            color == self.state.stroke.inner_color,
    {
        self.state.stroke.inner_color
    }

    /// The colour at the edge of the stroke.
    pub fn outer_color(&self) -> (color: [S; 4])
        ensures
            color == self.state.stroke.outer_color,
    {
        self.state.stroke.outer_color
    }

    /// The width that the stroke was drawn with.
    pub fn line_width(&self) -> (width: S)
        ensures
            width == self.state.line_width,
    {
        self.state.line_width
    }

    /// Half the width of the stroke's mesh, fringe included: the distance
    /// that places are to be read with.
    pub fn half_width(&self) -> (half_width: S)
        ensures
            half_width == self.half_width,
    {
        self.half_width
    }

    /// The width of the anti-aliasing fringe.
    pub fn fringe(&self) -> (fringe: S)
        ensures
            fringe == self.fringe,
    {
        self.fringe
    }

    /// The rectangle that the stroke is clipped to.
    pub fn scissor(&self) -> (scissor: &Scissor<S>)
        ensures
            *scissor == self.state.scissor,
    {
        &self.state.scissor
    }

    /// What the stroke is filled with.
    pub fn paint(&self) -> (paint: &Paint<S>)
        ensures
            *paint == self.state.stroke,
    {
        &self.state.stroke
    }
}

} // verus!
