//! The command recorder: the path commands of the current path and the
//! style that the next stroke is drawn with.

use vstd::prelude::*;
use crate::cache::PathCache;
use crate::joins::JoinMeasure;
use crate::render::{Stroke, StrokeRenderer};
use crate::style::{LineCap, LineJoin, Winding};

verus! {

/// One recorded step of a path.
#[derive(Copy, Clone, Debug)]
pub enum Command<S> {
    MoveTo(S, S),
    LineTo(S, S),
    BezierTo(S, S, S, S, S, S),
    Close,
    Winding(Winding),
}

/// An affine transform: a 2 by 2 matrix, column by column, and an offset.
#[derive(Copy, Clone, Debug)]
pub struct Transform<S> {
    pub e: [S; 6],
}

impl<S: Copy> Transform<S> {
    /// The transform that moves nothing, built from the scalars that stand
    /// for nothing and for one: the unit matrix and no offset.
    pub fn identity(zero: S, one: S) -> (t: Self)
        ensures
            t.e@ == seq![one, zero, zero, one, zero, zero],
    {
        let t = Transform { e: [one, zero, zero, one, zero, zero] };
        assert(t.e@ =~= seq![one, zero, zero, one, zero, zero]);
        t
    }
}

/// The rectangle that drawing is clipped to, in its own frame.
#[derive(Copy, Clone, Debug)]
pub struct Scissor<S> {
    pub transform: Transform<S>,
    pub extent: [S; 2],
}

/// What a stroke is filled with. The crate hands it on as it is.
#[derive(Copy, Clone, Debug)]
pub struct Paint<S> {
    pub transform: Transform<S>,
    pub extent: [S; 2],
    pub radius: S,
    pub feather: S,
    pub inner_color: [S; 4],
    pub outer_color: [S; 4],
    pub image: i32,
}

/// The style of a stroke.
#[derive(Copy, Clone, Debug)]
pub struct State<S> {
    pub line_width: S,
    pub line_cap: LineCap,
    pub line_join: LineJoin,
    pub miter_limit: S,
    pub stroke: Paint<S>,
    pub shape_anti_alias: bool,
    pub scissor: Scissor<S>,
}

impl<S: Copy> State<S> {
    /// The style that a canvas starts with, as far as it is not a matter of
    /// scalars: butt caps, miter joins, and anti-aliasing switched on.
    pub fn new(line_width: S, miter_limit: S, stroke: Paint<S>, scissor: Scissor<S>) -> (state:
        Self)
        ensures
            state == (State {
                line_width,
                line_cap: LineCap::Butt,
                line_join: LineJoin::Miter,
                miter_limit,
                stroke,
                shape_anti_alias: true,
                scissor,
            }),
    {
        State {
            line_width,
            line_cap: LineCap::Butt,
            line_join: LineJoin::Miter,
            miter_limit,
            stroke,
            shape_anti_alias: true,
            scissor,
        }
    }
}

/// The tolerances that follow from the number of pixels to a point.
#[derive(Copy, Clone, Debug)]
pub struct Resolution<S> {
    pub pixels_per_point: S,
    /// How far a flattened curve may lie off the curve.
    pub tess_tol: S,
    /// How close two points have to be to count as one.
    pub dist_tol: S,
    /// Width of the anti-aliasing fringe.
    pub fringe: S,
}

/// One drawing context: the commands of the current path, the style, and the
/// buffers that the path is flattened and stroked in.
pub struct Canvas<S> {
    pub commands: Vec<Command<S>>,
    pub state: State<S>,
    pub cache: PathCache<S>,
    pub resolution: Resolution<S>,
}

impl<S: Copy> Canvas<S> {
    /// A canvas without commands, with the style and the tolerances given.
    /// `zero` is the scalar that stands for nothing measured.
    pub fn new(state: State<S>, resolution: Resolution<S>, zero: S) -> (canvas: Self)
        ensures
            canvas.commands@.len() == 0,
            canvas.cache.zero == zero,
            canvas.state == state,
            canvas.resolution == resolution,
            canvas.cache.points@.len() == 0,
            canvas.cache.paths@.len() == 0,
            canvas.cache.verts@.len() == 0,
            canvas.cache.wf(),
            canvas.cache.recording(),
    {
        Canvas { commands: Vec::new(), state, cache: PathCache::new(zero), resolution }
    }

    /// Replaces the tolerances.
    pub fn set_pixels_per_point(&mut self, resolution: Resolution<S>)
        ensures
            *final(self) == (Canvas { resolution, ..*old(self) }),
    {
        self.resolution = resolution;
    }

    /// Sets the width of the strokes to come.
    pub fn set_line_width(&mut self, line_width: S)
        ensures
            *final(self) == (Canvas {
                state: State { line_width, ..old(self).state },
                ..*old(self)
            }),
    {
        self.state.line_width = line_width;
    }

    /// Sets the cap of the strokes to come.
    pub fn set_line_cap(&mut self, line_cap: LineCap)
        ensures
            *final(self) == (Canvas { state: State { line_cap, ..old(self).state }, ..*old(self) }),
    {
        self.state.line_cap = line_cap;
    }

    /// Sets the join of the strokes to come.
    pub fn set_line_join(&mut self, line_join: LineJoin)
        ensures
            *final(self) == (Canvas {
                state: State { line_join, ..old(self).state },
                ..*old(self)
            }),
    {
        self.state.line_join = line_join;
    }

    /// Sets the colour of the strokes to come, inside and outside alike.
    pub fn set_stroke_color(&mut self, color: [S; 4])
        ensures
            *final(self) == (Canvas {
                state: State {
                    stroke: Paint {
                        inner_color: color,
                        outer_color: color,
                        ..old(self).state.stroke
                    },
                    ..old(self).state
                },
                ..*old(self)
            }),
    {
        self.state.stroke.inner_color = color;
        self.state.stroke.outer_color = color;
    }

    /// Switches the anti-aliasing fringe of the strokes to come on or off.
    pub fn set_shape_anti_alias(&mut self, enabled: bool)
        ensures
            *final(self) == (Canvas {
                state: State { shape_anti_alias: enabled, ..old(self).state },
                ..*old(self)
            }),
    {
        self.state.shape_anti_alias = enabled;
    }

    /// Starts a new path: the commands recorded so far are dropped, and so
    /// are the points and sub-paths of the cache. The style stays.
    pub fn begin_path(&mut self) -> (canvas: &mut Self)
        ensures
            canvas.commands@.len() == 0,
            canvas.cache.points@.len() == 0,
            canvas.cache.paths@.len() == 0,
            canvas.cache.verts@ == old(self).cache.verts@,
            canvas.cache.zero == old(self).cache.zero,
            canvas.cache.wf(),
            canvas.cache.recording(),
            canvas.state == old(self).state,
            canvas.resolution == old(self).resolution,
            *final(self) == *final(canvas),
    {
        self.commands.clear();
        self.cache.clear();
        self
    }

    /// Records a command behind those recorded so far.
    pub fn record(&mut self, command: Command<S>) -> (canvas: &mut Self)
        ensures
            canvas.commands@ == old(self).commands@.push(command),
            canvas.state == old(self).state,
            canvas.cache == old(self).cache,
            canvas.resolution == old(self).resolution,
            *final(self) == *final(canvas),
    {
        self.commands.push(command);
        self
    }

    /// Records the start of a new sub-path at a point.
    pub fn move_to(&mut self, x: S, y: S) -> (canvas: &mut Self)
        ensures
            canvas.commands@ == old(self).commands@.push(Command::MoveTo(x, y)),
            canvas.state == old(self).state,
            canvas.cache == old(self).cache,
            canvas.resolution == old(self).resolution,
            *final(self) == *final(canvas),
    {
        self.record(Command::MoveTo(x, y))
    }

    /// Records a straight line to a point.
    pub fn line_to(&mut self, x: S, y: S) -> (canvas: &mut Self)
        ensures
            canvas.commands@ == old(self).commands@.push(Command::LineTo(x, y)),
            canvas.state == old(self).state,
            canvas.cache == old(self).cache,
            canvas.resolution == old(self).resolution,
            *final(self) == *final(canvas),
    {
        self.record(Command::LineTo(x, y))
    }

    /// Records a cubic curve over two control points to a point.
    pub fn bezier_to(&mut self, cp1x: S, cp1y: S, cp2x: S, cp2y: S, x: S, y: S) -> (canvas:
        &mut Self)
        ensures
            canvas.commands@ == old(self).commands@.push(
                Command::BezierTo(cp1x, cp1y, cp2x, cp2y, x, y),
            ),
            canvas.state == old(self).state,
            canvas.cache == old(self).cache,
            canvas.resolution == old(self).resolution,
            *final(self) == *final(canvas),
    {
        self.record(Command::BezierTo(cp1x, cp1y, cp2x, cp2y, x, y))
    }

    /// Records that the current sub-path is closed.
    pub fn close_path(&mut self) -> (canvas: &mut Self)
        ensures
            canvas.commands@ == old(self).commands@.push(Command::Close),
            canvas.state == old(self).state,
            canvas.cache == old(self).cache,
            canvas.resolution == old(self).resolution,
            *final(self) == *final(canvas),
    {
        self.record(Command::Close)
    }

    /// Records the winding requested for the current sub-path.
    pub fn path_winding(&mut self, winding: Winding) -> (canvas: &mut Self)
        ensures
            canvas.commands@ == old(self).commands@.push(Command::Winding(winding)),
            canvas.state == old(self).state,
            canvas.cache == old(self).cache,
            canvas.resolution == old(self).resolution,
            *final(self) == *final(canvas),
    {
        self.record(Command::Winding(winding))
    }

    /// Strokes the flattened path: builds its mesh with the cap and the
    /// join of `state`, and hands the renderer the mesh with that style.
    /// Returns `false`, builds nothing and calls no renderer where the
    /// measures are not one per stored point.
    ///
    /// `state` is the caller's copy of the style, so a later change of the
    /// canvas cannot reach a stroke that was already issued. The commands
    /// and the style of the canvas stay as they are.
    pub fn stroke<R>(
        &mut self,
        renderer: &mut R,
        state: &State<S>,
        half_width: S,
        fringe: S,
        anti_alias: bool,
        ncap: usize,
        measures: &Vec<JoinMeasure<S>>,
    ) -> (ok: bool) where R: StrokeRenderer<S>
        requires
            old(self).cache.wf(),
        ensures
            ok == (measures@.len() == old(self).cache.points@.len()),
            final(self).commands == old(self).commands,
            final(self).state == old(self).state,
            final(self).resolution == old(self).resolution,
            final(self).cache.wf(),
            !ok ==> final(self).cache.unchanged_from(&old(self).cache),
            !ok ==> *final(renderer) == *old(renderer),
            ok ==> final(self).cache.stroked_from(
                &old(self).cache,
                state.line_cap,
                state.line_join,
                ncap,
                anti_alias,
                measures@,
            ),
            ok ==> final(self).cache.mesh_sound(),
    {
        if !self.cache.expand_stroke(state.line_cap, state.line_join, ncap, anti_alias, measures) {
            return false;
        }
        // Reading a length tells the verifier that it fits a `usize`.
        let _ = self.cache.points.len();
        let _ = self.cache.verts.len();
        proof {
            self.cache.lemma_stroke_is_sound(
                &old(self).cache,
                state.line_cap,
                state.line_join,
                ncap,
                anti_alias,
                measures@,
            );
        }
        let stroke = Stroke { state, cache: &self.cache, fringe, half_width };
        renderer.render(stroke);
        true
    }
}

} // verus!
