//! Stroke tessellation core: the combinatorial half of a 2D path stroker.
//!
//! A path is recorded as commands, flattened into per-sub-path point lists,
//! classified vertex by vertex, and expanded into a triangle-strip ring. This
//! crate owns the bookkeeping of that pipeline: which points are stored and
//! in which order, which join flags each point carries, which mesh vertices
//! are emitted and in which order, and how many of them there can be. Every
//! coordinate is a value of a caller-chosen scalar type that the crate stores
//! and hands back but never computes with; each decision that rests on
//! measuring coordinates reaches the crate as a plain `bool` or integer.

pub mod area;
pub mod bezier;
pub mod cache;
pub mod canvas;
pub mod edges;
pub mod expand;
pub mod flatten;
pub mod joins;
pub mod mesh;
pub mod render;
pub mod stroke;
pub mod style;

pub use bezier::{Cubic, Segment, Tessellator};
pub use cache::{Direction, PathBuilder, PathCache, PathVertexRef, Point};
pub use canvas::{Canvas, Command, Paint, Resolution, Scissor, State, Transform};
pub use edges::{edges_iter_mut, EdgeIterMut};
pub use flatten::{AreaSign, PathShape};
pub use joins::JoinMeasure;
pub use render::{CanvasRenderer, Path, PathIter, Stroke, StrokeRenderer};
pub use stroke::{Fade, Place, Vertex};
pub use style::{clamp, Color, LineCap, LineJoin, Winding};
