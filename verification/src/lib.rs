//! Planning and bookkeeping for a water ripple effect that is drawn with a
//! jump-flood distance field.
//!
//! Each frame, for each ripple camera, the renderer masks the shapes that
//! cast ripples, seeds a jump-flood buffer from the mask, runs the rounds of
//! the flood, and composites the ripples onto the camera's target. This
//! library decides what is to be done and leaves the doing to the renderer:
//!
//! - [`schedule`]: how many rounds a view needs, their steps, and the buffer
//!   each reads and writes;
//! - [`steps`]: the table of jump distances and their byte offsets;
//! - [`resources`]: the render targets and bind groups, and what a resize
//!   replaces and rebuilds;
//! - [`graph`]: the pass graph and the checks on its edges;
//! - [`driver`]: the per-view state machine and the passes of a frame;
//! - [`pipeline`]: the key and the fixed state of the pipelines;
//! - [`mask`]: the order in which the mask pass draws;
//! - [`field`]: what seeding and a round compute, pixel by pixel;
//! - [`convergence`]: why the flood finds a lone seed.

pub mod convergence;
pub mod driver;
pub mod field;
pub mod graph;
pub mod mask;
pub mod pipeline;
pub mod resources;
pub mod schedule;
pub mod steps;
