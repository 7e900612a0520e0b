//! Greedy voxel mesher: turns a 16x16x16 section of typed voxels into a
//! minimal triangulated surface mesh.
//!
//! The core is a three-pass run-length merge over a flat array of group
//! records (one per cell), followed by a box emitter that turns each
//! surviving record into the vertices and triangle indices of an
//! axis-aligned box with only the uncovered faces present. Positions are
//! kept in integer block units; scaling to world units is the renderer's
//! concern.

pub mod face;
pub mod group;
pub mod mesh;
pub mod emit;
pub mod section;
pub mod pass1;
pub mod lateral;
pub mod mesher;
pub mod merge_props;
