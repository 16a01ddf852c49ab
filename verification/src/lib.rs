//! Verified core of a 2D structural analysis engine: the integer and
//! combinatorial decisions behind moving-load paths, influence lines,
//! consistent mass matrices and geometric stiffness matrices.

pub mod influence;
pub mod model;
pub mod sorting;
pub mod moving_loads;
pub mod loads;
pub mod pattern;
pub mod mass_matrix;
pub mod geometric_stiffness;
pub mod assembly;
