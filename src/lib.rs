//! Grid geometry for a two-dimensional fluid simulation: cell layout and
//! stencils, the interior sweep order, bilinear-sampling corners, the phase
//! order of a simulation step, pointer brushes and pixel blocks.
pub mod grid;
pub mod sampling;
pub mod stepper;
pub mod brush;
pub mod frame;
