//! Verified core of a small path tracer: frame naming, the adaptive
//! per-pixel sampling controller, row-major frame assembly, and the
//! material registry and lighting rules that do not depend on
//! floating-point values.

pub mod animation;
pub mod convergence;
pub mod frame;
pub mod materials;
pub mod registry;
