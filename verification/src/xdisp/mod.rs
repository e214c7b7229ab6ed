//! Display builtins: mode lines, visibility of positions, and the variables of redisplay.
pub mod construct;
pub mod designator;
pub mod expand;
pub mod format;
pub mod line_laws;
pub mod measure;
pub mod measure_laws;
pub mod mode_laws;
pub mod percent;
pub mod point_laws;
pub mod posn;
pub mod rendered;
pub mod simple;
pub mod span_laws;
pub mod vars;
pub mod visible;
pub mod walk;
pub mod walk_laws;
