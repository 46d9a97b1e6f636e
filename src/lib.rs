// A Monte Carlo sphere renderer: the scene container, the integrator's
// bounce decisions, and the plain-text pixel-map encoding.
pub mod hit;
pub mod image;
pub mod trace;
