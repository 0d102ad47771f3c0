//! Streaming core of an acoustic drone detector: capture-session decisions,
//! lossless windowing of the sample stream, and debounced detection over a
//! bounded history of per-window labels.

pub mod history;
pub mod smoother;
pub mod window;
pub mod capture;
pub mod evaluation;
