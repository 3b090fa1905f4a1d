//! Measuring, trimming and session logic of a screen ruler.

pub mod color;
pub mod crop;
pub mod display;
pub mod drawing_laws;
pub mod duck;
pub mod extent;
pub mod geometry;
pub mod gradient;
pub mod gradient_laws;
pub mod hints;
pub mod key_laws;
pub mod measuring_laws;
pub mod monitor;
pub mod ppm;
pub mod ratio;
pub mod screenshot;
pub mod session;
pub mod session_laws;
pub mod shell;
pub mod shrink;
pub mod text;
