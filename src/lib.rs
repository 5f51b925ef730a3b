//! Heat diffusion on a rectangular grid: the field model, the layout of the
//! device buffers, the stage plan of one integration step, the readback
//! protocol, the CSV form of a field, and the command line that steers a
//! running solver.

pub mod mathutils;
pub mod grid;
pub mod csvtext;
pub mod csvgrid;
pub mod layout;
pub mod boundary;
pub mod pipeline;
pub mod readback;
pub mod session;
pub mod command;
