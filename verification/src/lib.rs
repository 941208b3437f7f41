//! Wire protocol, tile planning and payload layout of a distributed fractal
//! renderer.
//!
//! A coordinator hands rectangular tiles of the fractal plane to workers; each
//! worker answers with one intensity pair per pixel, and the coordinator
//! paints the tiles into one picture. This crate holds the parts of that
//! exchange that are functions of bytes and integers:
//!
//! - [`frame`]: the two-length frame around every message;
//! - [`message`]: the records that the JSON text of a frame stands for;
//! - [`pixels`]: the byte layout of the pixel stream in a payload;
//! - [`fragment_task`]: the fixed plan of sixteen tiles and the
//!   identification that travels with every task;
//! - [`fragment_result`] and [`assembler`]: how a worker packs its reply and
//!   how the coordinator reads it;
//! - [`worker`] and [`coordinator`]: what either side does with a message;
//! - [`kernel`]: the loops that all kernels share;
//! - [`drawing_image`]: the picture that tiles are painted into.
//!
//! IEEE-754 values are carried as their bit patterns (a `u64` for a binary64
//! coordinate, a `u32` for a binary32 intensity). The crate moves and compares
//! them but never does arithmetic on them. Sockets, JSON, floating-point
//! kernels and files are the business of the program around it.

pub mod assembler;
pub mod binary64;
pub mod bytes;
pub mod callback;
pub mod coordinator;
pub mod drawing_image;
pub mod fragment_result;
pub mod fragment_task;
pub mod frame;
pub mod kernel;
pub mod message;
pub mod pixels;
pub mod worker;
