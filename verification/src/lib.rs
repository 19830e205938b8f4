//! Joining several byte streams line by line.
//!
//! Each input stream is handled by a [`worker::Worker`], which collects the
//! bytes it is given in a [`buffer::ReadBuffer`], cuts them at the last line
//! terminator, and hands out blocks of whole lines to be written to a shared
//! sink. The caller performs the reads and the writes; everything that is
//! decided about the bytes is decided here.

pub mod lines;
pub mod buffer;
pub mod worker;
pub mod stream;
pub mod coordinator;
pub mod pipe_info;
pub mod sink;
