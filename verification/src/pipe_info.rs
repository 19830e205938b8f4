//! Telling from a file's mode whether it is a pipe, and what buffer size the
//! system reported for it.

use vstd::prelude::*;

verus! {

/// The bits of a file mode that hold the file's type.
pub open spec fn file_type_bits(mode: u32) -> u32 {
    mode & 0o170000u32
}

/// Whether a file mode is that of a pipe (a FIFO).
pub open spec fn is_fifo_mode(mode: u32) -> bool {
    file_type_bits(mode) == 0o010000u32
}

/// `libc::S_IFMT`, the mask that selects the file type in a mode. Trusted:
/// that the constant is octal 170000, as libc defines it for Linux.
#[verifier::external_body]
fn file_type_mask() -> (mask: u32)
    ensures
        mask == 0o170000u32,
{
    libc::S_IFMT
}

/// `libc::S_IFIFO`, the file type of a pipe. Trusted: that the constant is
/// octal 10000, as libc defines it for Linux.
#[verifier::external_body]
fn fifo_type() -> (kind: u32)
    ensures
        kind == 0o010000u32,
{
    libc::S_IFIFO
}

/// Whether `mode`, as the system gives it for an open file, is that of a
/// pipe.
pub fn is_pipe(mode: u32) -> (yes: bool)
    ensures
        yes == is_fifo_mode(mode),
{
    (mode & file_type_mask()) == fifo_type()
}

/// The buffer size of a pipe, where the file is one and the system told its
/// size.
///
/// `mode` is the file's mode and `reported` what the system answered when
/// asked for the pipe's buffer size, negative where it refused. The size is
/// known exactly where the file is a pipe and the answer is not negative.
pub fn get_pipe_buffer_size(mode: u32, reported: i32) -> (size: Option<usize>)
    ensures
        size == (if is_fifo_mode(mode) && reported >= 0 {
            Some(reported as usize)
        } else {
            None
        }),
{
    if is_pipe(mode) {
        if reported >= 0 {
            return Some(reported as usize);
        }
    }
    None
}

} // verus!
