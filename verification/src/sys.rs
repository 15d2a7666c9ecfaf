//! The trusted boundary to the operating system.
//!
//! Each wrapper holds one call into `nix` (or the write loop over it) and
//! states no more than that call's documentation promises.  Descriptors are
//! raw nonnegative integers; errors carry the platform error code.

use vstd::prelude::*;

verus! {

/// A failing OS call, by its platform error code.
#[derive(Clone, Copy, PartialEq, Eq, Structural, Debug)]
pub struct IoError {
    pub errno: i32,
}

/// Relies on nix::fcntl::open with `O_CREAT | O_RDWR` and `O_APPEND` or
/// `O_TRUNC`, mode 0644: on success the result is a nonnegative descriptor
/// for the opened file.
#[verifier::external_body]
pub(crate) fn sys_open_rw(path: &str, append: bool) -> (r: Result<i32, i32>)
    ensures
        r matches Ok(fd) ==> fd >= 0,
{
    let flags = nix::fcntl::OFlag::O_CREAT | nix::fcntl::OFlag::O_RDWR | if append {
        nix::fcntl::OFlag::O_APPEND
    } else {
        nix::fcntl::OFlag::O_TRUNC
    };
    match nix::fcntl::open(path, flags, nix::sys::stat::Mode::from_bits_truncate(0o644)) {
        Ok(fd) => Ok(fd),
        Err(e) => Err(e as i32),
    }
}

/// Relies on nix::unistd::dup: on success the result is a fresh nonnegative
/// descriptor sharing the argument's open file description.
#[verifier::external_body]
pub(crate) fn sys_dup(fd: i32) -> (r: Result<i32, i32>)
    ensures
        r matches Ok(nf) ==> nf >= 0,
{
    match nix::unistd::dup(fd) {
        Ok(nf) => Ok(nf),
        Err(e) => Err(e as i32),
    }
}

/// Relies on nix::unistd::dup2: on success the result is the requested new
/// descriptor number.
#[verifier::external_body]
pub(crate) fn sys_dup2(oldfd: i32, newfd: i32) -> (r: Result<i32, i32>)
    ensures
        r matches Ok(nf) ==> nf == newfd,
{
    match nix::unistd::dup2(oldfd, newfd) {
        Ok(nf) => Ok(nf),
        Err(e) => Err(e as i32),
    }
}

/// Relies on nix::unistd::close.
#[verifier::external_body]
pub(crate) fn sys_close(fd: i32) -> (r: Result<(), i32>)
{
    match nix::unistd::close(fd) {
        Ok(()) => Ok(()),
        Err(e) => Err(e as i32),
    }
}

/// Relies on nix::unistd::getcwd: the current working directory, when it can
/// be read and is valid text.
#[verifier::external_body]
pub(crate) fn sys_getcwd() -> (r: Result<String, i32>)
{
    match nix::unistd::getcwd() {
        Ok(p) => match p.to_str() {
            Some(s) => Ok(s.to_string()),
            None => Err(0),
        },
        Err(e) => Err(e as i32),
    }
}

/// Relies on nix::unistd::write: on success the result is how many of the
/// bytes from `from` on were written, at least none and at most all of them.
#[verifier::external_body]
pub(crate) fn sys_write(fd: i32, buf: &[u8], from: usize) -> (r: Result<usize, i32>)
    requires
        from <= buf@.len(),
    ensures
        r matches Ok(n) ==> from + n <= buf@.len(),
{
    match nix::unistd::write(fd, &buf[from..]) {
        Ok(n) => Ok(n),
        Err(e) => Err(e as i32),
    }
}

/// Writes all bytes of a string to a raw descriptor, looping over partial
/// writes.  A write that makes no progress is reported as an error rather
/// than retried forever.
pub fn write_str_fd(fd: i32, s: &str) -> (r: Result<(), IoError>) {
    let bytes: &[u8] = s.as_bytes();
    let mut from: usize = 0;
    while from < bytes.len()
        invariant
            from <= bytes@.len(),
        decreases bytes@.len() - from,
    {
        match sys_write(fd, bytes, from) {
            Ok(n) => {
                if n == 0 {
                    return Err(IoError { errno: 0 });
                }
                from = from + n;
            },
            Err(e) => {
                return Err(IoError { errno: e });
            },
        }
    }
    Ok(())
}

} // verus!
