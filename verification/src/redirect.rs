//! The descriptor redirection engine: applies remaps from a redirect list
//! and can roll the shell's own descriptors back afterwards.
//!
//! The proofs cover the bookkeeping: exactly one saved-original entry is
//! recorded per distinct source descriptor, the first time it is touched,
//! and restore drains the record in order.

use vstd::prelude::*;
use crate::sys::{sys_close, sys_dup, sys_dup2, sys_open_rw, IoError};

verus! {

/// The per-invocation record of (duplicate, original) descriptor pairs: for
/// every source descriptor touched so far, a duplicate made of it before the
/// first remap, through which it is later restored.
pub struct RedirectHelper {
    original_fds: Vec<(i32, i32)>,
}

impl View for RedirectHelper {
    type V = Seq<(i32, i32)>;

    closed spec fn view(&self) -> Seq<(i32, i32)> {
        self.original_fds@
    }
}

/// Whether a source descriptor already has a saved original.
pub open spec fn spec_touched(s: Seq<(i32, i32)>, fd: i32) -> bool {
    exists|j: int| 0 <= j < s.len() && (#[trigger] s[j]).1 == fd
}

impl RedirectHelper {
    /// At most one entry per source descriptor, and every saved duplicate is
    /// a real descriptor.
    pub open spec fn wf(&self) -> bool {
        (forall|j: int, k: int|
            0 <= j < k < self@.len() ==> (#[trigger] self@[j]).1 != (#[trigger] self@[k]).1)
            && (forall|j: int| 0 <= j < self@.len() ==> (#[trigger] self@[j]).0 >= 0)
    }

    pub fn new() -> (r: Self)
        ensures
            r@ == Seq::<(i32, i32)>::empty(),
            r.wf(),
    {
        let r = RedirectHelper { original_fds: Vec::new() };
        proof {
            assert(r@ =~= Seq::<(i32, i32)>::empty());
        }
        r
    }

    /// How many source descriptors have a saved original.
    pub fn saved_count(&self) -> (n: usize)
        ensures
            n == self@.len(),
    {
        self.original_fds.len()
    }

    pub fn has_original_for(&self, fd: i32) -> (b: bool)
        ensures
            b == spec_touched(self@, fd),
    {
        let mut j: usize = 0;
        while j < self.original_fds.len()
            invariant
                j <= self@.len(),
                forall|k: int| 0 <= k < j ==> (#[trigger] self@[k]).1 != fd,
            decreases self@.len() - j,
        {
            if self.original_fds[j].1 == fd {
                return true;
            }
            j = j + 1;
        }
        false
    }

    /// Before the first remap of a source descriptor, duplicates it and
    /// records the pair; later touches of the same descriptor add nothing.
    fn save_original(&mut self, fd: i32) -> (r: Result<(), IoError>)
        requires
            old(self).wf(),
        ensures
            final(self).wf(),
            r is Ok ==> forall|f: i32|
                spec_touched(final(self)@, f) == (spec_touched(old(self)@, f) || f == fd),
            r is Err ==> final(self)@ == old(self)@,
            old(self)@.is_prefix_of(final(self)@),
    {
        if self.has_original_for(fd) {
            proof {
                assert(old(self)@.is_prefix_of(self@));
            }
            return Ok(());
        }
        match sys_dup(fd) {
            Ok(d) => {
                proof {
                    assert(old(self)@.push((d, fd)).drop_last() =~= old(self)@);
                }
                self.original_fds.push((d, fd));
                proof {
                    assert forall|f: i32|
                        spec_touched(self@, f) == (spec_touched(old(self)@, f)
                            || f == fd) by {
                        if spec_touched(old(self)@, f) {
                            let j = choose|j: int|
                                0 <= j < old(self)@.len() && (#[trigger] old(self)@[j]).1 == f;
                            assert(self@[j].1 == f);
                        }
                        if f == fd {
                            assert(self@[self@.len() - 1].1 == fd);
                        }
                        if spec_touched(self@, f) {
                            let j = choose|j: int|
                                0 <= j < self@.len() && (#[trigger] self@[j]).1 == f;
                            if j < old(self)@.len() {
                                assert(old(self)@[j].1 == f);
                            }
                        }
                    }
                }
                Ok(())
            },
            Err(e) => Err(IoError { errno: e }),
        }
    }

    /// Remaps `fd` onto the named file, truncating or appending: saves the
    /// original on first touch, opens the file, duplicates the new
    /// descriptor onto `fd`, and closes the freshly opened descriptor unless
    /// it already is `fd`.
    pub fn redirect_to_file(&mut self, file: &str, fd: i32, append: bool) -> (r: Result<
        (),
        IoError,
    >)
        requires
            old(self).wf(),
        ensures
            final(self).wf(),
            old(self)@.is_prefix_of(final(self)@),
            forall|f: i32|
                spec_touched(final(self)@, f) ==> (spec_touched(old(self)@, f) || f == fd),
            r is Ok ==> forall|f: i32|
                spec_touched(final(self)@, f) == (spec_touched(old(self)@, f) || f == fd),
            r is Err ==> (forall|f: i32|
                spec_touched(final(self)@, f) == spec_touched(old(self)@, f)) || (forall|f: i32|
                spec_touched(final(self)@, f) == (spec_touched(old(self)@, f) || f == fd)),
    {
        match self.save_original(fd) {
            Ok(()) => {},
            Err(e) => {
                return Err(e);
            },
        }
        let file_fd = match sys_open_rw(file, append) {
            Ok(f) => f,
            Err(e) => {
                return Err(IoError { errno: e });
            },
        };
        match sys_dup2(file_fd, fd) {
            Ok(_) => {},
            Err(e) => {
                return Err(IoError { errno: e });
            },
        }
        if file_fd != fd {
            match sys_close(file_fd) {
                Ok(()) => {},
                Err(e) => {
                    return Err(IoError { errno: e });
                },
            }
        }
        Ok(())
    }

    /// Remaps `source` onto what `dest` names: saves the original on first
    /// touch, duplicates `dest` onto `source`, and closes the now-redundant
    /// `dest` unless the two are the same number.
    pub fn redirect_to_fd(&mut self, source: i32, dest: i32) -> (r: Result<(), IoError>)
        requires
            old(self).wf(),
        ensures
            final(self).wf(),
            old(self)@.is_prefix_of(final(self)@),
            forall|f: i32|
                spec_touched(final(self)@, f) ==> (spec_touched(old(self)@, f) || f == source),
            r is Ok ==> forall|f: i32|
                spec_touched(final(self)@, f) == (spec_touched(old(self)@, f) || f == source),
            r is Err ==> (forall|f: i32|
                spec_touched(final(self)@, f) == spec_touched(old(self)@, f)) || (forall|f: i32|
                spec_touched(final(self)@, f) == (spec_touched(old(self)@, f) || f == source)),
    {
        match self.save_original(source) {
            Ok(()) => {},
            Err(e) => {
                return Err(e);
            },
        }
        match sys_dup2(dest, source) {
            Ok(_) => {},
            Err(e) => {
                return Err(IoError { errno: e });
            },
        }
        if dest != source {
            match sys_close(dest) {
                Ok(()) => {},
                Err(e) => {
                    return Err(IoError { errno: e });
                },
            }
        }
        Ok(())
    }

    /// Walks the recorded pairs in order, duplicating each saved duplicate
    /// back onto its original descriptor and closing the duplicate.  On
    /// success the record is drained; on a failing OS call the failing entry
    /// and everything after it remain.  An empty record makes no OS call and
    /// cannot fail.
    pub fn reset_sources(&mut self) -> (r: Result<(), IoError>)
        ensures
            r is Ok ==> final(self)@.len() == 0,
            old(self)@.len() == 0 ==> r is Ok,
            r is Err ==> final(self)@.len() > 0,
            exists|k: int|
                0 <= k <= old(self)@.len() && final(self)@ == old(self)@.skip(k),
    {
        proof {
            assert(self@ == old(self)@.skip(0));
        }
        while self.original_fds.len() > 0
            invariant
                exists|k: int|
                    0 <= k <= old(self)@.len() && self@ == old(self)@.skip(k),
            decreases self@.len(),
        {
            let (dup, original) = self.original_fds[0];
            match sys_dup2(dup, original) {
                Ok(_) => {},
                Err(e) => {
                    return Err(IoError { errno: e });
                },
            }
            match sys_close(dup) {
                Ok(()) => {},
                Err(e) => {
                    return Err(IoError { errno: e });
                },
            }
            proof {
                let k = choose|k: int|
                    0 <= k <= old(self)@.len() && self@ == old(self)@.skip(k);
                assert(self@.remove(0) =~= old(self)@.skip(k + 1));
            }
            self.original_fds.remove(0);
        }
        Ok(())
    }
}

} // verus!
