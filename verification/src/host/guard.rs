//! In-use guard.
//!
//! Two channels must not use the same interface of a device at the same time.

use vstd::prelude::*;

use crate::error::Error;

verus! {

/// The interfaces that are in use, each identified by the handle of its device and its
/// number.
pub struct InUse {
    entries: Vec<(usize, u8)>,
}

impl View for InUse {
    type V = Set<(usize, u8)>;

    closed spec fn view(&self) -> Set<(usize, u8)> {
        self.entries@.to_set()
    }
}

impl InUse {
    /// No interface is entered twice.
    pub closed spec fn wf(self) -> bool {
        self.entries@.no_duplicates()
    }

    /// No interface is in use.
    pub fn new() -> (in_use: Self)
        ensures
            in_use.wf(),
            in_use@ == Set::<(usize, u8)>::empty(),
    {
        let in_use = InUse { entries: Vec::new() };
        assert(in_use@ =~= Set::<(usize, u8)>::empty());
        in_use
    }

    fn position(&self, handle: usize, interface: u8) -> (pos: Option<usize>)
        ensures
            match pos {
                Some(pos) => pos < self.entries@.len() && self.entries@[pos as int] == (
                    handle,
                    interface,
                ),
                None => !self@.contains((handle, interface)),
            },
    {
        let mut pos: usize = 0;
        while pos < self.entries.len()
            invariant
                pos <= self.entries@.len(),
                forall|i: int| 0 <= i < pos ==> self.entries@[i] != (handle, interface),
            decreases self.entries@.len() - pos,
        {
            let entry = self.entries[pos];
            if entry.0 == handle && entry.1 == interface {
                return Some(pos);
            }
            pos = pos + 1;
        }
        None
    }
}

/// An interface that is in use.
pub struct InUseGuard {
    handle: usize,
    interface: u8,
}

impl InUseGuard {
    /// The interface.
    pub closed spec fn key(self) -> (usize, u8) {
        (self.handle, self.interface)
    }

    /// Starts to use an interface, unless it is in use.
    pub fn new(in_use: &mut InUse, handle: usize, interface: u8) -> (result: Result<Self, Error>)
        requires
            old(in_use).wf(),
        ensures
            final(in_use).wf(),
            match result {
                Ok(guard) => {
                    &&& !old(in_use)@.contains((handle, interface))
                    &&& guard.key() == (handle, interface)
                    &&& final(in_use)@ == old(in_use)@.insert((handle, interface))
                },
                Err(err) => {
                    &&& old(in_use)@.contains((handle, interface))
                    &&& err == Error::InterfaceInUse
                    &&& final(in_use)@ == old(in_use)@
                },
            },
    {
        let ghost before = in_use.entries@;
        if let Some(pos) = in_use.position(handle, interface) {
            assert(before[pos as int] == (handle, interface));
            return Err(Error::InterfaceInUse);
        }
        in_use.entries.push((handle, interface));
        proof {
            let after = in_use.entries@;
            assert forall|key: (usize, u8)| after.contains(key) <==> before.contains(key) || key
                == (handle, interface) by {
                if before.contains(key) {
                    let i = choose|i: int| 0 <= i < before.len() && before[i] == key;
                    assert(after[i] == key);
                }
                assert(after[before.len() as int] == (handle, interface));
            }
            assert(in_use@ =~= old(in_use)@.insert((handle, interface)));
        }
        Ok(InUseGuard { handle, interface })
    }

    /// Ends the use of the interface.
    pub fn release(self, in_use: &mut InUse)
        requires
            old(in_use).wf(),
        ensures
            final(in_use).wf(),
            final(in_use)@ == old(in_use)@.remove(self.key()),
    {
        let ghost before = in_use.entries@;
        let ghost key = self.key();
        if let Some(pos) = in_use.position(self.handle, self.interface) {
            let _ = in_use.entries.remove(pos);
            proof {
                let after = in_use.entries@;
                assert forall|other: (usize, u8)|
                    after.contains(other) <==> before.contains(other) && other != key by {
                    if before.contains(other) && other != key {
                        let i = choose|i: int| 0 <= i < before.len() && before[i] == other;
                        if i < pos {
                            assert(after[i] == other);
                        } else {
                            assert(after[i - 1] == other);
                        }
                    }
                    if after.contains(other) {
                        let i = choose|i: int| 0 <= i < after.len() && after[i] == other;
                        if i < pos {
                            assert(before[i] == other);
                        } else {
                            assert(before[i + 1] == other);
                        }
                    }
                }
                assert(in_use@ =~= old(in_use)@.remove(key));
            }
        } else {
            assert(in_use@ =~= old(in_use)@.remove(key));
        }
    }
}

} // verus!
