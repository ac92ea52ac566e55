//! The table of open connections.
//!
//! One entry per accepted client still open.  Descriptor numbers are unique
//! among open connections (the operating system never has two open objects
//! share a descriptor), and the table keeps that as its invariant.  Order
//! within the table is immaterial; its observable content is the set of open
//! descriptors, [`ConnTable::fds`].

use vstd::prelude::*;

verus! {

/// One open connection: its descriptor and the peer's address, already in
/// host byte order.
#[derive(Clone, Copy, Debug, PartialEq, Eq, Structural)]
pub struct ConnEntry {
    pub fd: i32,
    pub ip: u32,
    pub port: u16,
}

/// The open-connection table.
pub struct ConnTable {
    entries: Vec<ConnEntry>,
}

impl ConnTable {
    /// Invariant: no two entries share a descriptor.
    pub closed spec fn wf(self) -> bool {
        forall|i: int, j: int|
            0 <= i < j < self.entries@.len() ==> self.entries@[i].fd != self.entries@[j].fd
    }

    /// The set of open descriptors.
    pub closed spec fn fds(self) -> Set<i32> {
        Set::new(
            |fd: i32|
                exists|i: int| 0 <= i < self.entries@.len() && self.entries@[i].fd == fd,
        )
    }

    /// How many connections are open.
    pub closed spec fn spec_len(self) -> nat {
        self.entries@.len()
    }

    /// An empty table.
    pub fn new() -> (r: ConnTable)
        ensures
            r.wf(),
            r.fds() == Set::<i32>::empty(),
            r.spec_len() == 0,
    {
        let r = ConnTable { entries: Vec::new() };
        proof {
            assert(r.fds() =~= Set::<i32>::empty());
        }
        r
    }

    /// How many connections are open.
    pub fn len(&self) -> (r: usize)
        ensures
            r == self.spec_len(),
    {
        self.entries.len()
    }

    /// Is `fd` an open connection?
    pub fn contains_fd(&self, fd: i32) -> (r: bool)
        ensures
            r == self.fds().contains(fd),
    {
        let mut i: usize = 0;
        while i < self.entries.len()
            invariant
                i <= self.entries@.len(),
                forall|k: int| 0 <= k < i ==> self.entries@[k].fd != fd,
            decreases self.entries@.len() - i,
    {
            if self.entries[i].fd == fd {
                return true;
            }
            i += 1;
        }
        false
    }

    /// Records a newly accepted connection.  The caller has checked that the
    /// descriptor is not already open.
    pub fn insert(&mut self, fd: i32, ip: u32, port: u16)
        requires
            old(self).wf(),
            !old(self).fds().contains(fd),
        ensures
            final(self).wf(),
            final(self).fds() == old(self).fds().insert(fd),
            final(self).spec_len() == old(self).spec_len() + 1,
    {
        let ghost pre = *self;
        self.entries.push(ConnEntry { fd, ip, port });
        proof {
            let n = self.entries@.len();
            assert forall|i: int, j: int| 0 <= i < j < n implies self.entries@[i].fd
                != self.entries@[j].fd by {
                if j == n - 1 {
                    assert(pre.fds().contains(pre.entries@[i].fd));
                }
            }
            assert forall|x: i32| #[trigger] self.fds().contains(x) == pre.fds().insert(
                fd,
            ).contains(x) by {
                if x == fd {
                    assert(self.entries@[n - 1].fd == fd);
                } else if pre.fds().contains(x) {
                    let i = choose|i: int|
                        0 <= i < pre.entries@.len() && pre.entries@[i].fd == x;
                    assert(self.entries@[i].fd == x);
                } else if self.fds().contains(x) {
                    let i = choose|i: int| 0 <= i < n && self.entries@[i].fd == x;
                    assert(pre.entries@[i].fd == x);
                }
            }
            assert(self.fds() =~= pre.fds().insert(fd));
        }
    }

    /// Forgets the connection `fd`, reporting whether it was open.
    pub fn remove(&mut self, fd: i32) -> (was_open: bool)
        requires
            old(self).wf(),
        ensures
            final(self).wf(),
            was_open == old(self).fds().contains(fd),
            final(self).fds() == old(self).fds().remove(fd),
            final(self).spec_len() == if was_open {
                old(self).spec_len() - 1
            } else {
                old(self).spec_len() as int
            },
    {
        let ghost pre = *self;
        let mut i: usize = 0;
        while i < self.entries.len()
            invariant
                *self == pre,
                pre == *old(self),
                pre.wf(),
                i <= self.entries@.len(),
                forall|k: int| 0 <= k < i ==> self.entries@[k].fd != fd,
            decreases self.entries@.len() - i,
        {
            if self.entries[i].fd == fd {
                self.entries.swap_remove(i);
                proof {
                    let n = self.entries@.len();
                    assert(pre.entries@[i as int].fd == fd);
                    assert(pre.fds().contains(fd));
                    assert forall|a: int, b: int| 0 <= a < b < n implies self.entries@[a].fd
                        != self.entries@[b].fd by {}
                    assert forall|x: i32| #[trigger] self.fds().contains(x) == pre.fds().remove(
                        fd,
                    ).contains(x) by {
                        if self.fds().contains(x) {
                            let k = choose|k: int| 0 <= k < n && self.entries@[k].fd == x;
                            if k == i {
                                assert(pre.entries@[pre.entries@.len() - 1].fd == x);
                            } else {
                                assert(pre.entries@[k].fd == x);
                            }
                            assert(x != fd);
                        }
                        if pre.fds().remove(fd).contains(x) {
                            let k = choose|k: int|
                                0 <= k < pre.entries@.len() && pre.entries@[k].fd == x;
                            assert(x != fd);
                            assert(k != i);
                            if k == pre.entries@.len() - 1 {
                                assert(i < n);
                                assert(self.entries@[i as int].fd == x);
                            } else {
                                assert(self.entries@[k].fd == x);
                            }
                        }
                    }
                    assert(self.fds() =~= pre.fds().remove(fd));
                }
                return true;
            }
            i += 1;
        }
        proof {
            assert(!pre.fds().contains(fd));
            assert(self.fds() =~= pre.fds().remove(fd));
        }
        false
    }

    /// A table with no entries has no open descriptor.
    pub proof fn lemma_len0_empty(self)
        requires
            self.spec_len() == 0,
        ensures
            self.fds() == Set::<i32>::empty(),
    {
        assert(self.fds() =~= Set::<i32>::empty());
    }

    /// Takes one connection out of the table, if any is left.  Which one
    /// comes out is unspecified; each call shrinks the open set by exactly
    /// the entry returned.
    pub fn pop(&mut self) -> (r: Option<ConnEntry>)
        requires
            old(self).wf(),
        ensures
            final(self).wf(),
            old(self).spec_len() == 0 ==> r is None && final(self).fds() == old(self).fds()
                && final(self).spec_len() == old(self).spec_len(),
            old(self).spec_len() > 0 ==> match r {
                Some(e) => {
                    &&& old(self).fds().contains(e.fd)
                    &&& final(self).fds() == old(self).fds().remove(e.fd)
                    &&& final(self).spec_len() == old(self).spec_len() - 1
                },
                None => false,
            },
    {
        let ghost pre = *self;
        match self.entries.pop() {
            None => {
                proof {
                    assert(self.fds() =~= pre.fds());
                }
                None
            },
            Some(e) => {
                proof {
                    let n = self.entries@.len();
                    assert(pre.entries@[pre.entries@.len() - 1] == e);
                    assert(pre.fds().contains(e.fd));
                    assert forall|x: i32| #[trigger] self.fds().contains(x) == pre.fds().remove(
                        e.fd,
                    ).contains(x) by {
                        if self.fds().contains(x) {
                            let k = choose|k: int| 0 <= k < n && self.entries@[k].fd == x;
                            assert(pre.entries@[k].fd == x);
                            assert(x != e.fd);
                        }
                        if pre.fds().remove(e.fd).contains(x) {
                            let k = choose|k: int|
                                0 <= k < pre.entries@.len() && pre.entries@[k].fd == x;
                            assert(k < pre.entries@.len() - 1);
                            assert(self.entries@[k].fd == x);
                        }
                    }
                    assert(self.fds() =~= pre.fds().remove(e.fd));
                }
                Some(e)
            },
        }
    }
}

} // verus!
