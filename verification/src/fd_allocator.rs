//! The virtual handle table.
//!
//! Each virtual handle pairs a local descriptor number with the
//! backend-assigned file identifier and the owning mount prefix. The local
//! number is obtained by reserving a real descriptor from the OS (a handle
//! on the discard device), so it can never collide with a descriptor the
//! traced process legitimately holds; the reserved descriptor is never used
//! for I/O and is given back when the handle is released.

use vstd::prelude::*;
use crate::errno::EMFILE;
use crate::path::copy_bytes;
use crate::wire::MAX_FIELD;

verus! {

/// What the table remembers of one virtual handle, as a mathematical value.
pub struct FdDescModel {
    pub id: Seq<u8>,
    pub mountpoint: Seq<u8>,
}

/// One virtual handle: local descriptor, backend file identifier, owning
/// mount prefix.
pub struct FdDesc {
    pub fd: u16,
    pub id: Vec<u8>,
    pub mountpoint: Vec<u8>,
}

impl FdDesc {
    pub open spec fn model(&self) -> FdDescModel {
        FdDescModel { id: self.id@, mountpoint: self.mountpoint@ }
    }
}

/// The table a sequence of handles denotes: local number to handle data.
pub open spec fn table_of(s: Seq<FdDesc>) -> Map<u16, FdDescModel>
    decreases s.len(),
{
    if s.len() == 0 {
        Map::empty()
    } else {
        table_of(s.drop_last()).insert(s.last().fd, s.last().model())
    }
}

/// No local number occurs twice.
pub open spec fn distinct_fds(s: Seq<FdDesc>) -> bool {
    forall|i: int, j: int| 0 <= i < j < s.len() ==> s[i].fd != s[j].fd
}

proof fn lemma_table_dom(s: Seq<FdDesc>, fd: u16)
    requires
        forall|i: int| 0 <= i < s.len() ==> s[i].fd != fd,
    ensures
        !table_of(s).contains_key(fd),
    decreases s.len(),
{
    if s.len() > 0 {
        lemma_table_dom(s.drop_last(), fd);
    }
}

proof fn lemma_table_index(s: Seq<FdDesc>, i: int)
    requires
        distinct_fds(s),
        0 <= i < s.len(),
    ensures
        table_of(s).contains_key(s[i].fd),
        table_of(s)[s[i].fd] == s[i].model(),
    decreases s.len(),
{
    if i == s.len() - 1 {
    } else {
        lemma_table_index(s.drop_last(), i);
        assert(s.drop_last()[i] == s[i]);
        assert(s.last().fd != s[i].fd);
    }
}

proof fn lemma_table_remove(s: Seq<FdDesc>, i: int)
    requires
        distinct_fds(s),
        0 <= i < s.len(),
    ensures
        table_of(s.remove(i)) =~= table_of(s).remove(s[i].fd),
    decreases s.len(),
{
    let s2 = s.remove(i);
    if i == s.len() - 1 {
        assert(s2 =~= s.drop_last());
        lemma_table_dom(s.drop_last(), s[i].fd);
        assert(table_of(s2) =~= table_of(s).remove(s[i].fd));
    } else {
        assert(s2.len() == s.len() - 1);
        assert(s2.last() == s.last());
        assert(s2.drop_last() =~= s.drop_last().remove(i));
        lemma_table_remove(s.drop_last(), i);
        assert(s.drop_last()[i] == s[i]);
        assert(s.last().fd != s[i].fd);
        assert(table_of(s2)
            =~= table_of(s.drop_last()).remove(s[i].fd).insert(s.last().fd, s.last().model()));
        assert(table_of(s.drop_last()).remove(s[i].fd).insert(s.last().fd, s.last().model())
            =~= table_of(s).remove(s[i].fd));
    }
}

/// The virtual handle table, with the mount prefix that the next allocated
/// handle will belong to.
pub struct FdAllocator {
    fds: Vec<FdDesc>,
    current_mountpoint: Option<Vec<u8>>,
}

/// Relies on nix::fcntl::open of the discard device: on success the returned
/// descriptor is nonnegative and distinct from every descriptor this process
/// already holds open, which is what keeps virtual handle numbers from
/// colliding; on failure the OS error code comes back.
#[verifier::external_body]
fn reserve_slot() -> (r: Result<i32, i32>)
    ensures
        r matches Ok(fd) ==> fd >= 0,
{
    match nix::fcntl::open(
        "/dev/null",
        nix::fcntl::OFlag::O_RDONLY,
        nix::sys::stat::Mode::empty(),
    ) {
        Ok(fd) => Ok(fd),
        Err(e) => Err(e as i32),
    }
}

/// Relies on nix::unistd::close: gives a reserved descriptor back to the OS.
#[verifier::external_body]
fn close_slot(fd: i32) {
    let _ = nix::unistd::close(fd);
}

impl FdAllocator {
    /// Internal consistency: no duplicate local numbers, and every stored
    /// backend identifier fits a wire message field.
    pub closed spec fn wf(&self) -> bool {
        &&& distinct_fds(self.fds@)
        &&& forall|i: int| 0 <= i < self.fds@.len() ==> #[trigger] self.fds@[i].id@.len()
            <= MAX_FIELD
    }

    /// The mathematical value of the table.
    pub closed spec fn table(&self) -> Map<u16, FdDescModel> {
        table_of(self.fds@)
    }

    pub closed spec fn has_current(&self) -> bool {
        self.current_mountpoint is Some
    }

    pub closed spec fn current_prefix(&self) -> Seq<u8>
        recommends
            self.has_current(),
    {
        self.current_mountpoint->0@
    }

    pub fn new() -> (r: FdAllocator)
        ensures
            r.wf(),
            r.table() == Map::<u16, FdDescModel>::empty(),
            !r.has_current(),
    {
        FdAllocator { fds: Vec::new(), current_mountpoint: None }
    }

    fn find_idx(&self, fd: u16) -> (r: Option<usize>)
        ensures
            match r {
                Some(i) => i < self.fds@.len() && self.fds@[i as int].fd == fd,
                None => forall|i: int| 0 <= i < self.fds@.len() ==> self.fds@[i].fd != fd,
            },
    {
        let n = self.fds.len();
        let mut i: usize = 0;
        while i < n
            invariant
                n == self.fds@.len(),
                i <= n,
                forall|j: int| 0 <= j < i ==> self.fds@[j].fd != fd,
            decreases n - i,
        {
            if self.fds[i].fd == fd {
                return Some(i);
            }
            i = i + 1;
        }
        None
    }

    /// Look a local number up; absence means the number is not one of ours.
    pub fn get_desc_for_fd(&self, fd: u16) -> (r: Option<&FdDesc>)
        requires
            self.wf(),
        ensures
            match r {
                Some(d) => {
                    &&& self.table().contains_key(fd)
                    &&& d.fd == fd
                    &&& d.model() == self.table()[fd]
                    &&& d.id@.len() <= MAX_FIELD
                },
                None => !self.table().contains_key(fd),
            },
    {
        match self.find_idx(fd) {
            Some(i) => {
                proof {
                    lemma_table_index(self.fds@, i as int);
                }
                Some(&self.fds[i])
            },
            None => {
                proof {
                    lemma_table_dom(self.fds@, fd);
                }
                None
            },
        }
    }

    /// Name the mount that handles allocated from now on belong to.
    pub fn set_current_mountpoint(&mut self, mountpoint: &Vec<u8>)
        requires
            old(self).wf(),
        ensures
            final(self).wf(),
            final(self).table() == old(self).table(),
            final(self).has_current(),
            final(self).current_prefix() == mountpoint@,
    {
        self.current_mountpoint = Some(copy_bytes(mountpoint));
    }

    /// Allocate a virtual handle for a freshly opened backend file.
    ///
    /// The local number is a reserved OS descriptor; failure to reserve one
    /// is resource exhaustion and leaves the table as it was.
    pub fn allocate_fd(&mut self, id: &Vec<u8>) -> (r: Result<u16, i32>)
        requires
            old(self).wf(),
            old(self).has_current(),
            id@.len() <= MAX_FIELD,
        ensures
            final(self).wf(),
            final(self).has_current() == old(self).has_current(),
            final(self).current_prefix() == old(self).current_prefix(),
            match r {
                Ok(fd) => {
                    &&& !old(self).table().contains_key(fd)
                    &&& final(self).table() == old(self).table().insert(
                        fd,
                        FdDescModel { id: id@, mountpoint: old(self).current_prefix() },
                    )
                },
                Err(e) => final(self).table() == old(self).table(),
            },
    {
        let raw = match reserve_slot() {
            Ok(raw) => raw,
            Err(e) => {
                return Err(e);
            },
        };
        if raw > 65535 {
            close_slot(raw);
            return Err(EMFILE as i32);
        }
        let fd = raw as u16;
        match self.find_idx(fd) {
            Some(_) => {
                // The OS never hands out a number that is still reserved, but
                // nothing here proves that; give the slot back rather than
                // corrupt the table.
                close_slot(raw);
                Err(EMFILE as i32)
            },
            None => {
                let id_copy = copy_bytes(id);
                let mp = match &self.current_mountpoint {
                    Some(m) => copy_bytes(m),
                    None => {
                        proof {
                            assert(false);
                        }
                        Vec::new()
                    },
                };
                proof {
                    lemma_table_dom(self.fds@, fd);
                }
                let ghost s_old = self.fds@;
                self.fds.push(FdDesc { fd, id: id_copy, mountpoint: mp });
                proof {
                    assert(self.fds@.drop_last() =~= s_old);
                    assert(distinct_fds(self.fds@));
                }
                Ok(fd)
            },
        }
    }

    /// Release a virtual handle and give its reserved descriptor back.
    /// Releasing a number that is not present is a no-op.
    pub fn drop_fd(&mut self, fd: u16)
        requires
            old(self).wf(),
        ensures
            final(self).wf(),
            final(self).table() == old(self).table().remove(fd),
            final(self).has_current() == old(self).has_current(),
            old(self).has_current() ==> final(self).current_prefix() == old(
                self,
            ).current_prefix(),
    {
        match self.find_idx(fd) {
            Some(i) => {
                proof {
                    lemma_table_remove(self.fds@, i as int);
                    assert(self.fds@[i as int].fd == fd);
                }
                let d = self.fds.remove(i);
                close_slot(d.fd as i32);
                proof {
                    assert(distinct_fds(self.fds@));
                    assert(self.table() =~= old(self).table().remove(fd));
                }
            },
            None => {
                proof {
                    lemma_table_dom(self.fds@, fd);
                    assert(old(self).table() =~= old(self).table().remove(fd));
                }
            },
        }
    }

    /// Tear the table down: release every handle and its reserved slot.
    pub fn release_all(&mut self)
        requires
            old(self).wf(),
        ensures
            final(self).wf(),
            final(self).table() == Map::<u16, FdDescModel>::empty(),
    {
        loop
            invariant
                self.wf(),
            ensures
                self.fds@.len() == 0,
            decreases self.fds.len(),
        {
            let n = self.fds.len();
            if n == 0 {
                break;
            }
            match self.fds.pop() {
                Some(d) => {
                    close_slot(d.fd as i32);
                },
                None => {},
            }
        }
        proof {
            assert(self.table() =~= Map::<u16, FdDescModel>::empty());
        }
    }
}

/// What is left of a table after releasing a series of handle numbers in the
/// given order.
pub open spec fn remove_all(m: Map<u16, FdDescModel>, order: Seq<u16>) -> Map<u16, FdDescModel>
    decreases order.len(),
{
    if order.len() == 0 {
        m
    } else {
        remove_all(m.remove(order[0]), order.skip(1))
    }
}

proof fn lemma_remove_all_contains(m: Map<u16, FdDescModel>, order: Seq<u16>, k: u16)
    ensures
        remove_all(m, order).contains_key(k) == (m.contains_key(k) && !order.contains(k)),
        remove_all(m, order).contains_key(k) ==> remove_all(m, order)[k] == m[k],
    decreases order.len(),
{
    if order.len() > 0 {
        lemma_remove_all_contains(m.remove(order[0]), order.skip(1), k);
        if order.contains(k) {
            let w = choose|w: int| 0 <= w < order.len() && order[w] == k;
            if w > 0 {
                assert(order.skip(1)[w - 1] == k);
            }
        } else {
            assert(forall|w: int| 0 <= w < order.skip(1).len()
                ==> order.skip(1)[w] == order[w + 1]);
        }
    }
}

/// Releasing every allocated handle, in whatever order, leaves the table
/// empty, and looking any released number up finds nothing; each released
/// number is then free to be allocated again, since allocation asks only
/// that the number not be present.
pub proof fn lemma_release_in_any_order(m: Map<u16, FdDescModel>, order: Seq<u16>)
    requires
        forall|fd: u16| m.contains_key(fd) ==> order.contains(fd),
    ensures
        remove_all(m, order) == Map::<u16, FdDescModel>::empty(),
        forall|fd: u16| order.contains(fd) ==> !remove_all(m, order).contains_key(fd),
{
    assert forall|fd: u16| !remove_all(m, order).contains_key(fd) by {
        lemma_remove_all_contains(m, order, fd);
    }
    assert(remove_all(m, order) =~= Map::<u16, FdDescModel>::empty());
}

/// Opening and then at once closing the same handle leaves the table exactly
/// as it was: the insert that a successful open performs is undone by the
/// remove that the close performs.
pub proof fn lemma_open_close_round_trip(m: Map<u16, FdDescModel>, fd: u16, d: FdDescModel)
    requires
        !m.contains_key(fd),
    ensures
        m.insert(fd, d).remove(fd) == m,
{
    assert(m.insert(fd, d).remove(fd) =~= m);
}

} // verus!
