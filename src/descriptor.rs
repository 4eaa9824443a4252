//! The per-process descriptor table: small non-negative integers mapped to
//! files that are either legacy handles or native file objects.

use vstd::prelude::*;
use crate::errno::{Errno, EBADF, EMFILE};
use crate::stat::Stat;

verus! {

/// The most descriptors that one process can hold open at a time.
pub const MAX_DESCRIPTORS: usize = 1048576;

/// A file owned by the legacy implementation: an opaque handle that this
/// core passes through and never looks inside.
#[derive(Clone, Copy, Debug, PartialEq, Eq, Structural)]
pub struct LegacyFile {
    pub handle: u64,
}

/// A reference to a fully modeled file object. Every descriptor that holds
/// the same `id` shares the one object.
#[derive(Clone, Copy, Debug, PartialEq, Eq, Structural)]
pub struct NativeFile {
    pub id: u64,
    pub metadata: Stat,
}

impl NativeFile {
    /// The file's stat capability: its current metadata.
    pub fn stat(&self) -> (r: Result<Stat, Errno>)
        ensures
            r == Ok::<Stat, Errno>(self.metadata),
    {
        Ok(self.metadata)
    }
}

/// An open file; its variant is fixed when it is created.
#[derive(Clone, Copy, Debug, PartialEq, Eq, Structural)]
pub enum File {
    Legacy(LegacyFile),
    Native(NativeFile),
}

/// What a successful removal hands back.
#[derive(Clone, Copy, Debug, PartialEq, Eq, Structural)]
pub struct Removed {
    /// The file that the descriptor referred to.
    pub file: File,
    /// The file is native and no descriptor refers to its object any more,
    /// so the object is released.
    pub released: bool,
}

/// Descriptor `fd` is open in table `s`.
pub open spec fn is_open(s: Seq<Option<File>>, fd: int) -> bool {
    0 <= fd < s.len() && s[fd] is Some
}

/// `fd` is the smallest non-negative integer not open in `s`.
pub open spec fn is_lowest_free(s: Seq<Option<File>>, fd: int) -> bool {
    &&& 0 <= fd <= s.len()
    &&& !is_open(s, fd)
    &&& forall|j: int| 0 <= j < fd ==> #[trigger] is_open(s, j)
}

/// Table `s` with `f` installed at `fd`, which is free and at most one past
/// the end.
pub open spec fn with_installed(s: Seq<Option<File>>, fd: int, f: File) -> Seq<Option<File>> {
    if fd < s.len() {
        s.update(fd, Some(f))
    } else {
        s.push(Some(f))
    }
}

/// Slot `slot` refers to the native object `id`.
pub open spec fn refers_to(slot: Option<File>, id: u64) -> bool {
    slot matches Some(File::Native(n)) && n.id == id
}

/// How many descriptors of `s` refer to the native object `id`.
pub open spec fn ref_count(s: Seq<Option<File>>, id: u64) -> nat
    decreases s.len(),
{
    if s.len() == 0 {
        0
    } else {
        ref_count(s.drop_last(), id) + if refers_to(s.last(), id) {
            1nat
        } else {
            0nat
        }
    }
}

/// A native object is referred to by no descriptor exactly when its
/// reference count is zero.
pub proof fn lemma_ref_count_zero(s: Seq<Option<File>>, id: u64)
    ensures
        (ref_count(s, id) == 0) == (forall|i: int| 0 <= i < s.len() ==> !refers_to(#[trigger] s[i], id)),
    decreases s.len(),
{
    if s.len() > 0 {
        lemma_ref_count_zero(s.drop_last(), id);
        if ref_count(s, id) == 0 {
            assert forall|i: int| 0 <= i < s.len() implies !refers_to(#[trigger] s[i], id) by {
                if i < s.len() - 1 {
                    assert(s.drop_last()[i] == s[i]);
                }
            }
        } else if !refers_to(s.last(), id) {
            let i = choose|i: int| 0 <= i < s.drop_last().len() && refers_to(#[trigger] s.drop_last()[i], id);
            assert(s[i] == s.drop_last()[i]);
        }
    }
}

/// Installing a native object that nothing refers to at the lowest free
/// descriptor and then removing that descriptor leaves its reference count
/// at zero, so the object is released.
pub proof fn lemma_insert_then_remove_releases(s: Seq<Option<File>>, fd: int, n: NativeFile)
    requires
        ref_count(s, n.id) == 0,
        is_lowest_free(s, fd),
    ensures
        ref_count(with_installed(s, fd, File::Native(n)).update(fd, None), n.id) == 0,
{
    let t = with_installed(s, fd, File::Native(n)).update(fd, None);
    if fd < s.len() {
        assert(t =~= s);
    } else {
        assert(t =~= s.push(None));
        assert(t.drop_last() =~= s);
    }
}

/// The descriptor table of one process.
pub struct DescriptorTable {
    slots: Vec<Option<File>>,
    limit: usize,
}

impl View for DescriptorTable {
    type V = Seq<Option<File>>;

    closed spec fn view(&self) -> Seq<Option<File>> {
        self.slots@
    }
}

impl DescriptorTable {
    /// Descriptors from this number up are never allocated.
    pub closed spec fn limit(&self) -> nat {
        self.limit as nat
    }

    pub open spec fn wf(&self) -> bool {
        self@.len() <= self.limit() <= MAX_DESCRIPTORS
    }

    /// A table with no descriptor open and the largest limit.
    pub fn new() -> (r: DescriptorTable)
        ensures
            r.wf(),
            r@ == Seq::<Option<File>>::empty(),
            r.limit() == MAX_DESCRIPTORS,
    {
        DescriptorTable { slots: Vec::new(), limit: MAX_DESCRIPTORS }
    }

    /// A table with no descriptor open that allocates descriptors below
    /// `limit` only (capped at `MAX_DESCRIPTORS`).
    pub fn with_limit(limit: usize) -> (r: DescriptorTable)
        ensures
            r.wf(),
            r@ == Seq::<Option<File>>::empty(),
            r.limit() == if limit <= MAX_DESCRIPTORS {
                limit as nat
            } else {
                MAX_DESCRIPTORS as nat
            },
    {
        let limit = if limit <= MAX_DESCRIPTORS {
            limit
        } else {
            MAX_DESCRIPTORS
        };
        DescriptorTable { slots: Vec::new(), limit }
    }

    /// Resolves `fd`; `EBADF` where it is not open.
    pub fn get(&self, fd: u32) -> (r: Result<File, Errno>)
        ensures
            r == if is_open(self@, fd as int) {
                Ok::<File, Errno>(self@[fd as int].unwrap())
            } else {
                Err(Errno { code: EBADF })
            },
    {
        if (fd as usize) < self.slots.len() {
            match self.slots[fd as usize] {
                Some(f) => Ok(f),
                None => Err(Errno { code: EBADF }),
            }
        } else {
            Err(Errno { code: EBADF })
        }
    }

    /// The smallest descriptor not open.
    fn lowest_free(&self) -> (r: usize)
        ensures
            is_lowest_free(self@, r as int),
    {
        let mut i: usize = 0;
        while i < self.slots.len()
            invariant
                i <= self.slots@.len(),
                forall|j: int| 0 <= j < i ==> #[trigger] is_open(self@, j),
            decreases self.slots@.len() - i,
        {
            if self.slots[i].is_none() {
                return i;
            }
            i += 1;
        }
        i
    }

    /// Installs `file` at the smallest free descriptor and returns it;
    /// `EMFILE`, with the table unchanged, where every descriptor below the
    /// table's limit is open.
    pub fn insert(&mut self, file: File) -> (r: Result<u32, Errno>)
        requires
            old(self).wf(),
        ensures
            final(self).wf(),
            final(self).limit() == old(self).limit(),
            r.is_ok() == exists|k: int| 0 <= k < old(self).limit() && !is_open(old(self)@, k),
            r matches Ok(fd) ==> is_lowest_free(old(self)@, fd as int) && final(self)@
                == with_installed(old(self)@, fd as int, file),
            r matches Err(e) ==> e.code == EMFILE && final(self)@ == old(self)@,
    {
        let fd = self.lowest_free();
        if fd >= self.limit {
            assert forall|k: int| 0 <= k < self.limit implies is_open(old(self)@, k) by {
                assert(is_open(old(self)@, k));
            }
            return Err(Errno { code: EMFILE });
        }
        if fd < self.slots.len() {
            self.slots.set(fd, Some(file));
        } else {
            self.slots.push(Some(file));
        }
        Ok(fd as u32)
    }

    /// How many descriptors refer to the native object `id`.
    pub fn count_refs(&self, id: u64) -> (r: usize)
        ensures
            r == ref_count(self@, id),
    {
        let mut n: usize = 0;
        let mut i: usize = 0;
        while i < self.slots.len()
            invariant
                i <= self.slots@.len(),
                n <= i,
                n == ref_count(self@.subrange(0, i as int), id),
            decreases self.slots@.len() - i,
        {
            assert(self@.subrange(0, i + 1).drop_last() =~= self@.subrange(0, i as int));
            match self.slots[i] {
                Some(File::Native(f)) => {
                    if f.id == id {
                        n += 1;
                    }
                },
                _ => {},
            }
            i += 1;
        }
        assert(self@.subrange(0, i as int) =~= self@);
        n
    }

    /// Closes `fd` and hands back its file, saying whether that dropped the
    /// last reference to a native object; `EBADF`, with the table unchanged,
    /// where `fd` is not open.
    pub fn remove(&mut self, fd: u32) -> (r: Result<Removed, Errno>)
        requires
            old(self).wf(),
        ensures
            final(self).wf(),
            r.is_ok() == is_open(old(self)@, fd as int),
            r matches Ok(rm) ==> old(self)@[fd as int] == Some(rm.file) && final(self)@ == old(
                self,
            )@.update(fd as int, None) && rm.released == (rm.file matches File::Native(n)
                && ref_count(final(self)@, n.id) == 0),
            final(self).limit() == old(self).limit(),
            r matches Err(e) ==> e.code == EBADF && final(self)@ == old(self)@,
    {
        let file = self.get(fd)?;
        self.slots.set(fd as usize, None);
        let released = match file {
            File::Native(n) => self.count_refs(n.id) == 0,
            File::Legacy(_) => false,
        };
        Ok(Removed { file, released })
    }

    /// Installs a second descriptor, the smallest free one, for the file
    /// open at `fd`; `EBADF` where `fd` is not open, `EMFILE` where the
    /// table is full; the table is unchanged on either error.
    pub fn duplicate(&mut self, fd: u32) -> (r: Result<u32, Errno>)
        requires
            old(self).wf(),
        ensures
            final(self).wf(),
            !is_open(old(self)@, fd as int) ==> r == Err::<u32, Errno>(Errno { code: EBADF }),
            final(self).limit() == old(self).limit(),
            is_open(old(self)@, fd as int) ==> (r.is_ok() == exists|k: int|
                0 <= k < old(self).limit() && !is_open(old(self)@, k)),
            r matches Ok(nfd) ==> is_lowest_free(old(self)@, nfd as int) && final(self)@
                == with_installed(old(self)@, nfd as int, old(self)@[fd as int].unwrap()),
            r matches Err(e) ==> final(self)@ == old(self)@ && (e.code == EBADF || e.code
                == EMFILE),
    {
        let file = self.get(fd)?;
        self.insert(file)
    }

    /// Closes every descriptor, as when the owning process terminates, and
    /// returns the native objects that were referred to, each once: with
    /// the table empty, each of them is released.
    pub fn close_all(&mut self) -> (released: Vec<u64>)
        requires
            old(self).wf(),
        ensures
            final(self).wf(),
            final(self)@ == Seq::<Option<File>>::empty(),
            final(self).limit() == old(self).limit(),
            released@.no_duplicates(),
            forall|id: u64| released@.contains(id) == (ref_count(old(self)@, id) > 0),
    {
        let mut ids: Vec<u64> = Vec::new();
        let mut i: usize = 0;
        while i < self.slots.len()
            invariant
                i <= self.slots@.len(),
                self@ == old(self)@,
                ids@.no_duplicates(),
                forall|id: u64|
                    ids@.contains(id) == exists|j: int| 0 <= j < i && refers_to(#[trigger] self@[j], id),
            decreases self.slots@.len() - i,
        {
            if let Some(File::Native(n)) = self.slots[i] {
                let mut seen = false;
                let mut k: usize = 0;
                while k < ids.len()
                    invariant
                        k <= ids@.len(),
                        seen == exists|x: int| 0 <= x < k && ids@[x] == n.id,
                    decreases ids@.len() - k,
                {
                    if ids[k] == n.id {
                        seen = true;
                    }
                    k += 1;
                }
                let ghost prev = ids@;
                if !seen {
                    ids.push(n.id);
                }
                assert forall|id: u64| ids@.contains(id) == exists|j: int|
                    0 <= j < i + 1 && refers_to(#[trigger] self@[j], id) by {
                    if ids@.contains(id) && id != n.id {
                        let x = choose|x: int| 0 <= x < ids@.len() && ids@[x] == id;
                        assert(prev.contains(id)) by {
                            if !seen {
                                assert(x < prev.len());
                            }
                            assert(prev[x] == id);
                        }
                    }
                    if id == n.id {
                        assert(refers_to(self@[i as int], id));
                        if seen {
                            let x = choose|x: int| 0 <= x < prev.len() && prev[x] == n.id;
                            assert(ids@[x] == id);
                        } else {
                            assert(ids@[ids@.len() - 1] == id);
                        }
                    }
                    if exists|j: int| 0 <= j < i + 1 && refers_to(#[trigger] self@[j], id) {
                        if id != n.id {
                            let j = choose|j: int| 0 <= j < i + 1 && refers_to(#[trigger] self@[j], id);
                            assert(j < i);
                            assert(prev.contains(id));
                            let x = choose|x: int| 0 <= x < prev.len() && prev[x] == id;
                            assert(ids@[x] == id);
                        }
                    }
                }
            } else {
                assert forall|id: u64| ids@.contains(id) == exists|j: int|
                    0 <= j < i + 1 && refers_to(#[trigger] self@[j], id) by {
                    if exists|j: int| 0 <= j < i + 1 && refers_to(#[trigger] self@[j], id) {
                        let j = choose|j: int| 0 <= j < i + 1 && refers_to(#[trigger] self@[j], id);
                        assert(j < i);
                    }
                }
            }
            i += 1;
        }
        proof {
            assert forall|id: u64| ids@.contains(id) == (ref_count(old(self)@, id) > 0) by {
                lemma_ref_count_zero(old(self)@, id);
            }
        }
        self.slots = Vec::new();
        ids
    }
}

} // verus!
