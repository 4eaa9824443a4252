//! The metadata record that the stat family writes into guest memory, laid
//! out as the 64-bit Linux `struct stat` (144 bytes, 8-byte aligned).

use vstd::prelude::*;
use crate::memory::{
    GuestValue, lemma_u32_le_round_trip, lemma_u64_le_round_trip, push_u32_le, push_u64_le,
    read_u32_le, read_u64_le, u32_from_le, u32_le_bytes, u64_from_le, u64_le_bytes,
};

verus! {

/// Size in bytes of the guest's `struct stat`.
pub const STAT_SIZE: u64 = 144;

/// File metadata as the guest sees it.
#[derive(Clone, Copy, Debug, PartialEq, Eq, Structural)]
pub struct Stat {
    pub dev: u64,
    pub ino: u64,
    pub nlink: u64,
    pub mode: u32,
    pub uid: u32,
    pub gid: u32,
    pub rdev: u64,
    pub size: i64,
    pub blksize: i64,
    pub blocks: i64,
    pub atime: i64,
    pub atime_nsec: i64,
    pub mtime: i64,
    pub mtime_nsec: i64,
    pub ctime: i64,
    pub ctime_nsec: i64,
}

/// The little-endian bytes of an `i64`, two's complement.
pub open spec fn i64_le_bytes(v: i64) -> Seq<u8> {
    u64_le_bytes(v as u64)
}

pub open spec fn i64_at(b: Seq<u8>, off: int) -> i64 {
    u64_from_le(b.subrange(off, off + 8)) as i64
}

pub open spec fn u64_at(b: Seq<u8>, off: int) -> u64 {
    u64_from_le(b.subrange(off, off + 8))
}

pub open spec fn u32_at(b: Seq<u8>, off: int) -> u32 {
    u32_from_le(b.subrange(off, off + 4))
}

proof fn lemma_i64_cast_round_trip(v: i64)
    ensures
        (v as u64) as i64 == v,
{
    assert((v as u64) as i64 == v) by (bit_vector);
}

impl Stat {
    /// A record with every field zero but size and mode.
    pub fn with_size_and_mode(size: i64, mode: u32) -> (r: Stat)
        ensures
            r.size == size,
            r.mode == mode,
            r.dev == 0 && r.ino == 0 && r.nlink == 0 && r.uid == 0 && r.gid == 0 && r.rdev == 0,
            r.blksize == 0 && r.blocks == 0,
            r.atime == 0 && r.atime_nsec == 0 && r.mtime == 0 && r.mtime_nsec == 0,
            r.ctime == 0 && r.ctime_nsec == 0,
    {
        Stat {
            dev: 0,
            ino: 0,
            nlink: 0,
            mode,
            uid: 0,
            gid: 0,
            rdev: 0,
            size,
            blksize: 0,
            blocks: 0,
            atime: 0,
            atime_nsec: 0,
            mtime: 0,
            mtime_nsec: 0,
            ctime: 0,
            ctime_nsec: 0,
        }
    }
}

impl GuestValue for Stat {
    open spec fn spec_size() -> nat {
        144
    }

    open spec fn spec_align() -> nat {
        8
    }

    /// Fields in declaration order; a zero word of padding after `gid` and
    /// three reserved zero words at the end.
    open spec fn spec_to_bytes(&self) -> Seq<u8> {
        u64_le_bytes(self.dev) + u64_le_bytes(self.ino) + u64_le_bytes(self.nlink) + u32_le_bytes(
            self.mode,
        ) + u32_le_bytes(self.uid) + u32_le_bytes(self.gid) + u32_le_bytes(0) + u64_le_bytes(
            self.rdev,
        ) + i64_le_bytes(self.size) + i64_le_bytes(self.blksize) + i64_le_bytes(self.blocks)
            + i64_le_bytes(self.atime) + i64_le_bytes(self.atime_nsec) + i64_le_bytes(self.mtime)
            + i64_le_bytes(self.mtime_nsec) + i64_le_bytes(self.ctime) + i64_le_bytes(
            self.ctime_nsec,
        ) + u64_le_bytes(0) + u64_le_bytes(0) + u64_le_bytes(0)
    }

    open spec fn spec_from_bytes(b: Seq<u8>) -> Stat {
        Stat {
            dev: u64_at(b, 0),
            ino: u64_at(b, 8),
            nlink: u64_at(b, 16),
            mode: u32_at(b, 24),
            uid: u32_at(b, 28),
            gid: u32_at(b, 32),
            rdev: u64_at(b, 40),
            size: i64_at(b, 48),
            blksize: i64_at(b, 56),
            blocks: i64_at(b, 64),
            atime: i64_at(b, 72),
            atime_nsec: i64_at(b, 80),
            mtime: i64_at(b, 88),
            mtime_nsec: i64_at(b, 96),
            ctime: i64_at(b, 104),
            ctime_nsec: i64_at(b, 112),
        }
    }

    fn size() -> (r: u64) {
        STAT_SIZE
    }

    fn align() -> (r: u64) {
        8
    }

    fn to_bytes(&self) -> (r: Vec<u8>) {
        let mut out: Vec<u8> = Vec::new();
        push_u64_le(&mut out, self.dev);
        push_u64_le(&mut out, self.ino);
        push_u64_le(&mut out, self.nlink);
        push_u32_le(&mut out, self.mode);
        push_u32_le(&mut out, self.uid);
        push_u32_le(&mut out, self.gid);
        push_u32_le(&mut out, 0);
        push_u64_le(&mut out, self.rdev);
        push_u64_le(&mut out, self.size as u64);
        push_u64_le(&mut out, self.blksize as u64);
        push_u64_le(&mut out, self.blocks as u64);
        push_u64_le(&mut out, self.atime as u64);
        push_u64_le(&mut out, self.atime_nsec as u64);
        push_u64_le(&mut out, self.mtime as u64);
        push_u64_le(&mut out, self.mtime_nsec as u64);
        push_u64_le(&mut out, self.ctime as u64);
        push_u64_le(&mut out, self.ctime_nsec as u64);
        push_u64_le(&mut out, 0);
        push_u64_le(&mut out, 0);
        push_u64_le(&mut out, 0);
        assert(out@ =~= self.spec_to_bytes());
        out
    }

    fn from_bytes(b: &[u8]) -> (r: Stat) {
        Stat {
            dev: read_u64_le(b, 0),
            ino: read_u64_le(b, 8),
            nlink: read_u64_le(b, 16),
            mode: read_u32_le(b, 24),
            uid: read_u32_le(b, 28),
            gid: read_u32_le(b, 32),
            rdev: read_u64_le(b, 40),
            size: read_u64_le(b, 48) as i64,
            blksize: read_u64_le(b, 56) as i64,
            blocks: read_u64_le(b, 64) as i64,
            atime: read_u64_le(b, 72) as i64,
            atime_nsec: read_u64_le(b, 80) as i64,
            mtime: read_u64_le(b, 88) as i64,
            mtime_nsec: read_u64_le(b, 96) as i64,
            ctime: read_u64_le(b, 104) as i64,
            ctime_nsec: read_u64_le(b, 112) as i64,
        }
    }

    proof fn lemma_round_trip(v: Stat) {
        let b = v.spec_to_bytes();
        assert(b.len() == 144);
        assert(b.subrange(0, 8) =~= u64_le_bytes(v.dev));
        assert(b.subrange(8, 16) =~= u64_le_bytes(v.ino));
        assert(b.subrange(16, 24) =~= u64_le_bytes(v.nlink));
        assert(b.subrange(24, 28) =~= u32_le_bytes(v.mode));
        assert(b.subrange(28, 32) =~= u32_le_bytes(v.uid));
        assert(b.subrange(32, 36) =~= u32_le_bytes(v.gid));
        assert(b.subrange(40, 48) =~= u64_le_bytes(v.rdev));
        assert(b.subrange(48, 56) =~= i64_le_bytes(v.size));
        assert(b.subrange(56, 64) =~= i64_le_bytes(v.blksize));
        assert(b.subrange(64, 72) =~= i64_le_bytes(v.blocks));
        assert(b.subrange(72, 80) =~= i64_le_bytes(v.atime));
        assert(b.subrange(80, 88) =~= i64_le_bytes(v.atime_nsec));
        assert(b.subrange(88, 96) =~= i64_le_bytes(v.mtime));
        assert(b.subrange(96, 104) =~= i64_le_bytes(v.mtime_nsec));
        assert(b.subrange(104, 112) =~= i64_le_bytes(v.ctime));
        assert(b.subrange(112, 120) =~= i64_le_bytes(v.ctime_nsec));
        lemma_u64_le_round_trip(v.dev);
        lemma_u64_le_round_trip(v.ino);
        lemma_u64_le_round_trip(v.nlink);
        lemma_u32_le_round_trip(v.mode);
        lemma_u32_le_round_trip(v.uid);
        lemma_u32_le_round_trip(v.gid);
        lemma_u64_le_round_trip(v.rdev);
        lemma_u64_le_round_trip(v.size as u64);
        lemma_u64_le_round_trip(v.blksize as u64);
        lemma_u64_le_round_trip(v.blocks as u64);
        lemma_u64_le_round_trip(v.atime as u64);
        lemma_u64_le_round_trip(v.atime_nsec as u64);
        lemma_u64_le_round_trip(v.mtime as u64);
        lemma_u64_le_round_trip(v.mtime_nsec as u64);
        lemma_u64_le_round_trip(v.ctime as u64);
        lemma_u64_le_round_trip(v.ctime_nsec as u64);
        lemma_i64_cast_round_trip(v.size);
        lemma_i64_cast_round_trip(v.blksize);
        lemma_i64_cast_round_trip(v.blocks);
        lemma_i64_cast_round_trip(v.atime);
        lemma_i64_cast_round_trip(v.atime_nsec);
        lemma_i64_cast_round_trip(v.mtime);
        lemma_i64_cast_round_trip(v.mtime_nsec);
        lemma_i64_cast_round_trip(v.ctime);
        lemma_i64_cast_round_trip(v.ctime_nsec);
    }
}

} // verus!
