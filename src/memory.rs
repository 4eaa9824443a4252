//! The foreign memory accessor: typed and byte-range access to a guest
//! process's address space, checked against its current mappings.

use vstd::prelude::*;
use crate::errno::{Errno, EFAULT};

verus! {

/// A value that can be copied into and out of guest memory as bytes.
pub trait GuestValue: Sized {
    /// Size in bytes of the guest representation.
    spec fn spec_size() -> nat;

    /// Alignment in bytes that the guest representation requires.
    spec fn spec_align() -> nat;

    /// The guest representation of a value.
    spec fn spec_to_bytes(&self) -> Seq<u8>;

    /// The value that a guest representation stands for.
    spec fn spec_from_bytes(b: Seq<u8>) -> Self;

    fn size() -> (r: u64)
        ensures
            r == Self::spec_size(),
            r > 0,
    ;

    fn align() -> (r: u64)
        ensures
            r == Self::spec_align(),
            r > 0,
    ;

    fn to_bytes(&self) -> (r: Vec<u8>)
        ensures
            r@ == self.spec_to_bytes(),
            r@.len() == Self::spec_size(),
    ;

    fn from_bytes(b: &[u8]) -> (r: Self)
        requires
            b@.len() == Self::spec_size(),
        ensures
            r == Self::spec_from_bytes(b@),
    ;

    /// Decoding the representation of a value gives the value back.
    proof fn lemma_round_trip(v: Self)
        ensures
            Self::spec_from_bytes(v.spec_to_bytes()) == v,
            v.spec_to_bytes().len() == Self::spec_size(),
    ;
}

/// The little-endian bytes of a `u64`.
pub open spec fn u64_le_bytes(v: u64) -> Seq<u8> {
    seq![
        (v & 0xff) as u8,
        ((v >> 8u64) & 0xff) as u8,
        ((v >> 16u64) & 0xff) as u8,
        ((v >> 24u64) & 0xff) as u8,
        ((v >> 32u64) & 0xff) as u8,
        ((v >> 40u64) & 0xff) as u8,
        ((v >> 48u64) & 0xff) as u8,
        ((v >> 56u64) & 0xff) as u8,
    ]
}

/// The `u64` whose little-endian bytes are the first eight of `b`.
pub open spec fn u64_from_le(b: Seq<u8>) -> u64 {
    (b[0] as u64) | ((b[1] as u64) << 8u64) | ((b[2] as u64) << 16u64) | ((b[3] as u64)
        << 24u64) | ((b[4] as u64) << 32u64) | ((b[5] as u64) << 40u64) | ((b[6] as u64)
        << 48u64) | ((b[7] as u64) << 56u64)
}

/// The little-endian bytes of a `u32`.
pub open spec fn u32_le_bytes(v: u32) -> Seq<u8> {
    seq![
        (v & 0xff) as u8,
        ((v >> 8u32) & 0xff) as u8,
        ((v >> 16u32) & 0xff) as u8,
        ((v >> 24u32) & 0xff) as u8,
    ]
}

/// The `u32` whose little-endian bytes are the first four of `b`.
pub open spec fn u32_from_le(b: Seq<u8>) -> u32 {
    (b[0] as u32) | ((b[1] as u32) << 8u32) | ((b[2] as u32) << 16u32) | ((b[3] as u32)
        << 24u32)
}

pub proof fn lemma_u64_le_round_trip(v: u64)
    ensures
        u64_from_le(u64_le_bytes(v)) == v,
        u64_le_bytes(v).len() == 8,
{
    let b0 = (v & 0xff) as u8;
    let b1 = ((v >> 8u64) & 0xff) as u8;
    let b2 = ((v >> 16u64) & 0xff) as u8;
    let b3 = ((v >> 24u64) & 0xff) as u8;
    let b4 = ((v >> 32u64) & 0xff) as u8;
    let b5 = ((v >> 40u64) & 0xff) as u8;
    let b6 = ((v >> 48u64) & 0xff) as u8;
    let b7 = ((v >> 56u64) & 0xff) as u8;
    assert((b0 as u64) | ((b1 as u64) << 8u64) | ((b2 as u64) << 16u64) | ((b3 as u64) << 24u64)
        | ((b4 as u64) << 32u64) | ((b5 as u64) << 40u64) | ((b6 as u64) << 48u64) | ((b7 as u64)
        << 56u64) == v) by (bit_vector)
        requires
            b0 == (v & 0xff) as u8,
            b1 == ((v >> 8u64) & 0xff) as u8,
            b2 == ((v >> 16u64) & 0xff) as u8,
            b3 == ((v >> 24u64) & 0xff) as u8,
            b4 == ((v >> 32u64) & 0xff) as u8,
            b5 == ((v >> 40u64) & 0xff) as u8,
            b6 == ((v >> 48u64) & 0xff) as u8,
            b7 == ((v >> 56u64) & 0xff) as u8,
    ;
}

pub proof fn lemma_u32_le_round_trip(v: u32)
    ensures
        u32_from_le(u32_le_bytes(v)) == v,
        u32_le_bytes(v).len() == 4,
{
    let b0 = (v & 0xff) as u8;
    let b1 = ((v >> 8u32) & 0xff) as u8;
    let b2 = ((v >> 16u32) & 0xff) as u8;
    let b3 = ((v >> 24u32) & 0xff) as u8;
    assert((b0 as u32) | ((b1 as u32) << 8u32) | ((b2 as u32) << 16u32) | ((b3 as u32) << 24u32)
        == v) by (bit_vector)
        requires
            b0 == (v & 0xff) as u8,
            b1 == ((v >> 8u32) & 0xff) as u8,
            b2 == ((v >> 16u32) & 0xff) as u8,
            b3 == ((v >> 24u32) & 0xff) as u8,
    ;
}

/// Appends the little-endian bytes of `v`.
pub fn push_u64_le(out: &mut Vec<u8>, v: u64)
    ensures
        final(out)@ == old(out)@ + u64_le_bytes(v),
{
    out.push((v & 0xff) as u8);
    out.push(((v >> 8u64) & 0xff) as u8);
    out.push(((v >> 16u64) & 0xff) as u8);
    out.push(((v >> 24u64) & 0xff) as u8);
    out.push(((v >> 32u64) & 0xff) as u8);
    out.push(((v >> 40u64) & 0xff) as u8);
    out.push(((v >> 48u64) & 0xff) as u8);
    out.push(((v >> 56u64) & 0xff) as u8);
    assert(final(out)@ =~= old(out)@ + u64_le_bytes(v));
}

/// Appends the little-endian bytes of `v`.
pub fn push_u32_le(out: &mut Vec<u8>, v: u32)
    ensures
        final(out)@ == old(out)@ + u32_le_bytes(v),
{
    out.push((v & 0xff) as u8);
    out.push(((v >> 8u32) & 0xff) as u8);
    out.push(((v >> 16u32) & 0xff) as u8);
    out.push(((v >> 24u32) & 0xff) as u8);
    assert(final(out)@ =~= old(out)@ + u32_le_bytes(v));
}

/// Reads the `u64` stored little-endian at `b[at..at + 8]`.
pub fn read_u64_le(b: &[u8], at: usize) -> (r: u64)
    requires
        at + 8 <= b@.len(),
    ensures
        r == u64_from_le(b@.subrange(at as int, at + 8)),
{
    (b[at] as u64) | ((b[at + 1] as u64) << 8u64) | ((b[at + 2] as u64) << 16u64) | ((b[at
        + 3] as u64) << 24u64) | ((b[at + 4] as u64) << 32u64) | ((b[at + 5] as u64) << 40u64)
        | ((b[at + 6] as u64) << 48u64) | ((b[at + 7] as u64) << 56u64)
}

/// Reads the `u32` stored little-endian at `b[at..at + 4]`.
pub fn read_u32_le(b: &[u8], at: usize) -> (r: u32)
    requires
        at + 4 <= b@.len(),
    ensures
        r == u32_from_le(b@.subrange(at as int, at + 4)),
{
    (b[at] as u32) | ((b[at + 1] as u32) << 8u32) | ((b[at + 2] as u32) << 16u32) | ((b[at
        + 3] as u32) << 24u32)
}

impl GuestValue for u64 {
    open spec fn spec_size() -> nat {
        8
    }

    open spec fn spec_align() -> nat {
        8
    }

    open spec fn spec_to_bytes(&self) -> Seq<u8> {
        u64_le_bytes(*self)
    }

    open spec fn spec_from_bytes(b: Seq<u8>) -> u64 {
        u64_from_le(b)
    }

    fn size() -> (r: u64) {
        8
    }

    fn align() -> (r: u64) {
        8
    }

    fn to_bytes(&self) -> (r: Vec<u8>) {
        let mut out: Vec<u8> = Vec::new();
        push_u64_le(&mut out, *self);
        assert(out@ =~= u64_le_bytes(*self));
        out
    }

    fn from_bytes(b: &[u8]) -> (r: u64) {
        let r = read_u64_le(b, 0);
        assert(b@.subrange(0, 8) =~= b@);
        r
    }

    proof fn lemma_round_trip(v: u64) {
        lemma_u64_le_round_trip(v);
    }
}

impl GuestValue for u32 {
    open spec fn spec_size() -> nat {
        4
    }

    open spec fn spec_align() -> nat {
        4
    }

    open spec fn spec_to_bytes(&self) -> Seq<u8> {
        u32_le_bytes(*self)
    }

    open spec fn spec_from_bytes(b: Seq<u8>) -> u32 {
        u32_from_le(b)
    }

    fn size() -> (r: u64) {
        4
    }

    fn align() -> (r: u64) {
        4
    }

    fn to_bytes(&self) -> (r: Vec<u8>) {
        let mut out: Vec<u8> = Vec::new();
        push_u32_le(&mut out, *self);
        assert(out@ =~= u32_le_bytes(*self));
        out
    }

    fn from_bytes(b: &[u8]) -> (r: u32) {
        let r = read_u32_le(b, 0);
        assert(b@.subrange(0, 4) =~= b@);
        r
    }

    proof fn lemma_round_trip(v: u32) {
        lemma_u32_le_round_trip(v);
    }
}


/// An address in a guest process's address space, typed by the value stored
/// there. It carries no validity guarantee: all access goes through
/// [`ProcessMemory`].
pub struct ForeignPtr<T> {
    pub addr: u64,
    pub kind: std::marker::PhantomData<T>,
}

impl<T> ForeignPtr<T> {
    pub fn new(addr: u64) -> (r: ForeignPtr<T>)
        ensures
            r.addr == addr,
    {
        ForeignPtr { addr, kind: std::marker::PhantomData }
    }
}

/// The kind of access being checked.
#[derive(Clone, Copy, Debug, PartialEq, Eq, Structural)]
pub enum Access {
    Read,
    Write,
}

/// One mapped range of guest memory with its contents and permissions.
pub struct MappedRegion {
    pub start: u64,
    pub data: Vec<u8>,
    pub readable: bool,
    pub writable: bool,
}

impl MappedRegion {
    pub open spec fn end(&self) -> int {
        self.start + self.data@.len()
    }

    pub open spec fn contains(&self, a: int) -> bool {
        self.start <= a < self.end()
    }

    pub open spec fn permits(&self, mode: Access) -> bool {
        match mode {
            Access::Read => self.readable,
            Access::Write => self.writable,
        }
    }

    fn has(&self, a: u64) -> (r: bool)
        ensures
            r == self.contains(a as int),
    {
        a >= self.start && a - self.start < self.data.len() as u64
    }

    fn allows(&self, mode: Access) -> (r: bool)
        ensures
            r == self.permits(mode),
    {
        match mode {
            Access::Read => self.readable,
            Access::Write => self.writable,
        }
    }
}

pub open spec fn regions_disjoint(a: MappedRegion, b: MappedRegion) -> bool {
    a.end() <= b.start || b.end() <= a.start
}

/// Mappings end inside the address space and never overlap.
pub open spec fn regions_wf(rs: Seq<MappedRegion>) -> bool {
    &&& forall|i: int| 0 <= i < rs.len() ==> #[trigger] rs[i].end() <= u64::MAX
    &&& forall|i: int, j: int|
        0 <= i < rs.len() && 0 <= j < rs.len() && i != j ==> regions_disjoint(
            #[trigger] rs[i],
            #[trigger] rs[j],
        )
}

/// Some mapping holds address `a` and permits `mode` on it.
pub open spec fn byte_accessible(rs: Seq<MappedRegion>, a: int, mode: Access) -> bool {
    exists|i: int| 0 <= i < rs.len() && #[trigger] rs[i].contains(a) && rs[i].permits(mode)
}

/// Every byte of `addr .. addr + len` is mapped and permits `mode`.
pub open spec fn range_accessible(rs: Seq<MappedRegion>, addr: int, len: int, mode: Access) -> bool {
    forall|a: int| addr <= a < addr + len ==> #[trigger] byte_accessible(rs, a, mode)
}

/// The byte stored at `a` (zero where nothing is mapped).
pub open spec fn byte_value(rs: Seq<MappedRegion>, a: int) -> u8
    decreases rs.len(),
{
    if rs.len() == 0 {
        0
    } else if rs.last().contains(a) {
        rs.last().data@[a - rs.last().start]
    } else {
        byte_value(rs.drop_last(), a)
    }
}

/// The bytes stored at `addr .. addr + len`.
pub open spec fn bytes_at(rs: Seq<MappedRegion>, addr: int, len: nat) -> Seq<u8> {
    Seq::new(len, |k: int| byte_value(rs, addr + k))
}

/// `n` is region `o` after `bytes` were written at `addr`.
pub open spec fn region_written(o: MappedRegion, n: MappedRegion, addr: int, bytes: Seq<u8>) -> bool {
    &&& n.start == o.start
    &&& n.readable == o.readable
    &&& n.writable == o.writable
    &&& n.data@.len() == o.data@.len()
    &&& forall|k: int|
        0 <= k < o.data@.len() ==> #[trigger] n.data@[k] == if addr <= o.start + k < addr
            + bytes.len() {
            bytes[o.start + k - addr]
        } else {
            o.data@[k]
        }
}

/// Where mappings are disjoint, the byte at an address is that of whichever
/// mapping holds it.
pub proof fn lemma_byte_value_in_region(rs: Seq<MappedRegion>, i: int, a: int)
    requires
        regions_wf(rs),
        0 <= i < rs.len(),
        rs[i].contains(a),
    ensures
        byte_value(rs, a) == rs[i].data@[a - rs[i].start],
    decreases rs.len(),
{
    let last = rs.len() - 1;
    if i != last {
        assert(regions_disjoint(rs[i], rs[last]));
        let p = rs.drop_last();
        assert forall|x: int| 0 <= x < p.len() implies #[trigger] p[x].end() <= u64::MAX by {
            assert(rs[x].end() <= u64::MAX);
        }
        assert forall|x: int, y: int|
            0 <= x < p.len() && 0 <= y < p.len() && x != y implies regions_disjoint(
            #[trigger] p[x],
            #[trigger] p[y],
        ) by {
            assert(regions_disjoint(rs[x], rs[y]));
        }
        lemma_byte_value_in_region(p, i, a);
    }
}

/// Region `o` with `bytes` written at `addr` over the part that they cover.
fn write_into(o: &MappedRegion, addr: u64, bytes: &[u8]) -> (n: MappedRegion)
    requires
        o.end() <= u64::MAX,
    ensures
        region_written(*o, n, addr as int, bytes@),
{
    let mut data: Vec<u8> = Vec::new();
    let mut k: usize = 0;
    while k < o.data.len()
        invariant
            o.end() <= u64::MAX,
            k <= o.data@.len(),
            data@.len() == k,
            forall|j: int|
                0 <= j < k ==> #[trigger] data@[j] == if addr <= o.start + j < addr + bytes@.len() {
                    bytes@[o.start + j - addr]
                } else {
                    o.data@[j]
                },
        decreases o.data@.len() - k,
    {
        let a = o.start + k as u64;
        if a >= addr && a - addr < bytes.len() as u64 {
            data.push(bytes[(a - addr) as usize]);
        } else {
            data.push(o.data[k]);
        }
        k += 1;
    }
    MappedRegion { start: o.start, data, readable: o.readable, writable: o.writable }
}

/// The address space of one guest process, as seen by the simulator.
pub struct ProcessMemory {
    regions: Vec<MappedRegion>,
}

impl View for ProcessMemory {
    type V = Seq<MappedRegion>;

    closed spec fn view(&self) -> Seq<MappedRegion> {
        self.regions@
    }
}

impl ProcessMemory {
    pub open spec fn wf(&self) -> bool {
        regions_wf(self@)
    }

    /// An address space with nothing mapped.
    pub fn new() -> (r: ProcessMemory)
        ensures
            r.wf(),
            r@ == Seq::<MappedRegion>::empty(),
    {
        ProcessMemory { regions: Vec::new() }
    }

    /// Adds a mapping; refused with `EINVAL` where it would leave the address
    /// space or overlap an existing mapping.
    pub fn map_region(&mut self, region: MappedRegion) -> (r: Result<(), Errno>)
        requires
            old(self).wf(),
        ensures
            final(self).wf(),
            r.is_ok() == (region.end() <= u64::MAX && forall|i: int|
                0 <= i < old(self)@.len() ==> regions_disjoint(#[trigger] old(self)@[i], region)),
            r.is_ok() ==> final(self)@ == old(self)@.push(region),
            r matches Err(e) ==> e.code == crate::errno::EINVAL && final(self)@ == old(self)@,
    {
        if region.start > u64::MAX - region.data.len() as u64 {
            return Err(Errno { code: crate::errno::EINVAL });
        }
        let end = region.start + region.data.len() as u64;
        let mut i: usize = 0;
        while i < self.regions.len()
            invariant
                i <= self.regions@.len(),
                self.regions@ == old(self).regions@,
                regions_wf(self.regions@),
                end == region.end(),
                forall|j: int| 0 <= j < i ==> regions_disjoint(#[trigger] self.regions@[j], region),
            decreases self.regions@.len() - i,
        {
            let o = &self.regions[i];
            assert(o.end() <= u64::MAX) by {
                assert(self.regions@[i as int].end() <= u64::MAX);
            }
            let o_end = o.start + o.data.len() as u64;
            if !(o_end <= region.start || end <= o.start) {
                assert(!regions_disjoint(old(self)@[i as int], region));
                return Err(Errno { code: crate::errno::EINVAL });
            }
            i += 1;
        }
        self.regions.push(region);
        proof {
            let rs = self.regions@;
            assert forall|x: int, y: int|
                0 <= x < rs.len() && 0 <= y < rs.len() && x != y implies regions_disjoint(
                #[trigger] rs[x],
                #[trigger] rs[y],
            ) by {
                if x < rs.len() - 1 && y < rs.len() - 1 {
                    assert(regions_disjoint(old(self)@[x], old(self)@[y]));
                }
            }
        }
        Ok(())
    }

    /// The index of a mapping that holds `a` and permits `mode`.
    fn find_region(&self, a: u64, mode: Access) -> (r: Option<usize>)
        ensures
            r matches Some(i) ==> i < self@.len() && self@[i as int].contains(a as int)
                && self@[i as int].permits(mode),
            r is None ==> !byte_accessible(self@, a as int, mode),
    {
        let mut i: usize = 0;
        while i < self.regions.len()
            invariant
                i <= self.regions@.len(),
                forall|j: int|
                    0 <= j < i ==> !(#[trigger] self.regions@[j].contains(a as int)
                        && self.regions@[j].permits(mode)),
            decreases self.regions@.len() - i,
        {
            if self.regions[i].has(a) && self.regions[i].allows(mode) {
                return Some(i);
            }
            i += 1;
        }
        None
    }

    /// Whether every byte of `addr .. addr + len` is mapped and permits `mode`.
    pub fn is_accessible(&self, addr: u64, len: u64, mode: Access) -> (r: bool)
        requires
            self.wf(),
        ensures
            r == range_accessible(self@, addr as int, len as int, mode),
    {
        if len == 0 {
            return true;
        }
        if addr > u64::MAX - len {
            proof {
                let top = u64::MAX as int;
                if byte_accessible(self@, top, mode) {
                    let i = choose|i: int|
                        0 <= i < self@.len() && #[trigger] self@[i].contains(top) && self@[i].permits(mode);
                    assert(self@[i].end() <= u64::MAX);
                }
                assert(addr <= top < addr + len);
            }
            return false;
        }
        let end = addr + len;
        let mut cur = addr;
        while cur < end
            invariant
                self.wf(),
                addr <= cur <= end,
                end == addr + len,
                forall|a: int| addr <= a < cur ==> #[trigger] byte_accessible(self@, a, mode),
            decreases end - cur,
        {
            match self.find_region(cur, mode) {
                None => {
                    return false;
                },
                Some(i) => {
                    let reg = &self.regions[i];
                    assert(reg.end() <= u64::MAX) by {
                        assert(self@[i as int].end() <= u64::MAX);
                    }
                    let reg_end = reg.start + reg.data.len() as u64;
                    let next = if reg_end < end {
                        reg_end
                    } else {
                        end
                    };
                    assert forall|a: int| addr <= a < next implies #[trigger] byte_accessible(
                        self@,
                        a,
                        mode,
                    ) by {
                        if a >= cur {
                            assert(self@[i as int].contains(a));
                        }
                    }
                    cur = next;
                },
            }
        }
        true
    }

    /// Copies `len` bytes out of guest memory at `addr`; `EFAULT` unless
    /// every byte is mapped readable.
    pub fn read_bytes(&self, addr: u64, len: u64) -> (r: Result<Vec<u8>, Errno>)
        requires
            self.wf(),
        ensures
            r.is_ok() == range_accessible(self@, addr as int, len as int, Access::Read),
            r matches Ok(b) ==> b@ == bytes_at(self@, addr as int, len as nat),
            r matches Err(e) ==> e.code == EFAULT,
    {
        if !self.is_accessible(addr, len, Access::Read) {
            return Err(Errno { code: EFAULT });
        }
        let mut out: Vec<u8> = Vec::new();
        let mut k: u64 = 0;
        while k < len
            invariant
                self.wf(),
                k <= len,
                range_accessible(self@, addr as int, len as int, Access::Read),
                out@.len() == k,
                forall|j: int| 0 <= j < k ==> #[trigger] out@[j] == byte_value(self@, addr + j),
            decreases len - k,
        {
            assert(byte_accessible(self@, addr + k, Access::Read));
            let ghost gi = choose|i: int|
                0 <= i < self@.len() && #[trigger] self@[i].contains(addr + k)
                    && self@[i].permits(Access::Read);
            assert(self@[gi].end() <= u64::MAX);
            let a = addr + k;
            match self.find_region(a, Access::Read) {
                None => {
                    return Err(Errno { code: EFAULT });
                },
                Some(i) => {
                    let reg = &self.regions[i];
                    let dl = reg.data.len();
                    assert(a - reg.start < dl);
                    let off = (a - reg.start) as usize;
                    out.push(reg.data[off]);
                    proof {
                        lemma_byte_value_in_region(self@, i as int, a as int);
                    }
                },
            }
            k += 1;
        }
        assert(out@ =~= bytes_at(self@, addr as int, len as nat));
        Ok(out)
    }

    /// Copies `bytes` into guest memory at `addr`; `EFAULT`, with nothing
    /// written, unless every byte is mapped writable.
    pub fn write_bytes(&mut self, addr: u64, bytes: &[u8]) -> (r: Result<(), Errno>)
        requires
            old(self).wf(),
        ensures
            final(self).wf(),
            r.is_ok() == range_accessible(old(self)@, addr as int, bytes@.len() as int, Access::Write),
            r.is_ok() ==> final(self)@.len() == old(self)@.len() && (forall|i: int|
                0 <= i < old(self)@.len() ==> region_written(
                    #[trigger] old(self)@[i],
                    final(self)@[i],
                    addr as int,
                    bytes@,
                )),
            r.is_ok() ==> bytes_at(final(self)@, addr as int, bytes@.len()) == bytes@,
            r matches Err(e) ==> e.code == EFAULT && final(self)@ == old(self)@,
    {
        if !self.is_accessible(addr, bytes.len() as u64, Access::Write) {
            return Err(Errno { code: EFAULT });
        }
        let mut i: usize = 0;
        while i < self.regions.len()
            invariant
                i <= self.regions@.len(),
                self.regions@.len() == old(self)@.len(),
                regions_wf(old(self)@),
                forall|j: int|
                    0 <= j < i ==> region_written(
                        #[trigger] old(self)@[j],
                        self.regions@[j],
                        addr as int,
                        bytes@,
                    ),
                forall|j: int| i <= j < old(self)@.len() ==> #[trigger] self.regions@[j] == old(self)@[j],
            decreases self.regions@.len() - i,
        {
            assert(self.regions@[i as int].end() <= u64::MAX);
            let n = write_into(&self.regions[i], addr, bytes);
            self.regions.set(i, n);
            i += 1;
        }
        proof {
            let o = old(self)@;
            let f = self@;
            assert forall|x: int| 0 <= x < f.len() implies #[trigger] f[x].end() <= u64::MAX by {
                assert(region_written(o[x], f[x], addr as int, bytes@));
                assert(o[x].end() <= u64::MAX);
            }
            assert forall|x: int, y: int|
                0 <= x < f.len() && 0 <= y < f.len() && x != y implies regions_disjoint(
                #[trigger] f[x],
                #[trigger] f[y],
            ) by {
                assert(region_written(o[x], f[x], addr as int, bytes@));
                assert(region_written(o[y], f[y], addr as int, bytes@));
                assert(regions_disjoint(o[x], o[y]));
            }
            assert forall|k: int| 0 <= k < bytes@.len() implies #[trigger] bytes_at(
                f,
                addr as int,
                bytes@.len(),
            )[k] == bytes@[k] by {
                let a = addr + k;
                assert(byte_accessible(o, a, Access::Write));
                let gi = choose|gi: int|
                    0 <= gi < o.len() && #[trigger] o[gi].contains(a) && o[gi].permits(Access::Write);
                assert(region_written(o[gi], f[gi], addr as int, bytes@));
                let off = a - o[gi].start;
                assert(f[gi].data@[off] == bytes@[k]);
                lemma_byte_value_in_region(f, gi, a);
            }
            assert(bytes_at(f, addr as int, bytes@.len()) =~= bytes@);
        }
        Ok(())
    }

    /// Reads a typed value; `EFAULT` unless the pointer is aligned for `T`
    /// and all of its bytes are mapped readable.
    pub fn read<T: GuestValue>(&self, ptr: ForeignPtr<T>) -> (r: Result<T, Errno>)
        requires
            self.wf(),
        ensures
            r.is_ok() == (ptr.addr as int % T::spec_align() as int == 0 && range_accessible(
                self@,
                ptr.addr as int,
                T::spec_size() as int,
                Access::Read,
            )),
            r matches Ok(v) ==> v == T::spec_from_bytes(
                bytes_at(self@, ptr.addr as int, T::spec_size()),
            ),
            r matches Err(e) ==> e.code == EFAULT,
    {
        if ptr.addr % T::align() != 0 {
            return Err(Errno { code: EFAULT });
        }
        let b = self.read_bytes(ptr.addr, T::size())?;
        Ok(T::from_bytes(b.as_slice()))
    }

    /// Writes a typed value; `EFAULT`, with nothing written, unless the
    /// pointer is aligned for `T` and all of its bytes are mapped writable.
    pub fn write<T: GuestValue>(&mut self, ptr: ForeignPtr<T>, value: &T) -> (r: Result<(), Errno>)
        requires
            old(self).wf(),
        ensures
            final(self).wf(),
            r.is_ok() == (ptr.addr as int % T::spec_align() as int == 0 && range_accessible(
                old(self)@,
                ptr.addr as int,
                T::spec_size() as int,
                Access::Write,
            )),
            r.is_ok() ==> final(self)@.len() == old(self)@.len() && (forall|i: int|
                0 <= i < old(self)@.len() ==> region_written(
                    #[trigger] old(self)@[i],
                    final(self)@[i],
                    ptr.addr as int,
                    value.spec_to_bytes(),
                )),
            r.is_ok() ==> bytes_at(final(self)@, ptr.addr as int, T::spec_size())
                == value.spec_to_bytes(),
            r matches Err(e) ==> e.code == EFAULT && final(self)@ == old(self)@,
    {
        if ptr.addr % T::align() != 0 {
            return Err(Errno { code: EFAULT });
        }
        let b = value.to_bytes();
        self.write_bytes(ptr.addr, b.as_slice())
    }
}

} // verus!
