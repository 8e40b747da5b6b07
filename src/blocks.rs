use vstd::prelude::*;
use vstd::string::StringSliceAdditionalSpecFns;

use crate::config::SECTOR_SIZE;
use crate::error::MkfsError;

verus! {

/// Index of a sector of the image, counted from the first byte of the boot code.
pub type Addr = u16;

/// Bytes in an inode's name field.
pub const NAME_CAPACITY: usize = 256;

/// Extent slots in an inode.
pub const EXTENT_SLOTS: usize = 64;

/// Bytes that one extent takes in an inode record.
pub const EXTENT_BYTES: usize = 4;

/// Little-endian bytes of a 16-bit integer.
pub open spec fn u16_le(x: u16) -> Seq<u8> {
    seq![(x % 256) as u8, (x / 256) as u8]
}

/// Little-endian bytes of a 32-bit integer.
pub open spec fn u32_le(x: u32) -> Seq<u8> {
    seq![(x % 256) as u8, ((x / 256) % 256) as u8, ((x / 65536) % 256) as u8, (x / 16777216) as u8]
}

/// The 16-bit integer whose little-endian bytes are `lo`, `hi`.
pub open spec fn le16(lo: u8, hi: u8) -> u16 {
    (lo + 256 * hi) as u16
}

/// The 32-bit integer whose little-endian bytes are `b0` to `b3`.
pub open spec fn le32(b0: u8, b1: u8, b2: u8, b3: u8) -> u32 {
    (b0 + 256 * b1 + 65536 * b2 + 16777216 * b3) as u32
}

/// An inclusive run `[start, end]` of sectors.
#[derive(Debug, Clone, Copy, PartialEq, Eq, Structural)]
pub struct Cluster {
    pub start: Addr,
    pub end: Addr,
}

impl Cluster {
    pub open spec fn wf(&self) -> bool {
        self.start <= self.end
    }

    /// Number of sectors in the run.
    pub open spec fn spec_sectors(&self) -> nat {
        (self.end - self.start + 1) as nat
    }

    pub fn new(start: Addr, end: Addr) -> (r: Cluster)
        requires
            start <= end,
        ensures
            r.start == start,
            r.end == end,
            r.wf(),
    {
        Cluster { start, end }
    }

    pub fn sectors(&self) -> (r: usize)
        requires
            self.wf(),
        ensures
            r == self.spec_sectors(),
    {
        (self.end - self.start) as usize + 1
    }
}

/// An extent as it stands in an inode record: start, then end.
pub open spec fn cluster_bytes(c: Cluster) -> Seq<u8> {
    u16_le(c.start) + u16_le(c.end)
}

/// Bytes of a superblock record with the given fields: version, block size, a tag
/// saying whether a direct-boot extent is present, and that extent's start and end.
pub open spec fn record_bytes(version: u32, block_size: u16, tag: u8, start: u16, end: u16) -> Seq<u8> {
    u32_le(version) + u16_le(block_size) + seq![tag] + u16_le(start) + u16_le(end)
}

/// Relies on bincode::serialize with its default options: integers in fixed width,
/// little-endian; the fields of a tuple in order with no framing. Writing into a
/// `Vec` with no size limit does not fail.
#[verifier::external_body]
fn bincode_record(version: u32, block_size: u16, tag: u8, start: u16, end: u16) -> (r: Vec<u8>)
    ensures
        r@ == record_bytes(version, block_size, tag, start, end),
{
    bincode::serialize(&(version, block_size, tag, start, end)).expect("serializing into a Vec")
}

/// Bytes in a superblock record, whatever it holds.
pub const SUPERBLOCK_RECORD_SIZE: usize = 11;

/// Version written by this builder.
pub const SUPERBLOCK_VERSION: u32 = 1;

/// The filesystem's description, written right after the boot code.
#[derive(Debug, Clone, Copy, PartialEq, Eq, Structural)]
pub struct SuperBlock {
    pub version: u32,
    pub block_size: u16,
    /// The extent that the loader runs directly, if any.
    pub directboot: Option<Cluster>,
}

/// Reads a superblock record from the front of `b`: tag 0 is no direct-boot
/// extent, tag 1 is the extent that follows it, any other tag is no record.
pub open spec fn decode_superblock(b: Seq<u8>) -> Option<SuperBlock> {
    if b.len() < SUPERBLOCK_RECORD_SIZE {
        None
    } else {
        let version = le32(b[0], b[1], b[2], b[3]);
        let block_size = le16(b[4], b[5]);
        if b[6] == 0 {
            Some(SuperBlock { version, block_size, directboot: None })
        } else if b[6] == 1 {
            let c = Cluster { start: le16(b[7], b[8]), end: le16(b[9], b[10]) };
            Some(SuperBlock { version, block_size, directboot: Some(c) })
        } else {
            None
        }
    }
}

impl SuperBlock {
    pub fn new(version: u32, block_size: u16) -> (r: SuperBlock)
        ensures
            r == (SuperBlock { version, block_size, directboot: None }),
    {
        SuperBlock { version, block_size, directboot: None }
    }

    /// Marks `c` as the extent run at boot.
    pub fn set_directboot(&mut self, c: Cluster)
        ensures
            *final(self) == (SuperBlock { directboot: Some(c), ..*old(self) }),
    {
        self.directboot = Some(c);
    }

    /// The serialized record, always `SUPERBLOCK_RECORD_SIZE` bytes: with no
    /// direct-boot extent the tag is 0 and the extent's place holds zeros.
    pub open spec fn encoded(&self) -> Seq<u8> {
        match self.directboot {
            None => record_bytes(self.version, self.block_size, 0, 0, 0),
            Some(c) => record_bytes(self.version, self.block_size, 1, c.start, c.end),
        }
    }

    pub fn to_bytes(&self) -> (r: Vec<u8>)
        ensures
            r@ == self.encoded(),
    {
        match self.directboot {
            None => bincode_record(self.version, self.block_size, 0, 0, 0),
            Some(c) => bincode_record(self.version, self.block_size, 1, c.start, c.end),
        }
    }

    /// Reads a superblock record from `b` at byte offset `at`.
    pub fn parse(b: &[u8], at: usize) -> (r: Option<SuperBlock>)
        requires
            at <= b@.len(),
        ensures
            r == decode_superblock(b@.subrange(at as int, b@.len() as int)),
    {
        if b.len() - at < SUPERBLOCK_RECORD_SIZE {
            return None;
        }
        let version = (b[at] as u32) + 256 * (b[at + 1] as u32) + 65536 * (b[at + 2] as u32)
            + 16777216 * (b[at + 3] as u32);
        let block_size = (b[at + 4] as u16) + 256 * (b[at + 5] as u16);
        if b[at + 6] == 0 {
            Some(SuperBlock { version, block_size, directboot: None })
        } else if b[at + 6] == 1 {
            let start = (b[at + 7] as u16) + 256 * (b[at + 8] as u16);
            let end = (b[at + 9] as u16) + 256 * (b[at + 10] as u16);
            Some(SuperBlock { version, block_size, directboot: Some(Cluster { start, end }) })
        } else {
            None
        }
    }
}

/// The bytes of a 16-bit integer read back give the integer.
pub proof fn lemma_u16_round_trip(x: u16)
    ensures
        le16(u16_le(x)[0], u16_le(x)[1]) == x,
{
}

/// The bytes of a 32-bit integer read back give the integer.
pub proof fn lemma_u32_round_trip(x: u32)
    ensures
        le32(u32_le(x)[0], u32_le(x)[1], u32_le(x)[2], u32_le(x)[3]) == x,
{
}

/// A superblock record has the same width whatever it holds, and read back,
/// whatever follows it, gives the superblock.
pub proof fn lemma_superblock_round_trip(sb: SuperBlock, rest: Seq<u8>)
    ensures
        sb.encoded().len() == SUPERBLOCK_RECORD_SIZE,
        decode_superblock(sb.encoded() + rest) == Some(sb),
{
    let b = sb.encoded() + rest;
    lemma_u32_round_trip(sb.version);
    lemma_u16_round_trip(sb.block_size);
    match sb.directboot {
        None => {
            assert(b[6] == 0);
        },
        Some(c) => {
            lemma_u16_round_trip(c.start);
            lemma_u16_round_trip(c.end);
            assert(b[6] == 1);
            assert(b[7] == u16_le(c.start)[0] && b[8] == u16_le(c.start)[1]);
            assert(b[9] == u16_le(c.end)[0] && b[10] == u16_le(c.end)[1]);
        },
    }
    assert(b[0] == u32_le(sb.version)[0] && b[1] == u32_le(sb.version)[1]);
    assert(b[2] == u32_le(sb.version)[2] && b[3] == u32_le(sb.version)[3]);
    assert(b[4] == u16_le(sb.block_size)[0] && b[5] == u16_le(sb.block_size)[1]);
}

/// Bytes of a run of extents, each as `cluster_bytes`, in order.
pub open spec fn extents_bytes(d: Seq<Cluster>) -> Seq<u8>
    decreases d.len(),
{
    if d.len() == 0 {
        Seq::empty()
    } else {
        extents_bytes(d.drop_last()) + cluster_bytes(d.last())
    }
}

pub proof fn lemma_extents_bytes_len(d: Seq<Cluster>)
    ensures
        extents_bytes(d).len() == EXTENT_BYTES * d.len(),
    decreases d.len(),
{
    if d.len() > 0 {
        lemma_extents_bytes_len(d.drop_last());
    }
}

/// A name as it stands in the name field: its bytes, then zeros up to the capacity.
pub open spec fn padded_name(s: Seq<u8>) -> Seq<u8> {
    Seq::new(NAME_CAPACITY as nat, |i: int| if i < s.len() { s[i] } else { 0u8 })
}

/// The extent that marks an unused slot.
pub open spec fn empty_cluster() -> Cluster {
    Cluster { start: 0, end: 0 }
}

/// Width in bytes of an inode record.
pub open spec fn inode_record_size() -> nat {
    (NAME_CAPACITY + EXTENT_SLOTS * EXTENT_BYTES) as nat
}

/// The record of one entity: its name and its extents.
#[derive(Debug, Clone)]
pub struct Inode {
    pub name: Vec<u8>,
    pub dat: Vec<Cluster>,
}

impl Inode {
    pub open spec fn wf(&self) -> bool {
        self.name@.len() == NAME_CAPACITY && self.dat@.len() == EXTENT_SLOTS
    }

    /// The serialized record: the name field, then every extent slot in order.
    pub open spec fn encoded(&self) -> Seq<u8> {
        self.name@ + extents_bytes(self.dat@)
    }

    /// A zeroed record.
    pub fn new() -> (r: Inode)
        ensures
            r.wf(),
            r.name@ == padded_name(Seq::empty()),
            r.dat@ == Seq::new(EXTENT_SLOTS as nat, |i: int| empty_cluster()),
    {
        let mut name: Vec<u8> = Vec::new();
        let mut i: usize = 0;
        while i < NAME_CAPACITY
            invariant
                i <= NAME_CAPACITY,
                name@ == Seq::new(i as nat, |k: int| 0u8),
            decreases NAME_CAPACITY - i,
        {
            name.push(0u8);
            i = i + 1;
        }
        let mut dat: Vec<Cluster> = Vec::new();
        let mut j: usize = 0;
        while j < EXTENT_SLOTS
            invariant
                j <= EXTENT_SLOTS,
                dat@ == Seq::new(j as nat, |k: int| empty_cluster()),
            decreases EXTENT_SLOTS - j,
        {
            dat.push(Cluster { start: 0, end: 0 });
            j = j + 1;
        }
        assert(name@ =~= padded_name(Seq::empty()));
        Inode { name, dat }
    }

    /// Width in bytes of the serialized record.
    pub fn record_size() -> (r: usize)
        ensures
            r == inode_record_size(),
    {
        NAME_CAPACITY + EXTENT_SLOTS * EXTENT_BYTES
    }

    /// Copies `s` into the name field, zero-filling the rest; refuses a name wider
    /// than the field and then leaves the record as it was.
    pub fn set_name(&mut self, s: &str) -> (r: Result<(), MkfsError>)
        requires
            old(self).wf(),
        ensures
            final(self).wf(),
            final(self).dat == old(self).dat,
            s.spec_bytes().len() <= NAME_CAPACITY ==> r is Ok && final(self).name@ == padded_name(
                s.spec_bytes(),
            ),
            s.spec_bytes().len() > NAME_CAPACITY ==> r == Err::<(), MkfsError>(MkfsError::NameTooLong)
                && final(self).name@ == old(self).name@,
    {
        let bytes = s.as_bytes();
        if bytes.len() > NAME_CAPACITY {
            return Err(MkfsError::NameTooLong);
        }
        let mut name: Vec<u8> = Vec::new();
        let mut i: usize = 0;
        while i < NAME_CAPACITY
            invariant
                i <= NAME_CAPACITY,
                bytes@ == s.spec_bytes(),
                bytes@.len() <= NAME_CAPACITY,
                name@ == padded_name(bytes@).subrange(0, i as int),
            decreases NAME_CAPACITY - i,
        {
            if i < bytes.len() {
                name.push(bytes[i]);
            } else {
                name.push(0u8);
            }
            assert(name@ =~= padded_name(bytes@).subrange(0, i + 1));
            i = i + 1;
        }
        assert(name@ =~= padded_name(bytes@));
        self.name = name;
        Ok(())
    }

    /// Writes extent slot `index`.
    pub fn set_extent(&mut self, index: usize, c: Cluster)
        requires
            old(self).wf(),
            index < EXTENT_SLOTS,
        ensures
            final(self).wf(),
            final(self).name == old(self).name,
            final(self).dat@ == old(self).dat@.update(index as int, c),
    {
        self.dat.set(index, c);
    }

    /// Reads an inode record from `b` at byte offset `at`.
    pub fn parse(b: &[u8], at: usize) -> (r: Option<Inode>)
        requires
            at <= b@.len(),
        ensures
            match r {
                None => decode_inode(b@.subrange(at as int, b@.len() as int)) is None,
                Some(i) => i.wf() && decode_inode(b@.subrange(at as int, b@.len() as int)) == Some(
                    (i.name@, i.dat@),
                ),
            },
    {
        if b.len() - at < NAME_CAPACITY + EXTENT_SLOTS * EXTENT_BYTES {
            return None;
        }
        let ghost tail = b@.subrange(at as int, b@.len() as int);
        let mut name: Vec<u8> = Vec::new();
        let mut k: usize = 0;
        while k < NAME_CAPACITY
            invariant
                k <= NAME_CAPACITY,
                at + NAME_CAPACITY + EXTENT_SLOTS * EXTENT_BYTES <= b@.len() <= usize::MAX,
                tail == b@.subrange(at as int, b@.len() as int),
                name@ == tail.subrange(0, k as int),
            decreases NAME_CAPACITY - k,
        {
            name.push(b[at + k]);
            assert(name@ =~= tail.subrange(0, k + 1));
            k = k + 1;
        }
        let ghost want = decode_inode(tail)->Some_0.1;
        let mut dat: Vec<Cluster> = Vec::new();
        let mut j: usize = 0;
        while j < EXTENT_SLOTS
            invariant
                j <= EXTENT_SLOTS,
                at + NAME_CAPACITY + EXTENT_SLOTS * EXTENT_BYTES <= b@.len() <= usize::MAX,
                tail == b@.subrange(at as int, b@.len() as int),
                want == decode_inode(tail)->Some_0.1,
                dat@ == want.subrange(0, j as int),
            decreases EXTENT_SLOTS - j,
        {
            let o = at + NAME_CAPACITY + 4 * j;
            let start = (b[o] as u16) + 256 * (b[o + 1] as u16);
            let end = (b[o + 2] as u16) + 256 * (b[o + 3] as u16);
            dat.push(Cluster { start, end });
            assert(dat@ =~= want.subrange(0, j + 1));
            j = j + 1;
        }
        assert(name@ =~= decode_inode(tail)->Some_0.0);
        assert(dat@ =~= want);
        Some(Inode { name, dat })
    }

    /// Appends the serialized record to `out`.
    pub fn write_into(&self, out: &mut Vec<u8>)
        requires
            self.wf(),
        ensures
            final(out)@ == old(out)@ + self.encoded(),
    {
        let ghost start = out@;
        let mut i: usize = 0;
        while i < self.name.len()
            invariant
                i <= self.name@.len(),
                out@ == start + self.name@.subrange(0, i as int),
            decreases self.name@.len() - i,
        {
            out.push(self.name[i]);
            assert(self.name@.subrange(0, i + 1) =~= self.name@.subrange(0, i as int).push(self.name@[i as int]));
            i = i + 1;
        }
        assert(self.name@.subrange(0, i as int) =~= self.name@);
        let mut j: usize = 0;
        while j < self.dat.len()
            invariant
                j <= self.dat@.len(),
                out@ == start + self.name@ + extents_bytes(self.dat@.subrange(0, j as int)),
            decreases self.dat@.len() - j,
        {
            let c = self.dat[j];
            out.push((c.start % 256) as u8);
            out.push((c.start / 256) as u8);
            out.push((c.end % 256) as u8);
            out.push((c.end / 256) as u8);
            let ghost d = self.dat@.subrange(0, j + 1);
            assert(d.drop_last() =~= self.dat@.subrange(0, j as int));
            assert(d.last() == c);
            assert(out@ =~= start + self.name@ + extents_bytes(d));
            j = j + 1;
        }
        assert(self.dat@.subrange(0, j as int) =~= self.dat@);
    }
}

/// An inode record is one sector wide.
pub proof fn lemma_inode_fills_sector(i: Inode)
    requires
        i.wf(),
    ensures
        i.encoded().len() == inode_record_size(),
        inode_record_size() == SECTOR_SIZE,
{
    lemma_extents_bytes_len(i.dat@);
}

/// Reads an inode record from the front of `b`: its name field and its extent slots.
pub open spec fn decode_inode(b: Seq<u8>) -> Option<(Seq<u8>, Seq<Cluster>)> {
    if b.len() < inode_record_size() {
        None
    } else {
        Some(
            (
                b.subrange(0, NAME_CAPACITY as int),
                Seq::new(
                    EXTENT_SLOTS as nat,
                    |i: int|
                        Cluster {
                            start: le16(b[NAME_CAPACITY + 4 * i], b[NAME_CAPACITY + 4 * i + 1]),
                            end: le16(b[NAME_CAPACITY + 4 * i + 2], b[NAME_CAPACITY + 4 * i + 3]),
                        },
                ),
            ),
        )
    }
}

/// Extent `i` of a run stands at bytes `4 * i` to `4 * i + 4` of its encoding.
pub proof fn lemma_extents_bytes_at(d: Seq<Cluster>, i: int)
    requires
        0 <= i < d.len(),
    ensures
        extents_bytes(d).len() == EXTENT_BYTES * d.len(),
        extents_bytes(d).subrange(4 * i, 4 * i + 4) == cluster_bytes(d[i]),
    decreases d.len(),
{
    lemma_extents_bytes_len(d);
    lemma_extents_bytes_len(d.drop_last());
    let pre = extents_bytes(d.drop_last());
    if i == d.len() - 1 {
        assert(extents_bytes(d).subrange(4 * i, 4 * i + 4) =~= cluster_bytes(d[i]));
    } else {
        lemma_extents_bytes_at(d.drop_last(), i);
        assert(extents_bytes(d).subrange(4 * i, 4 * i + 4) =~= pre.subrange(4 * i, 4 * i + 4));
    }
}

/// An inode record read back, whatever follows it, gives its name field and extents.
pub proof fn lemma_inode_round_trip(name: Seq<u8>, dat: Seq<Cluster>, rest: Seq<u8>)
    requires
        name.len() == NAME_CAPACITY,
        dat.len() == EXTENT_SLOTS,
    ensures
        decode_inode(name + extents_bytes(dat) + rest) == Some((name, dat)),
{
    let b = name + extents_bytes(dat) + rest;
    lemma_extents_bytes_len(dat);
    let (n, d) = decode_inode(b)->Some_0;
    assert(n =~= name);
    assert forall|k: int| 0 <= k < EXTENT_SLOTS implies d[k] == dat[k] by {
        lemma_extents_bytes_at(dat, k);
        let e = extents_bytes(dat);
        assert(b[NAME_CAPACITY + 4 * k] == e.subrange(4 * k, 4 * k + 4)[0]);
        assert(b[NAME_CAPACITY + 4 * k + 1] == e.subrange(4 * k, 4 * k + 4)[1]);
        assert(b[NAME_CAPACITY + 4 * k + 2] == e.subrange(4 * k, 4 * k + 4)[2]);
        assert(b[NAME_CAPACITY + 4 * k + 3] == e.subrange(4 * k, 4 * k + 4)[3]);
        lemma_u16_round_trip(dat[k].start);
        lemma_u16_round_trip(dat[k].end);
    }
    assert(d =~= dat);
}

/// One sector of the image body: an inode record or a raw data block. Which one a
/// sector holds is given by its place in the stream, not stored with it.
#[derive(Debug, Clone)]
pub enum Node {
    Inode(Inode),
    Data(Vec<u8>),
}

impl Node {
    pub open spec fn wf(&self) -> bool {
        match self {
            Node::Inode(i) => i.wf(),
            Node::Data(d) => d@.len() == SECTOR_SIZE,
        }
    }

    /// The bytes of the sector.
    pub open spec fn encoded(&self) -> Seq<u8> {
        match self {
            Node::Inode(i) => i.encoded(),
            Node::Data(d) => d@,
        }
    }

    /// Appends the sector's bytes to `out`.
    pub fn write_into(&self, out: &mut Vec<u8>)
        requires
            self.wf(),
        ensures
            final(out)@ == old(out)@ + self.encoded(),
    {
        match self {
            Node::Inode(i) => i.write_into(out),
            Node::Data(d) => {
                let ghost start = out@;
                let mut k: usize = 0;
                while k < d.len()
                    invariant
                        k <= d@.len(),
                        out@ == start + d@.subrange(0, k as int),
                    decreases d@.len() - k,
                {
                    out.push(d[k]);
                    assert(d@.subrange(0, k + 1) =~= d@.subrange(0, k as int).push(d@[k as int]));
                    k = k + 1;
                }
                assert(d@.subrange(0, k as int) =~= d@);
            },
        }
    }
}

} // verus!
