use vstd::prelude::*;
use vstd::string::StringSliceAdditionalSpecFns;
use vstd::utf8::encode_utf8;

use crate::blocks::{
    empty_cluster, extents_bytes, padded_name, Addr, Cluster, Inode, Node, SuperBlock,
    EXTENT_SLOTS, NAME_CAPACITY, SUPERBLOCK_VERSION,
};
use crate::config::{Config, Target, DIRECT_BOOT_TARGET, SECTOR_SIZE};
use crate::error::MkfsError;
use crate::image::{nodes_bytes, Image};

verus! {

/// First sector of the node stream: sector 0 holds the boot code, sector 1 the superblock.
pub const NODES_OFFSET: Addr = 2;

/// Longest payload whose last sector still has a 16-bit address.
pub const MAX_PAYLOAD_LEN: usize = 65534 * SECTOR_SIZE;

/// Sectors needed to hold `len` bytes.
pub open spec fn sectors_for(len: nat) -> nat {
    ((len + SECTOR_SIZE - 1) / (SECTOR_SIZE as int)) as nat
}

/// Where a payload of `len` bytes is stored; none for an empty payload.
pub open spec fn data_extent(len: nat) -> Option<Cluster> {
    if len == 0 {
        None
    } else {
        Some(Cluster { start: NODES_OFFSET, end: (NODES_OFFSET + sectors_for(len) - 1) as u16 })
    }
}

/// What slot 0 of the payload's inode holds: its extent, or the unused mark for
/// an empty payload, which has no sectors.
pub open spec fn first_extent(len: nat) -> Cluster {
    match data_extent(len) {
        None => empty_cluster(),
        Some(c) => c,
    }
}

/// The extent slots of the payload's inode: slot 0 as `first_extent`, the rest unused.
pub open spec fn inode_extents(len: nat) -> Seq<Cluster> {
    Seq::new(EXTENT_SLOTS as nat, |i: int| empty_cluster()).update(0, first_extent(len))
}

/// The inode record of a payload called `name` of `len` bytes.
pub open spec fn inode_of(name: Seq<char>, len: nat) -> Seq<u8> {
    padded_name(encode_utf8(name)) + extents_bytes(inode_extents(len))
}

/// Whether a payload called `name` is the one the loader runs directly.
pub open spec fn is_direct_boot(name: Seq<char>, directboot: bool) -> bool {
    directboot && name == DIRECT_BOOT_TARGET@
}

/// The superblock of an image holding a payload called `name` of `len` bytes.
pub open spec fn superblock_of(name: Seq<char>, len: nat, directboot: bool, block_size: u16) -> SuperBlock {
    SuperBlock {
        version: SUPERBLOCK_VERSION,
        block_size,
        directboot: if is_direct_boot(name, directboot) {
            Some(first_extent(len))
        } else {
            None
        },
    }
}

/// The payload followed by zeros up to the end of its last sector.
pub open spec fn padded_payload(content: Seq<u8>) -> Seq<u8> {
    Seq::new(
        (SECTOR_SIZE * sectors_for(content.len())) as nat,
        |k: int| if k < content.len() { content[k] } else { 0u8 },
    )
}

/// Data sector `i` of a payload.
pub open spec fn data_sector(content: Seq<u8>, i: int) -> Seq<u8> {
    padded_payload(content).subrange(SECTOR_SIZE * i, SECTOR_SIZE * (i + 1))
}

/// The image: boot code, superblock, the payload's inode, its data sectors.
pub open spec fn image_of(
    boot: Seq<u8>,
    name: Seq<char>,
    content: Seq<u8>,
    directboot: bool,
    block_size: u16,
) -> Seq<u8> {
    boot + superblock_of(name, content.len(), directboot, block_size).encoded() + inode_of(
        name,
        content.len(),
    ) + padded_payload(content)
}

/// The outcome of building from loaded boot code and a payload called `name`.
pub open spec fn mkfs_result(
    boot: Seq<u8>,
    name: Seq<char>,
    content: Seq<u8>,
    directboot: bool,
    block_size: u16,
) -> Result<Seq<u8>, MkfsError> {
    if boot.len() == 0 {
        Err(MkfsError::EmptyBootloader)
    } else if encode_utf8(name).len() > NAME_CAPACITY {
        Err(MkfsError::NameTooLong)
    } else {
        Ok(image_of(boot, name, content, directboot, block_size))
    }
}

/// What a finished build tells its caller.
#[derive(Debug, Clone, Copy, PartialEq, Eq, Structural)]
pub struct MkfsReport {
    /// Image size in bytes.
    pub fssize: usize,
    pub inode_count: usize,
    pub dnode_count: usize,
}

/// Refuses empty boot code.
pub fn check_bootloader(boot: &Vec<u8>) -> (r: Result<(), MkfsError>)
    ensures
        r == (if boot@.len() == 0 {
            Err::<(), MkfsError>(MkfsError::EmptyBootloader)
        } else {
            Ok(())
        }),
{
    if boot.len() == 0 {
        Err(MkfsError::EmptyBootloader)
    } else {
        Ok(())
    }
}

/// Refuses an inode record that is not exactly one sector wide.
pub fn check_inode_size() -> (r: Result<(), MkfsError>)
    ensures
        r is Ok,
{
    let size = Inode::record_size();
    if size != SECTOR_SIZE {
        return Err(MkfsError::InvalidInode(size));
    }
    Ok(())
}

/// Number of sectors needed to hold `len` bytes.
pub fn sector_count(len: usize) -> (r: usize)
    ensures
        r == sectors_for(len as nat),
{
    len / SECTOR_SIZE + if len % SECTOR_SIZE > 0 {
        1
    } else {
        0
    }
}

/// The extent that stores a payload of `len` bytes, right after the superblock.
pub fn compute_extent(len: usize) -> (r: Option<Cluster>)
    requires
        len <= MAX_PAYLOAD_LEN,
    ensures
        r == data_extent(len as nat),
        r matches Some(c) ==> c.wf() && c.spec_sectors() == sectors_for(len as nat),
{
    if len == 0 {
        return None;
    }
    let count = sector_count(len);
    Some(Cluster::new(NODES_OFFSET, NODES_OFFSET + (count - 1) as u16))
}

/// Data sector `i` of `content`: its bytes from `SECTOR_SIZE * i`, zero-filled past the end.
pub fn make_sector(content: &Vec<u8>, i: usize) -> (r: Vec<u8>)
    requires
        i < sectors_for(content@.len() as nat),
        content@.len() <= MAX_PAYLOAD_LEN,
    ensures
        r@ == data_sector(content@, i as int),
{
    assert(i * SECTOR_SIZE <= MAX_PAYLOAD_LEN) by (nonlinear_arith)
        requires
            i < sectors_for(content@.len() as nat),
            content@.len() <= MAX_PAYLOAD_LEN,
    ;
    let base: usize = i * SECTOR_SIZE;
    let mut sector: Vec<u8> = Vec::new();
    let mut j: usize = 0;
    while j < SECTOR_SIZE
        invariant
            j <= SECTOR_SIZE,
            base == i * SECTOR_SIZE,
            base <= MAX_PAYLOAD_LEN,
            sector@ == Seq::new(
                j as nat,
                |t: int| if base + t < content@.len() { content@[base + t] } else { 0u8 },
            ),
        decreases SECTOR_SIZE - j,
    {
        if base + j < content.len() {
            sector.push(content[base + j]);
        } else {
            sector.push(0u8);
        }
        j = j + 1;
    }
    proof {
        let p = padded_payload(content@);
        assert(SECTOR_SIZE * (i + 1) <= p.len()) by (nonlinear_arith)
            requires
                i < sectors_for(content@.len() as nat),
                p.len() == SECTOR_SIZE * sectors_for(content@.len() as nat),
        ;
        assert(sector@ =~= data_sector(content@, i as int));
    }
    sector
}

/// Builds the image of boot code `boot` and one payload called `name` holding `content`.
pub fn mkfs_image(
    boot: Vec<u8>,
    name: &str,
    content: Vec<u8>,
    directboot: bool,
    block_size: u16,
) -> (r: Result<(Vec<u8>, MkfsReport), MkfsError>)
    requires
        content@.len() <= MAX_PAYLOAD_LEN,
    ensures
        match r {
            Ok((img, rep)) => {
                &&& mkfs_result(boot@, name@, content@, directboot, block_size) == Ok::<
                    Seq<u8>,
                    MkfsError,
                >(img@)
                &&& rep == (MkfsReport {
                    fssize: img@.len() as usize,
                    inode_count: 1,
                    dnode_count: sectors_for(content@.len() as nat) as usize,
                })
            },
            Err(e) => mkfs_result(boot@, name@, content@, directboot, block_size) == Err::<
                Seq<u8>,
                MkfsError,
            >(e),
        },
{
    match check_bootloader(&boot) {
        Err(e) => return Err(e),
        Ok(()) => {},
    }
    match check_inode_size() {
        Err(e) => return Err(e),
        Ok(()) => {},
    }
    let extent = compute_extent(content.len());
    let mut inode = Inode::new();
    match inode.set_name(name) {
        Err(e) => return Err(e),
        Ok(()) => {},
    }
    let first = match extent {
        Some(c) => c,
        None => Cluster::new(0, 0),
    };
    inode.set_extent(0, first);
    assert(inode.dat@ =~= inode_extents(content@.len() as nat));
    assert(inode.encoded() == inode_of(name@, content@.len() as nat));
    let mut sb = SuperBlock::new(SUPERBLOCK_VERSION, block_size);
    if directboot && name.to_owned() == DIRECT_BOOT_TARGET.to_owned() {
        sb.set_directboot(first);
    }
    assert(sb == superblock_of(name@, content@.len() as nat, directboot, block_size));
    let ghost inode_bytes = inode.encoded();
    let ghost padded = padded_payload(content@);
    let mut image = Image::new(sb, boot);
    image.nodes.push(Node::Inode(inode));
    assert(image.nodes@.drop_last() =~= Seq::<Node>::empty());
    assert(padded.subrange(0, 0) =~= Seq::<u8>::empty());
    assert(nodes_bytes(Seq::<Node>::empty()) == Seq::<u8>::empty());
    assert(image.nodes@.last().encoded() == inode_bytes);
    assert(nodes_bytes(image.nodes@) =~= inode_bytes + padded.subrange(0, 0));
    let count = sector_count(content.len());
    let mut i: usize = 0;
    while i < count
        invariant
            content@.len() <= MAX_PAYLOAD_LEN,
            count == sectors_for(content@.len() as nat),
            padded == padded_payload(content@),
            i <= count,
            image.wf(),
            image.sb == sb,
            image.boot@ == boot@,
            nodes_bytes(image.nodes@) == inode_bytes + padded.subrange(0, SECTOR_SIZE * i),
        decreases count - i,
    {
        let sector = make_sector(&content, i);
        let ghost before = image.nodes@;
        image.nodes.push(Node::Data(sector));
        proof {
            assert(image.nodes@.drop_last() == before);
            assert(SECTOR_SIZE * (i + 1) <= padded.len()) by (nonlinear_arith)
                requires
                    i < count,
                    padded.len() == SECTOR_SIZE * count,
            ;
            assert(padded.subrange(0, SECTOR_SIZE * i) + data_sector(content@, i as int)
                =~= padded.subrange(0, SECTOR_SIZE * (i + 1)));
        }
        i = i + 1;
    }
    assert(padded.subrange(0, SECTOR_SIZE * count) =~= padded);
    let mut compact: Vec<u8> = Vec::new();
    image.build(&mut compact);
    assert(compact@ =~= image_of(boot@, name@, content@, directboot, block_size));
    let fssize = compact.len();
    Ok((compact, MkfsReport { fssize, inode_count: 1, dnode_count: count }))
}

/// Final component of a path, as `std::path::Path::file_name` gives it.
pub uninterp spec fn file_name_of(path: Seq<char>) -> Option<Seq<char>>;

/// Relies on std::path::Path::file_name: the final component of the path, or none
/// where there is none (a root, an empty path, one ending in `..`). A component of
/// a `&str` path is valid UTF-8, so the conversion back to a string is exact.
#[verifier::external_body]
fn path_file_name(path: &str) -> (r: Option<String>)
    ensures
        match r {
            None => file_name_of(path@) is None,
            Some(n) => file_name_of(path@) == Some(n@),
        },
{
    match std::path::Path::new(path).file_name() {
        Some(n) => Some(n.to_string_lossy().into_owned()),
        None => None,
    }
}

/// Where the boot code comes from once its target is accepted.
#[derive(Debug)]
pub enum BootSource {
    /// Read it from this host path.
    Path(String),
    /// These bytes.
    Bytes(Vec<u8>),
}

/// Accepts a file or raw bytes as the boot source; a directory is refused.
pub fn boot_source(t: Target) -> (r: Result<BootSource, MkfsError>)
    ensures
        match t {
            Target::File(p) => r matches Ok(BootSource::Path(q)) && q@ == p@,
            Target::Raw(d) => r matches Ok(BootSource::Bytes(e)) && e@ == d@,
            Target::Dir(_) => r == Err::<BootSource, MkfsError>(MkfsError::BadConfig),
        },
{
    match t {
        Target::File(p) => Ok(BootSource::Path(p)),
        Target::Raw(d) => Ok(BootSource::Bytes(d)),
        Target::Dir(_) => Err(MkfsError::BadConfig),
    }
}

/// The path of a target that must be a single file.
pub fn file_target(t: &Target) -> (r: Result<String, MkfsError>)
    ensures
        match t {
            Target::File(p) => r matches Ok(q) && q@ == p@,
            _ => r == Err::<String, MkfsError>(MkfsError::BadConfig),
        },
{
    match t {
        Target::File(p) => Ok(p.clone()),
        _ => Err(MkfsError::BadConfig),
    }
}

/// The outcome of a build under `cfg`, given the loaded boot code and payload.
pub open spec fn mkfs_outcome(cfg: Config, boot: Seq<u8>, content: Seq<u8>) -> Result<Seq<u8>, MkfsError> {
    if boot.len() == 0 {
        Err(MkfsError::EmptyBootloader)
    } else {
        match cfg.source {
            Target::File(p) => match file_name_of(p@) {
                None => Err(MkfsError::BadConfig),
                Some(n) => match mkfs_result(boot, n, content, cfg.directboot, cfg.block_size) {
                    Err(e) => Err(e),
                    Ok(img) => if cfg.output is File {
                        Ok(img)
                    } else {
                        Err(MkfsError::BadConfig)
                    },
                },
            },
            _ => Err(MkfsError::BadConfig),
        }
    }
}

/// Builds the image that `cfg` asks for from the loaded boot code and payload:
/// the payload is named after the final component of the source path.
pub fn mkfs(cfg: &Config, boot: Vec<u8>, content: Vec<u8>) -> (r: Result<(Vec<u8>, MkfsReport), MkfsError>)
    requires
        content@.len() <= MAX_PAYLOAD_LEN,
    ensures
        match r {
            Ok((img, rep)) => {
                &&& mkfs_outcome(*cfg, boot@, content@) == Ok::<Seq<u8>, MkfsError>(img@)
                &&& rep == (MkfsReport {
                    fssize: img@.len() as usize,
                    inode_count: 1,
                    dnode_count: sectors_for(content@.len() as nat) as usize,
                })
            },
            Err(e) => mkfs_outcome(*cfg, boot@, content@) == Err::<Seq<u8>, MkfsError>(e),
        },
{
    match check_bootloader(&boot) {
        Err(e) => return Err(e),
        Ok(()) => {},
    }
    let path = match file_target(&cfg.source) {
        Err(e) => return Err(e),
        Ok(p) => p,
    };
    let name = match path_file_name(path.as_str()) {
        None => return Err(MkfsError::BadConfig),
        Some(n) => n,
    };
    let built = mkfs_image(boot, name.as_str(), content, cfg.directboot, cfg.block_size);
    match built {
        Err(e) => Err(e),
        Ok(b) => match file_target(&cfg.output) {
            Err(e) => Err(e),
            Ok(_) => Ok(b),
        },
    }
}

} // verus!
