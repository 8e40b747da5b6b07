use vstd::prelude::*;
use vstd::utf8::encode_utf8;

use crate::blocks::{
    decode_inode, decode_superblock, extents_bytes, lemma_extents_bytes_len,
    lemma_inode_round_trip, lemma_superblock_round_trip, padded_name, NAME_CAPACITY,
    SUPERBLOCK_RECORD_SIZE,
};
use crate::config::{Config, Target, SECTOR_SIZE};
use crate::error::MkfsError;
use crate::mkfs::{
    file_name_of, image_of, inode_extents, inode_of, is_direct_boot, mkfs_outcome, mkfs_result,
    padded_payload, sectors_for, superblock_of,
};

verus! {

/// A payload of `L` bytes fills `ceil(L / SECTOR_SIZE)` sectors: the data region
/// holds the payload first and only zeros after it.
pub proof fn lemma_data_sectors(content: Seq<u8>)
    ensures
        SECTOR_SIZE * sectors_for(content.len()) >= content.len(),
        SECTOR_SIZE * sectors_for(content.len()) < content.len() + SECTOR_SIZE,
        padded_payload(content).len() == SECTOR_SIZE * sectors_for(content.len()),
        padded_payload(content).subrange(0, content.len() as int) == content,
        forall|k: int|
            content.len() <= k < padded_payload(content).len() ==> #[trigger] padded_payload(content)[k]
                == 0u8,
{
    assert(padded_payload(content).subrange(0, content.len() as int) =~= content);
}

/// A payload whose length is a multiple of the sector size is stored with no padding.
pub proof fn lemma_no_padding(content: Seq<u8>)
    requires
        content.len() % (SECTOR_SIZE as nat) == 0,
    ensures
        SECTOR_SIZE * sectors_for(content.len()) == content.len(),
        padded_payload(content) == content,
{
    assert(padded_payload(content) =~= content);
}

/// The inode record is one sector wide.
pub proof fn lemma_inode_len(name: Seq<char>, len: nat)
    ensures
        inode_of(name, len).len() == SECTOR_SIZE,
{
    lemma_extents_bytes_len(inode_extents(len));
}

/// The image is the boot code, the superblock record, and one sector for the inode
/// and one for each data sector.
pub proof fn lemma_image_len(boot: Seq<u8>, name: Seq<char>, content: Seq<u8>, directboot: bool, block_size: u16)
    ensures
        image_of(boot, name, content, directboot, block_size).len() == boot.len()
            + SUPERBLOCK_RECORD_SIZE + SECTOR_SIZE * (1 + sectors_for(content.len())),
{
    lemma_inode_len(name, content.len());
    lemma_data_sectors(content);
    lemma_superblock_round_trip(superblock_of(name, content.len(), directboot, block_size), Seq::empty());
    assert(SECTOR_SIZE * (1 + sectors_for(content.len())) == SECTOR_SIZE + SECTOR_SIZE * sectors_for(
        content.len(),
    )) by (nonlinear_arith);
}

/// Reading the image back after the boot code gives the superblock that was built,
/// with the configured block size; reading on after the superblock gives the inode,
/// whose name field holds the payload's name and whose first extent is the payload's.
pub proof fn lemma_image_round_trip(
    boot: Seq<u8>,
    name: Seq<char>,
    content: Seq<u8>,
    directboot: bool,
    block_size: u16,
    img: Seq<u8>,
)
    requires
        mkfs_result(boot, name, content, directboot, block_size) == Ok::<Seq<u8>, MkfsError>(img),
    ensures
        decode_superblock(img.subrange(boot.len() as int, img.len() as int)) == Some(
            superblock_of(name, content.len(), directboot, block_size),
        ),
        decode_superblock(img.subrange(boot.len() as int, img.len() as int))->Some_0.block_size
            == block_size,
        ({
            let at = (boot.len() + superblock_of(name, content.len(), directboot, block_size).encoded().len()) as int;
            &&& decode_inode(img.subrange(at, img.len() as int)) == Some(
                (padded_name(encode_utf8(name)), inode_extents(content.len())),
            )
            &&& encode_utf8(name) == padded_name(encode_utf8(name)).subrange(0, encode_utf8(name).len() as int)
        }),
{
    let sb = superblock_of(name, content.len(), directboot, block_size);
    let rest = inode_of(name, content.len()) + padded_payload(content);
    assert(img.subrange(boot.len() as int, img.len() as int) =~= sb.encoded() + rest);
    lemma_superblock_round_trip(sb, rest);
    let at = (boot.len() + sb.encoded().len()) as int;
    assert(img.subrange(at, img.len() as int) =~= padded_name(encode_utf8(name)) + extents_bytes(
        inode_extents(content.len()),
    ) + padded_payload(content));
    lemma_inode_round_trip(
        padded_name(encode_utf8(name)),
        inode_extents(content.len()),
        padded_payload(content),
    );
    assert(encode_utf8(name) =~= padded_name(encode_utf8(name)).subrange(0, encode_utf8(name).len() as int));
}

/// With direct boot on and the payload named as the direct-boot target, the
/// superblock points at exactly the inode's first extent; otherwise it points nowhere.
pub proof fn lemma_directboot(name: Seq<char>, content: Seq<u8>, directboot: bool, block_size: u16)
    ensures
        is_direct_boot(name, directboot) ==> superblock_of(name, content.len(), directboot, block_size).directboot
            == Some(inode_extents(content.len())[0]),
        !is_direct_boot(name, directboot) ==> superblock_of(
            name,
            content.len(),
            directboot,
            block_size,
        ).directboot is None,
{
}

/// Building twice from the same configuration and the same bytes gives the same image.
pub proof fn lemma_build_deterministic(
    cfg1: Config,
    cfg2: Config,
    boot1: Seq<u8>,
    boot2: Seq<u8>,
    content1: Seq<u8>,
    content2: Seq<u8>,
)
    requires
        cfg1 == cfg2,
        boot1 == boot2,
        content1 == content2,
    ensures
        mkfs_outcome(cfg1, boot1, content1) == mkfs_outcome(cfg2, boot2, content2),
{
}

/// After the boot code, the superblock record and the inode, the image holds the
/// payload and then zeros to the end of its last sector.
pub proof fn lemma_data_region(boot: Seq<u8>, name: Seq<char>, content: Seq<u8>, directboot: bool, block_size: u16)
    ensures
        ({
            let img = image_of(boot, name, content, directboot, block_size);
            let at = boot.len() + SUPERBLOCK_RECORD_SIZE + SECTOR_SIZE;
            &&& img.subrange(at as int, img.len() as int) == padded_payload(content)
            &&& img.subrange(at as int, at + content.len()) == content
        }),
{
    let img = image_of(boot, name, content, directboot, block_size);
    let at = boot.len() + SUPERBLOCK_RECORD_SIZE + SECTOR_SIZE;
    lemma_inode_len(name, content.len());
    lemma_superblock_round_trip(superblock_of(name, content.len(), directboot, block_size), Seq::empty());
    lemma_data_sectors(content);
    assert(img.subrange(at as int, img.len() as int) =~= padded_payload(content));
    assert(img.subrange(at as int, at + content.len()) =~= padded_payload(content).subrange(
        0,
        content.len() as int,
    ));
}

/// A build under a configuration that succeeds lays out the image for the payload
/// named after the final component of the source path, so every fact above about
/// `image_of` holds of what it returns.
pub proof fn lemma_outcome_is_image(cfg: Config, boot: Seq<u8>, content: Seq<u8>, img: Seq<u8>)
    requires
        mkfs_outcome(cfg, boot, content) == Ok::<Seq<u8>, MkfsError>(img),
    ensures
        cfg.source matches Target::File(p) && file_name_of(p@) matches Some(n) && mkfs_result(
            boot,
            n,
            content,
            cfg.directboot,
            cfg.block_size,
        ) == Ok::<Seq<u8>, MkfsError>(img) && img == image_of(
            boot,
            n,
            content,
            cfg.directboot,
            cfg.block_size,
        ),
{
}

/// Empty boot code ends a build with `EmptyBootloader`, whatever the other targets are.
pub proof fn lemma_empty_boot_first(cfg: Config, content: Seq<u8>)
    ensures
        mkfs_outcome(cfg, Seq::empty(), content) == Err::<Seq<u8>, MkfsError>(MkfsError::EmptyBootloader),
{
}

} // verus!
