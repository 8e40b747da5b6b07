use vstd::prelude::*;

verus! {

/// Boot loader read when no other is configured.
pub const DEFAULT_BOOTLOADER: &'static str = "build/boot.bin";

/// Destination of the image when no other is configured.
pub const DEFAULT_OUTPUT: &'static str = "build/image.bin";

/// Payload embedded when no other is configured.
pub const DEFAULT_SOURCE: &'static str = "build/kernel.bin";

/// Direct-boot marking is on unless switched off.
pub const DEFAULT_DIRECTBOOT: bool = true;

/// Block size recorded in the superblock unless configured otherwise.
pub const DEFAULT_BLOCK_SIZE: u16 = 512;

/// Width in bytes of every node of the image body.
pub const SECTOR_SIZE: usize = 512;

/// File name of the entity that the loader runs without a directory walk.
pub const DIRECT_BOOT_TARGET: &'static str = "kernel.bin";

/// Where the bytes of one role of the build come from or go to.
#[derive(Debug, PartialEq)]
pub enum Target {
    /// A host file path.
    File(String),
    /// A set of sub-targets; reserved, and refused by the build.
    Dir(Vec<Target>),
    /// Bytes held in memory.
    Raw(Vec<u8>),
}

/// What a build is asked to do.
#[derive(Debug)]
pub struct Config {
    pub bootloader: Target,
    pub output: Target,
    pub source: Target,
    pub directboot: bool,
    pub block_size: u16,
}

impl Config {
    /// The configuration used when no option overrides it.
    pub fn default() -> (r: Self)
        ensures
            r.bootloader matches Target::File(p) && p@ == DEFAULT_BOOTLOADER@,
            r.output matches Target::File(p) && p@ == DEFAULT_OUTPUT@,
            r.source matches Target::File(p) && p@ == DEFAULT_SOURCE@,
            r.directboot == DEFAULT_DIRECTBOOT,
            r.block_size == DEFAULT_BLOCK_SIZE,
    {
        Config {
            bootloader: Target::File(DEFAULT_BOOTLOADER.to_owned()),
            output: Target::File(DEFAULT_OUTPUT.to_owned()),
            source: Target::File(DEFAULT_SOURCE.to_owned()),
            directboot: DEFAULT_DIRECTBOOT,
            block_size: DEFAULT_BLOCK_SIZE,
        }
    }
}

} // verus!
