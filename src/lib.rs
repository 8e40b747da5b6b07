//! ENTFS image builder: lays out a boot loader, a superblock and a single
//! embedded file (an inode followed by its data sectors) as one disk image.

pub mod config;
pub mod error;
pub mod blocks;
pub mod image;
pub mod mkfs;
pub mod lemmas;
pub mod log;
