use entfs::blocks::{Cluster, Inode, Node, SuperBlock, NAME_CAPACITY};
use entfs::config::{Config, Target, SECTOR_SIZE};
use entfs::error::MkfsError;
use entfs::image::Image;
use entfs::log::{print, LogFull, StaticLog, STATIC_LOG_MAX_CHARACTERS};
use entfs::mkfs::{
    boot_source, check_bootloader, check_inode_size, compute_extent, file_target, make_sector,
    mkfs, mkfs_image, sector_count, BootSource, MkfsReport,
};

fn payload(len: usize) -> Vec<u8> {
    (0..len).map(|i| (i % 251 + 1) as u8).collect()
}

fn cfg_with_source(path: &str) -> Config {
    let mut cfg = Config::default();
    cfg.source = Target::File(path.to_string());
    cfg
}

#[test]
fn targets_compare_by_value() {
    assert_eq!(Target::File("a".to_string()), Target::File("a".to_string()));
    assert_ne!(Target::File("a".to_string()), Target::Raw(vec![]));
    assert_eq!(Target::Dir(vec![Target::Raw(vec![1])]), Target::Dir(vec![Target::Raw(vec![1])]));
}

#[test]
fn default_config() {
    let cfg = Config::default();
    assert!(matches!(cfg.bootloader, Target::File(ref p) if p == "build/boot.bin"));
    assert!(matches!(cfg.output, Target::File(ref p) if p == "build/image.bin"));
    assert!(matches!(cfg.source, Target::File(ref p) if p == "build/kernel.bin"));
    assert!(cfg.directboot);
    assert_eq!(cfg.block_size, 512);
}

#[test]
fn sector_counts() {
    assert_eq!(sector_count(0), 0);
    assert_eq!(sector_count(1), 1);
    assert_eq!(sector_count(511), 1);
    assert_eq!(sector_count(512), 1);
    assert_eq!(sector_count(513), 2);
    assert_eq!(sector_count(1024), 2);
}

#[test]
fn extents() {
    assert_eq!(compute_extent(0), None);
    assert_eq!(compute_extent(1), Some(Cluster { start: 2, end: 2 }));
    assert_eq!(compute_extent(1000), Some(Cluster { start: 2, end: 3 }));
    assert_eq!(compute_extent(1024), Some(Cluster { start: 2, end: 3 }));
    assert_eq!(Cluster::new(2, 5).sectors(), 4);
}

#[test]
fn largest_payload_extent() {
    let len = entfs::mkfs::MAX_PAYLOAD_LEN;
    assert_eq!(compute_extent(len), Some(Cluster { start: 2, end: 65535 }));
}

#[test]
fn sector_tail_is_zero_padded() {
    let content = payload(700);
    let first = make_sector(&content, 0);
    assert_eq!(first, content[..512].to_vec());
    let last = make_sector(&content, 1);
    assert_eq!(last.len(), SECTOR_SIZE);
    assert_eq!(&last[..188], &content[512..]);
    assert!(last[188..].iter().all(|b| *b == 0));
}

#[test]
fn superblock_bytes() {
    let mut sb = SuperBlock::new(1, 512);
    assert_eq!(sb.to_bytes(), vec![1, 0, 0, 0, 0, 2, 0, 0, 0, 0, 0]);
    sb.set_directboot(Cluster::new(2, 3));
    assert_eq!(sb.to_bytes(), vec![1, 0, 0, 0, 0, 2, 1, 2, 0, 3, 0]);
    let mut image = vec![9u8, 9];
    image.extend(sb.to_bytes());
    assert_eq!(SuperBlock::parse(&image, 2), Some(sb));
    assert_eq!(SuperBlock::parse(&image, 3), None);
    let mut bad_tag = vec![1u8, 0, 0, 0, 0, 2, 2, 0, 0, 0, 0];
    assert_eq!(SuperBlock::parse(&bad_tag, 0), None);
    bad_tag[6] = 0;
    assert_eq!(SuperBlock::parse(&bad_tag, 0), Some(SuperBlock::new(1, 512)));
}

#[test]
fn inode_record() {
    let mut inode = Inode::new();
    assert_eq!(inode.set_name("kernel.bin"), Ok(()));
    inode.set_extent(0, Cluster::new(2, 0x0103));
    let mut out = vec![];
    inode.write_into(&mut out);
    assert_eq!(out.len(), SECTOR_SIZE);
    assert_eq!(&out[..10], b"kernel.bin");
    assert!(out[10..NAME_CAPACITY].iter().all(|b| *b == 0));
    assert_eq!(&out[NAME_CAPACITY..NAME_CAPACITY + 4], &[2, 0, 3, 1]);
    assert!(out[NAME_CAPACITY + 4..].iter().all(|b| *b == 0));
    assert_eq!(check_inode_size(), Ok(()));
}

#[test]
fn inode_name_too_long() {
    let mut inode = Inode::new();
    let long = "x".repeat(NAME_CAPACITY + 1);
    assert_eq!(inode.set_name(&long), Err(MkfsError::NameTooLong));
    assert!(inode.name.iter().all(|b| *b == 0));
    let exact = "y".repeat(NAME_CAPACITY);
    assert_eq!(inode.set_name(&exact), Ok(()));
    assert!(inode.name.iter().all(|b| *b == b'y'));
}

#[test]
fn image_concatenates_in_order() {
    let sb = SuperBlock::new(1, 1024);
    let mut image = Image::new(sb, vec![0xEB, 0x3C]);
    image.nodes.push(Node::Inode(Inode::new()));
    image.nodes.push(Node::Data(vec![7u8; SECTOR_SIZE]));
    let mut out = vec![0xAA];
    image.build(&mut out);
    assert_eq!(out.len(), 1 + 2 + 11 + 2 * SECTOR_SIZE);
    assert_eq!(&out[..3], &[0xAA, 0xEB, 0x3C]);
    assert_eq!(&out[3..14], &[1, 0, 0, 0, 0, 4, 0, 0, 0, 0, 0]);
    assert!(out[14..14 + SECTOR_SIZE].iter().all(|b| *b == 0));
    assert!(out[14 + SECTOR_SIZE..].iter().all(|b| *b == 7));
    assert!(image.boot.is_empty());
    assert!(image.nodes.is_empty());
}

#[test]
fn build_with_padding_and_directboot() {
    let boot = vec![0xEB, 0x3C, 0x90];
    let content = payload(1000);
    let (img, report) = mkfs_image(boot.clone(), "kernel.bin", content.clone(), true, 512).unwrap();
    assert_eq!(img.len(), 3 + 11 + SECTOR_SIZE * 3);
    assert_eq!(report, MkfsReport { fssize: img.len(), inode_count: 1, dnode_count: 2 });
    assert_eq!(&img[..3], &boot[..]);
    let sb = SuperBlock::parse(&img, 3).unwrap();
    assert_eq!(sb.block_size, 512);
    assert_eq!(sb.directboot, Some(Cluster { start: 2, end: 3 }));
    let inode_at = 3 + 11;
    assert_eq!(&img[inode_at..inode_at + 10], b"kernel.bin");
    assert_eq!(&img[inode_at + NAME_CAPACITY..inode_at + NAME_CAPACITY + 4], &[2, 0, 3, 0]);
    let data_at = inode_at + SECTOR_SIZE;
    assert_eq!(&img[data_at..data_at + 1000], &content[..]);
    assert!(img[data_at + 1000..].iter().all(|b| *b == 0));
}

#[test]
fn exact_multiple_has_no_padding() {
    let content = payload(1024);
    let (img, report) = mkfs_image(vec![1], "kernel.bin", content.clone(), false, 512).unwrap();
    assert_eq!(report.dnode_count, 2);
    assert_eq!(img.len(), 1 + 11 + SECTOR_SIZE * 3);
    assert_eq!(&img[img.len() - 1024..], &content[..]);
}

#[test]
fn directboot_off_or_other_name() {
    let (img, _) = mkfs_image(vec![1], "kernel.bin", payload(10), false, 512).unwrap();
    assert_eq!(img.len(), 1 + 11 + SECTOR_SIZE * 2);
    assert_eq!(SuperBlock::parse(&img, 1).unwrap().directboot, None);
    let (img, _) = mkfs_image(vec![1], "other.bin", payload(10), true, 512).unwrap();
    assert_eq!(SuperBlock::parse(&img, 1).unwrap().directboot, None);
}

#[test]
fn empty_payload() {
    let (img, report) = mkfs_image(vec![1], "kernel.bin", vec![], true, 512).unwrap();
    assert_eq!(report.dnode_count, 0);
    assert_eq!(img.len(), 1 + 11 + SECTOR_SIZE);
    let inode = Inode::parse(&img, 1 + 11).unwrap();
    assert_eq!(inode.dat[0], Cluster { start: 0, end: 0 });
    assert_eq!(SuperBlock::parse(&img, 1).unwrap().directboot, Some(inode.dat[0]));
    let (img, _) = mkfs_image(vec![1], "kernel.bin", vec![], false, 512).unwrap();
    assert_eq!(img.len(), 1 + 11 + SECTOR_SIZE);
    assert_eq!(SuperBlock::parse(&img, 1).unwrap().directboot, None);
}

#[test]
fn build_is_repeatable() {
    let cfg = cfg_with_source("build/kernel.bin");
    let a = mkfs(&cfg, vec![1, 2, 3], payload(777)).unwrap();
    let b = mkfs(&cfg, vec![1, 2, 3], payload(777)).unwrap();
    assert_eq!(a, b);
}

#[test]
fn empty_bootloader_refused() {
    assert_eq!(check_bootloader(&vec![]), Err(MkfsError::EmptyBootloader));
    assert_eq!(check_bootloader(&vec![0]), Ok(()));
    assert_eq!(
        mkfs_image(vec![], "kernel.bin", payload(4), true, 512),
        Err(MkfsError::EmptyBootloader)
    );
    let mut cfg = Config::default();
    cfg.source = Target::Dir(vec![]);
    assert_eq!(mkfs(&cfg, vec![], payload(4)), Err(MkfsError::EmptyBootloader));
}

#[test]
fn name_from_source_path() {
    let cfg = cfg_with_source("build/kernel.bin");
    let (img, _) = mkfs(&cfg, vec![5], payload(600)).unwrap();
    let sb = SuperBlock::parse(&img, 1).unwrap();
    assert_eq!(sb.directboot, Some(Cluster { start: 2, end: 3 }));
    assert_eq!(&img[12..22], b"kernel.bin");
    assert_eq!(img[22], 0);
}

#[test]
fn source_without_file_name() {
    let cfg = cfg_with_source("build/..");
    assert_eq!(mkfs(&cfg, vec![5], payload(6)), Err(MkfsError::BadConfig));
}

#[test]
fn name_too_long_through_build() {
    let long = "n".repeat(NAME_CAPACITY + 1);
    let cfg = cfg_with_source(&format!("dir/{}", long));
    assert_eq!(mkfs(&cfg, vec![5], payload(6)), Err(MkfsError::NameTooLong));
}

#[test]
fn bad_targets() {
    let mut cfg = Config::default();
    cfg.source = Target::Raw(vec![1]);
    assert_eq!(mkfs(&cfg, vec![5], payload(6)), Err(MkfsError::BadConfig));
    let mut cfg = Config::default();
    cfg.output = Target::Dir(vec![]);
    assert_eq!(mkfs(&cfg, vec![5], payload(6)), Err(MkfsError::BadConfig));
    assert_eq!(file_target(&Target::Raw(vec![])), Err(MkfsError::BadConfig));
    assert_eq!(file_target(&Target::File("a/b".to_string())), Ok("a/b".to_string()));
    assert!(matches!(boot_source(Target::Dir(vec![])), Err(MkfsError::BadConfig)));
    assert!(matches!(boot_source(Target::Raw(vec![3])), Ok(BootSource::Bytes(ref b)) if b == &vec![3]));
    assert!(matches!(boot_source(Target::File("b".to_string())), Ok(BootSource::Path(ref p)) if p == "b"));
}

#[test]
fn log_takes_text_until_full() {
    let mut log = StaticLog::new();
    assert_eq!(log.write_str("hello "), Ok(()));
    assert_eq!(print(&mut log, "world"), Ok(()));
    assert_eq!(log.contents(), b"hello world".to_vec());
    let big = "z".repeat(STATIC_LOG_MAX_CHARACTERS - 11);
    assert_eq!(print(&mut log, &big), Ok(()));
    assert_eq!(log.contents().len(), STATIC_LOG_MAX_CHARACTERS);
    assert_eq!(print(&mut log, "!"), Err(LogFull));
    assert_eq!(log.contents().len(), STATIC_LOG_MAX_CHARACTERS);
}

#[test]
fn log_refuses_oversized_write() {
    let mut log = StaticLog::new();
    let big = "q".repeat(STATIC_LOG_MAX_CHARACTERS + 1);
    assert_eq!(log.write_str(&big), Err(LogFull));
    assert!(log.contents().is_empty());
}

#[test]
fn image_reads_back() {
    let (img, _) = mkfs_image(vec![0xEB, 0x3C], "kernel.bin", payload(1500), true, 4096).unwrap();
    let sb = SuperBlock::parse(&img, 2).unwrap();
    assert_eq!(sb.version, 1);
    assert_eq!(sb.block_size, 4096);
    let inode = Inode::parse(&img, 2 + 11).unwrap();
    assert_eq!(&inode.name[..10], b"kernel.bin");
    assert!(inode.name[10..].iter().all(|b| *b == 0));
    assert_eq!(inode.dat[0], Cluster { start: 2, end: 4 });
    assert_eq!(sb.directboot, Some(inode.dat[0]));
    assert!(inode.dat[1..].iter().all(|c| *c == Cluster { start: 0, end: 0 }));
    assert!(Inode::parse(&img, img.len() - 100).is_none());
}
