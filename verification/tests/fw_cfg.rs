//! The firmware configuration device.
use tdx_q35::devices::fw_cfg::acpi_loader::{create_acpi_loader, AcpiTable};
use tdx_q35::devices::fw_cfg::boot::{initrd_address, make_e820, KernelFile};
use tdx_q35::devices::fw_cfg::content::{FwCfgContent, FwCfgError, FwCfgItem};
use tdx_q35::devices::fw_cfg::device::{
    DmaStep, FileRead, FwCfg, FW_CFG_FEATURE, FW_CFG_SIGNATURE_VALUE,
};
use tdx_q35::devices::fw_cfg::names::create_file_name;
use tdx_q35::devices::fw_cfg::populate::OptionRoms;
use tdx_q35::devices::fw_cfg::smbios::build_qemu_compat_smbios;
use tdx_q35::devices::fw_cfg::state::{
    FW_CFG_CMDLINE_DATA, FW_CFG_FILE_DIR, FW_CFG_FILE_FIRST, FW_CFG_ID, FW_CFG_INITRD_ADDR,
    FW_CFG_INITRD_DATA, FW_CFG_KERNEL_DATA, FW_CFG_KERNEL_SIZE, FW_CFG_SETUP_DATA,
    FW_CFG_SETUP_SIZE, FW_CFG_SIGNATURE,
};

const SELECTOR_OFFSET: u64 = 0;
const DATA_OFFSET: u64 = 1;
const DMA_OFFSET: u64 = 4;

#[test]
fn test_signature() {
    let mut fw_cfg = FwCfg::new();

    let mut data = vec![0u8];

    let mut sig_iter = FW_CFG_SIGNATURE_VALUE.into_iter();
    fw_cfg.write(SELECTOR_OFFSET, &[FW_CFG_SIGNATURE as u8, 0]);
    loop {
        if let Some(char) = sig_iter.next() {
            fw_cfg.read(DATA_OFFSET, &mut data);
            assert_eq!(data[0], char);
        } else {
            return;
        }
    }
}

#[test]
fn test_kernel_cmdline() {
    let mut fw_cfg = FwCfg::new();

    let cmdline = *b"cmdline\0";

    fw_cfg.add_kernel_cmdline(cmdline.to_vec());

    let mut data = vec![0u8];

    let mut cmdline_iter = cmdline.into_iter();
    fw_cfg.write(SELECTOR_OFFSET, &[FW_CFG_CMDLINE_DATA as u8, 0]);
    loop {
        if let Some(char) = cmdline_iter.next() {
            fw_cfg.read(DATA_OFFSET, &mut data);
            assert_eq!(data[0], char);
        } else {
            return;
        }
    }
}

#[test]
fn test_initram_fs() {
    let mut fw_cfg = FwCfg::new();

    let initram_content = b"this is the initramfs";
    let written = initram_content.len();
    assert_eq!(written, 21);
    fw_cfg.add_initramfs_data(0, written as u64, None);

    let mut data = vec![0u8];

    let mut initram_iter = (*initram_content).into_iter();
    fw_cfg.write(SELECTOR_OFFSET, &[FW_CFG_INITRD_DATA as u8, 0]);
    loop {
        if let Some(char) = initram_iter.next() {
            let FileRead { file, at } = fw_cfg.read(DATA_OFFSET, &mut data).unwrap();
            assert_eq!(file, 0);
            data[0] = initram_content[at as usize];
            fw_cfg.file_was_read(1, true);
            assert_eq!(data[0], char);
        } else {
            return;
        }
    }
}

#[test]
fn test_string_item() {
    let mut fw_cfg = FwCfg::new();

    // Simulate OVMF X-PciMmio64Mb string item for GPU CC passthrough
    let item = FwCfgItem {
        name: "opt/ovmf/X-PciMmio64Mb".to_owned(),
        content: FwCfgContent::Bytes("262144".as_bytes().to_vec()),
    };
    fw_cfg.add_item(item).unwrap();

    let expected = b"262144";
    let mut data = vec![0u8];

    // Select the first file item (FW_CFG_FILE_FIRST = 0x20)
    fw_cfg.write(SELECTOR_OFFSET, &[FW_CFG_FILE_FIRST as u8, 0]);
    for &byte in expected.iter() {
        fw_cfg.read(DATA_OFFSET, &mut data);
        assert_eq!(data[0], byte);
    }
}

#[test]
fn test_dma() {
    let code = [
        0xba, 0xf8, 0x03, 0x00, 0xd8, 0x04, b'0', 0xee, 0xb0, b'\n', 0xee, 0xf4,
    ];

    let content = FwCfgContent::Bytes(code.to_vec());

    let mem_size = 0x1000;
    let load_addr = 0x1000_u64;
    let mut mem = vec![0u8; mem_size];

    // bit 1 = read access
    let control: u32 = 0x02;
    // guest address for data
    let code_address = 0x1900_u64;
    // access address is where to put the code
    let access_address = load_addr;
    let address_bytes = access_address.to_be_bytes();
    let dma_lo: [u8; 4] = address_bytes[0..4].try_into().unwrap();
    let dma_hi: [u8; 4] = address_bytes[4..8].try_into().unwrap();

    // writing the description of the copy to memory
    mem[0..4].copy_from_slice(&control.to_be_bytes());
    mem[4..8].copy_from_slice(&(code.len() as u32).to_be_bytes());
    mem[8..16].copy_from_slice(&code_address.to_be_bytes());
    let mut fw_cfg = FwCfg::new();
    let cfg_item = FwCfgItem { name: "code".to_string(), content };
    let _ = fw_cfg.add_item(cfg_item);

    let at = (code_address - load_addr) as usize;
    assert_ne!(mem[at..at + 12], code);

    fw_cfg.write(SELECTOR_OFFSET, &[FW_CFG_FILE_FIRST as u8, 0]);
    assert_eq!(fw_cfg.write(DMA_OFFSET, &dma_lo), None);
    let descriptor = fw_cfg.write(DMA_OFFSET + 4, &dma_hi).unwrap();
    assert_eq!(descriptor, access_address);
    let begin = fw_cfg.begin_dma(&mem[0..16]);
    assert_eq!((begin.address, begin.length), (code_address, 12));
    if let DmaStep::Copy { bytes, address } = begin.step {
        let at = (address - load_addr) as usize;
        mem[at..at + bytes.len()].copy_from_slice(&bytes);
        let error = fw_cfg.end_dma(Some(bytes.len() as u32));
        mem[0..4].copy_from_slice(&FwCfg::dma_response(error));
    }
    assert_eq!(mem[at..at + 12], code);
    assert_eq!(mem[0..4], [0, 0, 0, 0]);
}

fn read_all(fw_cfg: &mut FwCfg, selector: u16, len: usize) -> Vec<u8> {
    fw_cfg.write(SELECTOR_OFFSET, &selector.to_le_bytes());
    let mut data = vec![0u8; len];
    assert_eq!(fw_cfg.read(DATA_OFFSET, &mut data), None);
    data
}

fn bytes_item(name: &str, bytes: &[u8]) -> FwCfgItem {
    FwCfgItem { name: name.to_string(), content: FwCfgContent::Bytes(bytes.to_vec()) }
}

#[test]
fn features_and_unknown_ports() {
    let mut fw_cfg = FwCfg::new();
    assert_eq!(read_all(&mut fw_cfg, FW_CFG_ID, 4), FW_CFG_FEATURE.to_vec());
    let mut data = [7u8; 2];
    fw_cfg.read(2, &mut data);
    assert_eq!(data, [7, 7]);
    fw_cfg.write(4, &[0x11, 0x22, 0x33, 0x44]);
    let mut hi = [0u8; 4];
    fw_cfg.read(4, &mut hi);
    assert_eq!(hi, [0x11, 0x22, 0x33, 0x44]);
    assert_eq!(fw_cfg.write(8, &[0x55, 0x66, 0x77, 0x88]), Some(0x1122_3344_5566_7788));
    fw_cfg.read(8, &mut hi);
    assert_eq!(hi, [0x55, 0x66, 0x77, 0x88]);
}

#[test]
fn directory_is_sorted() {
    let mut fw_cfg = FwCfg::new();
    fw_cfg.add_item(bytes_item("etc/b", &[1, 2, 3])).unwrap();
    fw_cfg.add_item(bytes_item("etc/a", &[4])).unwrap();
    fw_cfg.add_item(bytes_item("etc", &[5, 6])).unwrap();
    let dir = read_all(&mut fw_cfg, FW_CFG_FILE_DIR, 4 + 3 * 64);
    assert_eq!(dir[0..4], [0, 0, 0, 3]);
    for (i, (name, size)) in [("etc", 2u32), ("etc/a", 1), ("etc/b", 3)].iter().enumerate() {
        let entry = &dir[4 + 64 * i..4 + 64 * i + 64];
        assert_eq!(entry[0..4], size.to_be_bytes());
        assert_eq!(entry[4..6], (0x20 + i as u16).to_be_bytes());
        assert_eq!(entry[6..8], [0, 0]);
        assert_eq!(entry[8..64], create_file_name(name));
    }
    assert_eq!(fw_cfg.selector_name(0x21), "etc/a");
    assert_eq!(fw_cfg.selector_name(0x19), "file_dir");
    assert_eq!(fw_cfg.selector_name(0x8004), "hpet");
    assert_eq!(fw_cfg.selector_name(0x0006), "unknown");
    assert_eq!(read_all(&mut fw_cfg, 0x22, 3), vec![1, 2, 3]);
}

#[test]
fn names_are_not_used_twice() {
    let mut fw_cfg = FwCfg::new();
    fw_cfg.add_item(bytes_item("a", &[1])).unwrap();
    assert_eq!(fw_cfg.add_item(bytes_item("a", &[2])), Err(FwCfgError::AlreadyExists));
    assert_eq!(read_all(&mut fw_cfg, 0x20, 1), vec![1]);
}

#[test]
fn large_files_are_refused() {
    let mut fw_cfg = FwCfg::new();
    let item = FwCfgItem {
        name: "big".to_string(),
        content: FwCfgContent::File { file: 1, offset: 0, len: 0x1_0000_0000 },
    };
    assert_eq!(fw_cfg.add_item(item), Err(FwCfgError::InvalidInput));
}

#[test]
fn long_names_are_cut() {
    let name = "x".repeat(80);
    let c = create_file_name(&name);
    assert_eq!(c[54], b'x');
    assert_eq!(c[55], 0);
}

fn descriptor(control: u32, len: u32, address: u64) -> Vec<u8> {
    let mut d = control.to_be_bytes().to_vec();
    d.extend(len.to_be_bytes());
    d.extend(address.to_be_bytes());
    d
}

#[test]
fn copies_select_skip_and_continue() {
    let mut fw_cfg = FwCfg::new();
    fw_cfg.add_item(bytes_item("f", &[10, 11, 12, 13, 14])).unwrap();
    // Select file 0x20 and skip one byte.
    let b = fw_cfg.begin_dma(&descriptor(0x0020_000c, 1, 0));
    assert!(matches!(b.step, DmaStep::Finished { error: false }));
    let mut seen = Vec::new();
    for expected in [2usize, 2, 0] {
        let b = fw_cfg.begin_dma(&descriptor(0x2, 2, 0x100));
        if let DmaStep::Copy { bytes, address } = b.step {
            assert_eq!(address, 0x100);
            assert_eq!(bytes.len(), expected);
            assert!(!fw_cfg.end_dma(Some(bytes.len() as u32)));
            seen.extend(bytes);
        }
    }
    assert_eq!(seen, vec![11, 12, 13, 14]);
    // Writing, nothing at all, and a selector with nothing behind it.
    for control in [0x10u32, 0x0, 0x0500_000a] {
        let b = fw_cfg.begin_dma(&descriptor(control, 2, 0));
        assert!(matches!(b.step, DmaStep::Finished { error: true }));
    }
    assert!(fw_cfg.end_dma(None));
    assert_eq!(FwCfg::dma_response(true), vec![0, 0, 0, 1]);
    // A skip that cannot be counted is told apart.
    fw_cfg.begin_dma(&descriptor(0x4, 0xffff_ffff, 0));
    assert!(!fw_cfg.can_begin_dma(&descriptor(0x4, 1, 0)));
    assert!(fw_cfg.can_begin_dma(&descriptor(0xc, 1, 0)));
}

#[test]
fn files_are_copied_from_disk() {
    let mut fw_cfg = FwCfg::new();
    fw_cfg
        .add_item(FwCfgItem {
            name: "disk".to_string(),
            content: FwCfgContent::File { file: 7, offset: 0, len: 10 },
        })
        .unwrap();
    fw_cfg.write(SELECTOR_OFFSET, &[0x20, 0]);
    let b = fw_cfg.begin_dma(&descriptor(0x2, 100, 0x2000));
    assert!(matches!(
        b.step,
        DmaStep::CopyFile { file: 7, at: 0, len: 10, address: 0x2000 }
    ));
}

#[test]
fn reads_that_move_nothing_need_no_room() {
    let mut fw_cfg = FwCfg::new();
    let content = FwCfgContent::File { file: 7, offset: 0, len: 10 };
    fw_cfg.add_item(FwCfgItem { name: "disk".to_string(), content }).unwrap();
    fw_cfg.add_item(bytes_item("f", &[1, 2])).unwrap();
    let mut data = [9u8];
    // Select and skip: there is nothing behind the selector.
    fw_cfg.begin_dma(&descriptor(0x7000_000c, 0xffff_ffff, 0));
    assert!(fw_cfg.can_read(DATA_OFFSET, 1));
    assert_eq!(fw_cfg.read(DATA_OFFSET, &mut data), None);
    assert_eq!(data, [9]);
    // A read of a file fails there.
    fw_cfg.begin_dma(&descriptor(0x0020_000c, 0xffff_ffff, 0));
    assert!(fw_cfg.can_read(DATA_OFFSET, 1));
    let part = FileRead { file: 7, at: 0xffff_ffff };
    assert_eq!(fw_cfg.read(DATA_OFFSET, &mut data), Some(part));
    assert!(!fw_cfg.can_advance(1));
    assert!(fw_cfg.can_advance(0));
    fw_cfg.file_was_read(1, false);
    assert_eq!(fw_cfg.read(DATA_OFFSET, &mut data), Some(part));
    // Data in memory is skipped only as far as can be counted.
    fw_cfg.begin_dma(&descriptor(0x0021_000c, 0xffff_ffff, 0));
    assert!(!fw_cfg.can_read(DATA_OFFSET, 3));
}

#[test]
fn a_file_is_empty_at_first() {
    let item = FwCfgItem::default();
    assert_eq!(item.name, "");
    assert_eq!(item.content.size(), Ok(0));
}

#[test]
fn reads_over_the_end_are_told_apart() {
    let mut fw_cfg = FwCfg::new();
    fw_cfg.add_item(bytes_item("f", &[1, 2])).unwrap();
    fw_cfg.write(SELECTOR_OFFSET, &[0x20, 0]);
    assert!(fw_cfg.can_read(1, 2));
    let mut data = [0u8; 2];
    fw_cfg.read(1, &mut data);
    assert_eq!(data, [1, 2]);
    assert!(!fw_cfg.can_read(1, 1));
    // Data that is shorter than the read is skipped.
    assert!(fw_cfg.can_read(1, 3));
    let mut data = [9u8; 3];
    fw_cfg.read(1, &mut data);
    assert_eq!(data, [9, 9, 9]);
    // A number has four bytes.
    fw_cfg.write(SELECTOR_OFFSET, &[0x10, 0]);
    assert!(fw_cfg.can_read(1, 4));
    assert!(!fw_cfg.can_read(1, 5));
    // Nothing is there.
    fw_cfg.write(SELECTOR_OFFSET, &[0x00, 0x70]);
    assert_eq!(fw_cfg.read(1, &mut data), None);
    assert_eq!(data, [9, 9, 9]);
}

#[test]
fn memory_map_has_low_and_high_parts() {
    let small = make_e820(0x1000_0000);
    assert_eq!(small.len(), 40);
    assert_eq!(small[0..8], 0xfeff_c000u64.to_le_bytes());
    assert_eq!(small[8..16], 0x4000u64.to_le_bytes());
    assert_eq!(small[16..20], 2u32.to_le_bytes());
    assert_eq!(small[28..36], 0x1000_0000u64.to_le_bytes());
    assert_eq!(small[36..40], 1u32.to_le_bytes());
    let large = make_e820(0x1_8000_0000);
    assert_eq!(large.len(), 60);
    assert_eq!(large[28..36], 0xc000_0000u64.to_le_bytes());
    assert_eq!(large[40..48], 0x1_0000_0000u64.to_le_bytes());
    assert_eq!(large[48..56], 0xc000_0000u64.to_le_bytes());
}

#[test]
fn initial_file_system_ends_below_tables() {
    assert_eq!(initrd_address(None, 21), 0x1eff_f000);
    // 1 GiB: end is 0x4000_0000 - 0x2_8000 - 1.
    assert_eq!(initrd_address(Some(0x4000_0000), 0x1000), 0x3ffd_6000);
    // Memory above the hole does not count.
    assert_eq!(initrd_address(Some(0x2_0000_0000), 0x1000), 0xbffd_6000);
    // Too little memory for the tables.
    assert_eq!(initrd_address(Some(0x2_8000), 0), 0x1f00_0000);
}

fn kernel(setup_sects: u8, len: usize) -> KernelFile {
    let mut image: Vec<u8> = (0..len).map(|i| (i % 251) as u8).collect();
    if len > 0x1f1 {
        image[0x1f1] = setup_sects;
    }
    let prefix = image[0..len.min(131072)].to_vec();
    KernelFile { file: 3, len: len as u64, prefix }
}

#[test]
fn kernel_is_split_and_patched() {
    let mut fw_cfg = FwCfg::new();
    let k = kernel(15, 20000);
    fw_cfg.add_kernel_data(&k, Some((4, 512))).unwrap();
    let start = 16 * 512;
    assert_eq!(
        read_all(&mut fw_cfg, FW_CFG_SETUP_SIZE, 4),
        (start as u32).to_le_bytes().to_vec()
    );
    assert_eq!(
        read_all(&mut fw_cfg, FW_CFG_KERNEL_SIZE, 4),
        (20000 - start as u32).to_le_bytes().to_vec()
    );
    let setup = read_all(&mut fw_cfg, FW_CFG_SETUP_DATA, start);
    assert_eq!(setup[0x1f1], 15);
    assert_eq!(setup[0x210], 0xb0);
    assert_eq!(setup[0x211], k.prefix[0x211] | 0x80);
    assert_eq!(setup[0x224..0x226], 0xfe00u16.to_le_bytes());
    assert_eq!(setup[0x228..0x22c], 0x2_0000u32.to_le_bytes());
    assert_eq!(setup[0x218..0x220], k.prefix[0x218..0x220]);
    assert_eq!(setup[0x22c..start], k.prefix[0x22c..start]);
    fw_cfg.write(SELECTOR_OFFSET, &[FW_CFG_KERNEL_DATA as u8, 0]);
    let mut data = [0u8; 1];
    assert_eq!(
        fw_cfg.read(DATA_OFFSET, &mut data),
        Some(FileRead { file: 3, at: start as u64 })
    );
    // The files: bootorder, etc/boot/kernel and the option ROM.
    assert_eq!(fw_cfg.selector_name(0x20), "bootorder");
    assert_eq!(fw_cfg.selector_name(0x21), "etc/boot/kernel");
    assert_eq!(fw_cfg.selector_name(0x22), "genroms/linuxboot_dma.bin");
    assert_eq!(
        read_all(&mut fw_cfg, 0x20, 31),
        b"/rom@genroms/linuxboot_dma.bin\0".to_vec()
    );
    // The initial file system is written into the boot parameters.
    fw_cfg.add_initramfs_data(5, 0x1234, None);
    let setup = read_all(&mut fw_cfg, FW_CFG_SETUP_DATA, start);
    let addr = read_all(&mut fw_cfg, FW_CFG_INITRD_ADDR, 4);
    assert_eq!(setup[0x218..0x21c], addr[..]);
    assert_eq!(setup[0x21c..0x220], 0x1234u32.to_le_bytes());
    assert_eq!(setup[0x210], 0xb0);
}

#[test]
fn untouched_kernel_stays_untouched() {
    let mut fw_cfg = FwCfg::new_with_options(false, false);
    // No sectors means four.
    let k = kernel(0, 5000);
    fw_cfg.add_kernel_data(&k, Some((4, 512))).unwrap();
    let setup = read_all(&mut fw_cfg, FW_CFG_SETUP_DATA, 2560);
    assert_eq!(setup[..], k.prefix[0..2560]);
    assert_eq!(fw_cfg.selector_name(0x21), "unknown");
}

#[test]
fn short_kernels_are_refused() {
    let mut fw_cfg = FwCfg::new();
    assert_eq!(
        fw_cfg.add_kernel_data(&kernel(4, 4095), None),
        Err(FwCfgError::UnexpectedEof)
    );
    assert_eq!(
        fw_cfg.add_kernel_data(&kernel(15, 5000), None),
        Err(FwCfgError::UnexpectedEof)
    );
}

#[test]
fn everything_is_populated() {
    let mut fw_cfg = FwCfg::new();
    fw_cfg
        .populate_fw_cfg(
            Some(0x8000_0000),
            Some(kernel(15, 20000)),
            Some((9, 100)),
            Some(b"quiet\0".to_vec()),
            Some(vec![bytes_item("opt/x", &[1])]),
            OptionRoms { kvmvapic: None, linuxboot: None },
        )
        .unwrap();
    let names: Vec<&str> = (0x20..0x20 + 13).map(|s| fw_cfg.selector_name(s)).collect();
    assert_eq!(
        names,
        vec![
            "bios-geometry",
            "etc/boot-fail-wait",
            "etc/boot/kernel",
            "etc/e820",
            "etc/smbios/smbios-anchor",
            "etc/smbios/smbios-tables",
            "etc/smi/features-ok",
            "etc/smi/requested-features",
            "etc/smi/supported-features",
            "etc/system-states",
            "etc/tpm/log",
            "genroms/kvmvapic.bin",
            "opt/x",
        ]
    );
    assert_eq!(read_all(&mut fw_cfg, 3, 8), 0x8000_0000u64.to_le_bytes().to_vec());
    // A second time the memory map is there already.
    assert_eq!(
        fw_cfg.populate_fw_cfg(
            Some(0x8000_0000),
            None,
            None,
            None,
            None,
            OptionRoms { kvmvapic: None, linuxboot: None },
        ),
        Err(FwCfgError::AlreadyExists)
    );
}

#[test]
fn entry_point_sums_to_zero() {
    let (anchor, tables) = build_qemu_compat_smbios();
    assert_eq!(anchor.len(), 0x18);
    assert_eq!(&anchor[0..5], b"_SM3_");
    assert_eq!(anchor.iter().fold(0u8, |s, b| s.wrapping_add(*b)), 0);
    assert_eq!(tables.len(), 0x13b);
    assert_eq!(tables[0..4], [0, 0x18, 0, 0]);
    assert_eq!(&tables[0x18..0x18 + 7], b"EDK II\0");
    assert_eq!(tables[48..52], [1, 0x1b, 0, 1]);
}

#[test]
fn acpi_script_has_its_commands() {
    let files = create_acpi_loader(AcpiTable {
        rsdp: vec![0x55; 36],
        tables: vec![0xaa; 64],
        table_pointers: vec![(40, 8)],
        table_checksums: vec![(0, 36)],
    });
    let FwCfgContent::Bytes(script) = &files.table_loader.content else {
        panic!("script is in memory");
    };
    assert_eq!(script.len(), 0x1000);
    let commands: Vec<u32> = (0..8)
        .map(|i| u32::from_le_bytes(script[128 * i..128 * i + 4].try_into().unwrap()))
        .collect();
    assert_eq!(commands, vec![1, 1, 2, 3, 2, 3, 3, 0]);
    assert_eq!(&script[4..4 + 14], b"etc/acpi/rsdp\0");
    assert_eq!(script[60..64], 16u32.to_le_bytes());
    assert_eq!(script[64], 2);
    // The pointer among the tables, and the checksum of the table.
    assert_eq!(script[2 * 128 + 116..2 * 128 + 120], 40u32.to_le_bytes());
    assert_eq!(script[2 * 128 + 120], 8);
    assert_eq!(script[3 * 128 + 60..3 * 128 + 64], 9u32.to_le_bytes());
    assert_eq!(script[3 * 128 + 68..3 * 128 + 72], 36u32.to_le_bytes());
    let FwCfgContent::Bytes(tables) = &files.tables.content else {
        panic!("tables are in memory");
    };
    assert_eq!(tables.len(), 0x2_0000);
    assert_eq!(tables[9], 0);
    assert_eq!(tables[8], 0xaa);
    assert_eq!(tables[64], 0);
    let FwCfgContent::Bytes(rsdp) = &files.rsdp.content else {
        panic!("root pointer is in memory");
    };
    assert_eq!((rsdp[8], rsdp[32], rsdp[9]), (0, 0, 0x55));
}

#[test]
fn acpi_files_are_added() {
    let mut fw_cfg = FwCfg::new();
    fw_cfg
        .add_acpi(AcpiTable {
            rsdp: vec![1; 20],
            tables: vec![2; 16],
            table_pointers: vec![],
            table_checksums: vec![],
        })
        .unwrap();
    assert_eq!(fw_cfg.selector_name(0x20), "etc/acpi/rsdp");
    assert_eq!(fw_cfg.selector_name(0x21), "etc/acpi/tables");
    assert_eq!(fw_cfg.selector_name(0x22), "etc/table-loader");
}
