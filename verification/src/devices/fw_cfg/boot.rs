//! What firmware is told about memory, the kernel and the initial file system.
use crate::arch::layout::{MEM_32BIT_DEVICES_START, RAM_64BIT_START};
use crate::bytes::{push_bytes, push_u32_le, push_u64_le};
use crate::devices::fw_cfg::content::FwCfgError;
use linux_loader::bootparam::boot_params;
use vm_memory::ByteValued;
use vstd::prelude::*;

verus! {

pub const E820_RAM: u32 = 1;

pub const E820_RESERVED: u32 = 2;

/// Pages that the hypervisor keeps for itself.
pub const KVM_IDENTITY_MAP_START: u64 = 0xfeff_c000;

pub const KVM_IDENTITY_MAP_SIZE: u64 = 0x4000;

/// Where the real-mode part of the kernel goes.
pub const FW_CFG_SETUP_LOAD_ADDR: u32 = 0x0001_0000;

/// Where the command line goes.
pub const FW_CFG_CMDLINE_LOAD_ADDR: u32 = 0x0002_0000;

/// Where the protected-mode part of the kernel goes.
pub const FW_CFG_KERNEL_LOAD_ADDR: u32 = 0x0010_0000;

/// End of the initial file system where the size of memory is not known.
pub const FW_CFG_INITRD_LOAD_END_FALLBACK: u32 = 0x1f00_0000;

/// Memory below the end of low memory that firmware fills with tables.
pub const Q35_ACPI_DATA_RESERVED_SIZE: u64 = 0x2_8000;

/// Size of the kernel's boot parameters.
pub const BOOT_PARAMS_SIZE: usize = 4096;

/// The longest real-mode part that a kernel can have.
pub const MAX_SETUP_SIZE: usize = 131072;

/// One range of the memory map.
pub open spec fn e820_entry(addr: u64, size: u64, type_: u32) -> Seq<u8> {
    crate::bytes::u64_le(addr) + crate::bytes::u64_le(size) + crate::bytes::u32_le(type_)
}

/// Size of the memory below the hole for devices.
pub open spec fn low_memory(mem_size: int) -> int {
    if mem_size < 0xc000_0000 {
        mem_size
    } else {
        0xc000_0000
    }
}

/// The memory map: the pages of the hypervisor first, then low memory as one
/// range, then what is above 4 GiB.
pub open spec fn e820_map(mem_size: int) -> Seq<u8> {
    let low = e820_entry(0xfeff_c000, 0x4000, E820_RESERVED) + e820_entry(
        0,
        low_memory(mem_size) as u64,
        E820_RAM,
    );
    if mem_size >= 0xc000_0000 {
        low + e820_entry(0x1_0000_0000, (mem_size - 0xc000_0000) as u64, E820_RAM)
    } else {
        low
    }
}

fn push_e820_entry(v: &mut Vec<u8>, addr: u64, size: u64, type_: u32)
    ensures
        final(v)@ == old(v)@ + e820_entry(addr, size, type_),
{
    push_u64_le(v, addr);
    push_u64_le(v, size);
    push_u32_le(v, type_);
    assert(v@ =~= old(v)@ + e820_entry(addr, size, type_));
}

/// Makes the memory map.
pub fn make_e820(mem_size: usize) -> (r: Vec<u8>)
    ensures
        r@ == e820_map(mem_size as int),
{
    let size: u64 = mem_size as u64;
    let mut r: Vec<u8> = Vec::new();
    push_e820_entry(&mut r, KVM_IDENTITY_MAP_START, KVM_IDENTITY_MAP_SIZE, E820_RESERVED);
    let below_4g: u64 = if size < MEM_32BIT_DEVICES_START {
        size
    } else {
        MEM_32BIT_DEVICES_START
    };
    push_e820_entry(&mut r, 0, below_4g, E820_RAM);
    assert(r@ =~= e820_entry(0xfeff_c000, 0x4000, E820_RESERVED) + e820_entry(
        0,
        low_memory(mem_size as int) as u64,
        E820_RAM,
    ));
    if size >= MEM_32BIT_DEVICES_START {
        push_e820_entry(&mut r, RAM_64BIT_START, size - MEM_32BIT_DEVICES_START, E820_RAM);
    }
    r
}

/// The memory map holds all memory, in ranges that do not meet: low memory ends
/// before the pages of the hypervisor, and those end before high memory.
pub proof fn memory_map_is_complete(mem_size: int)
    requires
        0 <= mem_size <= u64::MAX,
    ensures
        low_memory(mem_size) + (if mem_size >= 0xc000_0000 {
            mem_size - 0xc000_0000
        } else {
            0
        }) == mem_size,
        low_memory(mem_size) <= KVM_IDENTITY_MAP_START,
        KVM_IDENTITY_MAP_START + KVM_IDENTITY_MAP_SIZE <= RAM_64BIT_START,
        e820_map(mem_size).len() == if mem_size >= 0xc000_0000 {
            60
        } else {
            40int
        },
{
}

/// The fields of the kernel's boot parameters that a loader reads and sets.
#[derive(Clone, Copy, Debug, PartialEq, Eq, Structural)]
pub struct SetupHeader {
    /// Size of the real-mode part, in sectors after the first.
    pub setup_sects: u8,
    pub type_of_loader: u8,
    pub loadflags: u8,
    pub ramdisk_image: u32,
    pub ramdisk_size: u32,
    pub heap_end_ptr: u16,
    pub cmd_line_ptr: u32,
}

/// The fields in boot parameters.
pub open spec fn header_of(b: Seq<u8>) -> SetupHeader {
    SetupHeader {
        setup_sects: b[0x1f1],
        type_of_loader: b[0x210],
        loadflags: b[0x211],
        ramdisk_image: crate::bytes::le32(b, 0x218),
        ramdisk_size: crate::bytes::le32(b, 0x21c),
        heap_end_ptr: crate::bytes::le16(b, 0x224),
        cmd_line_ptr: crate::bytes::le32(b, 0x228),
    }
}

/// Boot parameters with the fields set.
pub open spec fn with_header(b: Seq<u8>, h: SetupHeader) -> Seq<u8> {
    let b = b.update(0x1f1, h.setup_sects).update(0x210, h.type_of_loader).update(
        0x211,
        h.loadflags,
    );
    let b = crate::bytes::spliced(b, 0x218, crate::bytes::u32_le(h.ramdisk_image));
    let b = crate::bytes::spliced(b, 0x21c, crate::bytes::u32_le(h.ramdisk_size));
    let b = crate::bytes::spliced(b, 0x224, crate::bytes::u16_le(h.heap_end_ptr));
    crate::bytes::spliced(b, 0x228, crate::bytes::u32_le(h.cmd_line_ptr))
}

/// Reads fields of boot parameters: `ByteValued::from_slice` of vm-memory on
/// linux-loader's `boot_params`, which is 4096 bytes without padding or
/// alignment. Its `hdr` starts at 0x1f1, and numbers are little-endian on the
/// machines that have it.
#[verifier::external_body]
fn read_setup_header(buffer: &[u8]) -> (r: SetupHeader)
    requires
        buffer@.len() == 4096,
    ensures
        r == header_of(buffer@),
{
    let hdr = boot_params::from_slice(buffer).unwrap().hdr;
    SetupHeader {
        setup_sects: hdr.setup_sects,
        type_of_loader: hdr.type_of_loader,
        loadflags: hdr.loadflags,
        ramdisk_image: hdr.ramdisk_image,
        ramdisk_size: hdr.ramdisk_size,
        heap_end_ptr: hdr.heap_end_ptr,
        cmd_line_ptr: hdr.cmd_line_ptr,
    }
}

/// Sets fields of boot parameters: `ByteValued::from_mut_slice` of vm-memory on
/// linux-loader's `boot_params`. All other bytes stay.
#[verifier::external_body]
fn write_setup_header(buffer: &mut [u8], h: &SetupHeader)
    requires
        old(buffer)@.len() == 4096,
    ensures
        final(buffer)@ == with_header(old(buffer)@, *h),
{
    let bp = boot_params::from_mut_slice(buffer).unwrap();
    bp.hdr.setup_sects = h.setup_sects;
    bp.hdr.type_of_loader = h.type_of_loader;
    bp.hdr.loadflags = h.loadflags;
    bp.hdr.ramdisk_image = h.ramdisk_image;
    bp.hdr.ramdisk_size = h.ramdisk_size;
    bp.hdr.heap_end_ptr = h.heap_end_ptr;
    bp.hdr.cmd_line_ptr = h.cmd_line_ptr;
}

/// Fields to set in boot parameters that were handed out before.
#[derive(Clone, Copy, Debug, PartialEq, Eq, Structural)]
pub enum SetupUpdate {
    CommandLine(u32),
    Ramdisk { image: u32, size: u32 },
}

/// The fields after an update.
pub open spec fn updated(h: SetupHeader, update: SetupUpdate) -> SetupHeader {
    match update {
        SetupUpdate::CommandLine(ptr) => SetupHeader { cmd_line_ptr: ptr, ..h },
        SetupUpdate::Ramdisk { image, size } => SetupHeader {
            ramdisk_image: image,
            ramdisk_size: size,
            ..h
        },
    }
}

/// The real-mode part after an update of its boot parameters. One that is too
/// short to hold them stays as it is.
pub open spec fn setup_updated(b: Seq<u8>, update: SetupUpdate) -> Seq<u8> {
    if b.len() >= 4096 {
        let head = b.take(4096);
        with_header(head, updated(header_of(head), update)) + b.skip(4096)
    } else {
        b
    }
}

/// Updates the boot parameters in a real-mode part.
pub fn update_setup_data(buffer: &[u8], update: SetupUpdate) -> (r: Vec<u8>)
    ensures
        r@ == setup_updated(buffer@, update),
{
    let mut r: Vec<u8> = Vec::new();
    let n: usize = buffer.len();
    if n < BOOT_PARAMS_SIZE {
        push_bytes(&mut r, buffer);
        assert(r@ =~= buffer@);
        return r;
    }
    let mut head: Vec<u8> = Vec::new();
    copy_range(&mut head, buffer, 0, BOOT_PARAMS_SIZE);
    assert(head@ =~= buffer@.take(4096));
    let h: SetupHeader = read_setup_header(head.as_slice());
    let h: SetupHeader = match update {
        SetupUpdate::CommandLine(ptr) => SetupHeader { cmd_line_ptr: ptr, ..h },
        SetupUpdate::Ramdisk { image, size } => SetupHeader {
            ramdisk_image: image,
            ramdisk_size: size,
            ..h
        },
    };
    write_setup_header(head.as_mut_slice(), &h);
    r.append(&mut head);
    copy_range(&mut r, buffer, BOOT_PARAMS_SIZE, n);
    assert(buffer@.subrange(4096, n as int) =~= buffer@.skip(4096));
    r
}

fn copy_range(v: &mut Vec<u8>, s: &[u8], from: usize, to: usize)
    requires
        from <= to <= s@.len(),
    ensures
        final(v)@ == old(v)@ + s@.subrange(from as int, to as int),
{
    let mut i: usize = from;
    while i < to
        invariant
            from <= i <= to <= s@.len(),
            v@ =~= old(v)@ + s@.subrange(from as int, i as int),
        decreases to - i,
    {
        v.push(s[i]);
        i = i + 1;
    }
}

/// An open kernel image: its number, its length and its first bytes, as many
/// as a real-mode part can have.
pub struct KernelFile {
    pub file: u64,
    pub len: u64,
    pub prefix: Vec<u8>,
}

/// Number of sectors of a real-mode part after the first; none means four.
pub open spec fn setup_sectors(prefix: Seq<u8>) -> int {
    if prefix[0x1f1] == 0 {
        4
    } else {
        prefix[0x1f1] as int
    }
}

/// Where the protected-mode part of a kernel image starts.
pub open spec fn kernel_start(prefix: Seq<u8>) -> int {
    (setup_sectors(prefix) + 1) * 512
}

impl KernelFile {
    /// The prefix is that of a file of the length. What follows the real-mode
    /// part can be counted in 32 bits.
    pub open spec fn wf(&self) -> bool {
        &&& self.len <= 0x7fff_ffff_ffff_ffff
        &&& self.prefix@.len() == if self.len < MAX_SETUP_SIZE {
            self.len as int
        } else {
            MAX_SETUP_SIZE as int
        }
        &&& self.has_setup() ==> self.len as int % 0x1_0000_0000 >= kernel_start(self.prefix@)
    }

    /// Whether the image holds boot parameters and the whole real-mode part.
    pub open spec fn has_setup(&self) -> bool {
        &&& self.prefix@.len() >= 4096
        &&& self.prefix@.len() >= kernel_start(self.prefix@)
    }

    /// Tells whether the prefix is that of a file of the length, and what
    /// follows the real-mode part can be counted in 32 bits.
    pub fn is_valid(&self) -> (r: bool)
        ensures
            r == self.wf(),
    {
        let n: usize = self.prefix.len();
        if self.len > 0x7fff_ffff_ffff_ffff {
            return false;
        }
        let whole: bool = if self.len < MAX_SETUP_SIZE as u64 {
            n as u64 == self.len
        } else {
            n == MAX_SETUP_SIZE
        };
        if !whole {
            return false;
        }
        if n < BOOT_PARAMS_SIZE {
            return true;
        }
        let sects: u64 = if self.prefix[0x1f1] == 0 {
            4
        } else {
            self.prefix[0x1f1] as u64
        };
        let start: u64 = (sects + 1) * 512;
        (n as u64) < start || self.len % 0x1_0000_0000 >= start
    }
}

/// The fields as a loader sets them.
pub open spec fn loader_header(h: SetupHeader) -> SetupHeader {
    SetupHeader {
        setup_sects: if h.setup_sects == 0 {
            4
        } else {
            h.setup_sects
        },
        type_of_loader: 0xb0,
        loadflags: h.loadflags | 0x80,
        heap_end_ptr: 0xfe00,
        cmd_line_ptr: FW_CFG_CMDLINE_LOAD_ADDR,
        ramdisk_image: h.ramdisk_image,
        ramdisk_size: h.ramdisk_size,
    }
}

/// The boot parameters that firmware gets.
pub open spec fn setup_head(prefix: Seq<u8>, patch: bool) -> Seq<u8> {
    let head = prefix.take(4096);
    if patch {
        with_header(head, loader_header(header_of(head)))
    } else {
        head
    }
}

/// The real-mode part that firmware gets.
pub open spec fn setup_data(prefix: Seq<u8>, patch: bool) -> Seq<u8> {
    let head = setup_head(prefix, patch);
    let start = kernel_start(prefix);
    if start <= 4096 {
        head.take(start)
    } else {
        head + prefix.subrange(4096, start)
    }
}

/// Takes the real-mode part out of a kernel image, with the loader's fields set
/// if asked. Returns it and where the rest starts.
pub fn load_setup(kernel: &KernelFile, patch: bool) -> (r: Result<(Vec<u8>, u32), FwCfgError>)
    requires
        kernel.wf(),
    ensures
        if kernel.has_setup() {
            &&& r is Ok
            &&& r->Ok_0.0@ == setup_data(kernel.prefix@, patch)
            &&& r->Ok_0.1 == kernel_start(kernel.prefix@)
        } else {
            r == Err::<(Vec<u8>, u32), FwCfgError>(FwCfgError::UnexpectedEof)
        },
{
    if kernel.prefix.len() < BOOT_PARAMS_SIZE {
        return Err(FwCfgError::UnexpectedEof);
    }
    let mut buffer: Vec<u8> = Vec::new();
    copy_range(&mut buffer, kernel.prefix.as_slice(), 0, BOOT_PARAMS_SIZE);
    assert(buffer@ =~= kernel.prefix@.take(4096));
    let h: SetupHeader = read_setup_header(buffer.as_slice());
    let setup_sects: u8 = if h.setup_sects == 0 {
        4
    } else {
        h.setup_sects
    };
    if patch {
        let h: SetupHeader = SetupHeader {
            setup_sects,
            type_of_loader: 0xb0,
            loadflags: h.loadflags | 0x80,
            heap_end_ptr: (FW_CFG_CMDLINE_LOAD_ADDR - FW_CFG_SETUP_LOAD_ADDR - 0x200) as u16,
            cmd_line_ptr: FW_CFG_CMDLINE_LOAD_ADDR,
            ramdisk_image: h.ramdisk_image,
            ramdisk_size: h.ramdisk_size,
        };
        write_setup_header(buffer.as_mut_slice(), &h);
    }
    let kernel_start: usize = (setup_sects as usize + 1) * 512;
    if kernel_start <= BOOT_PARAMS_SIZE {
        buffer.truncate(kernel_start);
    } else {
        if kernel.prefix.len() < kernel_start {
            return Err(FwCfgError::UnexpectedEof);
        }
        copy_range(&mut buffer, kernel.prefix.as_slice(), BOOT_PARAMS_SIZE, kernel_start);
    }
    assert(buffer@ =~= setup_data(kernel.prefix@, patch));
    Ok((buffer, kernel_start as u32))
}

/// Where the initial file system has to end: below the tables at the end of low
/// memory.
pub open spec fn initrd_end(mem_size: Option<usize>) -> int {
    match mem_size {
        Some(size) => {
            let low = low_memory(size as int);
            if low > Q35_ACPI_DATA_RESERVED_SIZE {
                low - Q35_ACPI_DATA_RESERVED_SIZE - 1
            } else {
                FW_CFG_INITRD_LOAD_END_FALLBACK as int
            }
        },
        None => FW_CFG_INITRD_LOAD_END_FALLBACK as int,
    }
}

/// Where the initial file system starts: on the last page at which it fits.
pub open spec fn initrd_start(mem_size: Option<usize>, size: u32) -> int {
    (initrd_end(mem_size) - size) / 4096 * 4096
}

/// Tells whether an initial file system, of which the low 32 bits of the length
/// count, fits below where it has to end.
pub fn initrd_has_room(mem_size: Option<usize>, len: u64) -> (r: bool)
    ensures
        r == (len as int % 0x1_0000_0000 <= initrd_end(mem_size)),
{
    let end: u64 = match mem_size {
        Some(size) => {
            let low: u64 = if (size as u64) < 0xc000_0000 {
                size as u64
            } else {
                0xc000_0000
            };
            if low > Q35_ACPI_DATA_RESERVED_SIZE {
                low - Q35_ACPI_DATA_RESERVED_SIZE - 1
            } else {
                FW_CFG_INITRD_LOAD_END_FALLBACK as u64
            }
        },
        None => FW_CFG_INITRD_LOAD_END_FALLBACK as u64,
    };
    len % 0x1_0000_0000 <= end
}

/// Computes where the initial file system goes.
pub fn initrd_address(mem_size: Option<usize>, size: u32) -> (r: u32)
    requires
        size <= initrd_end(mem_size),
    ensures
        r == initrd_start(mem_size, size),
{
    let end: u32 = match mem_size {
        Some(mem_size) => {
            let mem_size: u64 = mem_size as u64;
            let below_4g: u64 = if mem_size < MEM_32BIT_DEVICES_START {
                mem_size
            } else {
                MEM_32BIT_DEVICES_START
            };
            if below_4g > Q35_ACPI_DATA_RESERVED_SIZE {
                (below_4g - Q35_ACPI_DATA_RESERVED_SIZE - 1) as u32
            } else {
                FW_CFG_INITRD_LOAD_END_FALLBACK
            }
        },
        None => FW_CFG_INITRD_LOAD_END_FALLBACK,
    };
    let x: u32 = end - size;
    assert(x & !0xfffu32 == x / 4096 * 4096) by (bit_vector);
    x & !0xfff
}

/// The initial file system is on a page boundary and leaves the memory for
/// tables alone.
pub proof fn initrd_fits(mem_size: usize, size: u32)
    requires
        low_memory(mem_size as int) > Q35_ACPI_DATA_RESERVED_SIZE,
        size <= initrd_end(Some(mem_size)),
    ensures
        initrd_start(Some(mem_size), size) >= 0,
        initrd_start(Some(mem_size), size) % 4096 == 0,
        initrd_start(Some(mem_size), size) + size + Q35_ACPI_DATA_RESERVED_SIZE < low_memory(
            mem_size as int,
        ),
{
}

/// What a loader sets is what it reads back, and nothing else changes.
pub proof fn header_reads_back(b: Seq<u8>, h: SetupHeader)
    requires
        b.len() == 4096,
    ensures
        header_of(with_header(b, h)) == h,
        with_header(b, h).len() == b.len(),
        forall|i: int|
            0 <= i < 0x1f1 || 0x1f1 < i < 0x210 || 0x211 < i < 0x218 || 0x220 <= i < 0x224 || 0x226
                <= i < 0x228 || 0x22c <= i < 4096 ==> with_header(b, h)[i] == b[i],
{
    crate::bytes::round_trips(h.heap_end_ptr, h.ramdisk_image, 0);
    crate::bytes::round_trips(0, h.ramdisk_size, 0);
    crate::bytes::round_trips(0, h.cmd_line_ptr, 0);
    let r = with_header(b, h);
    assert(r.subrange(0x218, 0x21c) =~= crate::bytes::u32_le(h.ramdisk_image));
    assert(r.subrange(0x21c, 0x220) =~= crate::bytes::u32_le(h.ramdisk_size));
    assert(r.subrange(0x224, 0x226) =~= crate::bytes::u16_le(h.heap_end_ptr));
    assert(r.subrange(0x228, 0x22c) =~= crate::bytes::u32_le(h.cmd_line_ptr));
}

/// Whether a memory map says of an address that it is of a kind. A map is a list
/// of entries of 20 bytes: first address, length and kind.
pub open spec fn map_says(map: Seq<u8>, x: int, kind: u32) -> bool {
    exists|i: int|
        0 <= i < map.len() / 20 && #[trigger] entry_says(map.subrange(20 * i, 20 * i + 20), x, kind)
}

/// Whether an entry of a memory map says of an address that it is of a kind.
pub open spec fn entry_says(entry: Seq<u8>, x: int, kind: u32) -> bool {
    let start = crate::bytes::le64(entry, 0);
    &&& crate::bytes::le32(entry, 16) == kind
    &&& start <= x < start + crate::bytes::le64(entry, 8)
}

proof fn lemma_entry(addr: u64, size: u64, kind: u32, x: int, asked: u32)
    ensures
        e820_entry(addr, size, kind).len() == 20,
        entry_says(e820_entry(addr, size, kind), x, asked) <==> kind == asked && addr <= x < addr
            + size,
{
    let e = e820_entry(addr, size, kind);
    crate::bytes::round_trips(0, kind, addr);
    crate::bytes::round_trips(0, 0, size);
    let a = crate::bytes::u64_le(addr);
    let b = crate::bytes::u64_le(size);
    let c = crate::bytes::u32_le(kind);
    assert(crate::bytes::le32(e, 0) == crate::bytes::le32(a, 0));
    assert(crate::bytes::le32(e, 4) == crate::bytes::le32(a, 4));
    assert(crate::bytes::le32(e, 8) == crate::bytes::le32(b, 0));
    assert(crate::bytes::le32(e, 12) == crate::bytes::le32(b, 4));
    assert(crate::bytes::le32(e, 16) == crate::bytes::le32(c, 0));
}

/// The guest finds exactly its memory in the memory map: the first 3 GiB of it
/// from address zero on, the rest from 4 GiB on. Reserved are exactly the pages
/// of the hypervisor.
pub proof fn memory_map_tells_where_memory_is(mem_size: u64, x: int)
    requires
        mem_size <= 0x7fff_ffff_ffff_ffff,
    ensures
        e820_map(mem_size as int).len() % 20 == 0,
        map_says(e820_map(mem_size as int), x, 1) <==> {
            ||| 0 <= x < mem_size && x < 0xc000_0000
            ||| 0x1_0000_0000 <= x && x - 0x1_0000_0000 < mem_size - 0xc000_0000
        },
        map_says(e820_map(mem_size as int), x, 2) <==> 0xfeff_c000 <= x < 0xff00_0000,
{
    let map = e820_map(mem_size as int);
    let low = low_memory(mem_size as int) as u64;
    let high = (mem_size - 0xc000_0000) as u64;
    let a = e820_entry(0xfeff_c000, 0x4000, E820_RESERVED);
    let b = e820_entry(0, low, E820_RAM);
    let c = e820_entry(0x1_0000_0000, high, E820_RAM);
    lemma_entry(0xfeff_c000, 0x4000, E820_RESERVED, x, 1);
    lemma_entry(0xfeff_c000, 0x4000, E820_RESERVED, x, 2);
    lemma_entry(0, low, E820_RAM, x, 1);
    lemma_entry(0, low, E820_RAM, x, 2);
    lemma_entry(0x1_0000_0000, high, E820_RAM, x, 1);
    lemma_entry(0x1_0000_0000, high, E820_RAM, x, 2);
    assert(map.subrange(0, 20) =~= a);
    assert(map.subrange(20, 40) =~= b);
    if mem_size >= 0xc000_0000 {
        assert(map.subrange(40, 60) =~= c);
    }
    assert forall|i: int, kind: u32|
        0 <= i < map.len() / 20 && #[trigger] entry_says(
            map.subrange(20 * i, 20 * i + 20),
            x,
            kind,
        ) implies (i == 0 && entry_says(a, x, kind)) || (i == 1 && entry_says(b, x, kind)) || (i == 2
        && entry_says(c, x, kind) && mem_size >= 0xc000_0000) by {
        assert(i == 0 || i == 1 || i == 2);
    }
    if entry_says(a, x, 2) {
        assert(entry_says(map.subrange(20int * 0, 20int * 0 + 20), x, 2));
    }
    if entry_says(b, x, 1) {
        assert(entry_says(map.subrange(20int * 1, 20int * 1 + 20), x, 1));
    }
    if mem_size >= 0xc000_0000 && entry_says(c, x, 1) {
        assert(entry_says(map.subrange(20int * 2, 20int * 2 + 20), x, 1));
    }
}

/// The real-mode part is the beginning of the image, up to where the rest
/// starts: one sector and as many more as byte 0x1f1 says, four if it says none.
/// Where the loader's fields are asked for, those are all that differs, and they
/// say: an unknown loader, that the heap may be used and ends at 0xfe00, and a
/// command line at 0x2_0000.
pub proof fn real_mode_part_is_the_beginning(kernel: KernelFile)
    requires
        kernel.has_setup(),
    ensures
        ({
            let image = kernel.prefix@;
            let start = kernel_start(image);
            let plain = setup_data(image, false);
            let patched = setup_data(image, true);
            let h = header_of(patched);
            &&& start == 512 * (1 + (if image[0x1f1] == 0 {
                4
            } else {
                image[0x1f1] as int
            }))
            &&& plain == image.take(start)
            &&& patched.len() == start
            &&& forall|i: int|
                0 <= i < start && i != 0x1f1 && i != 0x210 && i != 0x211 && !(0x218 <= i < 0x220)
                    && !(0x224 <= i < 0x226) && !(0x228 <= i < 0x22c) ==> #[trigger] patched[i]
                    == image[i]
            &&& 512 * (1 + h.setup_sects) == start
            &&& h.type_of_loader == 0xb0
            &&& h.loadflags == header_of(image).loadflags | 0x80
            &&& h.heap_end_ptr == 0xfe00
            &&& h.cmd_line_ptr == 0x2_0000
            &&& h.ramdisk_image == header_of(image).ramdisk_image
            &&& h.ramdisk_size == header_of(image).ramdisk_size
        }),
{
    let image = kernel.prefix@;
    let start = kernel_start(image);
    let head = image.take(4096);
    header_reads_back(head, loader_header(header_of(head)));
    let set = with_header(head, loader_header(header_of(head)));
    let patched = setup_data(image, true);
    assert(setup_data(image, false) =~= image.take(start));
    assert forall|i: int| 0 <= i < start && i < 4096 implies #[trigger] patched[i] == set[i] by {}
    assert(header_of(patched) == header_of(set)) by {
        assert(patched[0x1f1] == set[0x1f1] && patched[0x210] == set[0x210] && patched[0x211]
            == set[0x211]);
        assert(patched[0x218] == set[0x218] && patched[0x219] == set[0x219] && patched[0x21a]
            == set[0x21a] && patched[0x21b] == set[0x21b]);
        assert(patched[0x21c] == set[0x21c] && patched[0x21d] == set[0x21d] && patched[0x21e]
            == set[0x21e] && patched[0x21f] == set[0x21f]);
        assert(patched[0x224] == set[0x224] && patched[0x225] == set[0x225]);
        assert(patched[0x228] == set[0x228] && patched[0x229] == set[0x229] && patched[0x22a]
            == set[0x22a] && patched[0x22b] == set[0x22b]);
    }
}

/// The initial file system starts on a page, and is as close below its end as
/// that allows. The end is below the last 160 KiB of the memory under 3 GiB, or
/// at a fixed place if there is less memory or none is known.
pub proof fn file_system_fits_below_its_end(mem_size: Option<usize>, size: u32)
    requires
        size <= initrd_end(mem_size),
    ensures
        ({
            let at = initrd_start(mem_size, size);
            &&& 0 <= at <= u32::MAX
            &&& at % 4096 == 0
            &&& at + size <= initrd_end(mem_size) < at + size + 4096
        }),
        mem_size matches Some(m) ==> {
            let low = if m < 0xc000_0000 {
                m as int
            } else {
                0xc000_0000
            };
            initrd_end(mem_size) == (if low > 0x2_8000 {
                low - 0x2_8000 - 1
            } else {
                0x1f00_0000
            })
        },
        mem_size is None ==> initrd_end(mem_size) == 0x1f00_0000,
{
}

} // verus!
