//! What the device holds, and what it becomes, as values.
use crate::devices::fw_cfg::boot::{
    KernelFile, SetupUpdate, FW_CFG_CMDLINE_LOAD_ADDR, FW_CFG_KERNEL_LOAD_ADDR,
    FW_CFG_SETUP_LOAD_ADDR,
};
use crate::devices::fw_cfg::content::{ContentView, FwCfgError, ItemView};
use vstd::prelude::*;

verus! {

pub const FW_CFG_SIGNATURE: u16 = 0x00;

pub const FW_CFG_ID: u16 = 0x01;

pub const FW_CFG_UUID: u16 = 0x02;

pub const FW_CFG_RAM_SIZE: u16 = 0x03;

pub const FW_CFG_NOGRAPHIC: u16 = 0x04;

pub const FW_CFG_NB_CPUS: u16 = 0x05;

pub const FW_CFG_KERNEL_ADDR: u16 = 0x07;

pub const FW_CFG_KERNEL_SIZE: u16 = 0x08;

pub const FW_CFG_INITRD_ADDR: u16 = 0x0a;

pub const FW_CFG_INITRD_SIZE: u16 = 0x0b;

pub const FW_CFG_BOOT_DEVICE: u16 = 0x0c;

pub const FW_CFG_NUMA: u16 = 0x0d;

pub const FW_CFG_BOOT_MENU: u16 = 0x0e;

pub const FW_CFG_MAX_CPUS: u16 = 0x0f;

pub const FW_CFG_KERNEL_ENTRY: u16 = 0x10;

pub const FW_CFG_KERNEL_DATA: u16 = 0x11;

pub const FW_CFG_INITRD_DATA: u16 = 0x12;

pub const FW_CFG_CMDLINE_ADDR: u16 = 0x13;

pub const FW_CFG_CMDLINE_SIZE: u16 = 0x14;

pub const FW_CFG_CMDLINE_DATA: u16 = 0x15;

pub const FW_CFG_SETUP_ADDR: u16 = 0x16;

pub const FW_CFG_SETUP_SIZE: u16 = 0x17;

pub const FW_CFG_SETUP_DATA: u16 = 0x18;

pub const FW_CFG_FILE_DIR: u16 = 0x19;

/// Number of selectors with a fixed meaning.
pub const FW_CFG_KNOWN_ITEMS: usize = 0x20;

/// Selector of the first file.
pub const FW_CFG_FILE_FIRST: u16 = 0x20;

/// The first selector that is specific to the architecture.
pub const FW_CFG_ACPI_TABLES: u16 = 0x8000;

pub const FW_CFG_IRQ0_OVERRIDE: u16 = 0x8002;

pub const FW_CFG_HPET: u16 = 0x8004;

/// The most files that selectors can be given to.
pub const MAX_FILES: usize = 0xffe0;

/// What the device holds, and the first error on the way there.
pub struct FwCfgState {
    pub items: Seq<ItemView>,
    pub known: Seq<ContentView>,
    pub error: Option<FwCfgError>,
}

/// Entry of a file in the directory: size, selector and name.
pub open spec fn dir_entry(index: int, item: ItemView) -> Seq<u8> {
    crate::bytes::u32_be(item.content.size() as u32) + crate::bytes::u16_be((0x20 + index) as u16)
        + seq![0u8, 0u8] + crate::devices::fw_cfg::names::file_name(item.name)
}

/// Entries of the first `n` files.
pub open spec fn dir_entries(items: Seq<ItemView>, n: nat) -> Seq<u8>
    decreases n,
{
    if n == 0 {
        Seq::empty()
    } else {
        dir_entries(items, (n - 1) as nat) + dir_entry(n - 1, items[n - 1])
    }
}

/// The directory: the number of files, then an entry for each.
pub open spec fn file_dir(items: Seq<ItemView>) -> Seq<u8> {
    crate::bytes::u32_be(items.len() as u32) + dir_entries(items, items.len())
}

/// Whether there is a file of a name.
pub open spec fn has_file(items: Seq<ItemView>, name: Seq<char>) -> bool {
    exists|i: int| 0 <= i < items.len() && (#[trigger] items[i]).name == name
}

/// Files are in the order of their names, no two of which are the same.
pub open spec fn sorted(items: Seq<ItemView>) -> bool {
    forall|i: int, j: int|
        0 <= i < j < items.len() ==> crate::devices::fw_cfg::names::name_before(
            (#[trigger] items[i]).name,
            (#[trigger] items[j]).name,
        )
}

/// The first file, from `i` on, that does not come before a name.
pub open spec fn place(items: Seq<ItemView>, name: Seq<char>, i: int) -> int
    decreases items.len() - i,
{
    if i < 0 || i >= items.len() {
        items.len() as int
    } else if crate::devices::fw_cfg::names::name_before(items[i].name, name) {
        place(items, name, i + 1)
    } else {
        i
    }
}

impl FwCfgState {
    /// With other files, and the directory that goes with them.
    pub open spec fn with_items(self, items: Seq<ItemView>) -> Self {
        FwCfgState {
            items,
            known: self.known.update(
                FW_CFG_FILE_DIR as int,
                ContentView::Data(file_dir(items)),
            ),
            error: self.error,
        }
    }

    /// With a file added in its place. One that is too large is refused, and so
    /// is a second one of its name.
    pub open spec fn add(self, item: ItemView) -> Self {
        if self.error is Some {
            self
        } else if item.content.size() > u32::MAX {
            FwCfgState { error: Some(FwCfgError::InvalidInput), ..self }
        } else if has_file(self.items, item.name) {
            FwCfgState { error: Some(FwCfgError::AlreadyExists), ..self }
        } else {
            self.with_items(self.items.insert(place(self.items, item.name, 0), item))
        }
    }

    /// With a file added unless there is one of its name.
    pub open spec fn add_if_missing(self, item: ItemView) -> Self {
        if has_file(self.items, item.name) {
            self
        } else {
            self.add(item)
        }
    }

    /// With the first `n` of several files added.
    pub open spec fn add_all(self, list: Seq<ItemView>, n: nat) -> Self
        decreases n,
    {
        if n == 0 {
            self
        } else {
            self.add_all(list, (n - 1) as nat).add(list[n - 1])
        }
    }

    /// With something else behind a selector.
    pub open spec fn set(self, selector: u16, content: ContentView) -> Self {
        if self.error is Some {
            self
        } else {
            FwCfgState { known: self.known.update(selector as int, content), ..self }
        }
    }

    /// Stopped by an error.
    pub open spec fn fail(self, error: FwCfgError) -> Self {
        if self.error is Some {
            self
        } else {
            FwCfgState { error: Some(error), ..self }
        }
    }

    /// With the boot parameters updated, if there are any.
    pub open spec fn update_setup(self, update: SetupUpdate) -> Self {
        match self.known[FW_CFG_SETUP_DATA as int] {
            ContentView::Data(b) => self.set(
                FW_CFG_SETUP_DATA,
                ContentView::Data(crate::devices::fw_cfg::boot::setup_updated(b, update)),
            ),
            _ => self,
        }
    }

    /// With the memory map.
    pub open spec fn add_e820(self, mem_size: usize) -> Self {
        self.add(
            crate::devices::fw_cfg::acpi_loader::memory_item(
                "etc/e820"@,
                crate::devices::fw_cfg::boot::e820_map(mem_size as int),
            ),
        )
    }

    /// With the option ROM that boots a kernel, if there is one, as the first
    /// thing to boot.
    pub open spec fn add_linuxboot(self, rom: Option<(u64, u64)>) -> Self {
        match rom {
            Some((file, len)) => self.add(
                ItemView {
                    name: "genroms/linuxboot_dma.bin"@,
                    content: ContentView::File { file, offset: 0, len },
                },
            ).add(
                crate::devices::fw_cfg::acpi_loader::memory_item(
                    "bootorder"@,
                    vstd::utf8::encode_utf8("/rom@genroms/linuxboot_dma.bin"@).push(0),
                ),
            ),
            None => self,
        }
    }

    /// With a kernel: its two parts and where they go, the image as a file, and
    /// the option ROM.
    pub open spec fn add_kernel(
        self,
        kernel: KernelFile,
        patch: bool,
        rom: Option<(u64, u64)>,
    ) -> Self {
        if !kernel.has_setup() {
            self.fail(FwCfgError::UnexpectedEof)
        } else {
            let setup = crate::devices::fw_cfg::boot::setup_data(kernel.prefix@, patch);
            let start = crate::devices::fw_cfg::boot::kernel_start(kernel.prefix@);
            self.set(FW_CFG_SETUP_ADDR, ContentView::Word(FW_CFG_SETUP_LOAD_ADDR)).set(
                FW_CFG_KERNEL_ADDR,
                ContentView::Word(FW_CFG_KERNEL_LOAD_ADDR),
            ).set(FW_CFG_SETUP_SIZE, ContentView::Word(setup.len() as u32)).set(
                FW_CFG_SETUP_DATA,
                ContentView::Data(setup),
            ).set(
                FW_CFG_KERNEL_SIZE,
                ContentView::Word((kernel.len as int % 0x1_0000_0000 - start) as u32),
            ).set(
                FW_CFG_KERNEL_DATA,
                ContentView::File { file: kernel.file, offset: start as u64, len: kernel.len },
            ).add(
                ItemView {
                    name: "etc/boot/kernel"@,
                    content: ContentView::File { file: kernel.file, offset: 0, len: kernel.len },
                },
            ).add_linuxboot(rom)
        }
    }

    /// With a command line, terminator included.
    pub open spec fn add_cmdline(self, bytes: Seq<u8>, patch: bool) -> Self {
        let s = self.set(FW_CFG_CMDLINE_ADDR, ContentView::Word(FW_CFG_CMDLINE_LOAD_ADDR));
        let s = if patch {
            s.update_setup(SetupUpdate::CommandLine(FW_CFG_CMDLINE_LOAD_ADDR))
        } else {
            s
        };
        s.set(
            FW_CFG_CMDLINE_SIZE,
            ContentView::Word((bytes.len() as int % 0x1_0000_0000) as u32),
        ).set(FW_CFG_CMDLINE_DATA, ContentView::Data(bytes))
    }

    /// With an initial file system.
    pub open spec fn add_initramfs(
        self,
        file: u64,
        len: u64,
        mem_size: Option<usize>,
        patch: bool,
    ) -> Self {
        let size = (len as int % 0x1_0000_0000) as u32;
        let addr = crate::devices::fw_cfg::boot::initrd_start(mem_size, size) as u32;
        let s = self.set(FW_CFG_INITRD_ADDR, ContentView::Word(addr));
        let s = if patch {
            s.update_setup(SetupUpdate::Ramdisk { image: addr, size })
        } else {
            s
        };
        s.set(FW_CFG_INITRD_SIZE, ContentView::Word(size)).set(
            FW_CFG_INITRD_DATA,
            ContentView::File { file, offset: 0, len },
        )
    }

    /// With the files that firmware expects on the platform, and an option ROM
    /// that may be absent.
    pub open spec fn add_compat(self, kvmvapic: Option<(u64, u64)>) -> Self {
        self.add_if_missing(
            crate::devices::fw_cfg::acpi_loader::memory_item("bios-geometry"@, Seq::empty()),
        ).add_if_missing(
            crate::devices::fw_cfg::acpi_loader::memory_item(
                "etc/boot-fail-wait"@,
                seq![0xffu8, 0xff, 0xff, 0xff],
            ),
        ).add_if_missing(
            crate::devices::fw_cfg::acpi_loader::memory_item(
                "etc/smbios/smbios-anchor"@,
                crate::devices::fw_cfg::smbios::smbios_anchor(),
            ),
        ).add_if_missing(
            crate::devices::fw_cfg::acpi_loader::memory_item(
                "etc/smbios/smbios-tables"@,
                crate::devices::fw_cfg::smbios::smbios_tables(),
            ),
        ).add_if_missing(
            crate::devices::fw_cfg::acpi_loader::memory_item("etc/smi/features-ok"@, seq![1u8]),
        ).add_if_missing(
            crate::devices::fw_cfg::acpi_loader::memory_item(
                "etc/smi/requested-features"@,
                crate::bytes::u64_le(0),
            ),
        ).add_if_missing(
            crate::devices::fw_cfg::acpi_loader::memory_item(
                "etc/smi/supported-features"@,
                crate::bytes::u64_le(7),
            ),
        ).add_if_missing(
            crate::devices::fw_cfg::acpi_loader::memory_item(
                "etc/system-states"@,
                seq![128u8, 0, 0, 129, 128, 128],
            ),
        ).add_if_missing(
            crate::devices::fw_cfg::acpi_loader::memory_item("etc/tpm/log"@, Seq::empty()),
        ).add_if_missing(
            ItemView {
                name: "genroms/kvmvapic.bin"@,
                content: match kvmvapic {
                    Some((file, len)) => ContentView::File { file, offset: 0, len },
                    None => ContentView::Data(Seq::empty()),
                },
            },
        )
    }
}

/// Once an error has come up, nothing is added any more.
pub broadcast proof fn adding_stops(s: FwCfgState, item: ItemView)
    requires
        s.error is Some,
    ensures
        (#[trigger] s.add(item)) == s,
{
}

/// Once an error has come up, nothing that is missing is added any more.
pub broadcast proof fn adding_missing_stops(s: FwCfgState, item: ItemView)
    requires
        s.error is Some,
    ensures
        (#[trigger] s.add_if_missing(item)) == s,
{
}

/// A file goes where the order of names puts it: all files before its place come
/// before it, all others after it.
pub proof fn place_is_in_order(items: Seq<ItemView>, name: Seq<char>)
    requires
        sorted(items),
        !has_file(items, name),
    ensures
        0 <= place(items, name, 0) <= items.len(),
        forall|i: int|
            0 <= i < place(items, name, 0) ==> crate::devices::fw_cfg::names::name_before(
                (#[trigger] items[i]).name,
                name,
            ),
        forall|i: int|
            place(items, name, 0) <= i < items.len() ==> crate::devices::fw_cfg::names::name_before(
                name,
                (#[trigger] items[i]).name,
            ),
{
    lemma_place(items, name, 0);
    let p = place(items, name, 0);
    if p < items.len() {
        crate::devices::fw_cfg::names::names_are_ordered(items[p].name, name);
        assert forall|i: int| p <= i < items.len() implies #[trigger]
        crate::devices::fw_cfg::names::name_before(name, items[i].name) by {
            if i > p {
                crate::devices::fw_cfg::names::names_are_transitive(
                    name,
                    items[p].name,
                    items[i].name,
                );
            }
        }
    }
}

proof fn lemma_place(items: Seq<ItemView>, name: Seq<char>, i: int)
    requires
        0 <= i <= items.len(),
    ensures
        i <= place(items, name, i) <= items.len(),
        forall|k: int|
            i <= k < place(items, name, i) ==> crate::devices::fw_cfg::names::name_before(
                (#[trigger] items[k]).name,
                name,
            ),
        place(items, name, i) < items.len() ==> !crate::devices::fw_cfg::names::name_before(
            items[place(items, name, i)].name,
            name,
        ),
    decreases items.len() - i,
{
    if i < items.len() && crate::devices::fw_cfg::names::name_before(items[i].name, name) {
        lemma_place(items, name, i + 1);
    }
}

/// Adding a file keeps the files sorted.
pub proof fn adding_keeps_order(items: Seq<ItemView>, item: ItemView)
    requires
        sorted(items),
        !has_file(items, item.name),
    ensures
        sorted(items.insert(place(items, item.name, 0), item)),
{
    place_is_in_order(items, item.name);
    let p = place(items, item.name, 0);
    let after = items.insert(p, item);
    assert forall|i: int, j: int| 0 <= i < j < after.len() implies #[trigger]
    crate::devices::fw_cfg::names::name_before(
        (#[trigger] after[i]).name,
        (#[trigger] after[j]).name,
    ) by {
        let old_i = if i < p {
            i
        } else {
            i - 1
        };
        let old_j = if j < p {
            j
        } else {
            j - 1
        };
        if i != p {
            assert(after[i] == items[old_i]);
        }
        if j != p {
            assert(after[j] == items[old_j]);
        }
    }
}

/// In sorted files no name occurs twice.
pub proof fn sorted_names_are_unique(items: Seq<ItemView>, i: int, j: int)
    requires
        sorted(items),
        0 <= i < items.len(),
        0 <= j < items.len(),
        items[i].name == items[j].name,
    ensures
        i == j,
{
    crate::devices::fw_cfg::names::names_are_ordered(items[i].name, items[j].name);
    if i < j {
        assert(crate::devices::fw_cfg::names::name_before(items[i].name, items[j].name));
    } else if j < i {
        assert(crate::devices::fw_cfg::names::name_before(items[j].name, items[i].name));
    }
}

/// Once a file was added, it is there.
pub proof fn added_file_is_there(s: FwCfgState, item: ItemView)
    requires
        s.error is None,
        sorted(s.items),
        s.add(item).error is None,
    ensures
        has_file(s.add(item).items, item.name),
        s.add(item).items[place(s.items, item.name, 0)] == item,
        s.add(item).add(item).error == Some(FwCfgError::AlreadyExists),
{
    place_is_in_order(s.items, item.name);
    let p = place(s.items, item.name, 0);
    assert(s.add(item).items[p] == item);
}

/// The directory has an entry of 64 bytes for each file, in the order of their
/// selectors.
pub proof fn directory_lists_every_file(items: Seq<ItemView>, i: int)
    requires
        0 <= i < items.len(),
    ensures
        file_dir(items).len() == 4 + 64 * items.len(),
        file_dir(items).subrange(4 + 64 * i, 4 + 64 * i + 64) == dir_entry(i, items[i]),
{
    lemma_dir_entries(items, items.len(), i);
    assert(file_dir(items).subrange(4 + 64 * i, 4 + 64 * i + 64) =~= dir_entries(
        items,
        items.len(),
    ).subrange(64 * i, 64 * i + 64));
}

proof fn lemma_dir_entries(items: Seq<ItemView>, n: nat, i: int)
    requires
        0 <= i < n <= items.len(),
    ensures
        dir_entries(items, n).len() == 64 * n,
        dir_entries(items, n).subrange(64 * i, 64 * i + 64) == dir_entry(i, items[i]),
    decreases n,
{
    let m = (n - 1) as nat;
    let last = dir_entry(n - 1, items[n - 1]);
    assert(last.len() == 64);
    if m == 0 {
        assert(dir_entries(items, 0).len() == 0);
        assert(dir_entries(items, n).subrange(64 * i, 64 * i + 64) =~= last);
    } else {
        lemma_dir_entries(
            items,
            m,
            if i < m {
                i
            } else {
                0
            },
        );
        if i < m {
            assert(dir_entries(items, n).subrange(64 * i, 64 * i + 64) =~= dir_entries(
                items,
                m,
            ).subrange(64 * i, 64 * i + 64));
        } else {
            assert(dir_entries(items, n).subrange(64 * i, 64 * i + 64) =~= last);
        }
    }
}

/// What is announced of a kernel fits what is handed over: the announced sizes
/// are those of the two parts, the second part begins in the image where the
/// first one ends, and the image is there as a file.
pub proof fn kernel_parts_fit_together(s: FwCfgState, kernel: KernelFile, patch: bool)
    requires
        s.error is None,
        s.known.len() == 32,
        kernel.wf(),
        kernel.has_setup(),
        kernel.len <= u32::MAX,
        !has_file(s.items, "etc/boot/kernel"@),
    ensures
        ({
            let r = s.add_kernel(kernel, patch, None);
            &&& r.error is None
            &&& has_file(r.items, "etc/boot/kernel"@)
            &&& r.known[0x18] is Data
            &&& r.known[0x17] == ContentView::Word(r.known[0x18].size() as u32)
            &&& r.known[0x11] == (ContentView::File {
                file: kernel.file,
                offset: r.known[0x18].size() as u64,
                len: kernel.len,
            })
            &&& r.known[0x08] == ContentView::Word(r.known[0x11].size() as u32)
            &&& r.known[0x18].size() + r.known[0x11].size() == kernel.len
            &&& r.known[0x07] == ContentView::Word(0x10_0000)
            &&& r.known[0x16] == ContentView::Word(0x1_0000)
        }),
{
    let start = crate::devices::fw_cfg::boot::kernel_start(kernel.prefix@);
    let setup = crate::devices::fw_cfg::boot::setup_data(kernel.prefix@, patch);
    assert(setup.len() == start && 0 <= start <= 0x2_0000) by {
        crate::devices::fw_cfg::boot::real_mode_part_is_the_beginning(kernel);
    }
    lemma_kernel_parts(s, kernel, setup, start, patch);
}

proof fn lemma_kernel_parts(
    s: FwCfgState,
    kernel: KernelFile,
    setup: Seq<u8>,
    start: int,
    patch: bool,
)
    requires
        s.error is None,
        s.known.len() == 32,
        kernel.has_setup(),
        setup == crate::devices::fw_cfg::boot::setup_data(kernel.prefix@, patch),
        start == crate::devices::fw_cfg::boot::kernel_start(kernel.prefix@),
        setup.len() == start,
        0 <= start <= 0x2_0000,
        start <= kernel.len <= u32::MAX,
        !has_file(s.items, "etc/boot/kernel"@),
    ensures
        ({
            let r = s.add_kernel(kernel, patch, None);
            &&& r.error is None
            &&& has_file(r.items, "etc/boot/kernel"@)
            &&& r.known[0x18] == ContentView::Data(setup)
            &&& r.known[0x17] == ContentView::Word(start as u32)
            &&& r.known[0x11] == (ContentView::File {
                file: kernel.file,
                offset: start as u64,
                len: kernel.len,
            })
            &&& r.known[0x08] == ContentView::Word((kernel.len - start) as u32)
            &&& r.known[0x07] == ContentView::Word(0x10_0000)
            &&& r.known[0x16] == ContentView::Word(0x1_0000)
        }),
{
    let item = ItemView {
        name: "etc/boot/kernel"@,
        content: ContentView::File { file: kernel.file, offset: 0, len: kernel.len },
    };
    let r = s.add_kernel(kernel, patch, None);
    let p = place(s.items, item.name, 0);
    lemma_place_bounds(s.items, item.name, 0);
    assert(r.items == s.items.insert(p, item));
    assert(r.items[p].name == item.name);
}

pub(crate) proof fn lemma_place_bounds(items: Seq<ItemView>, name: Seq<char>, i: int)
    requires
        0 <= i <= items.len(),
    ensures
        i <= place(items, name, i) <= items.len(),
    decreases items.len() - i,
{
    if i < items.len() {
        lemma_place_bounds(items, name, i + 1);
    }
}

/// Firmware and kernel are told the same of the command line: its length is
/// announced with it, and the boot parameters, if they are filled in, point at
/// the announced address.
pub proof fn command_line_is_announced(s: FwCfgState, bytes: Seq<u8>, patch: bool)
    requires
        s.error is None,
        s.known.len() == 32,
        bytes.len() <= u32::MAX,
    ensures
        ({
            let r = s.add_cmdline(bytes, patch);
            &&& r.error is None
            &&& r.items == s.items
            &&& r.known[0x15] == ContentView::Data(bytes)
            &&& r.known[0x14] == ContentView::Word(bytes.len() as u32)
            &&& r.known[0x13] == ContentView::Word(0x2_0000)
            &&& !patch ==> r.known[0x18] == s.known[0x18]
            &&& s.known[0x18] matches ContentView::Data(b) ==> patch && b.len() >= 4096 ==> {
                &&& r.known[0x18] is Data
                &&& r.known[0x18].size() == b.len()
                &&& r.known[0x13] == ContentView::Word(
                    crate::bytes::le32(r.known[0x18].bytes(), 0x228),
                )
            }
        }),
{
    if let ContentView::Data(b) = s.known[0x18] {
        if b.len() >= 4096 {
            lemma_setup_updated(b, SetupUpdate::CommandLine(0x2_0000));
        }
    }
}

proof fn lemma_setup_updated(b: Seq<u8>, update: SetupUpdate)
    requires
        b.len() >= 4096,
    ensures
        ({
            let u = crate::devices::fw_cfg::boot::setup_updated(b, update);
            &&& u.len() == b.len()
            &&& update matches SetupUpdate::CommandLine(at) ==> crate::bytes::le32(u, 0x228) == at
            &&& update matches SetupUpdate::Ramdisk { image, size } ==> crate::bytes::le32(u, 0x218)
                == image && crate::bytes::le32(u, 0x21c) == size
        }),
{
    let u = crate::devices::fw_cfg::boot::setup_updated(b, update);
    let head = b.take(4096);
    let h = crate::devices::fw_cfg::boot::header_of(head);
    let set = crate::devices::fw_cfg::boot::with_header(
        head,
        crate::devices::fw_cfg::boot::updated(h, update),
    );
    crate::devices::fw_cfg::boot::header_reads_back(
        head,
        crate::devices::fw_cfg::boot::updated(h, update),
    );
    assert(u == set + b.skip(4096));
    assert(crate::bytes::le32(u, 0x228) == crate::bytes::le32(set, 0x228));
    assert(crate::bytes::le32(u, 0x218) == crate::bytes::le32(set, 0x218));
    assert(crate::bytes::le32(u, 0x21c) == crate::bytes::le32(set, 0x21c));
}

/// Firmware and kernel are told the same of the initial file system: its length
/// is announced with it, it goes to a page below its end, and the boot
/// parameters, if they are filled in, say the same address and length.
pub proof fn initial_file_system_is_announced(
    s: FwCfgState,
    file: u64,
    len: u32,
    mem_size: Option<usize>,
    patch: bool,
)
    requires
        s.error is None,
        s.known.len() == 32,
        len <= crate::devices::fw_cfg::boot::initrd_end(mem_size),
    ensures
        ({
            let r = s.add_initramfs(file, len as u64, mem_size, patch);
            &&& r.error is None
            &&& r.items == s.items
            &&& r.known[0x12] == (ContentView::File { file, offset: 0, len: len as u64 })
            &&& r.known[0x0b] == ContentView::Word(len)
            &&& r.known[0x0a] matches ContentView::Word(at) && at % 4096 == 0 && at + len
                <= crate::devices::fw_cfg::boot::initrd_end(mem_size) < at + len + 4096
            &&& !patch ==> r.known[0x18] == s.known[0x18]
            &&& s.known[0x18] matches ContentView::Data(b) ==> patch && b.len() >= 4096 ==> {
                &&& r.known[0x18] is Data
                &&& r.known[0x18].size() == b.len()
                &&& r.known[0x0a] == ContentView::Word(
                    crate::bytes::le32(r.known[0x18].bytes(), 0x218),
                )
                &&& r.known[0x0b] == ContentView::Word(
                    crate::bytes::le32(r.known[0x18].bytes(), 0x21c),
                )
            }
        }),
{
    let at = crate::devices::fw_cfg::boot::initrd_start(mem_size, len) as u32;
    assert(at % 4096 == 0 && at + len <= crate::devices::fw_cfg::boot::initrd_end(mem_size) < at
        + len + 4096) by {
        crate::devices::fw_cfg::boot::file_system_fits_below_its_end(mem_size, len);
    }
    lemma_initramfs(s, file, len, mem_size, patch, at);
    if let ContentView::Data(b) = s.known[0x18] {
        if b.len() >= 4096 {
            lemma_setup_updated(b, SetupUpdate::Ramdisk { image: at, size: len });
        }
    }
}

proof fn lemma_initramfs(
    s: FwCfgState,
    file: u64,
    len: u32,
    mem_size: Option<usize>,
    patch: bool,
    at: u32,
)
    requires
        s.error is None,
        s.known.len() == 32,
        at == crate::devices::fw_cfg::boot::initrd_start(mem_size, len) as u32,
    ensures
        ({
            let r = s.add_initramfs(file, len as u64, mem_size, patch);
            &&& r.error is None
            &&& r.items == s.items
            &&& r.known[0x12] == (ContentView::File { file, offset: 0, len: len as u64 })
            &&& r.known[0x0b] == ContentView::Word(len)
            &&& r.known[0x0a] == ContentView::Word(at)
            &&& !patch || !(s.known[0x18] is Data) ==> r.known[0x18] == s.known[0x18]
            &&& s.known[0x18] matches ContentView::Data(b) ==> patch ==> r.known[0x18]
                == ContentView::Data(
                crate::devices::fw_cfg::boot::setup_updated(
                    b,
                    SetupUpdate::Ramdisk { image: at, size: len },
                ),
            )
        }),
{
    assert(len as u64 as int % 0x1_0000_0000 == len);
}

/// Firmware that reads the directory finds how many files there are, and for
/// each its size, the selector that it is behind, and its name.
pub proof fn directory_entries_read_back(items: Seq<ItemView>, i: int)
    requires
        0 <= i < items.len() <= MAX_FILES,
        0 <= items[i].content.size() <= u32::MAX,
    ensures
        ({
            let dir = file_dir(items);
            let at = 4 + 64 * i;
            &&& crate::bytes::be32(dir, 0) == items.len()
            &&& dir.len() == 4 + 64 * items.len()
            &&& crate::bytes::be32(dir, at) == items[i].content.size()
            &&& 0x100 * dir[at + 4] + dir[at + 5] == 0x20 + i
            &&& dir[at + 6] == 0 && dir[at + 7] == 0
            &&& dir.subrange(at + 8, at + 64) == crate::devices::fw_cfg::names::file_name(
                items[i].name,
            )
        }),
{
    directory_lists_every_file(items, i);
    let dir = file_dir(items);
    let at = 4 + 64 * i;
    let e = dir.subrange(at, at + 64);
    let size = crate::bytes::u32_be(items[i].content.size() as u32);
    let count = crate::bytes::u32_be(items.len() as u32);
    let name = crate::devices::fw_cfg::names::file_name(items[i].name);
    crate::bytes::round_trips(0, items[i].content.size() as u32, 0);
    crate::bytes::round_trips(0, items.len() as u32, 0);
    assert(crate::bytes::be32(dir, 0) == crate::bytes::be32(count, 0));
    assert(e == dir_entry(i, items[i]));
    assert(dir[at] == e[0] && dir[at + 1] == e[1] && dir[at + 2] == e[2] && dir[at + 3] == e[3]);
    assert(dir[at + 4] == e[4] && dir[at + 5] == e[5] && dir[at + 6] == e[6] && dir[at + 7] == e[7]);
    assert(crate::bytes::be32(dir, at) == crate::bytes::be32(size, 0));
    assert(dir.subrange(at + 8, at + 64) =~= name) by {
        assert forall|k: int| 0 <= k < 56 implies dir[at + 8 + k] == name[k] by {
            assert(dir[at + 8 + k] == e[8 + k]);
        }
    }
}

} // verus!
